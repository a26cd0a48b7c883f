use visage::frame::{to_preview, Frame, PREVIEW_MAX_EDGE};
use visage::preview::{assess, fit, sample, Legibility, Preview};

fn picture(w: u32, h: u32, fill: u8, is_dark: bool) -> Preview {
    Preview {
        width: w,
        height: h,
        data: vec![fill; (w * h) as usize],
        is_dark,
    }
}

fn gradient(w: u32, h: u32, is_dark: bool) -> Frame {
    // A horizontal gradient, so a downscale that samples nothing (or the same
    // pixel repeatedly) is distinguishable from one that works.
    let data = (0..(w as usize * h as usize))
        .map(|i| (i % w as usize) as u8)
        .collect();
    Frame {
        data,
        width: w,
        height: h,
        timestamp: 0,
        sequence: 0,
        is_dark,
    }
}

#[test]
fn an_empty_frame_is_no_signal_not_darkness() {
    // These are different things to tell a user. "Too dark" sends them looking
    // for a lamp; "waiting" tells them nothing is arriving.
    let mut f = picture(4, 4, 0, false);
    f.data.clear();
    assert_eq!(assess(&f), Legibility::NoSignal);
}

#[test]
fn preview_the_daemons_dark_verdict_is_honoured() {
    assert_eq!(assess(&picture(4, 4, 10, true)), Legibility::TooDark);
}

/// The case the daemon structurally cannot report.
#[test]
fn preview_saturation_is_detected_client_side() {
    let f = picture(4, 4, 250, false);
    assert!(!f.is_dark, "the daemon considers this frame fine");
    assert_eq!(assess(&f), Legibility::TooBright);
}

#[test]
fn preview_an_ordinary_frame_is_ok() {
    assert_eq!(assess(&picture(4, 4, 120, false)), Legibility::Usable);
}

#[test]
fn sampling_returns_exactly_the_requested_grid() {
    for (ow, oh) in [(1, 2), (7, 4), (160, 90), (3, 3)] {
        let got = sample(&picture(160, 90, 42, false), ow, oh);
        assert_eq!(got.len(), ow * oh, "{ow}x{oh}");
    }
}

/// Without this, every test above passes on a sampler returning zeros.
#[test]
fn sampling_reads_the_source() {
    let mut f = picture(8, 8, 0, false);
    for (i, px) in f.data.iter_mut().enumerate() {
        *px = (i % 8) as u8 * 30;
    }
    let out = sample(&f, 8, 8);
    let distinct: std::collections::HashSet<u8> = out.iter().copied().collect();
    assert!(
        distinct.len() > 1,
        "sampler produced a flat image: {distinct:?}"
    );
}

/// A short `data` is malformed input, not a reason to panic in a UI loop.
#[test]
fn a_truncated_frame_does_not_panic() {
    let mut f = picture(160, 90, 7, false);
    f.data.truncate(10);
    let out = sample(&f, 40, 20);
    assert_eq!(out.len(), 40 * 20);
}

#[test]
fn fit_preserves_aspect_and_stays_inside_the_cells() {
    let f = picture(160, 90, 0, false);
    let (w, h) = fit(&f, 80, 24);
    assert!(w <= 80, "width {w} overflows 80 cols");
    assert!(h <= 48, "height {h} overflows 24 rows of 2 pixels");
    assert_eq!(h % 2, 0, "height must be even so every cell has two pixels");
    let want = 160.0 / 90.0;
    let got = w as f32 / h as f32;
    assert!((got - want).abs() < 0.2, "aspect drifted: {got} vs {want}");
}

#[test]
fn fit_on_a_zero_sized_terminal_is_empty_not_a_panic() {
    assert_eq!(fit(&picture(160, 90, 0, false), 0, 0), (0, 0));
}

/// Pins the constant itself, with a literal: raising it is a decision about how
/// much biometric detail leaves the daemon.
#[test]
fn the_preview_size_cap_is_what_the_security_argument_assumes() {
    assert_eq!(PREVIEW_MAX_EDGE, 160);
}

#[test]
fn preview_never_exceeds_the_declared_maximum_edge() {
    for (w, h) in [
        (640, 480),
        (640, 360),
        (1280, 720),
        (1920, 1080),
        (320, 240),
    ] {
        let p = to_preview(&gradient(w, h, false));
        let longest = p.width.max(p.height) as usize;
        assert!(
            longest <= PREVIEW_MAX_EDGE,
            "{w}x{h} produced a {}x{} preview, longest edge {longest} > {PREVIEW_MAX_EDGE}",
            p.width,
            p.height
        );
    }
}

#[test]
fn data_length_matches_the_declared_dimensions() {
    // A client reading `width * height` bytes must not run off the end, and must
    // not silently render a truncated frame as if it were whole.
    for (w, h) in [(640, 480), (640, 360), (100, 80), (161, 161)] {
        let p = to_preview(&gradient(w, h, false));
        assert_eq!(
            p.data.len(),
            p.width as usize * p.height as usize,
            "{w}x{h}: data is {} bytes for a {}x{} frame",
            p.data.len(),
            p.width,
            p.height
        );
    }
}

#[test]
fn a_frame_already_small_enough_is_left_alone() {
    let src = gradient(100, 80, false);
    let p = to_preview(&src);
    assert_eq!((p.width, p.height), (100, 80));
    assert_eq!(p.data, src.data, "a no-op downscale altered the pixels");
}

/// Without this the tests above would pass on a downscaler that returned a
/// correctly-sized block of zeros.
#[test]
fn downscaling_actually_samples_the_source() {
    let p = to_preview(&gradient(640, 480, false));
    let distinct: std::collections::HashSet<u8> = p.data.iter().copied().collect();
    assert!(
        distinct.len() > 1,
        "every pixel is identical ({distinct:?}) — the downscale is not reading the source"
    );
}

#[test]
fn the_dark_verdict_survives_downscaling() {
    // The client renders "too dark" from this flag; losing it here would turn the
    // most useful feedback into a silently normal-looking frame.
    assert!(to_preview(&gradient(640, 480, true)).is_dark);
    assert!(!to_preview(&gradient(640, 480, false)).is_dark);
}

#[test]
fn downscaling_takes_every_step_th_pixel() {
    let p = to_preview(&gradient(640, 480, false));
    assert_eq!((p.width, p.height), (160, 120));
    assert_eq!(p.data[1], 4);
    assert_eq!(p.data[160 + 2], 8);
    let odd = to_preview(&gradient(161, 161, false));
    assert_eq!((odd.width, odd.height), (80, 80));
}

#[test]
fn verdicts_follow_their_order_and_their_threshold() {
    assert_eq!(assess(&picture(4, 4, 199, false)), Legibility::Usable);
    assert_eq!(assess(&picture(4, 4, 200, false)), Legibility::TooBright);
    assert_eq!(assess(&picture(4, 4, 250, true)), Legibility::TooDark);
    let mut flat = picture(4, 4, 120, true);
    flat.width = 0;
    assert_eq!(assess(&flat), Legibility::NoSignal);
    assert_eq!(Legibility::NoSignal.advice(), "waiting for the camera…");
    assert_eq!(
        Legibility::TooDark.advice(),
        "too dark — more light, or move closer"
    );
    assert_eq!(
        Legibility::TooBright.advice(),
        "washed out — move back from the camera"
    );
    assert_eq!(Legibility::Usable.advice(), "looking good — hold still");
}

#[test]
fn the_mean_is_cut_to_a_whole_number() {
    let f = Preview {
        width: 2,
        height: 1,
        data: vec![199, 200],
        is_dark: false,
    };
    assert_eq!(assess(&f), Legibility::Usable);
}

#[test]
fn sampling_is_nearest_neighbour_and_black_outside() {
    let f = Preview {
        width: 4,
        height: 2,
        data: vec![1, 2, 3, 4, 5, 6],
        is_dark: false,
    };
    assert_eq!(sample(&f, 2, 2), vec![1, 3, 5, 0]);
    assert_eq!(sample(&f, 8, 1), vec![1, 1, 2, 2, 3, 3, 4, 4]);
    let mut empty = f.clone();
    empty.data.clear();
    assert_eq!(sample(&empty, 3, 3), vec![0; 9]);
    assert_eq!(sample(&empty, 40, 20).len(), 800);
    assert_eq!(sample(&f, 0, 3), Vec::<u8>::new());
}

/// The same computation in single precision.
fn fit_in_floats(f: &Preview, cols: u16, rows: u16) -> (usize, usize) {
    if cols == 0 || rows == 0 || f.width == 0 || f.height == 0 {
        return (0, 0);
    }
    let (fw, fh) = (f.width as f32, f.height as f32);
    let (max_w, max_h) = (cols as f32, rows as f32 * 2.0);
    let scale = (max_w / fw).min(max_h / fh);
    let w = (fw * scale).floor().max(1.0) as usize;
    let h = ((fh * scale).floor().max(2.0) as usize) & !1;
    (w, h.max(2))
}

#[test]
fn fitting_agrees_with_single_precision() {
    let edges: [u32; 17] = [
        1, 2, 3, 7, 90, 120, 160, 161, 333, 640, 1080, 4096, 65_537, 16_777_215, 16_777_217,
        123_456_789, 4_294_967_295,
    ];
    let cells: [u16; 9] = [1, 2, 3, 24, 79, 80, 213, 1000, 65_535];
    let mut f = picture(1, 1, 0, false);
    for w in edges {
        for h in edges {
            f.width = w;
            f.height = h;
            for cols in cells {
                for rows in cells {
                    let got = fit(&f, cols, rows);
                    assert_eq!(
                        got,
                        fit_in_floats(&f, cols, rows),
                        "{w}x{h} in {cols}x{rows}"
                    );
                    assert!(got.0 <= cols as usize && got.1 <= 2 * rows as usize);
                }
            }
        }
    }
}

#[test]
fn fitting_is_exact_on_a_known_terminal() {
    assert_eq!(fit(&picture(160, 90, 0, false), 80, 24), (80, 44));
    assert_eq!(fit(&picture(0, 90, 0, false), 80, 24), (0, 0));
}

#[test]
fn a_malformed_frame_is_no_signal() {
    let short = Preview {
        width: 4,
        height: 4,
        data: vec![120; 3],
        is_dark: false,
    };
    assert_eq!(assess(&short), Legibility::NoSignal);
    let mut dark = picture(4, 4, 10, true);
    dark.data.pop();
    assert_eq!(assess(&dark), Legibility::NoSignal);
    let mut long = picture(4, 4, 120, false);
    long.data.push(120);
    assert_eq!(assess(&long), Legibility::Usable);
}

#[test]
fn enlarging_and_sampling_back_loses_nothing() {
    let f = Preview {
        width: 3,
        height: 2,
        data: vec![1, 2, 3, 4, 5, 6],
        is_dark: false,
    };
    for k in 1..6usize {
        let g = Preview {
            width: 3 * k as u32,
            height: 2 * k as u32,
            data: sample(&f, 3 * k, 2 * k),
            is_dark: false,
        };
        assert_eq!(sample(&g, 3, 2), f.data, "factor {k}");
    }
}

#[test]
fn fitting_keeps_the_aspect_and_fills_the_cells() {
    let mut f = picture(1, 1, 0, false);
    for (w, h) in [(160u32, 90u32), (90, 160), (640, 480), (1, 1), (3, 1000), (5000, 7)] {
        f.width = w;
        f.height = h;
        for cols in [1u16, 7, 80, 213] {
            for rows in [1u16, 5, 24, 100] {
                let (fw, fh) = fit(&f, cols, rows);
                let (w, h) = (w as usize, h as usize);
                assert!(fw == 1 || fw * h <= (fh + 3) * w, "{w}x{h} in {cols}x{rows}");
                assert!(fh == 2 || fh * w <= (fw + 2) * h, "{w}x{h} in {cols}x{rows}");
                assert!(fw + 1 >= cols as usize || fh + 2 >= 2 * rows as usize);
            }
        }
    }
}
