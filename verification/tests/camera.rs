use visage::camera::{
    pixel_format, Camera, CameraError, Capabilities, FormatCheck, FourCc, OpenRun, OpenStep,
    PixelFormat, VideoFormat,
};
use visage::capture::{CaptureRun, CaptureStep};
use visage::devices::{node_number, video_nodes, DeviceProbe};
use visage::frame::to_preview;

fn code(text: &[u8; 4]) -> FourCc {
    FourCc {
        a: text[0],
        b: text[1],
        c: text[2],
        d: text[3],
    }
}

fn format(text: &[u8; 4], width: u32, height: u32) -> VideoFormat {
    VideoFormat {
        fourcc: code(text),
        width,
        height,
    }
}

fn camera(pixel_format: PixelFormat, width: u32, height: u32) -> Camera {
    Camera {
        width,
        height,
        device_path: "/dev/video2".to_string(),
        fourcc: match pixel_format {
            PixelFormat::Grey => code(b"GREY"),
            PixelFormat::Yuyv => code(b"YUYV"),
            PixelFormat::Y16 => code(b"Y16 "),
        },
        pixel_format,
    }
}

fn failure(run: OpenRun) -> CameraError {
    match run.step {
        OpenStep::Finished(Err(e)) => e,
        step => panic!("not a failure: {step:?}"),
    }
}

fn opened() -> OpenRun {
    let mut run = Camera::open("/dev/video2");
    assert!(matches!(run.step, OpenStep::CheckPath));
    run.path_checked(true);
    run.device_opened(Ok(()));
    run.capabilities_queried(Ok(0x0520_0001));
    run.format_read(Ok(()));
    run
}

#[test]
fn opening_asks_for_the_common_ir_format() {
    let mut run = opened();
    match &run.step {
        OpenStep::ApplyFormat(f) => assert_eq!(*f, format(b"YUYV", 640, 360)),
        step => panic!("{step:?}"),
    }
    run.format_applied(Ok(format(b"GREY", 640, 480)));
    match run.step {
        OpenStep::Finished(Ok(camera)) => {
            assert_eq!((camera.width, camera.height), (640, 480));
            assert_eq!(camera.device_path, "/dev/video2");
            assert_eq!(camera.pixel_format, PixelFormat::Grey);
            assert_eq!(camera.format(), format(b"GREY", 640, 480));
        }
        step => panic!("{step:?}"),
    }
}

#[test]
fn opening_fails_for_a_reason() {
    let mut run = Camera::open("/dev/video9");
    run.path_checked(false);
    assert_eq!(failure(run).message(), "device not found: /dev/video9");

    for text in ["Device or resource busy", "EBUSY: try later"] {
        let mut run = Camera::open("/dev/video2");
        run.path_checked(true);
        run.device_opened(Err(text.to_string()));
        assert!(matches!(failure(run), CameraError::DeviceBusy));
    }

    let mut run = Camera::open("/dev/video2");
    run.path_checked(true);
    run.device_opened(Err("denied".to_string()));
    assert_eq!(
        failure(run).message(),
        "device not found: /dev/video2: denied"
    );

    let mut run = Camera::open("/dev/video2");
    run.path_checked(true);
    run.device_opened(Ok(()));
    run.capabilities_queried(Err("eio".to_string()));
    assert_eq!(
        failure(run).message(),
        "capture failed: failed to query capabilities: eio"
    );

    let mut run = Camera::open("/dev/video2");
    run.path_checked(true);
    run.device_opened(Ok(()));
    run.capabilities_queried(Ok(0x0520_0002));
    assert_eq!(failure(run).message(), "streaming not supported");

    let mut run = Camera::open("/dev/video2");
    run.path_checked(true);
    run.device_opened(Ok(()));
    run.capabilities_queried(Ok(1));
    run.format_read(Err("eio".to_string()));
    assert_eq!(
        failure(run).message(),
        "format negotiation failed: failed to get format: eio"
    );

    let mut run = opened();
    run.format_applied(Err("einval".to_string()));
    assert_eq!(
        failure(run).message(),
        "format negotiation failed: failed to set format: einval"
    );

    let mut run = opened();
    run.format_applied(Ok(format(b"MJPG", 640, 360)));
    assert_eq!(
        failure(run).message(),
        "format negotiation failed: unsupported pixel format: \
         FourCC { repr: [77, 74, 80, 71] } (need YUYV, GREY, or Y16)"
    );
    assert_eq!(CameraError::DeviceBusy.message(), "device busy");
}

#[test]
fn codes_stand_for_formats() {
    assert_eq!(pixel_format(code(b"GREY")), Some(PixelFormat::Grey));
    assert_eq!(pixel_format(code(b"YUYV")), Some(PixelFormat::Yuyv));
    assert_eq!(pixel_format(code(b"Y16 ")), Some(PixelFormat::Y16));
    assert_eq!(pixel_format(code(b"Y16\0")), Some(PixelFormat::Y16));
    assert_eq!(pixel_format(code(b"Y16x")), None);
}

#[test]
fn a_drifted_format_is_reasserted() {
    let c = camera(PixelFormat::Grey, 640, 360);
    assert!(matches!(
        c.reassert_format(Ok(c.format())),
        FormatCheck::Ready
    ));
    match c.reassert_format(Ok(format(b"MJPG", 1280, 720))) {
        FormatCheck::Reassert(f) => assert_eq!(f, c.format()),
        check => panic!("{check:?}"),
    }
    match c.reassert_format(Err("eio".to_string())) {
        FormatCheck::Failed(e) => assert_eq!(
            e.message(),
            "capture failed: failed to query current format: eio"
        ),
        check => panic!("{check:?}"),
    }
    assert!(c.format_reasserted(Ok(c.format())).is_ok());
    assert!(matches!(
        c.format_reasserted(Err("resource busy".to_string())),
        Err(CameraError::DeviceBusy)
    ));
    assert_eq!(
        c.format_reasserted(Err("einval".to_string()))
            .unwrap_err()
            .message(),
        "format negotiation failed: failed to re-assert format: einval"
    );
    assert_eq!(
        c.format_reasserted(Ok(format(b"GREY", 320, 240)))
            .unwrap_err()
            .message(),
        "format negotiation failed: re-assert negotiated \
         FourCC { repr: [71, 82, 69, 89] } 320x240, \
         expected FourCC { repr: [71, 82, 69, 89] } 640x360"
    );
}

#[test]
fn buffers_become_grayscale() {
    let grey = camera(PixelFormat::Grey, 2, 1);
    assert_eq!(grey.buf_to_grayscale(&[7, 8, 9]).unwrap(), vec![7, 8]);
    assert_eq!(
        grey.buf_to_grayscale(&[7]).unwrap_err().message(),
        "capture failed: GREY buffer too short: expected 2, got 1"
    );
    let y16 = camera(PixelFormat::Y16, 2, 1);
    assert_eq!(
        y16.buf_to_grayscale(&[0xff, 0x12, 0x00, 0x34]).unwrap(),
        vec![0x12, 0x34]
    );
    assert_eq!(
        y16.buf_to_grayscale(&[1, 2, 3]).unwrap_err().message(),
        "capture failed: Y16 buffer too short: expected 4, got 3"
    );
    let yuyv = camera(PixelFormat::Yuyv, 2, 1);
    assert_eq!(
        yuyv.buf_to_grayscale(&[10, 128, 20, 128]).unwrap(),
        vec![10, 20]
    );
    assert!(yuyv.buf_to_grayscale(&[10]).is_err());
}

fn streaming(mut run: CaptureRun, c: &Camera) -> CaptureRun {
    assert!(matches!(run.step(), CaptureStep::ReadFormat));
    run.format_read(Ok(c.format()));
    assert!(matches!(run.step(), CaptureStep::OpenStream));
    run.stream_opened(Ok(()));
    run
}

#[test]
fn a_counted_capture_skips_dark_frames_but_shows_them() {
    let c = camera(PixelFormat::Grey, 2, 1);
    let mut run = streaming(c.capture_frames(1), &c);
    assert!(matches!(run.step(), CaptureStep::Dequeue));
    let gray = run.dequeued(&[1, 2]).unwrap();
    let dark = run.judged_dark(gray, 4, 10);
    assert!(dark.is_dark);
    assert_eq!((dark.sequence, dark.timestamp), (4, 10));
    assert_eq!(dark.data, vec![1, 2]);
    assert_eq!(run.dark_frames(), 1);
    assert!(matches!(run.step(), CaptureStep::Dequeue));
    let gray = run.dequeued(&[100, 200]).unwrap();
    assert_eq!(gray, vec![100, 200]);
    let frame = run.judged_usable(vec![101, 201], 5, 20);
    assert!(matches!(run.step(), CaptureStep::Retain));
    assert!(!frame.is_dark);
    assert_eq!(to_preview(&frame).data, vec![101, 201]);
    run.retain(frame);
    assert!(matches!(run.step(), CaptureStep::Complete));
    let (frames, skipped) = run.finish().unwrap();
    assert_eq!(skipped, 1);
    assert_eq!(frames.len(), 1);
    assert_eq!(frames[0].data, vec![101, 201]);
}

#[test]
fn a_counted_capture_gives_up_after_three_attempts_per_frame() {
    let c = camera(PixelFormat::Grey, 1, 1);
    let mut run = streaming(c.capture_frames_observed(2), &c);
    let mut attempts = 0;
    while matches!(run.step(), CaptureStep::Dequeue) {
        attempts += 1;
        let gray = run.dequeued(&[0]).unwrap();
        run.judged_dark(gray, 0, 0);
    }
    assert_eq!(attempts, 6);
    let (frames, skipped) = run.finish().unwrap();
    assert!(frames.is_empty());
    assert_eq!(skipped, 6);

    let run = streaming(c.capture_frames(0), &c);
    assert!(matches!(run.step(), CaptureStep::Complete));
}

#[test]
fn framing_keeps_nothing_and_stops_at_its_deadline() {
    let c = camera(PixelFormat::Grey, 1, 1);
    let mut run = streaming(c.stream_frames_for(), &c);
    for _ in 0..5 {
        assert!(matches!(run.step(), CaptureStep::CheckClock));
        run.clock_checked(false);
        let gray = run.dequeued(&[90]).unwrap();
        let frame = run.judged_usable(gray, 0, 0);
        run.retain(frame);
    }
    run.clock_checked(false);
    let gray = run.dequeued(&[0]).unwrap();
    run.judged_dark(gray, 0, 0);
    run.clock_checked(true);
    let (frames, skipped) = run.finish().unwrap();
    assert!(frames.is_empty());
    assert_eq!(skipped, 1);
}

#[test]
fn captures_fail_for_a_reason() {
    let c = camera(PixelFormat::Grey, 2, 1);
    let mut run = c.capture_frames(1);
    run.format_read(Err("eio".to_string()));
    assert_eq!(
        run.finish().unwrap_err().message(),
        "capture failed: failed to query current format: eio"
    );

    let mut run = c.capture_frames(1);
    run.format_read(Ok(format(b"MJPG", 2, 1)));
    match run.step() {
        CaptureStep::ApplyFormat(f) => assert_eq!(*f, c.format()),
        step => panic!("{step:?}"),
    }
    run.format_applied(Err("busy".to_string()));
    assert!(matches!(run.finish(), Err(CameraError::DeviceBusy)));

    let mut run = c.capture_frames(1);
    run.format_read(Ok(c.format()));
    run.stream_opened(Err("enomem".to_string()));
    assert_eq!(
        run.finish().unwrap_err().message(),
        "capture failed: failed to create mmap stream: enomem"
    );

    let mut run = streaming(c.capture_frames(1), &c);
    run.dequeue_failed("eio");
    assert_eq!(
        run.finish().unwrap_err().message(),
        "capture failed: failed to dequeue buffer: eio"
    );

    let mut run = streaming(c.capture_frames(1), &c);
    assert!(run.dequeued(&[1]).is_none());
    assert_eq!(
        run.finish().unwrap_err().message(),
        "capture failed: GREY buffer too short: expected 2, got 1"
    );
}

#[test]
fn a_single_frame_is_taken_as_it_is() {
    let c = camera(PixelFormat::Y16, 1, 1);
    let mut run = c.capture_frame();
    run.format_read(Ok(format(b"GREY", 1, 1)));
    assert!(matches!(run.step(), CaptureStep::ApplyFormat(_)));
    run.format_applied(Ok(c.format()));
    run.stream_opened(Ok(()));
    let gray = run.dequeued(&[3, 5]).unwrap();
    let frame = run.judged(gray, true, 8, 9);
    assert_eq!(frame.data, vec![5]);
    assert!(frame.is_dark);
    assert_eq!((frame.sequence, frame.timestamp), (8, 9));

    let mut run = c.capture_frame();
    run.format_read(Ok(c.format()));
    run.stream_opened(Ok(()));
    run.dequeue_failed("eio");
    assert_eq!(
        run.failure().unwrap().message(),
        "capture failed: failed to dequeue buffer: eio"
    );
}

fn capabilities(card: &str, flags: u32) -> DeviceProbe {
    DeviceProbe::Answered(Capabilities {
        driver: "uvcvideo".to_string(),
        card: card.to_string(),
        bus: "usb-1".to_string(),
        flags,
    })
}

#[test]
fn a_scan_lists_the_capture_devices() {
    let nodes = vec![0, 1, 2, 3, 5, 15, 16, 100];
    let mut scan = Camera::list_devices(nodes.clone());
    let mut i = 0;
    while let Some(path) = scan.next_path() {
        assert_eq!(path, format!("/dev/video{}", nodes[i]));
        scan.probed(match nodes[i] {
            0 => DeviceProbe::Unopenable,
            1 => capabilities("ir", 0x0000_0001),
            2 => capabilities("metadata", 0x0080_0000),
            3 => DeviceProbe::Unreadable,
            15 | 16 | 100 => capabilities("rgb", 0x0020_0001),
            _ => DeviceProbe::Absent,
        });
        i += 1;
    }
    assert_eq!(i, 8);
    let devices = scan.finish();
    let paths: Vec<&str> = devices.iter().map(|d| d.path.as_str()).collect();
    assert_eq!(
        paths,
        vec!["/dev/video1", "/dev/video15", "/dev/video16", "/dev/video100"]
    );
    let first = devices[0].clone();
    assert_eq!(first.path, "/dev/video1");
    assert_eq!(first.name, "ir");
    assert_eq!(first.driver, "uvcvideo");
    assert_eq!(first.bus, "usb-1");
    assert!(Camera::list_devices(Vec::new()).next_path().is_none());
}

#[test]
fn nodes_are_found_by_their_names() {
    assert_eq!(node_number("video0"), Some(0));
    assert_eq!(node_number("video4294967295"), Some(u32::MAX));
    for name in [
        "video",
        "video4294967296",
        "video99999999999999999999999",
        "video07",
        "video1x",
        "Video1",
        "vide",
        "v4l-subdev0",
        "",
    ] {
        assert_eq!(node_number(name), None, "{name}");
    }
    let names: Vec<String> = ["video10", "null", "video2", "video10", "video0", "vbi3"]
        .iter()
        .map(|n| n.to_string())
        .collect();
    assert_eq!(video_nodes(&names), vec![0, 2, 10]);
}

#[test]
fn observing_a_capture_changes_nothing() {
    let c = camera(PixelFormat::Y16, 1, 1);
    let mut plain = streaming(c.capture_frames(2), &c);
    let mut observed = streaming(c.capture_frames_observed(2), &c);
    let mut seen = Vec::new();
    for high in [0u8, 90, 1, 120] {
        for run in [&mut plain, &mut observed] {
            let gray = run.dequeued(&[7, high]).unwrap();
            assert_eq!(gray, vec![high]);
            if high < 32 {
                seen.push(run.judged_dark(gray, u32::from(high), 3));
            } else {
                let frame = run.judged_usable(vec![high + 1], u32::from(high), 3);
                run.retain(frame);
            }
        }
    }
    assert!(seen.iter().all(|f| f.is_dark && f.data[0] < 32));
    assert!(matches!(observed.step(), CaptureStep::Complete));
    let (kept, dark) = plain.finish().unwrap();
    let (kept_too, dark_too) = observed.finish().unwrap();
    assert_eq!((kept.len(), dark), (2, 2));
    assert_eq!((kept_too.len(), dark_too), (2, 2));
    for (a, b) in kept.iter().zip(&kept_too) {
        assert_eq!(a.data, b.data);
        assert_eq!(a.data.len(), 1);
        assert_eq!(to_preview(a).data, a.data);
    }
}
