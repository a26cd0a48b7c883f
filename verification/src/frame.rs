//! Captured frames, and the small previews that may leave the engine.
use vstd::prelude::*;

verus! {

/// A captured grayscale frame.
#[derive(Debug)]
pub struct Frame {
    /// 8-bit grayscale, row-major.
    pub data: Vec<u8>,
    pub width: u32,
    pub height: u32,
    /// When the frame was taken off the stream, in nanoseconds of the caller's
    /// monotonic clock.
    pub timestamp: u64,
    /// The driver's sequence number.
    pub sequence: u32,
    /// The capture loop judged this frame too dark to use.
    pub is_dark: bool,
}

/// What a frame holds.
pub ghost struct FrameModel {
    pub data: Seq<u8>,
    pub width: u32,
    pub height: u32,
    pub timestamp: u64,
    pub sequence: u32,
    pub is_dark: bool,
}

impl View for Frame {
    type V = FrameModel;

    open spec fn view(&self) -> FrameModel {
        FrameModel {
            data: self.data@,
            width: self.width,
            height: self.height,
            timestamp: self.timestamp,
            sequence: self.sequence,
            is_dark: self.is_dark,
        }
    }
}

/// Longest edge of an emitted preview frame, in pixels.
///
/// Enough to see whether a face is centred, lit and in frame, and deliberately
/// not enough to be a useful biometric capture. Raising it is a decision about
/// how much biometric detail leaves the engine.
pub const PREVIEW_MAX_EDGE: usize = 160;

/// A downscaled grayscale frame, emitted during enrollment so the client can
/// show the user what the camera is seeing.
#[derive(Debug)]
pub struct PreviewFrame {
    pub width: u32,
    pub height: u32,
    /// 8-bit grayscale, row-major, `width * height` bytes.
    pub data: Vec<u8>,
    /// The capture loop judged this frame too dark to use. It is emitted
    /// anyway: "too dark" is the most actionable thing a user can be told.
    pub is_dark: bool,
}

impl Clone for PreviewFrame {
    fn clone(&self) -> (copy: Self)
        ensures
            copy.width == self.width,
            copy.height == self.height,
            copy.data@ == self.data@,
            copy.is_dark == self.is_dark,
    {
        let data: Vec<u8> = self.data.clone();
        proof {
            assert(data@ =~= self.data@);
        }
        PreviewFrame { width: self.width, height: self.height, data, is_dark: self.is_dark }
    }
}

/// The longer of two edges.
pub open spec fn longest_edge(width: u32, height: u32) -> nat {
    if width >= height {
        width as nat
    } else {
        height as nat
    }
}

/// The whole factor by which a frame is reduced: the least one that brings its
/// longest edge down to [`PREVIEW_MAX_EDGE`], and one for smaller frames.
pub open spec fn preview_factor(width: u32, height: u32) -> nat {
    let longest = longest_edge(width, height);
    if longest > PREVIEW_MAX_EDGE {
        (longest + PREVIEW_MAX_EDGE - 1) as nat / PREVIEW_MAX_EDGE as nat
    } else {
        1
    }
}

/// The edge of a preview for an edge of the frame.
pub open spec fn preview_edge(edge: u32, factor: nat) -> nat {
    edge as nat / factor
}

/// Where in the frame the pixel at column `x` of row `y` of a preview comes from.
pub open spec fn preview_source(x: int, y: int, width: u32, factor: nat) -> int {
    (y * factor) * width + x * factor
}

/// The frame reaches as far as its preview reads.
pub open spec fn covers_preview(frame: FrameModel) -> bool {
    let factor = preview_factor(frame.width, frame.height);
    let ow = preview_edge(frame.width, factor);
    let oh = preview_edge(frame.height, factor);
    ow > 0 && oh > 0 ==> preview_source(ow - 1, oh - 1, frame.width, factor) < frame.data.len()
}

/// The pixels of the preview of a frame, row by row.
pub open spec fn preview_pixels(frame: FrameModel) -> Seq<u8> {
    let factor = preview_factor(frame.width, frame.height);
    let ow = preview_edge(frame.width, factor);
    let oh = preview_edge(frame.height, factor);
    Seq::new(
        ow * oh,
        |i: int| frame.data[preview_source(i % ow as int, i / ow as int, frame.width, factor)],
    )
}

/// The reduction factor is positive, and large enough.
proof fn lemma_preview_factor(width: u32, height: u32)
    ensures
        1 <= preview_factor(width, height) <= u32::MAX,
        preview_edge(width, preview_factor(width, height)) <= PREVIEW_MAX_EDGE,
        preview_edge(height, preview_factor(width, height)) <= PREVIEW_MAX_EDGE,
{
    let f = preview_factor(width, height);
    let longest = longest_edge(width, height);
    assert(longest <= PREVIEW_MAX_EDGE * f);
    lemma_edge_bound(width as nat, f);
    lemma_edge_bound(height as nat, f);
}

/// An edge of at most 160 steps of `factor` gives at most 160 pixels.
proof fn lemma_edge_bound(edge: nat, factor: nat)
    requires
        factor >= 1,
        edge <= PREVIEW_MAX_EDGE * factor,
    ensures
        edge / factor <= PREVIEW_MAX_EDGE,
{
    assert(edge / factor <= PREVIEW_MAX_EDGE) by (nonlinear_arith)
        requires
            factor >= 1,
            edge <= PREVIEW_MAX_EDGE * factor,
    ;
}

/// Sources grow along the rows and along the columns of a preview.
proof fn lemma_source_monotone(x: int, y: int, ow: int, oh: int, width: u32, factor: nat)
    requires
        0 <= x < ow,
        0 <= y < oh,
    ensures
        0 <= preview_source(x, y, width, factor) <= preview_source(ow - 1, oh - 1, width, factor),
        0 <= (y * factor) * width,
        0 <= x * factor,
{
    let f = factor as int;
    let w = width as int;
    assert(0 <= y * f <= (oh - 1) * f) by (nonlinear_arith)
        requires
            0 <= y < oh,
            f >= 0,
    ;
    assert(0 <= x * f <= (ow - 1) * f) by (nonlinear_arith)
        requires
            0 <= x < ow,
            f >= 0,
    ;
    assert(0 <= (y * f) * w <= ((oh - 1) * f) * w) by (nonlinear_arith)
        requires
            0 <= y * f <= (oh - 1) * f,
            w >= 0,
    ;
}

/// Nearest-neighbour downscale to [`PREVIEW_MAX_EDGE`] on the longest edge.
pub fn to_preview(frame: &Frame) -> (preview: PreviewFrame)
    requires
        covers_preview(frame@),
    ensures
        preview.width == preview_edge(frame.width, preview_factor(frame.width, frame.height)),
        preview.height == preview_edge(frame.height, preview_factor(frame.width, frame.height)),
        preview.data@ == preview_pixels(frame@),
        preview.is_dark == frame.is_dark,
        preview.width <= PREVIEW_MAX_EDGE,
        preview.height <= PREVIEW_MAX_EDGE,
        preview.data@.len() == preview.width * preview.height,
{
    let longest: u32 = if frame.width >= frame.height {
        frame.width
    } else {
        frame.height
    };
    let edge: u64 = PREVIEW_MAX_EDGE as u64;
    let scale: u64 = if longest as u64 > edge {
        (longest as u64 + edge - 1) / edge
    } else {
        1
    };
    proof {
        lemma_preview_factor(frame.width, frame.height);
    }
    let ghost factor = preview_factor(frame.width, frame.height);
    let ow: u64 = frame.width as u64 / scale;
    let oh: u64 = frame.height as u64 / scale;
    let ghost goal = preview_pixels(frame@);
    proof {
        assert(0 <= ow * oh <= 160 * 160) by (nonlinear_arith)
            requires
                0 <= ow <= 160,
                0 <= oh <= 160,
        ;
    }
    let mut data: Vec<u8> = Vec::with_capacity((ow * oh) as usize);
    let mut y: u64 = 0;
    while y < oh
        invariant
            scale == factor,
            factor == preview_factor(frame.width, frame.height),
            1 <= factor <= u32::MAX,
            ow == preview_edge(frame.width, factor),
            oh == preview_edge(frame.height, factor),
            ow <= PREVIEW_MAX_EDGE,
            oh <= PREVIEW_MAX_EDGE,
            goal == preview_pixels(frame@),
            covers_preview(frame@),
            0 <= y <= oh,
            data@.len() == y * ow,
            forall|i: int| 0 <= i < data@.len() ==> data@[i] == goal[i],
        decreases oh - y,
    {
        let mut x: u64 = 0;
        while x < ow
            invariant
                scale == factor,
                factor == preview_factor(frame.width, frame.height),
                1 <= factor <= u32::MAX,
                ow == preview_edge(frame.width, factor),
                oh == preview_edge(frame.height, factor),
                ow <= PREVIEW_MAX_EDGE,
                oh <= PREVIEW_MAX_EDGE,
                goal == preview_pixels(frame@),
                covers_preview(frame@),
                0 <= y < oh,
                0 <= x <= ow,
                data@.len() == y * ow + x,
                forall|i: int| 0 <= i < data@.len() ==> data@[i] == goal[i],
            decreases ow - x,
        {
            proof {
                lemma_source_monotone(x as int, y as int, ow as int, oh as int, frame.width, factor);
                let i = y * ow + x;
                vstd::arithmetic::div_mod::lemma_fundamental_div_mod_converse(
                    i,
                    ow as int,
                    y as int,
                    x as int,
                );
                assert(i < ow * oh) by (nonlinear_arith)
                    requires
                        i == y * ow + x,
                        0 <= x < ow,
                        0 <= y < oh,
                ;
                assert(y * scale <= 160 * u32::MAX) by (nonlinear_arith)
                    requires
                        0 <= y <= 160,
                        0 <= scale <= u32::MAX,
                ;
                assert(x * scale <= 160 * u32::MAX) by (nonlinear_arith)
                    requires
                        0 <= x <= 160,
                        0 <= scale <= u32::MAX,
                ;
                let at = preview_source(x as int, y as int, frame.width, factor);
                assert(goal[i] == frame.data@[at]);
                assert(at < frame.data.len());
                assert(at == (y * scale) * frame.width + x * scale);
            }
            let source: usize = ((y * scale) * frame.width as u64 + x * scale) as usize;
            data.push(frame.data[source]);
            x = x + 1;
        }
        proof {
            assert(y * ow + ow == (y + 1) * ow) by (nonlinear_arith);
        }
        y = y + 1;
    }
    proof {
        assert(oh * ow == ow * oh) by (nonlinear_arith);
        assert(data@ =~= goal);
    }
    PreviewFrame { width: ow as u32, height: oh as u32, data, is_dark: frame.is_dark }
}

/// A frame with all of its pixels covers its preview.
pub proof fn whole_frames_cover_their_preview(frame: FrameModel)
    requires
        frame.data.len() >= frame.width * frame.height,
    ensures
        covers_preview(frame),
{
    lemma_preview_factor(frame.width, frame.height);
    let f = preview_factor(frame.width, frame.height) as int;
    let w = frame.width as int;
    let h = frame.height as int;
    let ow = preview_edge(frame.width, f as nat) as int;
    let oh = preview_edge(frame.height, f as nat) as int;
    if ow > 0 && oh > 0 {
        assert(ow * f <= w) by (nonlinear_arith)
            requires
                ow == w / f,
                f >= 1,
                w >= 0,
        ;
        assert(oh * f <= h) by (nonlinear_arith)
            requires
                oh == h / f,
                f >= 1,
                h >= 0,
        ;
        assert((oh - 1) * f == oh * f - f) by (nonlinear_arith);
        assert((ow - 1) * f == ow * f - f) by (nonlinear_arith);
        let row = (oh - 1) * f;
        assert(row * w <= (h - 1) * w) by (nonlinear_arith)
            requires
                row <= h - 1,
                w >= 0,
        ;
        assert((h - 1) * w == w * h - w) by (nonlinear_arith);
    }
}

/// A preview of a frame that is already small enough is the frame, pixel by
/// pixel.
pub proof fn small_frames_are_left_alone(frame: FrameModel)
    requires
        frame.width <= PREVIEW_MAX_EDGE,
        frame.height <= PREVIEW_MAX_EDGE,
        frame.data.len() == frame.width * frame.height,
    ensures
        preview_edge(frame.width, preview_factor(frame.width, frame.height)) == frame.width,
        preview_edge(frame.height, preview_factor(frame.width, frame.height)) == frame.height,
        preview_pixels(frame) == frame.data,
{
    let w = frame.width as int;
    assert(preview_factor(frame.width, frame.height) == 1);
    assert forall|i: int| 0 <= i < frame.data.len() implies #[trigger] preview_pixels(frame)[i]
        == frame.data[i] by {
        assert(w > 0) by (nonlinear_arith)
            requires
                0 <= i < w * frame.height,
                w >= 0,
        ;
        vstd::arithmetic::div_mod::lemma_fundamental_div_mod(i, w);
        assert((i / w) * 1 == i / w);
        assert((i / w) * w == w * (i / w)) by (nonlinear_arith);
        assert((i % w) * 1 == i % w);
        assert(preview_source(i % w, i / w, frame.width, 1) == i);
    }
    assert(preview_pixels(frame) =~= frame.data);
}

/// No edge of a preview is longer than 160 pixels, whatever the frame: a
/// full-resolution frame has no preview of its own size.
pub proof fn previews_are_small(frame: FrameModel)
    ensures
        preview_edge(frame.width, preview_factor(frame.width, frame.height)) <= PREVIEW_MAX_EDGE,
        preview_edge(frame.height, preview_factor(frame.width, frame.height)) <= PREVIEW_MAX_EDGE,
        preview_pixels(frame).len() <= PREVIEW_MAX_EDGE * PREVIEW_MAX_EDGE,
        longest_edge(frame.width, frame.height) > PREVIEW_MAX_EDGE ==> preview_edge(
            frame.width,
            preview_factor(frame.width, frame.height),
        ) <= frame.width / 2 && preview_edge(
            frame.height,
            preview_factor(frame.width, frame.height),
        ) <= frame.height / 2,
{
    lemma_preview_factor(frame.width, frame.height);
    let f = preview_factor(frame.width, frame.height);
    let ow = preview_edge(frame.width, f);
    let oh = preview_edge(frame.height, f);
    assert(ow * oh <= 160 * 160) by (nonlinear_arith)
        requires
            0 <= ow <= 160,
            0 <= oh <= 160,
    ;
    if longest_edge(frame.width, frame.height) > PREVIEW_MAX_EDGE {
        assert(f >= 2);
        vstd::arithmetic::div_mod::lemma_div_is_ordered_by_denominator(
            frame.width as int,
            2,
            f as int,
        );
        vstd::arithmetic::div_mod::lemma_div_is_ordered_by_denominator(
            frame.height as int,
            2,
            f as int,
        );
    }
}

/// Every pixel of a preview is a pixel of the frame.
pub proof fn previews_read_the_frame(frame: FrameModel)
    requires
        covers_preview(frame),
    ensures
        forall|i: int|
            0 <= i < preview_pixels(frame).len() ==> frame.data.contains(
                #[trigger] preview_pixels(frame)[i],
            ),
{
    let f = preview_factor(frame.width, frame.height);
    let ow = preview_edge(frame.width, f) as int;
    let oh = preview_edge(frame.height, f) as int;
    assert forall|i: int| 0 <= i < preview_pixels(frame).len() implies frame.data.contains(
        #[trigger] preview_pixels(frame)[i],
    ) by {
        assert(ow > 0 && oh > 0) by (nonlinear_arith)
            requires
                0 <= i < ow * oh,
                ow >= 0,
                oh >= 0,
        ;
        vstd::arithmetic::div_mod::lemma_fundamental_div_mod(i, ow);
        assert(0 <= i / ow < oh) by (nonlinear_arith)
            requires
                0 <= i < ow * oh,
                ow > 0,
        ;
        lemma_source_monotone(i % ow, i / ow, ow, oh, frame.width, f);
    }
}

/// A preview is no smaller than it has to be: its factor is the least that brings the
/// longest edge down to 160 pixels, and each edge is as long as that factor leaves it.
pub proof fn previews_are_as_large_as_allowed(width: u32, height: u32)
    ensures
        ({
            let f = preview_factor(width, height) as int;
            let ow = preview_edge(width, f as nat) as int;
            let oh = preview_edge(height, f as nat) as int;
            &&& f >= 1
            &&& width <= 160 * f && height <= 160 * f
            &&& f > 1 ==> width > 160 * (f - 1) || height > 160 * (f - 1)
            &&& ow * f <= width < (ow + 1) * f
            &&& oh * f <= height < (oh + 1) * f
        }),
{
    lemma_preview_factor(width, height);
    let f = preview_factor(width, height) as int;
    lemma_edge_is_quotient(width, f);
    lemma_edge_is_quotient(height, f);
}

/// An edge of a preview is the quotient of the frame's.
proof fn lemma_edge_is_quotient(edge: u32, f: int)
    requires
        f >= 1,
    ensures
        preview_edge(edge, f as nat) * f <= edge < (preview_edge(edge, f as nat) + 1) * f,
{
    let q = preview_edge(edge, f as nat) as int;
    vstd::arithmetic::div_mod::lemma_fundamental_div_mod(edge as int, f);
    assert(q * f <= edge < (q + 1) * f) by (nonlinear_arith)
        requires
            edge == f * q + edge as int % f,
            0 <= edge as int % f < f,
    ;
}

/// A preview shows every `f`th pixel of every `f`th row, where `f` is its factor, row
/// by row, and nothing else.
pub proof fn previews_take_every_fth_pixel(frame: FrameModel, x: int, y: int)
    requires
        0 <= x < preview_edge(frame.width, preview_factor(frame.width, frame.height)),
        0 <= y < preview_edge(frame.height, preview_factor(frame.width, frame.height)),
    ensures
        ({
            let f = preview_factor(frame.width, frame.height) as int;
            let ow = preview_edge(frame.width, f as nat) as int;
            let oh = preview_edge(frame.height, f as nat) as int;
            &&& preview_pixels(frame).len() == ow * oh
            &&& 0 <= y * ow + x < ow * oh
            &&& preview_pixels(frame)[y * ow + x] == frame.data[(y * f) * frame.width + x * f]
        }),
{
    let f = preview_factor(frame.width, frame.height) as int;
    let ow = preview_edge(frame.width, f as nat) as int;
    let oh = preview_edge(frame.height, f as nat) as int;
    vstd::arithmetic::div_mod::lemma_fundamental_div_mod_converse(y * ow + x, ow, y, x);
    assert(0 <= y * ow + x < ow * oh) by (nonlinear_arith)
        requires
            0 <= x < ow,
            0 <= y < oh,
    ;
}

/// A model of a frame holds all that the frame does.
pub proof fn frame_models_hold_everything(frame: Frame)
    ensures
        frame@.data == frame.data@,
        frame@.width == frame.width,
        frame@.height == frame.height,
        frame@.timestamp == frame.timestamp,
        frame@.sequence == frame.sequence,
        frame@.is_dark == frame.is_dark,
{
}

} // verus!
