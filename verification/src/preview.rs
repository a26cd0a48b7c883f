//! Turning a preview frame into something a person can act on.
//!
//! Everything here is pure: a frame in, a verdict or a pixel grid out.
use crate::single::{
    lemma_greater_ratio, lemma_lesser_ratio, lemma_nearly_full, lemma_ratio_is_kept,
    lemma_scale_bound, lemma_scaled_bound, lemma_scaled_is_close, lemma_single_bound,
    lemma_single_lower_bound, lemma_single_of_integer_positive, lemma_twice_rounded, scaled, single,
    single_from_u32, single_of_integer, single_scale, single_significand, Single,
};
use vstd::prelude::*;

verus! {

/// One frame as it arrives over the bus.
#[derive(Debug)]
pub struct Preview {
    pub width: u32,
    pub height: u32,
    /// 8-bit grayscale, row-major, `width * height` bytes.
    pub data: Vec<u8>,
    /// Whether the daemon found this frame too dark to use.
    pub is_dark: bool,
}

impl Clone for Preview {
    fn clone(&self) -> (copy: Self)
        ensures
            copy.width == self.width,
            copy.height == self.height,
            copy.data@ == self.data@,
            copy.is_dark == self.is_dark,
    {
        let data: Vec<u8> = self.data.clone();
        proof {
            assert(data@ =~= self.data@);
        }
        Preview { width: self.width, height: self.height, data, is_dark: self.is_dark }
    }
}

/// What to tell the user about a frame.
#[derive(Debug, Clone, Copy, PartialEq, Eq, Structural)]
pub enum Legibility {
    /// Say nothing; the picture speaks.
    Usable,
    /// The daemon rejected it as too dark.
    TooDark,
    /// Saturated: almost certainly the IR emitter washing the sensor out
    /// before auto-gain has settled.
    TooBright,
    /// Nothing arrived, or the frame is malformed.
    NoSignal,
}

/// Mean brightness at or above which a frame is treated as washed out.
///
/// The daemon only detects darkness. The client holds the pixels, so the client
/// is where saturation can be noticed at all.
pub const SATURATED_MEAN: u8 = 200;

/// The sentence shown for each verdict.
pub open spec fn advice_text(verdict: Legibility) -> Seq<char> {
    match verdict {
        Legibility::Usable => "looking good — hold still"@,
        Legibility::TooDark => "too dark — more light, or move closer"@,
        Legibility::TooBright => "washed out — move back from the camera"@,
        Legibility::NoSignal => "waiting for the camera…"@,
    }
}

impl Legibility {
    /// What the user should be told. Short, actionable, no jargon.
    pub fn advice(self) -> (text: &'static str)
        ensures
            text@ == advice_text(self),
    {
        match self {
            Legibility::Usable => "looking good — hold still",
            Legibility::TooDark => "too dark — more light, or move closer",
            Legibility::TooBright => "washed out — move back from the camera",
            Legibility::NoSignal => "waiting for the camera…",
        }
    }
}

/// Sum of all pixels.
pub open spec fn brightness_sum(pixels: Seq<u8>) -> nat
    decreases pixels.len(),
{
    if pixels.len() == 0 {
        0
    } else {
        brightness_sum(pixels.drop_last()) + pixels.last() as nat
    }
}

/// Whether the mean of the pixels reaches the saturation threshold.
pub open spec fn washed_out(pixels: Seq<u8>) -> bool {
    brightness_sum(pixels) / pixels.len() >= SATURATED_MEAN
}

/// The verdict on a frame: no signal outranks darkness, and darkness outranks
/// saturation. A frame without extent, or with fewer pixels than it should have, is
/// malformed.
pub open spec fn legibility(width: u32, height: u32, pixels: Seq<u8>, is_dark: bool) -> Legibility {
    if pixels.len() == 0 || width == 0 || height == 0 || pixels.len() < width * height {
        Legibility::NoSignal
    } else if is_dark {
        Legibility::TooDark
    } else if washed_out(pixels) {
        Legibility::TooBright
    } else {
        Legibility::Usable
    }
}

/// Whether a non-empty picture is washed out.
fn is_washed_out(pixels: &[u8]) -> (b: bool)
    requires
        pixels@.len() > 0,
    ensures
        b == washed_out(pixels@),
{
    let mut sum: u128 = 0;
    let mut i: usize = 0;
    while i < pixels.len()
        invariant
            0 <= i <= pixels@.len(),
            sum == brightness_sum(pixels@.take(i as int)),
            sum <= 255 * i,
        decreases pixels@.len() - i,
    {
        proof {
            assert(pixels@.take(i + 1).drop_last() =~= pixels@.take(i as int));
        }
        sum = sum + pixels[i] as u128;
        i = i + 1;
    }
    proof {
        assert(pixels@.take(i as int) =~= pixels@);
    }
    sum / pixels.len() as u128 >= SATURATED_MEAN as u128
}

/// Classifies a frame by its parts.
pub(crate) fn judge(width: u32, height: u32, pixels: &[u8], is_dark: bool) -> (verdict: Legibility)
    ensures
        verdict == legibility(width, height, pixels@, is_dark),
{
    proof {
        assert(width * height <= u32::MAX * u32::MAX) by (nonlinear_arith)
            requires
                0 <= width <= u32::MAX,
                0 <= height <= u32::MAX,
        ;
    }
    if pixels.len() == 0 || width == 0 || height == 0 || (pixels.len() as u64) < width as u64
        * height as u64 {
        return Legibility::NoSignal;
    }
    if is_dark {
        return Legibility::TooDark;
    }
    if is_washed_out(pixels) {
        Legibility::TooBright
    } else {
        Legibility::Usable
    }
}

/// Classify a frame for display.
///
/// The daemon's dark verdict wins where it has one: agreeing with it keeps the
/// preview honest about why a capture will be rejected.
pub fn assess(frame: &Preview) -> (verdict: Legibility)
    ensures
        verdict == legibility(frame.width, frame.height, frame.data@, frame.is_dark),
{
    judge(frame.width, frame.height, frame.data.as_slice(), frame.is_dark)
}

/// The source coordinate that output coordinate `i` of `out` reads on an axis of
/// `size` pixels. An axis without pixels is read at zero.
pub open spec fn source_coordinate(i: int, size: int, out: int) -> int {
    if size == 0 {
        0
    } else {
        i * size / out
    }
}

/// The pixel at `index`, or black where the picture has none.
pub open spec fn pixel_or_black(pixels: Seq<u8>, index: int) -> u8 {
    if 0 <= index < pixels.len() {
        pixels[index]
    } else {
        0
    }
}

/// The nearest-neighbour resampling of a `width * height` picture to an
/// `out_w * out_h` grid. What the picture lacks is black.
pub open spec fn resampled(pixels: Seq<u8>, width: int, height: int, out_w: nat, out_h: nat) -> Seq<
    u8,
> {
    Seq::new(
        out_w * out_h,
        |i: int|
            pixel_or_black(
                pixels,
                source_coordinate(i / out_w as int, height, out_h as int) * width
                    + source_coordinate(i % out_w as int, width, out_w as int),
            ),
    )
}

/// Integer division of a product by a larger factor stays below the other one.
proof fn lemma_coordinate_in_range(i: int, size: int, out: int)
    requires
        0 <= i < out,
        0 < size,
    ensures
        0 <= i * size / out < size,
{
    assert(0 <= i * size < out * size) by (nonlinear_arith)
        requires
            0 <= i < out,
            0 < size,
    ;
    assert(0 <= i * size / out < size) by (nonlinear_arith)
        requires
            0 <= i * size < out * size,
            0 < out,
    ;
}

/// The source coordinate of output coordinate `i`.
fn coordinate(i: usize, size: u32, out: usize) -> (c: u128)
    requires
        i < out,
    ensures
        c == source_coordinate(i as int, size as int, out as int),
        c <= u32::MAX,
{
    if size == 0 {
        return 0;
    }
    proof {
        lemma_coordinate_in_range(i as int, size as int, out as int);
        assert(i * size <= u64::MAX * u32::MAX) by (nonlinear_arith)
            requires
                0 <= i <= u64::MAX,
                0 <= size <= u32::MAX,
        ;
    }
    (i as u128 * size as u128) / (out as u128)
}

/// Nearest-neighbour resample to an exact `out_w * out_h` grid.
///
/// Returns exactly `out_w * out_h` bytes so a renderer can index it without
/// bounds-checking every pixel. A frame whose `data` is shorter than
/// `width * height` is malformed; what it lacks is rendered black.
pub fn sample(frame: &Preview, out_w: usize, out_h: usize) -> (out: Vec<u8>)
    requires
        out_w * out_h <= isize::MAX,
    ensures
        out@ == resampled(
            frame.data@,
            frame.width as int,
            frame.height as int,
            out_w as nat,
            out_h as nat,
        ),
        out@.len() == out_w * out_h,
{
    let ghost goal = resampled(
        frame.data@,
        frame.width as int,
        frame.height as int,
        out_w as nat,
        out_h as nat,
    );
    if out_w == 0 || out_h == 0 {
        proof {
            assert(out_w * out_h == 0) by (nonlinear_arith)
                requires
                    out_w == 0 || out_h == 0,
            ;
            assert(goal =~= Seq::empty());
        }
        return Vec::new();
    }
    let mut out: Vec<u8> = Vec::with_capacity(out_w * out_h);
    let mut y: usize = 0;
    while y < out_h
        invariant
            0 < out_w,
            0 < out_h,
            0 <= y <= out_h,
            out@.len() == y * out_w,
            goal == resampled(
                frame.data@,
                frame.width as int,
                frame.height as int,
                out_w as nat,
                out_h as nat,
            ),
            forall|i: int| 0 <= i < out@.len() ==> out@[i] == goal[i],
            out_w * out_h <= isize::MAX,
        decreases out_h - y,
    {
        let sy: u128 = coordinate(y, frame.height, out_h);
        let mut x: usize = 0;
        while x < out_w
            invariant
                0 < out_w,
                0 < out_h,
                0 <= y < out_h,
                0 <= x <= out_w,
                sy == source_coordinate(y as int, frame.height as int, out_h as int),
                sy <= u32::MAX,
                out@.len() == y * out_w + x,
                goal == resampled(
                    frame.data@,
                    frame.width as int,
                    frame.height as int,
                    out_w as nat,
                    out_h as nat,
                ),
                forall|i: int| 0 <= i < out@.len() ==> out@[i] == goal[i],
            decreases out_w - x,
        {
            let sx: u128 = coordinate(x, frame.width, out_w);
            proof {
                assert(sy * frame.width <= u32::MAX * u32::MAX) by (nonlinear_arith)
                    requires
                        0 <= sy <= u32::MAX,
                        0 <= frame.width <= u32::MAX,
                ;
            }
            let index: u128 = sy * frame.width as u128 + sx;
            let pixel: u8 = if index < frame.data.len() as u128 {
                frame.data[index as usize]
            } else {
                0
            };
            proof {
                let i = y * out_w + x;
                vstd::arithmetic::div_mod::lemma_fundamental_div_mod_converse(
                    i,
                    out_w as int,
                    y as int,
                    x as int,
                );
                assert(i < out_w * out_h) by (nonlinear_arith)
                    requires
                        i == y * out_w + x,
                        0 <= x < out_w,
                        0 <= y < out_h,
                ;
                assert(goal[i] == pixel);
            }
            out.push(pixel);
            x = x + 1;
        }
        proof {
            assert(y * out_w + out_w == (y + 1) * out_w) by (nonlinear_arith);
        }
        y = y + 1;
    }
    proof {
        assert(out_h * out_w == out_w * out_h) by (nonlinear_arith);
        assert(out@ =~= goal);
    }
    out
}

/// The factor by which a picture is scaled, `significand / scale`: the lesser of
/// the single-precision quotients of the two axes.
pub open spec fn fit_factor(width: nat, height: nat, cols: nat, rows: nat) -> (nat, nat) {
    let across = (single_significand(cols, width), single_scale(cols, width));
    let down = (single_significand(2 * rows, height), single_scale(2 * rows, height));
    if across.0 * down.1 <= down.0 * across.1 {
        across
    } else {
        down
    }
}

/// The pixel grid that shows a `width * height` picture in `cols * rows` cells.
///
/// Each axis is scaled by the common factor in single precision and cut to a
/// whole number. At least one column and one cell of two pixels remain, and the
/// height is even.
pub open spec fn fit_size(width: u32, height: u32, cols: u16, rows: u16) -> (nat, nat) {
    if cols == 0 || rows == 0 || width == 0 || height == 0 {
        (0, 0)
    } else {
        let fw = single_of_integer(width as nat);
        let fh = single_of_integer(height as nat);
        let factor = fit_factor(fw, fh, cols as nat, rows as nat);
        let w = scaled(fw, factor.0, factor.1);
        let h = scaled(fh, factor.0, factor.1);
        (
            if w < 1 {
                1
            } else {
                w
            },
            if h < 2 {
                2
            } else {
                (h - h % 2) as nat
            },
        )
    }
}

/// Integer part of the single-precision product of `f` and `s`, where `s` is at
/// most the rounded quotient of `a` by `f`.
fn scale_axis(f: u128, s: &Single, Ghost(a): Ghost<nat>) -> (r: usize)
    requires
        0 < f <= 0x2_0000_0000,
        0 < a < 0x2_0000,
        0 < s.significand <= 0x100_0000,
        0 < s.scale <= 0x1_0000_0000_0000_0000,
        s.significand * single_scale(a, f as nat) <= single_significand(a, f as nat) * s.scale,
    ensures
        r == scaled(f as nat, s.significand as nat, s.scale as nat),
        r <= a,
{
    proof {
        lemma_scaled_bound(f as nat, a, s.significand as nat, s.scale as nat);
        assert(f * s.significand <= 0x2_0000_0000 * 0x100_0000) by (nonlinear_arith)
            requires
                0 <= f <= 0x2_0000_0000,
                0 <= s.significand <= 0x100_0000,
        ;
        lemma_single_bound((f * s.significand) as nat, s.scale as nat);
    }
    let product: Single = single(f * s.significand, s.scale);
    (product.significand / product.scale) as usize
}

/// Fit a frame inside `cols x rows` cells while preserving its aspect.
///
/// Each cell carries two vertical pixels (an upper half-block over a coloured
/// background), so the pixel grid is twice as tall as the cell grid.
pub fn fit(frame: &Preview, cols: u16, rows: u16) -> (size: (usize, usize))
    ensures
        size.0 == fit_size(frame.width, frame.height, cols, rows).0,
        size.1 == fit_size(frame.width, frame.height, cols, rows).1,
        size.0 <= cols,
        size.1 <= 2 * rows,
        size.1 % 2 == 0,
{
    if cols == 0 || rows == 0 || frame.width == 0 || frame.height == 0 {
        return (0, 0);
    }
    let fw: u128 = single_from_u32(frame.width);
    let fh: u128 = single_from_u32(frame.height);
    let across: Single = single(cols as u128, fw);
    let down: Single = single(2 * (rows as u128), fh);
    proof {
        lemma_single_bound(cols as nat, fw as nat);
        lemma_single_bound((2 * rows) as nat, fh as nat);
        lemma_scale_bound(cols as nat, fw as nat);
        lemma_scale_bound((2 * rows) as nat, fh as nat);
        assert(across.significand * down.scale <= 0x100_0000 * 0x1_0000_0000_0000_0000)
            by (nonlinear_arith)
            requires
                0 <= across.significand <= 0x100_0000,
                0 <= down.scale <= 0x1_0000_0000_0000_0000,
        ;
        assert(down.significand * across.scale <= 0x100_0000 * 0x1_0000_0000_0000_0000)
            by (nonlinear_arith)
            requires
                0 <= down.significand <= 0x100_0000,
                0 <= across.scale <= 0x1_0000_0000_0000_0000,
        ;
    }
    let factor: Single = if across.significand * down.scale <= down.significand * across.scale {
        across
    } else {
        down
    };
    let w: usize = scale_axis(fw, &factor, Ghost(cols as nat));
    let h: usize = scale_axis(fh, &factor, Ghost((2 * rows) as nat));
    (
        if w < 1 {
            1
        } else {
            w
        },
        if h < 2 {
            2
        } else {
            h - h % 2
        },
    )
}

/// A fitted picture stays inside the cells, fills whole cells, and is empty only
/// where the picture or the space is.
pub proof fn fits_stay_inside_the_cells(width: u32, height: u32, cols: u16, rows: u16)
    ensures
        fit_size(width, height, cols, rows).0 <= cols,
        fit_size(width, height, cols, rows).1 <= 2 * rows,
        fit_size(width, height, cols, rows).1 % 2 == 0,
        width > 0 && height > 0 && cols > 0 && rows > 0 <==> fit_size(
            width,
            height,
            cols,
            rows,
        ).0 > 0,
        width > 0 && height > 0 && cols > 0 && rows > 0 <==> fit_size(
            width,
            height,
            cols,
            rows,
        ).1 > 0,
{
    if width > 0 && height > 0 && cols > 0 && rows > 0 {
        let fw = single_of_integer(width as nat);
        let fh = single_of_integer(height as nat);
        let down = (2 * rows) as nat;
        lemma_single_of_integer_positive(width as nat);
        lemma_single_of_integer_positive(height as nat);
        lemma_single_bound(cols as nat, fw);
        lemma_single_bound(down, fh);
        let factor = fit_factor(fw, fh, cols as nat, down / 2);
        lemma_scaled_bound(fw, cols as nat, factor.0, factor.1);
        lemma_scaled_bound(fh, down, factor.0, factor.1);
    }
}

/// A fitted picture keeps its aspect: each side is at most its share of the other, but
/// for what whole columns and whole cells cut off, or it is the one column or the one
/// cell that always remains. It is also as large as the cells allow: one of its sides
/// leaves less than a cell free.
///
/// The shares are those of the sides in single precision, which are the sides
/// themselves below `2^24`.
pub proof fn fits_keep_the_aspect(width: u32, height: u32, cols: u16, rows: u16)
    requires
        width > 0,
        height > 0,
        cols > 0,
        rows > 0,
    ensures
        ({
            let (w, h) = fit_size(width, height, cols, rows);
            let fw = single_of_integer(width as nat);
            let fh = single_of_integer(height as nat);
            &&& w == 1 || w * fh <= (h + 3) * fw
            &&& h == 2 || h * fw <= (w + 2) * fh
            &&& w + 1 >= cols || h + 2 >= 2 * rows
        }),
{
    fits_stay_inside_the_cells(width, height, cols, rows);
    let (w, h) = fit_size(width, height, cols, rows);
    let fw = single_of_integer(width as nat);
    let fh = single_of_integer(height as nat);
    let down = (2 * rows) as nat;
    lemma_single_of_integer_positive(width as nat);
    lemma_single_of_integer_positive(height as nat);
    lemma_single_bound(cols as nat, fw);
    lemma_single_bound(down, fh);
    lemma_single_lower_bound(cols as nat, fw);
    lemma_single_lower_bound(down, fh);
    let (m, c) = fit_factor(fw, fh, cols as nat, down / 2);
    lemma_scaled_bound(fw, cols as nat, m, c);
    lemma_scaled_bound(fh, down, m, c);
    lemma_scaled_is_close(fw, m, c);
    lemma_scaled_is_close(fh, m, c);
    let across = scaled(fw, m, c) as int;
    let along = scaled(fh, m, c) as int;
    let (mi, ci) = (m as int, c as int);
    if w > 1 {
        assert((along + 1) * ci <= (h + 2) * ci) by (nonlinear_arith)
            requires
                along + 1 <= h + 2,
                ci > 0,
        ;
        lemma_ratio_is_kept(across, (h + 2) as int, fw as int, fh as int, mi, ci);
    }
    if h > 2 {
        assert(h * ci <= along * ci) by (nonlinear_arith)
            requires
                h <= along,
                ci > 0,
        ;
        assert((across + 1) * ci <= (w + 1) * ci) by (nonlinear_arith)
            requires
                across <= w,
                ci > 0,
        ;
        lemma_ratio_is_kept(h as int, (w + 1) as int, fh as int, fw as int, mi, ci);
    }
    if m == single_significand(cols as nat, fw) && c == single_scale(cols as nat, fw) {
        lemma_nearly_full(across, cols as int, fw as int, mi, ci);
    } else {
        lemma_nearly_full(along, down as int, fh as int, mi, ci);
    }
}

/// What a whole factor does to a coordinate on one axis is undone by going back.
proof fn lemma_axis_restored(c: int, size: int, k: int)
    requires
        0 <= c < size,
        k > 0,
    ensures
        source_coordinate(c, k * size, size) == c * k,
        source_coordinate(c * k, size, k * size) == c,
        0 <= c * k < k * size,
{
    assert(c * (k * size) == size * (c * k)) by (nonlinear_arith);
    vstd::arithmetic::div_mod::lemma_div_multiples_vanish(c * k, size);
    assert((c * k) * size == (k * size) * c) by (nonlinear_arith);
    assert(k * size > 0) by (nonlinear_arith)
        requires
            k > 0,
            size > 0,
    ;
    vstd::arithmetic::div_mod::lemma_div_multiples_vanish(c, k * size);
    assert(0 <= c * k < k * size) by (nonlinear_arith)
        requires
            0 <= c < size,
            k > 0,
    ;
}

/// Sampling a whole picture at its own size gives the picture.
proof fn lemma_own_size(pixels: Seq<u8>, w: nat, h: nat)
    requires
        w > 0,
        h > 0,
        pixels.len() == w * h,
    ensures
        resampled(pixels, w as int, h as int, w, h) == pixels,
{
    let same = resampled(pixels, w as int, h as int, w, h);
    assert forall|i: int| 0 <= i < pixels.len() implies #[trigger] same[i] == pixels[i] by {
        let (wi, hi) = (w as int, h as int);
        let y = i / wi;
        let x = i % wi;
        vstd::arithmetic::div_mod::lemma_fundamental_div_mod(i, wi);
        assert(i == y * wi + x) by (nonlinear_arith)
            requires
                i == wi * y + x,
        ;
        assert(0 <= y < hi) by (nonlinear_arith)
            requires
                i == y * wi + x,
                0 <= i < wi * hi,
                0 <= x < wi,
        ;
        lemma_axis_restored(y, hi, 1);
        lemma_axis_restored(x, wi, 1);
        assert(1 * hi == hi && 1 * wi == wi && y * 1 == y && x * 1 == x);
    }
    assert(same =~= pixels);
}

/// Enlarging a whole picture by a whole factor and sampling it back loses nothing,
/// and sampling a whole picture at its own size gives the picture.
pub proof fn enlarging_is_undone_by_sampling_back(pixels: Seq<u8>, w: nat, h: nat, k: nat)
    requires
        w > 0,
        h > 0,
        k > 0,
        pixels.len() == w * h,
    ensures
        resampled(
            resampled(pixels, w as int, h as int, k * w, k * h),
            (k * w) as int,
            (k * h) as int,
            w,
            h,
        ) == pixels,
        resampled(pixels, w as int, h as int, w, h) == pixels,
{
    lemma_own_size(pixels, w, h);
    let (kw, kh) = (k * w, k * h);
    let enlarged = resampled(pixels, w as int, h as int, kw, kh);
    let back = resampled(enlarged, kw as int, kh as int, w, h);
    assert forall|i: int| 0 <= i < pixels.len() implies #[trigger] back[i] == pixels[i] by {
        let (wi, hi, ki) = (w as int, h as int, k as int);
        let y = i / wi;
        let x = i % wi;
        vstd::arithmetic::div_mod::lemma_fundamental_div_mod(i, wi);
        assert(i == y * wi + x) by (nonlinear_arith)
            requires
                i == wi * y + x,
        ;
        assert(0 <= y < hi) by (nonlinear_arith)
            requires
                i == y * wi + x,
                0 <= i < wi * hi,
                0 <= x < wi,
        ;
        lemma_axis_restored(y, hi, ki);
        lemma_axis_restored(x, wi, ki);
        let (ey, ex) = (y * ki, x * ki);
        let (kwi, khi) = (ki * wi, ki * hi);
        let j = ey * kwi + ex;
        vstd::arithmetic::div_mod::lemma_fundamental_div_mod_converse(j, kwi, ey, ex);
        assert(0 <= j < kwi * khi) by (nonlinear_arith)
            requires
                j == ey * kwi + ex,
                0 <= ey < khi,
                0 <= ex < kwi,
        ;
        assert(enlarged[j] == pixels[i]);
    }
    assert(back =~= pixels);
}

/// Brightness adds up pixel by pixel, without a limit.
pub proof fn brightness_adds_up(a: Seq<u8>, b: Seq<u8>, pixel: u8)
    ensures
        brightness_sum(Seq::empty()) == 0,
        brightness_sum(seq![pixel]) == pixel,
        brightness_sum(a + b) == brightness_sum(a) + brightness_sum(b),
    decreases b.len(),
{
    let one = seq![pixel];
    assert(one.drop_last() =~= Seq::empty());
    assert(brightness_sum(one.drop_last()) == 0);
    if b.len() == 0 {
        assert(a + b =~= a);
    } else {
        assert((a + b).drop_last() =~= a + b.drop_last());
        brightness_adds_up(a, b.drop_last(), pixel);
    }
}

/// The sum of pixels that all lie between two values lies between as many of each.
proof fn lemma_brightness_bounds(pixels: Seq<u8>, low: int, high: int)
    requires
        forall|i: int| 0 <= i < pixels.len() ==> low <= #[trigger] pixels[i] <= high,
    ensures
        low * pixels.len() <= brightness_sum(pixels) <= high * pixels.len(),
    decreases pixels.len(),
{
    if pixels.len() > 0 {
        let prefix = pixels.drop_last();
        assert forall|i: int| 0 <= i < prefix.len() implies low <= #[trigger] prefix[i] <= high by {
            assert(prefix[i] == pixels[i]);
        }
        lemma_brightness_bounds(prefix, low, high);
        let n = prefix.len() as int;
        assert(low <= pixels[n] <= high);
        assert(low * (n + 1) == low * n + low) by (nonlinear_arith);
        assert(high * (n + 1) == high * n + high) by (nonlinear_arith);
    } else {
        assert(low * 0 == 0 && high * 0 == 0);
    }
}

/// What is said of a frame. There is no signal exactly if the frame has no extent or
/// lacks pixels. A frame with a signal is too dark exactly if the daemon said so. One
/// that is not dark is too bright exactly if its pixels are 200 on average; so it is
/// if all of them are at least 200, and never if none of them is, whatever its size.
pub proof fn verdicts_follow_the_mean(width: u32, height: u32, pixels: Seq<u8>, is_dark: bool)
    ensures
        legibility(width, height, pixels, is_dark) is NoSignal <==> width == 0 || height == 0
            || pixels.len() < width * height,
        legibility(width, height, pixels, is_dark) is TooDark <==> is_dark && width > 0 && height
            > 0 && pixels.len() >= width * height,
        width > 0 && height > 0 && pixels.len() >= width * height && !is_dark ==> (legibility(
            width,
            height,
            pixels,
            is_dark,
        ) is TooBright <==> brightness_sum(pixels) >= 200 * pixels.len()),
        width > 0 && height > 0 && pixels.len() >= width * height && !is_dark && (forall|i: int|
            0 <= i < pixels.len() ==> #[trigger] pixels[i] >= 200) ==> legibility(
            width,
            height,
            pixels,
            is_dark,
        ) is TooBright,
        (forall|i: int| 0 <= i < pixels.len() ==> #[trigger] pixels[i] < 200) ==> legibility(
            width,
            height,
            pixels,
            is_dark,
        ) !is TooBright,
{
    let sum = brightness_sum(pixels) as int;
    let n = pixels.len() as int;
    if width > 0 && height > 0 {
        assert(width * height > 0) by (nonlinear_arith)
            requires
                width > 0,
                height > 0,
        ;
    }
    if n > 0 {
        assert(sum / n >= 200 <==> sum >= 200 * n) by (nonlinear_arith)
            requires
                n > 0,
                sum >= 0,
        ;
    }
    if forall|i: int| 0 <= i < pixels.len() ==> #[trigger] pixels[i] >= 200 {
        lemma_brightness_bounds(pixels, 200, 255);
    }
    if forall|i: int| 0 <= i < pixels.len() ==> #[trigger] pixels[i] < 200 {
        lemma_brightness_bounds(pixels, 0, 199);
    }
}

/// Sampling reads the nearest pixel of a whole picture: the pixel at column `x` of row
/// `y` of the grid is the one whose column and row, scaled up to the grid, come to `x`
/// and `y` or just before them.
pub proof fn samples_read_the_nearest_pixel(
    pixels: Seq<u8>,
    w: nat,
    h: nat,
    out_w: nat,
    out_h: nat,
    x: int,
    y: int,
    sx: int,
    sy: int,
)
    requires
        w > 0,
        h > 0,
        pixels.len() >= w * h,
        0 <= x < out_w,
        0 <= y < out_h,
        sx * out_w <= x * w < (sx + 1) * out_w,
        sy * out_h <= y * h < (sy + 1) * out_h,
    ensures
        0 <= sx < w,
        0 <= sy < h,
        0 <= sy * w + sx < pixels.len(),
        resampled(pixels, w as int, h as int, out_w, out_h).len() == out_w * out_h,
        resampled(pixels, w as int, h as int, out_w, out_h)[y * out_w + x] == pixels[sy * w + sx],
{
    lemma_nearest(x, w as int, out_w as int, sx);
    lemma_nearest(y, h as int, out_h as int, sy);
    lemma_cell_index(x, y, out_w as int, out_h as int);
    lemma_cell_index(sx, sy, w as int, h as int);
}

/// The nearest coordinate is the quotient.
proof fn lemma_nearest(i: int, size: int, out: int, s: int)
    requires
        0 < size,
        0 <= i < out,
        s * out <= i * size < (s + 1) * out,
    ensures
        source_coordinate(i, size, out) == s,
        0 <= s < size,
{
    let product = i * size;
    let rest = product - s * out;
    assert((s + 1) * out == s * out + out) by (nonlinear_arith);
    vstd::arithmetic::div_mod::lemma_fundamental_div_mod_converse(product, out, s, rest);
    lemma_coordinate_in_range(i, size, out);
}

/// The pixel at a column of a row has a place of its own.
proof fn lemma_cell_index(x: int, y: int, w: int, h: int)
    requires
        0 <= x < w,
        0 <= y < h,
    ensures
        0 <= y * w + x < w * h,
        (y * w + x) / w == y,
        (y * w + x) % w == x,
{
    vstd::arithmetic::div_mod::lemma_fundamental_div_mod_converse(y * w + x, w, y, x);
    assert(0 <= y * w + x < w * h) by (nonlinear_arith)
        requires
            0 <= x < w,
            0 <= y < h,
    ;
}

/// Every sample is a pixel of the picture or black, and where the picture has no
/// pixels at all it is black throughout.
pub proof fn samples_are_pixels_or_black(
    pixels: Seq<u8>,
    w: int,
    h: int,
    out_w: nat,
    out_h: nat,
    i: int,
)
    requires
        0 <= i < out_w * out_h,
    ensures
        resampled(pixels, w, h, out_w, out_h)[i] == 0 || pixels.contains(
            resampled(pixels, w, h, out_w, out_h)[i],
        ),
        pixels.len() == 0 ==> resampled(pixels, w, h, out_w, out_h)[i] == 0,
{
    let index = source_coordinate(i / out_w as int, h, out_h as int) * w + source_coordinate(
        i % out_w as int,
        w,
        out_w as int,
    );
    if 0 <= index < pixels.len() {
        assert(pixels[index] == resampled(pixels, w, h, out_w, out_h)[i]);
    }
}

/// A malformed picture is sampled as if what it lacks were black: completing it with
/// black pixels changes no sample.
pub proof fn missing_pixels_are_black(
    pixels: Seq<u8>,
    w: int,
    h: int,
    out_w: nat,
    out_h: nat,
    missing: nat,
)
    ensures
        resampled(pixels, w, h, out_w, out_h) == resampled(
            pixels + Seq::new(missing, |i: int| 0u8),
            w,
            h,
            out_w,
            out_h,
        ),
{
    let completed = pixels + Seq::new(missing, |i: int| 0u8);
    assert(resampled(pixels, w, h, out_w, out_h) =~= resampled(completed, w, h, out_w, out_h));
}

/// A picture without rows is read as if it had one, and one without columns is its
/// first pixel throughout.
pub proof fn pictures_without_extent_are_read_at_their_start(
    pixels: Seq<u8>,
    w: int,
    h: int,
    out_w: nat,
    out_h: nat,
    i: int,
)
    requires
        pixels.len() > 0,
        0 <= i < out_w * out_h,
    ensures
        resampled(pixels, 0, h, out_w, out_h)[i] == pixels[0],
        resampled(pixels, w, 0, out_w, out_h)[i] == resampled(pixels, w, 1, out_w, out_h)[i],
{
    let (ow, oh) = (out_w as int, out_h as int);
    assert(ow > 0 && oh > 0) by (nonlinear_arith)
        requires
            0 <= i < ow * oh,
            ow >= 0,
            oh >= 0,
    ;
    let y = i / ow;
    assert(0 <= y < oh) by (nonlinear_arith)
        requires
            0 <= i < ow * oh,
            ow > 0,
            y == i / ow,
    ;
    assert(source_coordinate(y, h, oh) * 0 == 0);
    vstd::arithmetic::div_mod::lemma_basic_div(y, oh);
    assert(y * 1 == y);
}

/// A fitted picture is scaled by one and the same factor along both axes, the lesser of
/// the two that fill the cells: `p / q`. Its width is the whole part of the scaled width,
/// and its height the whole even part of the scaled height, to within one part in `2^24`
/// for each of two roundings; but one column and one cell always remain.
pub proof fn fits_scale_both_sides_alike(width: u32, height: u32, cols: u16, rows: u16)
    requires
        width > 0,
        height > 0,
        cols > 0,
        rows > 0,
    ensures
        ({
            let (w, h) = fit_size(width, height, cols, rows);
            let fw = single_of_integer(width as nat) as int;
            let fh = single_of_integer(height as nat) as int;
            let (p, q) = if cols * fh <= (2 * rows) * fw {
                (cols as int, fw)
            } else {
                (2 * rows, fh)
            };
            let e = 0x100_0000int;
            &&& w == 1 || (e * e) * (w * q) <= ((e + 1) * (e + 1)) * (fw * p)
            &&& ((e - 1) * (e - 1)) * (fw * p) < (e * e) * ((w + 1) * q)
            &&& h == 2 || (e * e) * (h * q) <= ((e + 1) * (e + 1)) * (fh * p)
            &&& ((e - 1) * (e - 1)) * (fh * p) < (e * e) * ((h + 2) * q)
            &&& w >= 1 && h >= 2 && h % 2 == 0
        }),
{
    fits_stay_inside_the_cells(width, height, cols, rows);
    let (w, h) = fit_size(width, height, cols, rows);
    let fw = single_of_integer(width as nat);
    let fh = single_of_integer(height as nat);
    let down = (2 * rows) as nat;
    lemma_single_of_integer_positive(width as nat);
    lemma_single_of_integer_positive(height as nat);
    lemma_single_bound(cols as nat, fw);
    lemma_single_bound(down, fh);
    lemma_single_lower_bound(cols as nat, fw);
    lemma_single_lower_bound(down, fh);
    let (m, c) = fit_factor(fw, fh, cols as nat, down / 2);
    lemma_scaled_bound(fw, cols as nat, m, c);
    lemma_scaled_bound(fh, down, m, c);
    lemma_scaled_is_close(fw, m, c);
    lemma_scaled_is_close(fh, m, c);
    let across = scaled(fw, m, c) as int;
    let along = scaled(fh, m, c) as int;
    let e = 0x100_0000int;
    let (mi, ci, fwi, fhi) = (m as int, c as int, fw as int, fh as int);
    let (ai, di) = (cols as int, down as int);
    let (m1, c1) = (single_significand(cols as nat, fw) as int, single_scale(cols as nat, fw) as int);
    let (m2, c2) = (single_significand(down, fh) as int, single_scale(down, fh) as int);
    assert(m1 * c1 == c1 * m1 && m2 * c2 == c2 * m2) by (nonlinear_arith);
    lemma_lesser_ratio(e, mi, ci, m1, c1, ai, fwi);
    lemma_lesser_ratio(e, mi, ci, m2, c2, di, fhi);
    let (p, q) = if ai * fhi <= di * fwi {
        (ai, fwi)
    } else {
        (di, fhi)
    };
    assert(p * fwi <= ai * q && p * fhi <= di * q) by (nonlinear_arith)
        requires
            (ai * fhi <= di * fwi && p == ai && q == fwi) || (ai * fhi > di * fwi && p == di && q
                == fhi),
    ;
    if mi == m1 && ci == c1 {
        lemma_greater_ratio(e, mi, ci, ai, fwi, p, q);
    } else {
        lemma_greater_ratio(e, mi, ci, di, fhi, p, q);
    }
    lemma_twice_rounded(e, fwi, mi, ci, p, q, across);
    lemma_twice_rounded(e, fhi, mi, ci, p, q, along);
    let ee = e * e;
    assert(ee > 0);
    assert(ee * ((across + 1) * q) <= ee * ((w + 1) * q)) by (nonlinear_arith)
        requires
            across <= w,
            q > 0,
            ee > 0,
    ;
    assert(ee * ((along + 1) * q) <= ee * ((h + 2) * q)) by (nonlinear_arith)
        requires
            along + 1 <= h + 2,
            q > 0,
            ee > 0,
    ;
    if h > 2 {
        assert(ee * (h * q) <= ee * (along * q)) by (nonlinear_arith)
            requires
                h <= along,
                q > 0,
                ee > 0,
        ;
    }
}

} // verus!
