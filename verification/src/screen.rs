//! The terminal front-end's screen: what is drawn, and where.
use crate::preview::{
    advice_text, assess, fit, fit_size, fits_stay_inside_the_cells, legibility, resampled, sample,
    Legibility, Preview,
};
use crate::session::{App, AppModel, Outcome, OutcomeModel, Phase, PhaseModel};
use crate::text::{append_decimal, decimal};
use ratatui::layout::{Constraint, Layout, Margin, Rect};
use vstd::prelude::*;

verus! {

/// A rectangle of terminal cells.
#[derive(Debug, Clone, Copy, PartialEq, Eq, Structural)]
pub struct Area {
    pub x: u16,
    pub y: u16,
    pub width: u16,
    pub height: u16,
}

/// The three panes of the screen, from top to bottom.
#[derive(Debug, Clone, Copy, PartialEq, Eq, Structural)]
pub struct Panes {
    pub heading: Area,
    pub picture: Area,
    pub captures: Area,
}

/// The height of the heading pane.
pub const HEADING_HEIGHT: u16 = 3;

/// The least height of the picture pane.
pub const PICTURE_MIN_HEIGHT: u16 = 6;

/// Captures that are shown at most.
pub const MAX_SHOWN_CAPTURES: usize = 6;

/// The width of a pane's border.
pub const BORDER: u16 = 1;

/// Whether `row` spans the width of `area` and does not leave it.
pub open spec fn is_row_of(row: Area, area: Area) -> bool {
    &&& row.x == area.x
    &&& row.width == area.width
    &&& area.y <= row.y
    &&& row.y + row.height <= area.y + area.height
}

/// Whether `panes` divide `area`. They follow one another from its top, and the outer
/// ones are no higher than they are asked to be. The middle one has its least height,
/// or the whole area where that is less. Where there is room for all three, the outer
/// panes are as high as asked, and the middle one has the rest.
pub open spec fn divides(panes: Panes, area: Area, top: u16, middle: u16, bottom: u16) -> bool {
    &&& is_row_of(panes.heading, area)
    &&& is_row_of(panes.picture, area)
    &&& is_row_of(panes.captures, area)
    &&& panes.heading.y == area.y
    &&& panes.picture.y == panes.heading.y + panes.heading.height
    &&& panes.captures.y == panes.picture.y + panes.picture.height
    &&& panes.heading.height <= top
    &&& panes.captures.height <= bottom
    &&& middle <= i16::MAX ==> panes.picture.height >= middle || panes.picture.height
        == area.height
    &&& top + middle + bottom <= area.height && middle <= i16::MAX ==> {
        &&& panes.heading.height == top
        &&& panes.picture.height == area.height - top - bottom
        &&& panes.captures.height == bottom
    }
}

/// Divides an area into three rows, with `ratatui::layout::Layout::split` on the
/// vertical constraints `Length(top)`, `Min(middle)` and `Length(bottom)`.
///
/// Each row spans the width of the area and lies within it, and the rows follow one
/// another. Gaps weigh more than the least height, and the least height more than the
/// lengths, so the middle row comes first, and no outer row grows beyond its length.
/// Where the constraints fit into the area they all hold, and the middle row takes
/// what is left. Where they do not fit, the solver chooses which of the outer rows
/// gives way: that choice is left unsaid.
#[verifier::external_body]
fn split_rows(area: Area, top: u16, middle: u16, bottom: u16) -> (panes: Panes)
    requires
        area.y + area.height <= u16::MAX,
    ensures
        divides(panes, area, top, middle, bottom),
{
    let Area { x, y, width, height } = area;
    let wanted = [Constraint::Length(top), Constraint::Min(middle), Constraint::Length(bottom)];
    let rows = Layout::vertical(wanted).split(Rect { x, y, width, height });
    let plain = |r: Rect| Area { x: r.x, y: r.y, width: r.width, height: r.height };
    Panes { heading: plain(rows[0]), picture: plain(rows[1]), captures: plain(rows[2]) }
}

/// The part of an area inside a margin: nothing, where there is no room for it.
pub open spec fn inside(area: Area, margin: u16) -> Area {
    if area.width < 2 * margin || area.height < 2 * margin {
        Area { x: 0, y: 0, width: 0, height: 0 }
    } else {
        Area {
            x: saturated(area.x + margin),
            y: saturated(area.y + margin),
            width: (area.width - 2 * margin) as u16,
            height: (area.height - 2 * margin) as u16,
        }
    }
}

/// A coordinate, clamped to the largest one.
pub open spec fn saturated(n: int) -> u16 {
    if n > u16::MAX {
        u16::MAX
    } else {
        n as u16
    }
}

/// The part of an area inside a margin on each side, with
/// `ratatui::layout::Rect::inner`.
///
/// The area shrinks by the margin on every side; an area without room for the
/// margins becomes the empty area at the origin. Coordinates saturate. Margins
/// whose double does not fit a coordinate are left out.
#[verifier::external_body]
fn inner(area: Area, margin: u16) -> (inner: Area)
    requires
        2 * margin <= u16::MAX,
    ensures
        inner == inside(area, margin),
{
    let Area { x, y, width, height } = area;
    let rect = Rect { x, y, width, height }.inner(Margin { horizontal: margin, vertical: margin });
    Area { x: rect.x, y: rect.y, width: rect.width, height: rect.height }
}

/// A cell of the picture: an upper half block that shows two pixels, the upper as
/// its foreground and the lower as its background.
#[derive(Debug, Clone, Copy, PartialEq, Eq, Structural)]
pub struct Cell {
    pub top: u8,
    pub bottom: u8,
}

/// The cells of each of a sequence of rows.
pub open spec fn cell_rows(rows: Seq<Vec<Cell>>) -> Seq<Seq<Cell>> {
    Seq::new(rows.len(), |i: int| rows[i]@)
}

/// A picture of `w` by `h` pixels as rows of cells, two pixels above each other in
/// each.
pub open spec fn paired(pixels: Seq<u8>, w: nat, h: nat) -> Seq<Seq<Cell>> {
    Seq::new(
        h / 2,
        |row: int|
            Seq::new(
                w,
                |x: int|
                    Cell {
                        top: pixels[2 * row * w + x],
                        bottom: pixels[(2 * row + 1) * w + x],
                    },
            ),
    )
}

/// A frame as rows of cells, as large as fits into `cols` by `rows` cells: one
/// blank row where nothing fits.
pub open spec fn halfblock_rows(frame: Preview, cols: u16, rows: u16) -> Seq<Seq<Cell>> {
    let size = fit_size(frame.width, frame.height, cols, rows);
    if size.0 == 0 || size.1 == 0 {
        seq![Seq::empty()]
    } else {
        paired(
            resampled(
                frame.data@,
                frame.width as int,
                frame.height as int,
                size.0,
                size.1,
            ),
            size.0,
            size.1,
        )
    }
}

/// The indices of the two pixels of a cell lie within the picture.
proof fn lemma_cell_indices(w: int, h: int, row: int, x: int)
    requires
        0 <= row < h / 2,
        0 <= x < w,
        h % 2 == 0,
    ensures
        0 <= 2 * row * w + x < w * h,
        0 <= (2 * row + 1) * w + x < w * h,
        (2 * row + 1) * w == 2 * row * w + w,
{
    assert((2 * row + 1) * w == 2 * row * w + w) by (nonlinear_arith);
    assert(0 <= 2 * row * w) by (nonlinear_arith)
        requires
            0 <= row,
            0 < w,
    ;
    assert((2 * row + 2) * w <= h * w) by (nonlinear_arith)
        requires
            2 * row + 2 <= h,
            0 < w,
    ;
    assert((2 * row + 2) * w == 2 * row * w + w + w) by (nonlinear_arith);
    assert(h * w == w * h) by (nonlinear_arith);
}

/// Renders a frame as half blocks: one cell carries two vertical pixels.
pub fn halfblocks(frame: &Preview, cols: u16, rows: u16) -> (out: Vec<Vec<Cell>>)
    requires
        2 * cols * rows <= isize::MAX,
    ensures
        cell_rows(out@) == halfblock_rows(*frame, cols, rows),
        out@.len() == halfblock_rows(*frame, cols, rows).len(),
        forall|i: int|
            0 <= i < out@.len() ==> (#[trigger] out@[i])@ == halfblock_rows(*frame, cols, rows)[i],
{
    let size: (usize, usize) = fit(frame, cols, rows);
    let w: usize = size.0;
    let h: usize = size.1;
    let mut out: Vec<Vec<Cell>> = Vec::new();
    if w == 0 || h == 0 {
        out.push(Vec::new());
        proof {
            assert(cell_rows(out@) =~= seq![Seq::empty()]);
        }
        return out;
    }
    proof {
        assert(w * h <= cols * (2 * rows)) by (nonlinear_arith)
            requires
                0 <= w <= cols,
                0 <= h <= 2 * rows,
        ;
        assert(cols * (2 * rows) == 2 * cols * rows) by (nonlinear_arith);
    }
    let pixels: Vec<u8> = sample(frame, w, h);
    let ghost wanted = halfblock_rows(*frame, cols, rows);
    let mut row: usize = 0;
    while row < h / 2
        invariant
            row <= h / 2,
            h % 2 == 0,
            0 < w,
            w * h <= isize::MAX,
            pixels@.len() == w * h,
            wanted == paired(pixels@, w as nat, h as nat),
            out@.len() == row,
            forall|j: int| 0 <= j < row ==> #[trigger] out@[j]@ == wanted[j],
        decreases h / 2 - row,
    {
        let mut cells: Vec<Cell> = Vec::new();
        let mut x: usize = 0;
        while x < w
            invariant
                row < h / 2,
                h % 2 == 0,
                x <= w,
                w * h <= isize::MAX,
                pixels@.len() == w * h,
                wanted == paired(pixels@, w as nat, h as nat),
                cells@.len() == x,
                forall|k: int| 0 <= k < x ==> #[trigger] cells@[k] == wanted[row as int][k],
            decreases w - x,
        {
            proof {
                lemma_cell_indices(w as int, h as int, row as int, x as int);
                assert(2 * row * w == (row * 2) * w);
            }
            let above: usize = row * 2 * w + x;
            let below: usize = (row * 2 + 1) * w + x;
            cells.push(Cell { top: pixels[above], bottom: pixels[below] });
            x = x + 1;
        }
        proof {
            assert(cells@ =~= wanted[row as int]);
        }
        out.push(cells);
        row = row + 1;
    }
    proof {
        assert(cell_rows(out@) =~= wanted);
    }
    out
}

/// The heading: what the session is doing, or how it ended.
pub open spec fn heading_text(app: AppModel) -> Seq<char> {
    match app.phase {
        PhaseModel::Connecting => "connecting to visaged…"@,
        PhaseModel::Capturing { label, n, total } => "["@ + decimal(n as nat) + "/"@ + decimal(
            total as nat,
        ) + "]  look "@ + label,
        PhaseModel::Done => match app.finished {
            Some(text) => text,
            None => "done"@,
        },
    }
}

/// The heading.
pub fn heading(app: &App) -> (text: String)
    ensures
        text@ == heading_text(app@),
{
    match &app.phase {
        Phase::Connecting => "connecting to visaged…".to_owned(),
        Phase::Capturing { label, n, total } => {
            let mut text: String = "[".to_owned();
            append_decimal(&mut text, *n as u64);
            text.append("/");
            append_decimal(&mut text, *total as u64);
            text.append("]  look ");
            text.append(label.as_str());
            text
        },
        Phase::Done => match &app.finished {
            Some(text) => text.clone(),
            None => "done".to_owned(),
        },
    }
}

/// The colour of a mark.
#[derive(Debug, Clone, Copy, PartialEq, Eq, Structural)]
pub enum Colour {
    Plain,
    Green,
    Red,
}

/// A line of the captures pane: a coloured mark, and text.
#[derive(Debug)]
pub struct CaptureLine {
    pub mark: &'static str,
    pub colour: Colour,
    pub text: String,
}

/// A line of the captures pane in terms of what it holds.
pub ghost struct CaptureLineModel {
    pub mark: Seq<char>,
    pub colour: Colour,
    pub text: Seq<char>,
}

impl View for CaptureLine {
    type V = CaptureLineModel;

    open spec fn view(&self) -> CaptureLineModel {
        CaptureLineModel { mark: self.mark@, colour: self.colour, text: self.text@ }
    }
}

/// The line on one outcome.
pub open spec fn capture_line(outcome: OutcomeModel) -> CaptureLineModel {
    CaptureLineModel {
        mark: if outcome.ok {
            "ok  "@
        } else {
            "fail"@
        },
        colour: if outcome.ok {
            Colour::Green
        } else {
            Colour::Red
        },
        text: "  "@ + outcome.label + "  "@ + outcome.detail,
    }
}

/// The lines of the captures pane: one for each outcome, and one that says so
/// while there is none.
pub open spec fn capture_lines(outcomes: Seq<OutcomeModel>) -> Seq<CaptureLineModel> {
    if outcomes.len() == 0 {
        seq![
            CaptureLineModel { mark: ""@, colour: Colour::Plain, text: "no captures yet"@ },
        ]
    } else {
        Seq::new(outcomes.len(), |i: int| capture_line(outcomes[i]))
    }
}

/// The models of a sequence of lines.
pub open spec fn line_models(lines: Seq<CaptureLine>) -> Seq<CaptureLineModel> {
    Seq::new(lines.len(), |i: int| lines[i]@)
}

/// The lines of the captures pane.
fn captures(app: &App) -> (lines: Vec<CaptureLine>)
    ensures
        line_models(lines@) == capture_lines(app@.outcomes),
{
    let mut lines: Vec<CaptureLine> = Vec::new();
    if app.outcomes.len() == 0 {
        lines.push(
            CaptureLine { mark: "", colour: Colour::Plain, text: "no captures yet".to_owned() },
        );
        proof {
            assert(line_models(lines@) =~= capture_lines(app@.outcomes));
        }
        return lines;
    }
    let mut i: usize = 0;
    while i < app.outcomes.len()
        invariant
            i <= app.outcomes.len(),
            lines@.len() == i,
            forall|j: int|
                0 <= j < i ==> #[trigger] lines@[j]@ == capture_line(app.outcomes@[j]@),
        decreases app.outcomes.len() - i,
    {
        let outcome: &Outcome = &app.outcomes[i];
        let mut text: String = "  ".to_owned();
        text.append(outcome.label.as_str());
        text.append("  ");
        text.append(outcome.detail.as_str());
        let line: CaptureLine = if outcome.ok {
            CaptureLine { mark: "ok  ", colour: Colour::Green, text }
        } else {
            CaptureLine { mark: "fail", colour: Colour::Red, text }
        };
        lines.push(line);
        i = i + 1;
    }
    proof {
        assert(line_models(lines@) =~= capture_lines(app@.outcomes));
    }
    lines
}

/// The height of the captures pane: a line for each of at most six outcomes, and
/// the border.
pub open spec fn captures_height(outcomes: nat) -> u16 {
    if outcomes < 1 {
        3
    } else if outcomes > MAX_SHOWN_CAPTURES {
        (MAX_SHOWN_CAPTURES + 2) as u16
    } else {
        (outcomes + 2) as u16
    }
}

/// The verdict on the latest frame: there is no signal while there is no frame.
pub open spec fn verdict_of(frame: Option<Preview>) -> Legibility {
    match frame {
        Some(p) => legibility(p.width, p.height, p.data@, p.is_dark),
        None => Legibility::NoSignal,
    }
}

/// What the picture pane holds.
#[derive(Debug)]
pub enum Body {
    /// A text.
    Text(&'static str),
    /// The frame, as rows of cells.
    Picture(Vec<Vec<Cell>>),
}

/// What the picture pane holds, in terms of what it holds.
pub ghost enum BodyModel {
    Text(Seq<char>),
    Picture(Seq<Seq<Cell>>),
}

impl View for Body {
    type V = BodyModel;

    open spec fn view(&self) -> BodyModel {
        match self {
            Body::Text(text) => BodyModel::Text(text@),
            Body::Picture(rows) => BodyModel::Picture(cell_rows(rows@)),
        }
    }
}

/// What the picture pane shows of a frame: the picture inside the border, or that
/// there is none.
pub open spec fn body_of(frame: Option<Preview>, pane: Area) -> BodyModel {
    if verdict_of(frame) is NoSignal {
        BodyModel::Text("waiting for the camera…"@)
    } else {
        BodyModel::Picture(
            halfblock_rows(frame->0, inside(pane, BORDER).width, inside(pane, BORDER).height),
        )
    }
}

/// The screen.
#[derive(Debug)]
pub struct Screen {
    pub panes: Panes,
    pub heading: String,
    /// The title of the picture pane: the advice.
    pub title: String,
    pub body: Body,
    pub captures: Vec<CaptureLine>,
}

/// The screen in terms of what it holds.
pub ghost struct ScreenModel {
    pub panes: Panes,
    pub heading: Seq<char>,
    pub title: Seq<char>,
    pub body: BodyModel,
    pub captures: Seq<CaptureLineModel>,
}

impl View for Screen {
    type V = ScreenModel;

    open spec fn view(&self) -> ScreenModel {
        ScreenModel {
            panes: self.panes,
            heading: self.heading@,
            title: self.title@,
            body: self.body@,
            captures: line_models(self.captures@),
        }
    }
}

/// What the panes show.
pub open spec fn composition(app: AppModel, panes: Panes) -> ScreenModel {
    ScreenModel {
        panes,
        heading: heading_text(app),
        title: " "@ + advice_text(verdict_of(app.frame)) + " "@,
        body: body_of(app.frame, panes.picture),
        captures: capture_lines(app.outcomes),
    }
}

/// Whether a picture that fills `area` can be held in memory.
pub open spec fn is_drawable(area: Area) -> bool {
    2 * area.width * area.height <= isize::MAX
}

/// Fills the panes.
pub fn compose(app: &App, panes: Panes) -> (screen: Screen)
    requires
        is_drawable(panes.picture),
    ensures
        screen@ == composition(app@, panes),
        screen.captures@.len() == capture_lines(app@.outcomes).len(),
        forall|i: int|
            0 <= i < screen.captures@.len() ==> (#[trigger] screen.captures@[i])@ == capture_lines(
                app@.outcomes,
            )[i],
{
    let verdict: Legibility = match &app.frame {
        Some(frame) => assess(frame),
        None => Legibility::NoSignal,
    };
    let mut title: String = " ".to_owned();
    title.append(verdict.advice());
    title.append(" ");
    let space: Area = inner(panes.picture, BORDER);
    let body: Body = match &app.frame {
        Some(frame) => match verdict {
            Legibility::NoSignal => Body::Text(Legibility::NoSignal.advice()),
            _ => {
                proof {
                    let p = panes.picture;
                    assert(2 * space.width * space.height <= 2 * p.width * p.height)
                        by (nonlinear_arith)
                        requires
                            0 <= space.width <= p.width,
                            0 <= space.height <= p.height,
                    ;
                }
                Body::Picture(halfblocks(frame, space.width, space.height))
            },
        },
        None => Body::Text(Legibility::NoSignal.advice()),
    };
    let lines: Vec<CaptureLine> = captures(app);
    proof {
        let models = line_models(lines@);
        assert(models.len() == lines@.len());
        assert forall|i: int| 0 <= i < models.len() implies (#[trigger] lines@[i])@
            == models[i] by {}
    }
    Screen { panes, heading: heading(app), title, body, captures: lines }
}

/// Draws the screen: divides the area into panes and fills them.
pub fn draw(app: &App, area: Area) -> (screen: Screen)
    requires
        area.y + area.height <= u16::MAX,
        is_drawable(area),
    ensures
        divides(
            screen.panes,
            area,
            HEADING_HEIGHT,
            PICTURE_MIN_HEIGHT,
            captures_height(app.outcomes@.len()),
        ),
        screen@ == composition(app@, screen.panes),
{
    let n: usize = app.outcomes.len();
    let shown: usize = if n < 1 {
        1
    } else if n > MAX_SHOWN_CAPTURES {
        MAX_SHOWN_CAPTURES
    } else {
        n
    };
    let panes: Panes = split_rows(area, HEADING_HEIGHT, PICTURE_MIN_HEIGHT, shown as u16 + 2);
    proof {
        assert(2 * panes.picture.width * panes.picture.height <= 2 * area.width * area.height)
            by (nonlinear_arith)
            requires
                0 <= panes.picture.width <= area.width,
                0 <= panes.picture.height <= area.height,
        ;
    }
    compose(app, panes)
}

/// A picture never leaves its space: it has at most as many rows and columns of
/// cells as there are.
pub proof fn pictures_stay_inside(frame: Preview, cols: u16, rows: u16)
    requires
        cols > 0,
        rows > 0,
    ensures
        halfblock_rows(frame, cols, rows).len() <= rows,
        forall|i: int|
            0 <= i < halfblock_rows(frame, cols, rows).len() ==> (#[trigger] halfblock_rows(
                frame,
                cols,
                rows,
            )[i]).len() <= cols,
{
    fits_stay_inside_the_cells(frame.width, frame.height, cols, rows);
}

/// On a terminal too low for every pane, the picture comes first: it has its least
/// height, or all there is.
pub proof fn cramped_screens_show_the_picture(panes: Panes, area: Area, outcomes: nat)
    requires
        divides(panes, area, HEADING_HEIGHT, PICTURE_MIN_HEIGHT, captures_height(outcomes)),
    ensures
        panes.picture.height >= PICTURE_MIN_HEIGHT || panes.picture.height == area.height,
        panes.heading.y + panes.heading.height == panes.picture.y,
        panes.picture.y + panes.picture.height == panes.captures.y,
        panes.captures.y + panes.captures.height <= area.y + area.height,
{
}

/// On a terminal with room for every pane, the panes tile the screen: the heading
/// and the captures keep their heights, and the picture has all the rest.
pub proof fn roomy_screens_are_tiled(panes: Panes, area: Area, outcomes: nat)
    requires
        area.height >= HEADING_HEIGHT + PICTURE_MIN_HEIGHT + captures_height(outcomes),
        divides(panes, area, HEADING_HEIGHT, PICTURE_MIN_HEIGHT, captures_height(outcomes)),
    ensures
        panes.heading.height == HEADING_HEIGHT,
        panes.picture.height >= PICTURE_MIN_HEIGHT,
        panes.captures.height == captures_height(outcomes),
        panes.heading.y == area.y,
        panes.picture.y == panes.heading.y + panes.heading.height,
        panes.captures.y == panes.picture.y + panes.picture.height,
        panes.captures.y + panes.captures.height == area.y + area.height,
{
}

/// Every pixel of a picture is drawn, once: those of even rows as the upper half of a
/// cell, those of odd rows as the lower half of the same one.
pub proof fn every_pixel_is_drawn(pixels: Seq<u8>, w: nat, h: nat, x: int, y: int)
    requires
        h % 2 == 0,
        0 <= x < w,
        0 <= y < h,
    ensures
        paired(pixels, w, h).len() == h / 2,
        paired(pixels, w, h)[y / 2].len() == w,
        y % 2 == 0 ==> paired(pixels, w, h)[y / 2][x].top == pixels[y * w + x],
        y % 2 == 1 ==> paired(pixels, w, h)[y / 2][x].bottom == pixels[y * w + x],
{
    if y % 2 == 0 {
        assert(2 * (y / 2) == y);
    } else {
        assert(2 * (y / 2) + 1 == y);
    }
}

/// A frame is drawn at the size that fits: the cell at column `x` of row `row` shows
/// what sampling the frame at that size gives for the two pixels that it covers. A
/// frame or a space without extent leaves one blank row.
pub proof fn frames_are_drawn_as_sampled(frame: Preview, cols: u16, rows: u16, x: int, row: int)
    requires
        0 <= x < fit_size(frame.width, frame.height, cols, rows).0,
        0 <= row < fit_size(frame.width, frame.height, cols, rows).1 / 2,
    ensures
        ({
            let (w, h) = fit_size(frame.width, frame.height, cols, rows);
            let pixels = resampled(
                frame.data@,
                frame.width as int,
                frame.height as int,
                w,
                h,
            );
            let drawn = halfblock_rows(frame, cols, rows);
            &&& drawn.len() == h / 2
            &&& drawn[row].len() == w
            &&& drawn[row][x].top == pixels[(2 * row) * w + x]
            &&& drawn[row][x].bottom == pixels[(2 * row + 1) * w + x]
        }),
{
}

/// Where there is no room, or the frame has no extent, one blank row is drawn, and
/// nowhere else.
pub proof fn blank_rows_mean_no_room(frame: Preview, cols: u16, rows: u16)
    ensures
        halfblock_rows(frame, cols, rows) == seq![Seq::<Cell>::empty()] <==> frame.width == 0
            || frame.height == 0 || cols == 0 || rows == 0,
{
    fits_stay_inside_the_cells(frame.width, frame.height, cols, rows);
    let (w, h) = fit_size(frame.width, frame.height, cols, rows);
    if w > 0 && h > 0 {
        let drawn = halfblock_rows(frame, cols, rows);
        assert(drawn[0].len() == w);
    }
}

/// The heading says what is going on: connecting, which label of how many, or how it
/// ended.
pub proof fn headings_say_what_is_going_on(
    app: AppModel,
    label: Seq<char>,
    n: usize,
    total: usize,
    text: Seq<char>,
)
    ensures
        app.phase is Connecting ==> heading_text(app) == "connecting to visaged…"@,
        app.phase == (PhaseModel::Capturing { label, n, total }) ==> heading_text(app) == "["@
            + decimal(n as nat) + "/"@ + decimal(total as nat) + "]  look "@ + label,
        app.phase is Done && app.finished == Some(text) ==> heading_text(app) == text,
        app.phase is Done && app.finished is None ==> heading_text(app) == "done"@,
{
}

/// There is a line for each capture, in order, that says whether it worked, its label
/// and its detail, and one line that says so while there is none.
pub proof fn captures_are_listed_in_order(outcomes: Seq<OutcomeModel>, i: int)
    requires
        0 <= i < outcomes.len(),
    ensures
        capture_lines(outcomes).len() == outcomes.len(),
        capture_lines(outcomes)[i].text == "  "@ + outcomes[i].label + "  "@ + outcomes[i].detail,
        outcomes[i].ok ==> capture_lines(outcomes)[i].mark == "ok  "@ && capture_lines(
            outcomes,
        )[i].colour is Green,
        !outcomes[i].ok ==> capture_lines(outcomes)[i].mark == "fail"@ && capture_lines(
            outcomes,
        )[i].colour is Red,
        capture_lines(Seq::empty()).len() == 1,
        capture_lines(Seq::empty())[0].text == "no captures yet"@,
        capture_lines(Seq::empty())[0].colour is Plain,
{
}

/// The captures have as many lines as there are of them, at least one and at most six,
/// inside a border.
pub proof fn captures_have_one_to_six_lines(outcomes: nat)
    ensures
        outcomes == 0 ==> captures_height(outcomes) == 3,
        1 <= outcomes <= 6 ==> captures_height(outcomes) == outcomes + 2,
        outcomes > 6 ==> captures_height(outcomes) == 8,
{
}

/// A screen shows the heading, the advice and the captures of what it is given, in the
/// panes that it is given, and the picture inside the border of its pane wherever there
/// is a signal.
pub proof fn screens_show_what_there_is(app: AppModel, panes: Panes, frame: Preview)
    ensures
        composition(app, panes).panes == panes,
        composition(app, panes).heading == heading_text(app),
        composition(app, panes).captures == capture_lines(app.outcomes),
        app.frame is None ==> {
            &&& composition(app, panes).title == " "@ + "waiting for the camera…"@ + " "@
            &&& composition(app, panes).body == BodyModel::Text("waiting for the camera…"@)
        },
        app.frame == Some(frame) ==> {
            let verdict = legibility(frame.width, frame.height, frame.data@, frame.is_dark);
            &&& composition(app, panes).title == " "@ + advice_text(verdict) + " "@
            &&& verdict is NoSignal ==> composition(app, panes).body == BodyModel::Text(
                "waiting for the camera…"@,
            )
            &&& verdict !is NoSignal ==> composition(app, panes).body == BodyModel::Picture(
                halfblock_rows(
                    frame,
                    inside(panes.picture, 1).width,
                    inside(panes.picture, 1).height,
                ),
            )
        },
{
}

/// A model of a line holds all that the line does, and that of rows each of their cells.
pub proof fn line_models_hold_everything(line: CaptureLine, rows: Seq<Vec<Cell>>, i: int)
    requires
        0 <= i < rows.len(),
    ensures
        line@.mark == line.mark@,
        line@.colour == line.colour,
        line@.text == line.text@,
        cell_rows(rows).len() == rows.len(),
        cell_rows(rows)[i] == rows[i]@,
{
}

} // verus!
