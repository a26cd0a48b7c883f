//! The window front-end: what it shows.
use crate::preview::{advice_text, assess, judge, legibility, Legibility, Preview};
use crate::screen::{composition, heading, heading_text, verdict_of, Colour, Panes};
use crate::session::{
    finished_sessions_account_for_every_label, unfinished_sessions_say_so, App, AppModel, Outcome,
    OutcomeModel, Session,
};
use eframe::egui::ColorImage;
use vstd::prelude::*;

verus! {

/// The advice on the latest frame: its width, its height, its grayscale bytes and
/// the daemon's dark verdict.
pub fn advice(frame: Option<&(u32, u32, Vec<u8>, bool)>) -> (text: &'static str)
    ensures
        text@ == advice_text(
            match frame {
                None => Legibility::NoSignal,
                Some(f) => legibility(f.0, f.1, f.2@, f.3),
            },
        ),
{
    match frame {
        None => Legibility::NoSignal.advice(),
        Some(f) => judge(f.0, f.1, f.2.as_slice(), f.3).advice(),
    }
}

/// Each gray value as a red, a green and a blue one.
pub open spec fn gray_as_rgb(pixels: Seq<u8>) -> Seq<u8> {
    Seq::new(3 * pixels.len(), |i: int| pixels[i / 3])
}

/// Turns gray pixels into opaque colours.
pub fn to_rgb(pixels: &[u8]) -> (rgb: Vec<u8>)
    ensures
        rgb@ == gray_as_rgb(pixels@),
{
    let mut rgb: Vec<u8> = Vec::new();
    let mut i: usize = 0;
    while i < pixels.len()
        invariant
            i <= pixels.len(),
            rgb@.len() == 3 * i,
            forall|j: int| 0 <= j < 3 * i ==> #[trigger] rgb@[j] == pixels@[j / 3],
        decreases pixels.len() - i,
    {
        let p: u8 = pixels[i];
        rgb.push(p);
        rgb.push(p);
        rgb.push(p);
        i = i + 1;
    }
    proof {
        assert(rgb@ =~= gray_as_rgb(pixels@));
    }
    rgb
}

/// An image in memory, `egui::ColorImage`.
#[verifier::external_type_specification]
#[verifier::external_body]
pub struct ExColorImage(ColorImage);

/// The colours that an image holds, row by row: red, green and blue.
pub uninterp spec fn image_colours(image: ColorImage) -> Seq<(u8, u8, u8)>;

/// The width and the height of an image.
pub uninterp spec fn image_size(image: ColorImage) -> (usize, usize);

/// Makes an image out of flat colours, with `egui::ColorImage::from_rgb`.
///
/// The image has the given size, and holds one opaque colour for every three
/// bytes, in order. Bytes that are not exactly three for each of the image's
/// pixels make the call panic, and are left out.
#[verifier::external_body]
fn color_image(width: usize, height: usize, rgb: &[u8]) -> (image: ColorImage)
    requires
        width * height * 3 == rgb@.len(),
    ensures
        image_size(image) == (width, height),
        image_colours(image) == Seq::new(
            (width * height) as nat,
            |i: int| (rgb@[3 * i], rgb@[3 * i + 1], rgb@[3 * i + 2]),
        ),
{
    ColorImage::from_rgb([width, height], rgb)
}

/// What the window shows of the latest frame.
pub enum Picture {
    /// A text, while there is no frame.
    NoFrames(&'static str),
    /// Nothing: the frame is empty or malformed.
    Hidden,
    /// The frame, at twice its size.
    Image(ColorImage),
}

/// What the window shows of a frame, in terms of what it holds.
pub ghost enum PictureModel {
    NoFrames(Seq<char>),
    Hidden,
    Image { size: (usize, usize), colours: Seq<(u8, u8, u8)> },
}

impl View for Picture {
    type V = PictureModel;

    open spec fn view(&self) -> PictureModel {
        match self {
            Picture::NoFrames(text) => PictureModel::NoFrames(text@),
            Picture::Hidden => PictureModel::Hidden,
            Picture::Image(image) => PictureModel::Image {
                size: image_size(*image),
                colours: image_colours(*image),
            },
        }
    }
}

/// Whether a frame can be shown: there is a signal.
pub open spec fn is_shown(frame: Preview) -> bool {
    legibility(frame.width, frame.height, frame.data@, frame.is_dark) !is NoSignal
}

/// Whether a frame holds exactly its pixels, and their colours fit into memory.
pub open spec fn is_whole(frame: Preview) -> bool {
    &&& frame.data@.len() == frame.width * frame.height
    &&& 3 * frame.data@.len() <= isize::MAX
}

/// Whether the latest frame, if it is shown at all, is whole.
pub open spec fn is_displayable(frame: Option<Preview>) -> bool {
    match frame {
        None => true,
        Some(p) => is_shown(p) ==> is_whole(p),
    }
}

/// What the window shows of the latest frame.
pub open spec fn picture_of(frame: Option<Preview>) -> PictureModel {
    match frame {
        None => PictureModel::NoFrames("no frames yet"@),
        Some(p) => if is_shown(p) {
            PictureModel::Image {
                size: (p.width as usize, p.height as usize),
                colours: Seq::new(p.data@.len(), |i: int| (p.data@[i], p.data@[i], p.data@[i])),
            }
        } else {
            PictureModel::Hidden
        },
    }
}

/// A line on an outcome.
#[derive(Debug)]
pub struct ShotLine {
    pub colour: Colour,
    pub text: String,
}

/// A line on an outcome, in terms of what it holds.
pub ghost struct ShotLineModel {
    pub colour: Colour,
    pub text: Seq<char>,
}

impl View for ShotLine {
    type V = ShotLineModel;

    open spec fn view(&self) -> ShotLineModel {
        ShotLineModel { colour: self.colour, text: self.text@ }
    }
}

/// The line on one outcome.
pub open spec fn shot_line(outcome: OutcomeModel) -> ShotLineModel {
    ShotLineModel {
        colour: if outcome.ok {
            Colour::Green
        } else {
            Colour::Red
        },
        text: outcome.label + "  "@ + outcome.detail,
    }
}

/// The models of a sequence of lines.
pub open spec fn shot_models(lines: Seq<ShotLine>) -> Seq<ShotLineModel> {
    Seq::new(lines.len(), |i: int| lines[i]@)
}

/// What the window shows.
pub struct WindowView {
    pub heading: String,
    pub advice: &'static str,
    pub picture: Picture,
    pub shots: Vec<ShotLine>,
}

/// What the window shows, in terms of what it holds.
pub ghost struct WindowModel {
    pub heading: Seq<char>,
    pub advice: Seq<char>,
    pub picture: PictureModel,
    pub shots: Seq<ShotLineModel>,
}

impl View for WindowView {
    type V = WindowModel;

    open spec fn view(&self) -> WindowModel {
        WindowModel {
            heading: self.heading@,
            advice: self.advice@,
            picture: self.picture@,
            shots: shot_models(self.shots@),
        }
    }
}

/// The window's heading: how the session ended, or what it is doing.
pub open spec fn window_heading(app: AppModel) -> Seq<char> {
    match app.finished {
        Some(text) => text,
        None => heading_text(app),
    }
}

/// What the window shows.
pub open spec fn window_contents(app: AppModel) -> WindowModel {
    WindowModel {
        heading: window_heading(app),
        advice: advice_text(verdict_of(app.frame)),
        picture: picture_of(app.frame),
        shots: Seq::new(app.outcomes.len(), |i: int| shot_line(app.outcomes[i])),
    }
}

/// The latest frame as the window shows it.
fn picture(frame: &Option<Preview>) -> (picture: Picture)
    requires
        is_displayable(*frame),
    ensures
        picture@ == picture_of(*frame),
{
    match frame {
        None => Picture::NoFrames("no frames yet"),
        Some(p) => if assess(p) != Legibility::NoSignal {
            let rgb: Vec<u8> = to_rgb(p.data.as_slice());
            let image: ColorImage = color_image(p.width as usize, p.height as usize, rgb.as_slice());
            proof {
                assert(image_colours(image) =~= Seq::new(
                    p.data@.len(),
                    |i: int| (p.data@[i], p.data@[i], p.data@[i]),
                ));
            }
            Picture::Image(image)
        } else {
            Picture::Hidden
        },
    }
}

/// What the window shows.
pub fn window_view(app: &App) -> (shown: WindowView)
    requires
        is_displayable(app.frame),
    ensures
        shown@ == window_contents(app@),
        shown.shots@.len() == app@.outcomes.len(),
        forall|i: int|
            0 <= i < shown.shots@.len() ==> (#[trigger] shown.shots@[i])@ == shot_line(
                app@.outcomes[i],
            ),
{
    let title: String = match &app.finished {
        Some(text) => text.clone(),
        None => heading(app),
    };
    let said: &'static str = match &app.frame {
        None => Legibility::NoSignal.advice(),
        Some(p) => assess(p).advice(),
    };
    let mut shots: Vec<ShotLine> = Vec::new();
    let mut i: usize = 0;
    while i < app.outcomes.len()
        invariant
            i <= app.outcomes.len(),
            shots@.len() == i,
            forall|j: int| 0 <= j < i ==> #[trigger] shots@[j]@ == shot_line(app.outcomes@[j]@),
        decreases app.outcomes.len() - i,
    {
        let outcome: &Outcome = &app.outcomes[i];
        let mut text: String = outcome.label.clone();
        text.append("  ");
        text.append(outcome.detail.as_str());
        let colour: Colour = if outcome.ok {
            Colour::Green
        } else {
            Colour::Red
        };
        shots.push(ShotLine { colour, text });
        i = i + 1;
    }
    let shown: WindowView = WindowView {
        heading: title,
        advice: said,
        picture: picture(&app.frame),
        shots,
    };
    proof {
        assert(shown@.shots =~= window_contents(app@).shots);
    }
    shown
}

/// Both front-ends say the same thing about the same frame, whatever it is, and show
/// a picture of the same frames.
pub proof fn front_ends_agree_on_the_advice(app: AppModel, panes: Panes)
    ensures
        composition(app, panes).title == " "@ + window_contents(app).advice + " "@,
        composition(app, panes).body is Picture <==> window_contents(app).picture is Image,
{
}

/// Both front-ends show the same heading at every point of a session.
pub proof fn front_ends_agree_on_the_heading(session: Session)
    requires
        session.wf(),
    ensures
        window_heading(session.shown()) == heading_text(session.shown()),
{
    if session.next() is Finished {
        finished_sessions_account_for_every_label(session);
    } else {
        unfinished_sessions_say_so(session);
    }
}

/// Every pixel becomes three equal ones.
pub proof fn gray_has_equal_parts(pixels: Seq<u8>, i: int)
    requires
        0 <= i < pixels.len(),
    ensures
        gray_as_rgb(pixels).len() == 3 * pixels.len(),
        gray_as_rgb(pixels)[3 * i] == pixels[i],
        gray_as_rgb(pixels)[3 * i + 1] == pixels[i],
        gray_as_rgb(pixels)[3 * i + 2] == pixels[i],
{
}

/// The window shows a frame with a signal at its own size, each pixel as a gray of its
/// value, hides one without, and says so while there is none.
pub proof fn windows_show_frames_as_they_are(frame: Preview, i: int)
    requires
        0 <= i < frame.data@.len(),
    ensures
        ({
            let verdict = legibility(frame.width, frame.height, frame.data@, frame.is_dark);
            &&& verdict is NoSignal <==> picture_of(Some(frame)) is Hidden
            &&& verdict !is NoSignal ==> {
                &&& picture_of(Some(frame)) is Image
                &&& picture_of(Some(frame))->size == (frame.width as usize, frame.height as usize)
                &&& picture_of(Some(frame))->colours.len() == frame.data@.len()
                &&& picture_of(Some(frame))->colours[i] == (
                    frame.data@[i],
                    frame.data@[i],
                    frame.data@[i],
                )
            }
        }),
        picture_of(None) == PictureModel::NoFrames("no frames yet"@),
{
}

/// The window lists each shot in order, with its label and its detail, in green if it
/// worked and in red if it did not, under the heading and the advice.
pub proof fn windows_list_every_shot(app: AppModel, i: int)
    requires
        0 <= i < app.outcomes.len(),
    ensures
        window_contents(app).shots.len() == app.outcomes.len(),
        window_contents(app).shots[i].text == app.outcomes[i].label + "  "@
            + app.outcomes[i].detail,
        window_contents(app).shots[i].colour is Green <==> app.outcomes[i].ok,
        window_contents(app).shots[i].colour is Red <==> !app.outcomes[i].ok,
        window_contents(app).heading == window_heading(app),
        window_contents(app).picture == picture_of(app.frame),
        app.finished matches Some(text) ==> window_heading(app) == text,
        app.finished is None ==> window_heading(app) == heading_text(app),
{
}

/// A model of a line holds all that the line does.
pub proof fn shot_models_hold_everything(line: ShotLine)
    ensures
        line@.colour == line.colour,
        line@.text == line.text@,
{
}

} // verus!
