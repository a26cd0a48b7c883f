//! The engine: how it starts, which failures it reports, and how it heals a
//! broken camera.
use crate::camera::{camera_text, CameraError, CameraFault};
use crate::scalar::Scalar;
use crate::text::{join, text_of};
use vstd::prelude::*;

verus! {

/// What can go wrong in the engine.
#[derive(Debug)]
pub enum EngineError {
    Camera(CameraError),
    Detector(String),
    Recognizer(String),
    /// No face was detected in any captured frame.
    NoFaceDetected,
    /// The camera returned only dark or unreadable frames.
    NoUsableFrames,
    /// The landmarks moved less than a live face would.
    LivenessCheckFailed { displacement: Scalar, threshold: Scalar },
    VerifyTimeout,
    /// The engine thread exited.
    ChannelClosed,
}

/// What an engine error says.
pub ghost enum EngineFault {
    Camera(CameraFault),
    Detector(Seq<char>),
    Recognizer(Seq<char>),
    NoFaceDetected,
    NoUsableFrames,
    LivenessCheckFailed { displacement: Scalar, threshold: Scalar },
    VerifyTimeout,
    ChannelClosed,
}

impl View for EngineError {
    type V = EngineFault;

    open spec fn view(&self) -> EngineFault {
        match self {
            EngineError::Camera(e) => EngineFault::Camera(e@),
            EngineError::Detector(s) => EngineFault::Detector(s@),
            EngineError::Recognizer(s) => EngineFault::Recognizer(s@),
            EngineError::NoFaceDetected => EngineFault::NoFaceDetected,
            EngineError::NoUsableFrames => EngineFault::NoUsableFrames,
            EngineError::LivenessCheckFailed { displacement, threshold } =>
                EngineFault::LivenessCheckFailed {
                displacement: *displacement,
                threshold: *threshold,
            },
            EngineError::VerifyTimeout => EngineFault::VerifyTimeout,
            EngineError::ChannelClosed => EngineFault::ChannelClosed,
        }
    }
}

/// How an engine error reads. A rejected liveness check is left to whoever writes
/// its two numbers out.
pub open spec fn engine_text(fault: EngineFault) -> Option<Seq<char>> {
    match fault {
        EngineFault::Camera(e) => Some("camera error: "@ + camera_text(e)),
        EngineFault::Detector(e) => Some("detector error: "@ + e),
        EngineFault::Recognizer(e) => Some("recognizer error: "@ + e),
        EngineFault::NoFaceDetected => Some("no face detected in any captured frame"@),
        EngineFault::NoUsableFrames => Some(
            "no usable frames captured (camera returned only dark or unreadable frames)"@,
        ),
        EngineFault::LivenessCheckFailed { .. } => None,
        EngineFault::VerifyTimeout => Some("verification timed out"@),
        EngineFault::ChannelClosed => Some("engine thread exited"@),
    }
}

impl EngineError {
    /// How the error reads, unless it holds numbers to be written out.
    pub fn message(&self) -> (text: Option<String>)
        ensures
            text_of(text) == engine_text(self@),
    {
        match self {
            EngineError::Camera(e) => Some(join("camera error: ", e.message().as_str())),
            EngineError::Detector(e) => Some(join("detector error: ", e.as_str())),
            EngineError::Recognizer(e) => Some(join("recognizer error: ", e.as_str())),
            EngineError::NoFaceDetected => Some(
                "no face detected in any captured frame".to_owned(),
            ),
            EngineError::NoUsableFrames => Some(
                "no usable frames captured (camera returned only dark or unreadable frames)".to_owned(),
            ),
            EngineError::LivenessCheckFailed { .. } => None,
            EngineError::VerifyTimeout => Some("verification timed out".to_owned()),
            EngineError::ChannelClosed => Some("engine thread exited".to_owned()),
        }
    }
}

/// Consecutive camera-broken captures before the engine re-opens the device.
pub const MAX_CONSECUTIVE_CAPTURE_FAILURES: u32 = 3;

/// Whether an error says that the camera is broken, rather than that nobody was
/// recognised.
pub open spec fn camera_is_broken(fault: EngineFault) -> bool {
    fault is NoUsableFrames || fault is Camera
}

/// True only when a result indicates that the camera is broken: dark or
/// unreadable frames, or a capture error. Never for an absent or unrecognised
/// user, a verify timeout, or a liveness rejection.
pub fn capture_looks_broken<T>(result: &Result<T, EngineError>) -> (broken: bool)
    ensures
        broken == match result {
            Ok(_) => false,
            Err(e) => camera_is_broken(e@),
        },
        broken <==> (result matches Err(e) && (e is NoUsableFrames || e is Camera)),
{
    match result {
        Err(EngineError::NoUsableFrames) => true,
        Err(EngineError::Camera(_)) => true,
        _ => false,
    }
}

/// What happens to a camera, as far as healing is concerned.
pub ghost enum HealEvent {
    /// A request was served; the camera looked broken, or did not.
    Served { broken: bool },
    /// The camera was re-opened, or could not be.
    Reopened { opened: bool },
}

/// Consecutive failures after a history.
pub open spec fn failures_after(history: Seq<HealEvent>) -> nat
    decreases history.len(),
{
    if history.len() == 0 {
        0
    } else {
        let before = failures_after(history.drop_last());
        match history.last() {
            HealEvent::Served { broken } => if broken {
                before + 1
            } else {
                0
            },
            HealEvent::Reopened { opened } => if opened {
                0
            } else {
                before
            },
        }
    }
}

/// Which of the requests in a history left the camera looking broken.
pub open spec fn served(history: Seq<HealEvent>) -> Seq<bool>
    decreases history.len(),
{
    if history.len() == 0 {
        Seq::empty()
    } else {
        let before = served(history.drop_last());
        match history.last() {
            HealEvent::Served { broken } => before.push(broken),
            HealEvent::Reopened { .. } => before,
        }
    }
}

/// What to do once a request was served.
#[derive(Debug, Clone, Copy, PartialEq, Eq, Structural)]
pub enum HealAction {
    /// Serve the next request.
    Continue,
    /// Re-open the camera first.
    Reopen,
}

/// Counts broken captures, and asks for the camera to be re-opened when there
/// were too many in a row.
pub struct SelfHeal {
    consecutive_failures: u32,
    history: Ghost<Seq<HealEvent>>,
}

impl SelfHeal {
    /// What happened so far.
    pub closed spec fn history(&self) -> Seq<HealEvent> {
        self.history@
    }

    /// The count is that of the history.
    pub closed spec fn wf(&self) -> bool {
        self.consecutive_failures == failures_after(self.history@)
    }

    /// Nothing has happened yet.
    pub fn new() -> (heal: SelfHeal)
        ensures
            heal.wf(),
            heal.history().len() == 0,
    {
        SelfHeal { consecutive_failures: 0, history: Ghost(Seq::empty()) }
    }

    /// Broken captures in a row.
    pub fn consecutive_failures(&self) -> (n: u32)
        requires
            self.wf(),
        ensures
            n == failures_after(self.history()),
    {
        self.consecutive_failures
    }

    /// A request was served.
    pub fn served(&mut self, broken: bool) -> (action: HealAction)
        requires
            old(self).wf(),
            failures_after(old(self).history()) < u32::MAX,
        ensures
            final(self).wf(),
            final(self).history() == old(self).history().push(HealEvent::Served { broken }),
            action == if failures_after(final(self).history()) >= MAX_CONSECUTIVE_CAPTURE_FAILURES {
                HealAction::Reopen
            } else {
                HealAction::Continue
            },
            action is Reopen <==> failures_after(final(self).history()) >= 3,
    {
        let ghost before = self.history@;
        let ghost now = before.push(HealEvent::Served { broken });
        proof {
            assert(now.drop_last() =~= before);
        }
        self.history = Ghost(now);
        if broken {
            self.consecutive_failures = self.consecutive_failures + 1;
            if self.consecutive_failures >= MAX_CONSECUTIVE_CAPTURE_FAILURES {
                return HealAction::Reopen;
            }
        } else {
            self.consecutive_failures = 0;
        }
        HealAction::Continue
    }

    /// The camera was re-opened. If it could not be, the count stays, so that
    /// the next broken capture asks again.
    pub fn reopened(&mut self, opened: bool)
        requires
            old(self).wf(),
        ensures
            final(self).wf(),
            final(self).history() == old(self).history().push(HealEvent::Reopened { opened }),
    {
        let ghost before = self.history@;
        let ghost now = before.push(HealEvent::Reopened { opened });
        proof {
            assert(now.drop_last() =~= before);
        }
        self.history = Ghost(now);
        if opened {
            self.consecutive_failures = 0;
        }
    }
}

/// The camera is only re-opened when as many requests as it takes, the latest
/// ones, all left it looking broken. One that did not disarms the healing.
pub proof fn healing_needs_consecutive_failures(history: Seq<HealEvent>)
    ensures
        failures_after(history) <= served(history).len(),
        forall|i: int|
            served(history).len() - failures_after(history) <= i < served(history).len()
                ==> #[trigger] served(history)[i],
    decreases history.len(),
{
    if history.len() > 0 {
        healing_needs_consecutive_failures(history.drop_last());
    }
}

/// The count is that of the broken captures in a row: a broken one adds one, and one
/// that is not, or a camera that was re-opened, starts over. A re-opening that failed
/// changes nothing.
pub proof fn healing_counts_failures_in_a_row(history: Seq<HealEvent>)
    ensures
        failures_after(history.push(HealEvent::Served { broken: true })) == failures_after(history)
            + 1,
        failures_after(history.push(HealEvent::Served { broken: false })) == 0,
        failures_after(history.push(HealEvent::Reopened { opened: true })) == 0,
        failures_after(history.push(HealEvent::Reopened { opened: false })) == failures_after(
            history,
        ),
{
    assert(history.push(HealEvent::Served { broken: true }).drop_last() =~= history);
    assert(history.push(HealEvent::Served { broken: false }).drop_last() =~= history);
    assert(history.push(HealEvent::Reopened { opened: true }).drop_last() =~= history);
    assert(history.push(HealEvent::Reopened { opened: false }).drop_last() =~= history);
}

/// After a failed re-opening, the very next broken capture asks again.
pub proof fn healing_is_retried(history: Seq<HealEvent>)
    requires
        failures_after(history) >= MAX_CONSECUTIVE_CAPTURE_FAILURES,
    ensures
        failures_after(
            history.push(HealEvent::Reopened { opened: false }).push(
                HealEvent::Served { broken: true },
            ),
        ) >= MAX_CONSECUTIVE_CAPTURE_FAILURES,
{
    healing_counts_failures_in_a_row(history);
    healing_counts_failures_in_a_row(history.push(HealEvent::Reopened { opened: false }));
}

/// The outcome of a request to the engine thread: its reply, unless the request
/// was not taken or the reply never came.
pub fn request_outcome<T>(sent: bool, reply: Option<Result<T, EngineError>>) -> (outcome: Result<
    T,
    EngineError,
>)
    ensures
        sent && reply is Some ==> outcome == reply->0,
        !sent || reply is None ==> (outcome matches Err(e) && e@ is ChannelClosed),
{
    if !sent {
        return Err(EngineError::ChannelClosed);
    }
    match reply {
        Some(result) => result,
        None => Err(EngineError::ChannelClosed),
    }
}

/// Milliseconds that auto-gain is given to stabilise after the emitter came on.
pub const EMITTER_SETTLE_MILLIS: u64 = 100;

/// How long to wait before a capture: only if there is an emitter and it came
/// on. A failing emitter never fails a capture.
pub fn emitter_settle_millis(activated: Option<bool>) -> (millis: u64)
    ensures
        millis == if activated == Some(true) {
            EMITTER_SETTLE_MILLIS
        } else {
            0
        },
{
    match activated {
        Some(true) => EMITTER_SETTLE_MILLIS,
        _ => 0,
    }
}

/// The next call of a starting engine.
#[derive(Debug)]
pub enum StartupStep {
    OpenCamera,
    LoadDetector,
    LoadRecognizer,
    /// Look for an IR emitter that can be controlled.
    ProbeEmitter,
    ActivateEmitter,
    /// Capture this many usable frames in one stream, and discard them.
    WarmUp(usize),
    DeactivateEmitter,
    /// Serve requests.
    Serve,
    /// The engine cannot start.
    Failed(EngineError),
}

/// A step of a starting engine in terms of what it holds.
pub ghost enum StartupStepModel {
    OpenCamera,
    LoadDetector,
    LoadRecognizer,
    ProbeEmitter,
    ActivateEmitter,
    WarmUp(usize),
    DeactivateEmitter,
    Serve,
    Failed(EngineFault),
}

impl View for StartupStep {
    type V = StartupStepModel;

    open spec fn view(&self) -> StartupStepModel {
        match self {
            StartupStep::OpenCamera => StartupStepModel::OpenCamera,
            StartupStep::LoadDetector => StartupStepModel::LoadDetector,
            StartupStep::LoadRecognizer => StartupStepModel::LoadRecognizer,
            StartupStep::ProbeEmitter => StartupStepModel::ProbeEmitter,
            StartupStep::ActivateEmitter => StartupStepModel::ActivateEmitter,
            StartupStep::WarmUp(n) => StartupStepModel::WarmUp(*n),
            StartupStep::DeactivateEmitter => StartupStepModel::DeactivateEmitter,
            StartupStep::Serve => StartupStepModel::Serve,
            StartupStep::Failed(e) => StartupStepModel::Failed(e@),
        }
    }
}

/// A starting engine: the camera and both models first, so that a missing
/// resource fails fast; then the emitter, and the warm-up with the emitter on.
#[derive(Debug)]
pub struct StartupRun {
    pub warmup_frames: usize,
    pub emitter_enabled: bool,
    pub step: StartupStep,
}

/// What follows the emitter: a warm-up, unless no frames were asked for.
pub open spec fn warm_up_step(warmup_frames: usize) -> StartupStepModel {
    if warmup_frames > 0 {
        StartupStepModel::ActivateEmitter
    } else {
        StartupStepModel::Serve
    }
}

/// Starts an engine.
pub fn spawn_engine(warmup_frames: usize, emitter_enabled: bool) -> (run: StartupRun)
    ensures
        run.warmup_frames == warmup_frames,
        run.emitter_enabled == emitter_enabled,
        run.step@ is OpenCamera,
{
    StartupRun { warmup_frames, emitter_enabled, step: StartupStep::OpenCamera }
}

impl StartupRun {
    /// The settings are as given at the start.
    pub open spec fn same_settings(&self, other: &StartupRun) -> bool {
        self.warmup_frames == other.warmup_frames && self.emitter_enabled == other.emitter_enabled
    }

    /// The camera was opened, or not.
    pub fn camera_opened(&mut self, result: Result<(), CameraError>)
        requires
            old(self).step@ is OpenCamera,
        ensures
            final(self).same_settings(old(self)),
            final(self).warmup_frames == old(self).warmup_frames,
            final(self).emitter_enabled == old(self).emitter_enabled,
            final(self).step@ == match result {
                Ok(_) => StartupStepModel::LoadDetector,
                Err(e) => StartupStepModel::Failed(EngineFault::Camera(e@)),
            },
    {
        self.step = match result {
            Ok(_) => StartupStep::LoadDetector,
            Err(e) => StartupStep::Failed(EngineError::Camera(e)),
        };
    }

    /// The detector was loaded, or not.
    pub fn detector_loaded(&mut self, result: Result<(), String>)
        requires
            old(self).step@ is LoadDetector,
        ensures
            final(self).same_settings(old(self)),
            final(self).warmup_frames == old(self).warmup_frames,
            final(self).emitter_enabled == old(self).emitter_enabled,
            final(self).step@ == match result {
                Ok(_) => StartupStepModel::LoadRecognizer,
                Err(e) => StartupStepModel::Failed(EngineFault::Detector(e@)),
            },
    {
        self.step = match result {
            Ok(_) => StartupStep::LoadRecognizer,
            Err(e) => StartupStep::Failed(EngineError::Detector(e)),
        };
    }

    /// The recognizer was loaded, or not.
    pub fn recognizer_loaded(&mut self, result: Result<(), String>)
        requires
            old(self).step@ is LoadRecognizer,
        ensures
            final(self).same_settings(old(self)),
            final(self).warmup_frames == old(self).warmup_frames,
            final(self).emitter_enabled == old(self).emitter_enabled,
            final(self).step@ == match result {
                Ok(_) => if old(self).emitter_enabled {
                    StartupStepModel::ProbeEmitter
                } else {
                    warm_up_step(old(self).warmup_frames)
                },
                Err(e) => StartupStepModel::Failed(EngineFault::Recognizer(e@)),
            },
    {
        match result {
            Ok(_) => {
                if self.emitter_enabled {
                    self.step = StartupStep::ProbeEmitter;
                } else {
                    self.warm_up();
                }
            },
            Err(e) => {
                self.step = StartupStep::Failed(EngineError::Recognizer(e));
            },
        }
    }

    /// What follows the emitter.
    fn warm_up(&mut self)
        ensures
            final(self).same_settings(old(self)),
            final(self).warmup_frames == old(self).warmup_frames,
            final(self).emitter_enabled == old(self).emitter_enabled,
            final(self).step@ == warm_up_step(old(self).warmup_frames),
    {
        self.step = if self.warmup_frames > 0 {
            StartupStep::ActivateEmitter
        } else {
            StartupStep::Serve
        };
    }

    /// The emitter was looked for; whether there is one changes nothing.
    pub fn emitter_probed(&mut self)
        requires
            old(self).step@ is ProbeEmitter,
        ensures
            final(self).same_settings(old(self)),
            final(self).warmup_frames == old(self).warmup_frames,
            final(self).emitter_enabled == old(self).emitter_enabled,
            final(self).step@ == warm_up_step(old(self).warmup_frames),
    {
        self.warm_up();
    }

    /// The emitter came on, as far as there is one.
    pub fn emitter_activated(&mut self)
        requires
            old(self).step@ is ActivateEmitter,
        ensures
            final(self).same_settings(old(self)),
            final(self).warmup_frames == old(self).warmup_frames,
            final(self).emitter_enabled == old(self).emitter_enabled,
            final(self).step@ == StartupStepModel::WarmUp(old(self).warmup_frames),
    {
        self.step = StartupStep::WarmUp(self.warmup_frames);
    }

    /// The warm-up is over, whatever became of it.
    pub fn warmed_up(&mut self)
        requires
            old(self).step@ is WarmUp,
        ensures
            final(self).same_settings(old(self)),
            final(self).warmup_frames == old(self).warmup_frames,
            final(self).emitter_enabled == old(self).emitter_enabled,
            final(self).step@ is DeactivateEmitter,
    {
        self.step = StartupStep::DeactivateEmitter;
    }

    /// The emitter is off again.
    pub fn emitter_deactivated(&mut self)
        requires
            old(self).step@ is DeactivateEmitter,
        ensures
            final(self).same_settings(old(self)),
            final(self).warmup_frames == old(self).warmup_frames,
            final(self).emitter_enabled == old(self).emitter_enabled,
            final(self).step@ is Serve,
    {
        self.step = StartupStep::Serve;
    }
}

/// Only the camera's own failures arm the healing: no usable frames, and any camera
/// error. Nothing that says something of the user, the models or the thread does.
pub proof fn only_camera_failures_arm_the_healing(
    camera: CameraFault,
    text: Seq<char>,
    displacement: Scalar,
    threshold: Scalar,
)
    ensures
        camera_is_broken(EngineFault::Camera(camera)),
        camera_is_broken(EngineFault::NoUsableFrames),
        !camera_is_broken(EngineFault::Detector(text)),
        !camera_is_broken(EngineFault::Recognizer(text)),
        !camera_is_broken(EngineFault::NoFaceDetected),
        !camera_is_broken(EngineFault::LivenessCheckFailed { displacement, threshold }),
        !camera_is_broken(EngineFault::VerifyTimeout),
        !camera_is_broken(EngineFault::ChannelClosed),
{
}

/// As many broken captures in a row as there are, after anything that starts the count
/// over, are counted: three of them, and no fewer, ask for the camera to be re-opened.
pub proof fn three_broken_captures_ask_for_a_new_camera(history: Seq<HealEvent>, n: nat)
    requires
        history.len() == 0 || history.last() == (HealEvent::Served { broken: false })
            || history.last() == (HealEvent::Reopened { opened: true }),
    ensures
        failures_after(history + Seq::new(n, |i: int| HealEvent::Served { broken: true })) == n,
    decreases n,
{
    let broken = Seq::new(n, |i: int| HealEvent::Served { broken: true });
    if n == 0 {
        assert(history + broken =~= history);
    } else {
        let fewer = Seq::new((n - 1) as nat, |i: int| HealEvent::Served { broken: true });
        three_broken_captures_ask_for_a_new_camera(history, (n - 1) as nat);
        assert((history + broken).drop_last() =~= history + fewer);
        assert((history + broken).last() == (HealEvent::Served { broken: true }));
    }
}

/// Warming up needs frames to warm up with, and is lit.
pub proof fn warm_ups_are_lit(warmup_frames: usize)
    ensures
        warmup_frames > 0 ==> warm_up_step(warmup_frames) is ActivateEmitter,
        warmup_frames == 0 ==> warm_up_step(warmup_frames) is Serve,
{
}

/// What went wrong survives in the message of an engine error, behind where it did.
pub proof fn engine_messages_keep_the_reason(camera: CameraFault, text: Seq<char>)
    ensures
        engine_text(EngineFault::Camera(camera)) == Some("camera error: "@ + camera_text(camera)),
        engine_text(EngineFault::Detector(text)) == Some("detector error: "@ + text),
        engine_text(EngineFault::Recognizer(text)) == Some("recognizer error: "@ + text),
{
}

} // verus!
