//! Verifying a face: capture, the best match among the frames, and the liveness
//! gate.
//!
//! The clock, the emitter, the camera and the models are driven by the caller. A
//! run says which call comes next, and is told how it went.
use crate::camera::{CameraError, CameraFault};
use crate::engine::{EngineError, EngineFault};
use crate::enrollment::captured_model;
use crate::scalar::{exceeding_is_a_strict_order, Scalar};
use crate::text::{answer_of, text_of};
use vstd::prelude::*;

verus! {

/// How a face compares with the enrolled models.
#[derive(Debug)]
pub struct MatchResult {
    pub matched: bool,
    pub similarity: Scalar,
    pub model_id: Option<String>,
    pub model_label: Option<String>,
}

/// A match result in terms of what it holds.
pub ghost struct MatchModel {
    pub matched: bool,
    pub similarity: Scalar,
    pub model_id: Option<Seq<char>>,
    pub model_label: Option<Seq<char>>,
}

impl View for MatchResult {
    type V = MatchModel;

    open spec fn view(&self) -> MatchModel {
        MatchModel {
            matched: self.matched,
            similarity: self.similarity,
            model_id: text_of(self.model_id),
            model_label: text_of(self.model_label),
        }
    }
}

/// The landmarks of a face: eyes, nose and the corners of the mouth.
#[derive(Debug, Clone, Copy)]
pub struct Landmarks {
    pub points: [(Scalar, Scalar); 5],
}

/// The first face of a frame.
#[derive(Debug, Clone, Copy)]
pub struct DetectedFace {
    pub confidence: Scalar,
    pub landmarks: Option<Landmarks>,
}

/// What a frame contributes to a verification.
pub ghost enum VerifyFinding {
    NoFace,
    Face { face: DetectedFace, result: MatchModel },
}

/// The landmarks that the frames gave, in order.
pub open spec fn landmark_sequence(findings: Seq<VerifyFinding>) -> Seq<Landmarks>
    decreases findings.len(),
{
    if findings.len() == 0 {
        Seq::empty()
    } else {
        let before = landmark_sequence(findings.drop_last());
        match findings.last() {
            VerifyFinding::Face { face, .. } => match face.landmarks {
                Some(landmarks) => before.push(landmarks),
                None => before,
            },
            VerifyFinding::NoFace => before,
        }
    }
}

/// The best match, with the confidence of its face: the first among the most
/// similar.
pub open spec fn best_match(findings: Seq<VerifyFinding>) -> Option<(MatchModel, Scalar)>
    decreases findings.len(),
{
    if findings.len() == 0 {
        None
    } else {
        let before = best_match(findings.drop_last());
        match findings.last() {
            VerifyFinding::Face { face, result } => match before {
                None => Some((result, face.confidence)),
                Some(best) => if result.similarity.exceeds(best.0.similarity) {
                    Some((result, face.confidence))
                } else {
                    before
                },
            },
            VerifyFinding::NoFace => before,
        }
    }
}

/// The next call of a verification.
#[derive(Debug)]
pub enum VerifyStep {
    /// See whether the deadline has passed, before the capture.
    CheckDeadline,
    ActivateEmitter,
    /// Capture this many usable frames.
    Capture(usize),
    DeactivateEmitter,
    /// See whether the deadline has passed, after the capture.
    RecheckDeadline,
    /// Detect faces in this frame.
    Detect(usize),
    /// Extract the embedding of the first face of this frame, and compare it
    /// with the enrolled models.
    Recognize(usize),
    /// Check that the landmarks move as those of a live face do.
    CheckLiveness,
    /// The verification is over.
    Complete,
    /// The verification failed.
    Failed(EngineError),
}

/// A step of a verification in terms of what it holds.
pub ghost enum VerifyStepModel {
    CheckDeadline,
    ActivateEmitter,
    Capture(usize),
    DeactivateEmitter,
    RecheckDeadline,
    Detect(usize),
    Recognize(usize),
    CheckLiveness,
    Complete,
    Failed(EngineFault),
}

impl View for VerifyStep {
    type V = VerifyStepModel;

    open spec fn view(&self) -> VerifyStepModel {
        match self {
            VerifyStep::CheckDeadline => VerifyStepModel::CheckDeadline,
            VerifyStep::ActivateEmitter => VerifyStepModel::ActivateEmitter,
            VerifyStep::Capture(n) => VerifyStepModel::Capture(*n),
            VerifyStep::DeactivateEmitter => VerifyStepModel::DeactivateEmitter,
            VerifyStep::RecheckDeadline => VerifyStepModel::RecheckDeadline,
            VerifyStep::Detect(i) => VerifyStepModel::Detect(*i),
            VerifyStep::Recognize(i) => VerifyStepModel::Recognize(*i),
            VerifyStep::CheckLiveness => VerifyStepModel::CheckLiveness,
            VerifyStep::Complete => VerifyStepModel::Complete,
            VerifyStep::Failed(e) => VerifyStepModel::Failed(e@),
        }
    }
}

/// The settings of a verification.
#[derive(Debug, Clone, Copy, PartialEq, Eq, Structural)]
pub struct VerifyPlan {
    /// How many usable frames to capture.
    pub frames_count: usize,
    /// Whether a match has to be a live face.
    pub liveness_enabled: bool,
    /// How far the landmarks of a live face move at least.
    pub liveness_min_displacement: Scalar,
}

/// Landmark frames without which nobody is live.
pub const MIN_LANDMARK_FRAMES: usize = 2;

/// Whether a verdict of the liveness check lets a match pass. It fails closed: with
/// fewer than two landmark frames there is no evidence, and nobody is live.
pub open spec fn passes_liveness(is_live: bool, landmark_frames: nat) -> bool {
    is_live && landmark_frames >= MIN_LANDMARK_FRAMES
}

/// What comes after the deadline was checked again.
pub open spec fn after_deadline(
    passed: bool,
    captured: Result<usize, CameraFault>,
) -> VerifyStepModel {
    if passed {
        VerifyStepModel::Failed(EngineFault::VerifyTimeout)
    } else {
        match captured {
            Err(e) => VerifyStepModel::Failed(EngineFault::Camera(e)),
            Ok(frames) => if frames == 0 {
                VerifyStepModel::Failed(EngineFault::NoUsableFrames)
            } else {
                VerifyStepModel::Detect(0)
            },
        }
    }
}

/// What comes after `findings`, of `frames` captured frames. Liveness only gates a
/// result that would otherwise be a match.
pub open spec fn after_faces(
    frames: usize,
    findings: Seq<VerifyFinding>,
    liveness_enabled: bool,
) -> VerifyStepModel {
    if findings.len() < frames {
        VerifyStepModel::Detect(findings.len() as usize)
    } else {
        match best_match(findings) {
            None => VerifyStepModel::Failed(EngineFault::NoFaceDetected),
            Some(best) => if liveness_enabled && best.0.matched {
                VerifyStepModel::CheckLiveness
            } else {
                VerifyStepModel::Complete
            },
        }
    }
}

/// What a verification is told.
pub ghost enum VerifyEvent {
    /// The clock was read before the capture.
    DeadlineChecked { passed: bool },
    EmitterActivated,
    Captured(Result<usize, CameraFault>),
    EmitterDeactivated,
    /// The clock was read after the capture.
    DeadlineRechecked { passed: bool },
    Detected(Result<Option<DetectedFace>, Seq<char>>),
    Recognized(Result<MatchModel, Seq<char>>),
    LivenessChecked { is_live: bool, displacement: Scalar },
}

/// Where a verification is: its next step, what the capture gave, the face that is
/// being recognised, what the frames contributed, whether the emitter is on, whether
/// the deadline was seen to have passed, and whether the liveness check was made and
/// passed.
pub ghost struct VerifyState {
    pub next: VerifyStepModel,
    pub captured: Result<usize, CameraFault>,
    pub face: DetectedFace,
    pub findings: Seq<VerifyFinding>,
    pub lit: bool,
    pub late: bool,
    pub live: bool,
}

/// Where a verification is once the current frame contributed `finding`.
pub open spec fn verify_found(
    plan: VerifyPlan,
    state: VerifyState,
    finding: VerifyFinding,
) -> VerifyState {
    let findings = state.findings.push(finding);
    VerifyState {
        next: after_faces(state.captured->Ok_0, findings, plan.liveness_enabled),
        findings,
        ..state
    }
}

/// Where an event takes a verification.
pub open spec fn verify_step(
    plan: VerifyPlan,
    state: VerifyState,
    event: VerifyEvent,
) -> VerifyState {
    match event {
        VerifyEvent::DeadlineChecked { passed } => VerifyState {
            next: if passed {
                VerifyStepModel::Failed(EngineFault::VerifyTimeout)
            } else {
                VerifyStepModel::ActivateEmitter
            },
            late: passed,
            ..state
        },
        VerifyEvent::EmitterActivated => VerifyState {
            next: VerifyStepModel::Capture(plan.frames_count),
            lit: true,
            ..state
        },
        VerifyEvent::Captured(captured) => VerifyState {
            next: VerifyStepModel::DeactivateEmitter,
            captured,
            ..state
        },
        VerifyEvent::EmitterDeactivated => VerifyState {
            next: VerifyStepModel::RecheckDeadline,
            lit: false,
            ..state
        },
        VerifyEvent::DeadlineRechecked { passed } => VerifyState {
            next: after_deadline(passed, state.captured),
            late: passed,
            ..state
        },
        VerifyEvent::Detected(result) => match result {
            Ok(Some(face)) => VerifyState {
                next: VerifyStepModel::Recognize(state.findings.len() as usize),
                face,
                ..state
            },
            Ok(None) => verify_found(plan, state, VerifyFinding::NoFace),
            Err(e) => VerifyState {
                next: VerifyStepModel::Failed(EngineFault::Detector(e)),
                ..state
            },
        },
        VerifyEvent::Recognized(result) => match result {
            Ok(compared) => verify_found(
                plan,
                state,
                VerifyFinding::Face { face: state.face, result: compared },
            ),
            Err(e) => VerifyState {
                next: VerifyStepModel::Failed(EngineFault::Recognizer(e)),
                ..state
            },
        },
        VerifyEvent::LivenessChecked { is_live, displacement } => {
            let live = passes_liveness(is_live, landmark_sequence(state.findings).len());
            VerifyState {
                next: if live {
                    VerifyStepModel::Complete
                } else {
                    VerifyStepModel::Failed(
                        EngineFault::LivenessCheckFailed {
                            displacement,
                            threshold: plan.liveness_min_displacement,
                        },
                    )
                },
                live,
                ..state
            }
        },
    }
}

/// Where a verification is after the events.
pub open spec fn verify_after(plan: VerifyPlan, events: Seq<VerifyEvent>) -> VerifyState
    decreases events.len(),
{
    if events.len() == 0 {
        VerifyState {
            next: VerifyStepModel::CheckDeadline,
            captured: Ok(0),
            face: DetectedFace { confidence: Scalar::zero(), landmarks: None },
            findings: Seq::empty(),
            lit: false,
            late: false,
            live: false,
        }
    } else {
        verify_step(plan, verify_after(plan, events.drop_last()), events.last())
    }
}

/// Whether the liveness check is among the events.
pub open spec fn asked_for_liveness(events: Seq<VerifyEvent>) -> bool {
    exists|i: int| 0 <= i < events.len() && #[trigger] events[i] is LivenessChecked
}

/// What one more event does.
proof fn lemma_told(plan: VerifyPlan, events: Seq<VerifyEvent>, event: VerifyEvent)
    ensures
        verify_after(plan, events.push(event)) == verify_step(
            plan,
            verify_after(plan, events),
            event,
        ),
        asked_for_liveness(events.push(event)) ==> asked_for_liveness(events)
            || event is LivenessChecked,
{
    let now = events.push(event);
    assert(now.drop_last() =~= events);
    if asked_for_liveness(now) && !(event is LivenessChecked) {
        let i = choose|i: int| 0 <= i < now.len() && #[trigger] now[i] is LivenessChecked;
        assert(events[i] is LivenessChecked);
    }
}

/// What reading the clock tells a verification at a step.
pub open spec fn deadline_event(step: VerifyStepModel, passed: bool) -> VerifyEvent {
    if step is RecheckDeadline {
        VerifyEvent::DeadlineRechecked { passed }
    } else {
        VerifyEvent::DeadlineChecked { passed }
    }
}

/// A comparison, with the characters of what went wrong.
pub open spec fn compared_model(result: Result<MatchResult, String>) -> Result<
    MatchModel,
    Seq<char>,
> {
    match result {
        Ok(compared) => Ok(compared@),
        Err(e) => Err(e@),
    }
}

/// The outcome of a verification.
#[derive(Debug)]
pub struct VerifyResult {
    pub result: MatchResult,
    /// The confidence of the face that matched best.
    pub best_quality: Scalar,
}

/// A verification in progress.
pub struct VerifyRun {
    plan: VerifyPlan,
    step: VerifyStep,
    captured: Result<usize, CameraError>,
    face: DetectedFace,
    best: Option<(MatchResult, Scalar)>,
    landmarks: Vec<Landmarks>,
    findings: Ghost<Seq<VerifyFinding>>,
    lit: Ghost<bool>,
    late: Ghost<bool>,
    live: Ghost<bool>,
    answer: Ghost<Result<usize, CameraFault>>,
    events: Ghost<Seq<VerifyEvent>>,
}

/// A best match in terms of what it holds.
pub open spec fn best_model(best: Option<(MatchResult, Scalar)>) -> Option<(MatchModel, Scalar)> {
    match best {
        Some(b) => Some((b.0@, b.1)),
        None => None,
    }
}

impl VerifyRun {
    /// The step that comes next.
    pub closed spec fn next(&self) -> VerifyStepModel {
        self.step@
    }

    /// The settings.
    pub closed spec fn plan(&self) -> VerifyPlan {
        self.plan
    }

    /// What the capture gave.
    pub closed spec fn captured(&self) -> Result<usize, CameraFault> {
        self.answer@
    }

    /// What the verification was told so far.
    pub closed spec fn events(&self) -> Seq<VerifyEvent> {
        self.events@
    }

    /// Where the verification is.
    pub open spec fn state(&self) -> VerifyState {
        VerifyState {
            next: self.next(),
            captured: self.captured(),
            face: self.face(),
            findings: self.findings(),
            lit: self.lit(),
            late: self.late(),
            live: self.live(),
        }
    }

    /// The face that is being recognised.
    pub closed spec fn face(&self) -> DetectedFace {
        self.face
    }

    /// What the frames contributed so far.
    pub closed spec fn findings(&self) -> Seq<VerifyFinding> {
        self.findings@
    }

    /// Whether the emitter is on.
    pub closed spec fn lit(&self) -> bool {
        self.lit@
    }

    /// Whether the deadline was seen to have passed.
    pub closed spec fn late(&self) -> bool {
        self.late@
    }

    /// Whether the liveness check was made, and passed.
    pub closed spec fn live(&self) -> bool {
        self.live@
    }

    /// The landmarks of the face that is being recognised are already in.
    spec fn landmarks_in(&self) -> Seq<Landmarks> {
        let before = landmark_sequence(self.findings@);
        if self.step is Recognize {
            match self.face.landmarks {
                Some(landmarks) => before.push(landmarks),
                None => before,
            }
        } else {
            before
        }
    }

    /// The best match is a match, and matches have to be live.
    spec fn gated(&self) -> bool {
        self.plan.liveness_enabled && (self.best matches Some(b) && b.0.matched)
    }

    /// The run is in order: it is where its events took it, what was chosen is what
    /// the findings ask for, and nobody was asked for liveness needlessly.
    pub closed spec fn wf(&self) -> bool {
        &&& self.state() == verify_after(self.plan, self.events@)
        &&& (self.step !is Failed ==> captured_model(self.captured) == self.answer@)
        &&& (asked_for_liveness(self.events@) ==> self.gated())
        &&& best_model(self.best) == best_match(self.findings@)
        &&& (self.step !is Failed ==> self.landmarks@ == self.landmarks_in())
        &&& self.lit@ == (self.step is Capture || self.step is DeactivateEmitter)
        &&& (self.late@ ==> self.step@ == VerifyStepModel::Failed(EngineFault::VerifyTimeout))
        &&& (self.live@ ==> landmark_sequence(self.findings@).len() >= MIN_LANDMARK_FRAMES)
        &&& match self.step {
            VerifyStep::Detect(i) => self.captured matches Ok(n) && i == self.findings@.len() && i
                < n,
            VerifyStep::Recognize(i) => self.captured matches Ok(n) && i == self.findings@.len()
                && i < n,
            VerifyStep::CheckLiveness => self.captured matches Ok(n) && n == self.findings@.len()
                && self.gated(),
            VerifyStep::Complete => {
                &&& self.captured matches Ok(n) && n == self.findings@.len()
                &&& self.best matches Some(b) && (self.plan.liveness_enabled && b.0.matched
                    ==> self.live@)
            },
            VerifyStep::Failed(e) => e@ is LivenessCheckFailed ==> {
                &&& self.gated()
                &&& !self.live@
                &&& e@->LivenessCheckFailed_threshold == self.plan.liveness_min_displacement
            },
            _ => self.findings@.len() == 0 && !asked_for_liveness(self.events@),
        }
        &&& (self.step is Detect || self.step is Recognize ==> !asked_for_liveness(self.events@))
    }

    /// Starts a verification.
    pub fn start(plan: VerifyPlan) -> (run: VerifyRun)
        ensures
            run.wf(),
            run.plan() == plan,
            run.next() is CheckDeadline,
            run.findings().len() == 0,
            run.events().len() == 0,
            !run.lit(),
            !run.late(),
            !run.live(),
    {
        let run: VerifyRun = VerifyRun {
            plan,
            step: VerifyStep::CheckDeadline,
            captured: Ok(0),
            face: DetectedFace { confidence: Scalar { bits: 0 }, landmarks: None },
            best: None,
            landmarks: Vec::new(),
            findings: Ghost(Seq::empty()),
            lit: Ghost(false),
            late: Ghost(false),
            live: Ghost(false),
            answer: Ghost(Ok(0)),
            events: Ghost(Seq::empty()),
        };
        proof {
            assert(run.landmarks@ =~= landmark_sequence(run.findings@));
        }
        run
    }

    /// The step that comes next.
    pub fn step(&self) -> (step: &VerifyStep)
        ensures
            step@ == self.next(),
    {
        &self.step
    }

    /// The landmarks collected so far: those of every frame that has some, the one
    /// whose face is being recognised included.
    pub fn landmarks(&self) -> (landmarks: &Vec<Landmarks>)
        requires
            self.wf(),
        ensures
            self.next() !is Failed && self.next() !is Recognize ==> landmarks@
                == landmark_sequence(self.findings()),
            self.next() is Recognize ==> landmarks@ == match self.face().landmarks {
                Some(own) => landmark_sequence(self.findings()).push(own),
                None => landmark_sequence(self.findings()),
            },
    {
        &self.landmarks
    }

    /// The clock was read: whether the deadline has passed, before or after the
    /// capture. A missed deadline comes before a capture error.
    pub fn deadline_checked(&mut self, passed: bool)
        requires
            old(self).wf(),
            old(self).next() is CheckDeadline || old(self).next() is RecheckDeadline,
        ensures
            final(self).wf(),
            final(self).plan() == old(self).plan(),
            final(self).events() == old(self).events().push(
                deadline_event(old(self).next(), passed),
            ),
            final(self).findings() == old(self).findings(),
            final(self).lit() == old(self).lit(),
            final(self).late() == passed,
            final(self).live() == old(self).live(),
            final(self).next() == if old(self).next() is RecheckDeadline {
                after_deadline(passed, old(self).captured())
            } else if passed {
                VerifyStepModel::Failed(EngineFault::VerifyTimeout)
            } else {
                VerifyStepModel::ActivateEmitter
            },
            final(self).captured() == old(self).captured(),
    {
        proof {
            let event = deadline_event(self.step@, passed);
            lemma_told(self.plan, self.events@, event);
            self.events@ = self.events@.push(event);
        }
        self.late = Ghost(passed);
        if passed {
            self.step = VerifyStep::Failed(EngineError::VerifyTimeout);
        } else if let VerifyStep::CheckDeadline = self.step {
            self.step = VerifyStep::ActivateEmitter;
        } else {
            let mut captured: Result<usize, CameraError> = Ok(0);
            std::mem::swap(&mut captured, &mut self.captured);
            match captured {
                Ok(frames) => {
                    self.captured = Ok(frames);
                    self.step = if frames == 0 {
                        VerifyStep::Failed(EngineError::NoUsableFrames)
                    } else {
                        VerifyStep::Detect(0)
                    };
                },
                Err(e) => {
                    self.step = VerifyStep::Failed(EngineError::Camera(e));
                },
            }
        }
    }

    /// The emitter is on.
    pub fn emitter_activated(&mut self)
        requires
            old(self).wf(),
            old(self).next() is ActivateEmitter,
        ensures
            final(self).wf(),
            final(self).plan() == old(self).plan(),
            final(self).events() == old(self).events().push(VerifyEvent::EmitterActivated),
            final(self).findings() == old(self).findings(),
            final(self).lit(),
            final(self).late() == old(self).late(),
            final(self).live() == old(self).live(),
            final(self).next() == VerifyStepModel::Capture(old(self).plan().frames_count),
    {
        proof {
            let event = VerifyEvent::EmitterActivated;
            lemma_told(self.plan, self.events@, event);
            self.events@ = self.events@.push(event);
        }
        self.lit = Ghost(true);
        self.step = VerifyStep::Capture(self.plan.frames_count);
    }

    /// The capture gave this many frames, or failed. Either way the emitter goes
    /// off before anything else.
    pub fn captured_frames(&mut self, captured: Result<usize, CameraError>)
        requires
            old(self).wf(),
            old(self).next() is Capture,
        ensures
            final(self).wf(),
            final(self).plan() == old(self).plan(),
            final(self).events() == old(self).events().push(
                VerifyEvent::Captured(captured_model(captured)),
            ),
            final(self).findings() == old(self).findings(),
            final(self).lit() == old(self).lit(),
            final(self).late() == old(self).late(),
            final(self).live() == old(self).live(),
            final(self).captured() == captured_model(captured),
            captured matches Ok(n) ==> final(self).captured() == Ok::<usize, CameraFault>(n),
            captured matches Err(e) ==> final(self).captured() == Err::<usize, CameraFault>(e@),
            final(self).next() is DeactivateEmitter,
    {
        proof {
            let event = VerifyEvent::Captured(captured_model(captured));
            lemma_told(self.plan, self.events@, event);
            self.events@ = self.events@.push(event);
        }
        self.answer = Ghost(captured_model(captured));
        self.captured = captured;
        self.step = VerifyStep::DeactivateEmitter;
    }

    /// The emitter is off.
    pub fn emitter_deactivated(&mut self)
        requires
            old(self).wf(),
            old(self).next() is DeactivateEmitter,
        ensures
            final(self).wf(),
            final(self).plan() == old(self).plan(),
            final(self).events() == old(self).events().push(VerifyEvent::EmitterDeactivated),
            final(self).findings() == old(self).findings(),
            final(self).captured() == old(self).captured(),
            !final(self).lit(),
            final(self).late() == old(self).late(),
            final(self).live() == old(self).live(),
            final(self).next() is RecheckDeadline,
    {
        proof {
            let event = VerifyEvent::EmitterDeactivated;
            lemma_told(self.plan, self.events@, event);
            self.events@ = self.events@.push(event);
        }
        self.lit = Ghost(false);
        self.step = VerifyStep::RecheckDeadline;
    }

    /// The detector looked at the frame: its first face, if there is one.
    pub fn detected(&mut self, result: Result<Option<DetectedFace>, String>)
        requires
            old(self).wf(),
            old(self).next() is Detect,
        ensures
            final(self).wf(),
            final(self).plan() == old(self).plan(),
            final(self).events() == old(self).events().push(
                VerifyEvent::Detected(answer_of(result)),
            ),
            final(self).captured() == old(self).captured(),
            final(self).lit() == old(self).lit(),
            final(self).late() == old(self).late(),
            final(self).live() == old(self).live(),
            match result {
                Ok(Some(face)) => {
                    &&& final(self).findings() == old(self).findings()
                    &&& final(self).face() == face
                    &&& final(self).next() == VerifyStepModel::Recognize(old(self).next()->Detect_0)
                },
                Ok(None) => {
                    &&& final(self).findings() == old(self).findings().push(VerifyFinding::NoFace)
                    &&& final(self).next() == after_faces(
                        old(self).captured()->Ok_0,
                        final(self).findings(),
                        old(self).plan().liveness_enabled,
                    )
                },
                Err(e) => {
                    &&& final(self).findings() == old(self).findings()
                    &&& final(self).next() == VerifyStepModel::Failed(EngineFault::Detector(e@))
                },
            },
    {
        proof {
            let event = VerifyEvent::Detected(answer_of(result));
            lemma_told(self.plan, self.events@, event);
            self.events@ = self.events@.push(event);
        }
        match result {
            Ok(Some(face)) => {
                if let VerifyStep::Detect(i) = self.step {
                    if let Some(landmarks) = face.landmarks {
                        self.landmarks.push(landmarks);
                    }
                    self.face = face;
                    self.step = VerifyStep::Recognize(i);
                }
            },
            Ok(None) => {
                proof {
                    let now = self.findings@.push(VerifyFinding::NoFace);
                    assert(now.drop_last() =~= self.findings@);
                    self.findings@ = now;
                }
                self.advance();
            },
            Err(e) => {
                self.step = VerifyStep::Failed(EngineError::Detector(e));
            },
        }
    }

    /// The recognizer looked at the face, and the embedding was compared. No
    /// recognizer error is passed over.
    pub fn recognized(&mut self, result: Result<MatchResult, String>)
        requires
            old(self).wf(),
            old(self).next() is Recognize,
        ensures
            final(self).wf(),
            final(self).plan() == old(self).plan(),
            final(self).events() == old(self).events().push(
                VerifyEvent::Recognized(compared_model(result)),
            ),
            final(self).captured() == old(self).captured(),
            final(self).lit() == old(self).lit(),
            final(self).late() == old(self).late(),
            final(self).live() == old(self).live(),
            match result {
                Ok(compared) => {
                    &&& final(self).findings() == old(self).findings().push(
                        (VerifyFinding::Face { face: old(self).face(), result: compared@ }),
                    )
                    &&& final(self).next() == after_faces(
                        old(self).captured()->Ok_0,
                        final(self).findings(),
                        old(self).plan().liveness_enabled,
                    )
                },
                Err(e) => {
                    &&& final(self).findings() == old(self).findings()
                    &&& final(self).next() == VerifyStepModel::Failed(EngineFault::Recognizer(e@))
                },
            },
    {
        proof {
            let event = VerifyEvent::Recognized(compared_model(result));
            lemma_told(self.plan, self.events@, event);
            self.events@ = self.events@.push(event);
        }
        match result {
            Ok(compared) => {
                proof {
                    let now = self.findings@.push(
                        VerifyFinding::Face { face: self.face, result: compared@ },
                    );
                    assert(now.drop_last() =~= self.findings@);
                    self.findings@ = now;
                }
                let better: bool = match &self.best {
                    None => true,
                    Some(best) => compared.similarity.is_above(best.0.similarity),
                };
                if better {
                    self.best = Some((compared, self.face.confidence));
                }
                self.advance();
            },
            Err(e) => {
                self.step = VerifyStep::Failed(EngineError::Recognizer(e));
            },
        }
    }

    /// Goes on after a frame whose finding is recorded.
    fn advance(&mut self)
        requires
            !old(self).lit@,
            !old(self).late@,
            old(self).live@ ==> landmark_sequence(old(self).findings@).len() >= MIN_LANDMARK_FRAMES,
            best_model(old(self).best) == best_match(old(self).findings@),
            old(self).landmarks@ == landmark_sequence(old(self).findings@),
            captured_model(old(self).captured) == old(self).answer@,
            !asked_for_liveness(old(self).events@),
            verify_after(old(self).plan, old(self).events@) == (VerifyState {
                next: after_faces(
                    old(self).captured->Ok_0,
                    old(self).findings@,
                    old(self).plan.liveness_enabled,
                ),
                ..old(self).state()
            }),
            old(self).captured matches Ok(n) && match old(self).step {
                VerifyStep::Detect(i) => i < n && i + 1 == old(self).findings@.len(),
                VerifyStep::Recognize(i) => i < n && i + 1 == old(self).findings@.len(),
                _ => false,
            },
        ensures
            final(self).wf(),
            final(self).plan == old(self).plan,
            final(self).captured == old(self).captured,
            final(self).lit == old(self).lit,
            final(self).late == old(self).late,
            final(self).live == old(self).live,
            final(self).findings == old(self).findings,
            final(self).answer == old(self).answer,
            final(self).events == old(self).events,
            final(self).step@ == after_faces(
                old(self).captured->Ok_0,
                old(self).findings@,
                old(self).plan.liveness_enabled,
            ),
    {
        let i: usize = match &self.step {
            VerifyStep::Detect(i) => *i,
            VerifyStep::Recognize(i) => *i,
            _ => 0,
        };
        let total: usize = match &self.captured {
            Ok(n) => *n,
            Err(_) => 0,
        };
        self.step = if i + 1 < total {
            VerifyStep::Detect(i + 1)
        } else {
            match &self.best {
                None => VerifyStep::Failed(EngineError::NoFaceDetected),
                Some(best) => if self.plan.liveness_enabled && best.0.matched {
                    VerifyStep::CheckLiveness
                } else {
                    VerifyStep::Complete
                },
            }
        };
    }

    /// The liveness check was made: its verdict, and how far the landmarks moved.
    pub fn liveness_checked(&mut self, is_live: bool, displacement: Scalar)
        requires
            old(self).wf(),
            old(self).next() is CheckLiveness,
        ensures
            final(self).wf(),
            final(self).plan() == old(self).plan(),
            final(self).events() == old(self).events().push(
                (VerifyEvent::LivenessChecked { is_live, displacement }),
            ),
            final(self).captured() == old(self).captured(),
            final(self).findings() == old(self).findings(),
            final(self).lit() == old(self).lit(),
            final(self).late() == old(self).late(),
            final(self).live() == passes_liveness(
                is_live,
                landmark_sequence(old(self).findings()).len(),
            ),
            final(self).next() == if final(self).live() {
                VerifyStepModel::Complete
            } else {
                VerifyStepModel::Failed(
                    EngineFault::LivenessCheckFailed {
                        displacement,
                        threshold: old(self).plan().liveness_min_displacement,
                    },
                )
            },
            !is_live ==> final(self).next() is Failed,
    {
        proof {
            let event = VerifyEvent::LivenessChecked { is_live, displacement };
            lemma_told(self.plan, self.events@, event);
            self.events@ = self.events@.push(event);
        }
        if is_live && self.landmarks.len() >= MIN_LANDMARK_FRAMES {
            self.live = Ghost(true);
            self.step = VerifyStep::Complete;
        } else {
            self.live = Ghost(false);
            self.step = VerifyStep::Failed(
                EngineError::LivenessCheckFailed {
                    displacement,
                    threshold: self.plan.liveness_min_displacement,
                },
            );
        }
    }

    /// The outcome of a verification that is over.
    pub fn finish(self) -> (outcome: Result<VerifyResult, EngineError>)
        requires
            self.wf(),
            self.next() is Complete || self.next() is Failed,
        ensures
            match outcome {
                Ok(verified) => {
                    &&& self.next() is Complete
                    &&& best_match(self.findings()) == Some(
                        (verified.result@, verified.best_quality),
                    )
                },
                Err(e) => self.next() == VerifyStepModel::Failed(e@),
            },
    {
        match self.step {
            VerifyStep::Failed(e) => Err(e),
            _ => match self.best {
                Some(best) => Ok(VerifyResult { result: best.0, best_quality: best.1 }),
                None => Err(EngineError::NoFaceDetected),
            },
        }
    }
}

/// A verification fails closed: where liveness is enabled, one that ends with a
/// match was found live, on at least two landmark frames.
pub proof fn matches_are_live(run: VerifyRun)
    requires
        run.wf(),
        run.next() is Complete,
        run.plan().liveness_enabled,
        best_match(run.findings()) matches Some(best) && best.0.matched,
    ensures
        run.live(),
        landmark_sequence(run.findings()).len() >= MIN_LANDMARK_FRAMES,
{
}

/// The emitter is off whenever a verification is over, however it ended, and while
/// the models are at work.
pub proof fn verifications_end_with_the_emitter_off(run: VerifyRun)
    requires
        run.wf(),
        run.next() !is Capture,
        run.next() !is DeactivateEmitter,
    ensures
        !run.lit(),
{
}

/// A verification whose deadline was seen to have passed times out.
pub proof fn late_verifications_time_out(run: VerifyRun)
    requires
        run.wf(),
        run.late(),
    ensures
        run.next() == VerifyStepModel::Failed(EngineFault::VerifyTimeout),
{
}

/// Only a match can fail the liveness check, and only where liveness is enabled: a
/// verification without liveness, or of somebody who is not recognised, never does.
pub proof fn only_matches_fail_the_liveness_check(run: VerifyRun)
    requires
        run.wf(),
        run.next() matches VerifyStepModel::Failed(e) && e is LivenessCheckFailed,
    ensures
        run.plan().liveness_enabled,
        best_match(run.findings()) matches Some(best) && best.0.matched,
        !run.live(),
{
}

/// Liveness makes no difference on the way, but for the step after a match.
proof fn lemma_liveness_only_gates(gated: VerifyPlan, free: VerifyPlan, events: Seq<VerifyEvent>)
    requires
        gated.frames_count == free.frames_count,
        !free.liveness_enabled,
        !asked_for_liveness(events),
    ensures
        ({
            let a = verify_after(gated, events);
            let b = verify_after(free, events);
            &&& a == (VerifyState { next: a.next, ..b })
            &&& a.next == b.next || {
                &&& gated.liveness_enabled
                &&& b.next is Complete
                &&& a.next is CheckLiveness
                &&& best_match(b.findings) matches Some(best) && best.0.matched
            }
        }),
    decreases events.len(),
{
    if events.len() > 0 {
        let before = events.drop_last();
        if asked_for_liveness(before) {
            let i = choose|i: int| 0 <= i < before.len() && #[trigger] before[i] is LivenessChecked;
            assert(events[i] is LivenessChecked);
        }
        assert(!(events[events.len() - 1] is LivenessChecked));
        lemma_liveness_only_gates(gated, free, before);
    }
}

/// Liveness only gates a match that would otherwise succeed. Two verifications of as
/// many frames that are given the same answers, one with liveness and one without,
/// are in the same place and end alike, unless the one without succeeds with a match:
/// then the other has to check liveness first.
pub proof fn liveness_only_gates_a_match(gated: VerifyRun, free: VerifyRun)
    requires
        gated.wf(),
        free.wf(),
        gated.plan().frames_count == free.plan().frames_count,
        gated.plan().liveness_enabled,
        !free.plan().liveness_enabled,
        gated.events() == free.events(),
    ensures
        best_match(gated.findings()) == best_match(free.findings()),
        if free.next() is Complete && best_match(free.findings())->Some_0.0.matched {
            gated.next() is CheckLiveness
        } else {
            gated.state() == free.state()
        },
{
    lemma_liveness_only_gates(gated.plan(), free.plan(), free.events());
}

/// A verification that succeeds has looked at every captured frame, and found a
/// face in one of them.
pub proof fn verifications_look_at_every_frame(run: VerifyRun)
    requires
        run.wf(),
        run.next() is Complete,
    ensures
        run.captured() == Ok::<usize, CameraFault>(run.findings().len() as usize),
        best_match(run.findings()) is Some,
{
}

/// No face compared better than the best match, and there is a best match as soon
/// as there is a face.
pub proof fn the_best_match_is_the_best(findings: Seq<VerifyFinding>)
    ensures
        forall|i: int|
            0 <= i < findings.len() ==> match #[trigger] findings[i] {
                VerifyFinding::Face { result, .. } => best_match(findings) matches Some(best)
                    && !result.similarity.exceeds(best.0.similarity),
                VerifyFinding::NoFace => true,
            },
        best_match(findings) is None ==> forall|i: int|
            0 <= i < findings.len() ==> #[trigger] findings[i] is NoFace,
    decreases findings.len(),
{
    if findings.len() > 0 {
        let prefix = findings.drop_last();
        the_best_match_is_the_best(prefix);
        assert forall|i: int| 0 <= i < findings.len() implies match #[trigger] findings[i] {
            VerifyFinding::Face { result, .. } => best_match(findings) matches Some(best)
                && !result.similarity.exceeds(best.0.similarity),
            VerifyFinding::NoFace => true,
        } by {
            if let VerifyFinding::Face { result, .. } = findings[i] {
                let best = best_match(findings)->Some_0.0.similarity;
                if i < prefix.len() {
                    assert(prefix[i] == findings[i]);
                    let before = best_match(prefix)->Some_0.0.similarity;
                    exceeding_is_a_strict_order(result.similarity, best, before);
                } else {
                    exceeding_is_a_strict_order(
                        result.similarity,
                        result.similarity,
                        result.similarity,
                    );
                }
            }
        }
        if best_match(findings) is None {
            assert forall|i: int| 0 <= i < findings.len() implies #[trigger] findings[i] is NoFace by {
                if i < prefix.len() {
                    assert(prefix[i] == findings[i]);
                }
            }
        }
    }
}

/// Whether the face of frame `i` gave `best`, and compared better than every face
/// before it that compares at all.
pub open spec fn gives_best(
    findings: Seq<VerifyFinding>,
    i: int,
    best: (MatchModel, Scalar),
) -> bool {
    &&& 0 <= i < findings.len()
    &&& findings[i] matches VerifyFinding::Face { face, result } && result == best.0
        && face.confidence == best.1
    &&& forall|j: int|
        0 <= j < i ==> match #[trigger] findings[j] {
            VerifyFinding::Face { result, .. } => result.similarity.is_nan()
                || best.0.similarity.exceeds(result.similarity),
            VerifyFinding::NoFace => true,
        }
}

/// The best match is that of the earliest frame among equals.
pub proof fn the_best_match_is_the_first_of_its_similarity(findings: Seq<VerifyFinding>)
    requires
        best_match(findings) is Some,
    ensures
        exists|i: int| gives_best(findings, i, best_match(findings)->0),
    decreases findings.len(),
{
    if findings.len() > 0 {
        let prefix = findings.drop_last();
        let last = findings.len() - 1;
        let best = best_match(findings)->0;
        if best_match(prefix) is Some && !(findings.last() matches VerifyFinding::Face { result, .. }
            && result.similarity.exceeds(best_match(prefix)->Some_0.0.similarity)) {
            the_best_match_is_the_first_of_its_similarity(prefix);
            let i = choose|i: int| gives_best(prefix, i, best_match(prefix)->0);
            assert forall|j: int| 0 <= j <= i implies #[trigger] findings[j] == prefix[j] by {}
            assert(gives_best(findings, i, best));
        } else {
            the_best_match_is_the_best(prefix);
            assert forall|j: int| 0 <= j < last implies match #[trigger] findings[j] {
                VerifyFinding::Face { result, .. } => result.similarity.is_nan()
                    || best.0.similarity.exceeds(result.similarity),
                VerifyFinding::NoFace => true,
            } by {
                assert(prefix[j] == findings[j]);
            }
            assert(gives_best(findings, last, best));
        }
    }
}

/// The liveness verdict is obeyed, whatever the number of landmark frames: a face that
/// was found not to be live is rejected with how far its landmarks moved and how far
/// they should have, and so is one that gave fewer than two landmark frames. Every
/// other face passes.
pub proof fn liveness_verdicts_are_obeyed(
    before: VerifyRun,
    after: VerifyRun,
    is_live: bool,
    displacement: Scalar,
)
    requires
        before.wf(),
        after.wf(),
        before.plan() == after.plan(),
        after.events() == before.events().push(
            (VerifyEvent::LivenessChecked { is_live, displacement }),
        ),
    ensures
        !is_live || landmark_sequence(before.findings()).len() < 2 ==> after.next()
            == VerifyStepModel::Failed(
            EngineFault::LivenessCheckFailed {
                displacement,
                threshold: before.plan().liveness_min_displacement,
            },
        ),
        is_live && landmark_sequence(before.findings()).len() >= 2 ==> after.next() is Complete,
{
    lemma_told(
        before.plan(),
        before.events(),
        VerifyEvent::LivenessChecked { is_live, displacement },
    );
}

/// Where liveness is enabled, a verification that succeeds with a match was told, last
/// of all, that the face is live, and saw its landmarks in at least two frames.
pub proof fn matches_were_told_to_be_live(run: VerifyRun)
    requires
        run.wf(),
        run.next() is Complete,
        run.plan().liveness_enabled,
        best_match(run.findings()) matches Some(best) && best.0.matched,
    ensures
        run.events().len() > 0,
        run.events().last() matches VerifyEvent::LivenessChecked { is_live, .. } && is_live,
        landmark_sequence(run.findings()).len() >= 2,
{
}

/// The landmarks collected are those of each frame in turn: one set for a face that
/// has landmarks, none for a face without or for no face.
pub proof fn landmarks_are_collected_frame_by_frame(
    a: Seq<VerifyFinding>,
    b: Seq<VerifyFinding>,
    face: DetectedFace,
    result: MatchModel,
)
    ensures
        landmark_sequence(Seq::empty()) == Seq::<Landmarks>::empty(),
        landmark_sequence(a + b) == landmark_sequence(a) + landmark_sequence(b),
        landmark_sequence(seq![VerifyFinding::NoFace]) == Seq::<Landmarks>::empty(),
        landmark_sequence(seq![VerifyFinding::Face { face, result }]) == match face.landmarks {
            Some(landmarks) => seq![landmarks],
            None => Seq::empty(),
        },
    decreases b.len(),
{
    let nobody = seq![VerifyFinding::NoFace];
    let somebody = seq![VerifyFinding::Face { face, result }];
    assert(nobody.drop_last() =~= Seq::empty());
    assert(somebody.drop_last() =~= Seq::empty());
    if b.len() == 0 {
        assert(a + b =~= a);
    } else {
        assert((a + b).drop_last() =~= a + b.drop_last());
        landmarks_are_collected_frame_by_frame(a, b.drop_last(), face, result);
    }
}

/// The first face is the best so far whatever its similarity, and one whose similarity
/// does not compare is never outdone.
pub proof fn the_first_face_is_the_best_so_far(findings: Seq<VerifyFinding>, i: int)
    requires
        0 <= i < findings.len(),
        findings[i] is Face,
        forall|j: int| 0 <= j < i ==> (#[trigger] findings[j]) is NoFace,
        i == findings.len() - 1 || findings[i]->result.similarity.is_nan(),
    ensures
        best_match(findings) == Some((findings[i]->result, findings[i]->face.confidence)),
    decreases findings.len(),
{
    let prefix = findings.drop_last();
    if i == findings.len() - 1 {
        assert forall|j: int| 0 <= j < prefix.len() implies (#[trigger] prefix[j]) is NoFace by {
            assert(prefix[j] == findings[j]);
        }
        lemma_nobody(prefix);
    } else {
        assert(prefix[i] == findings[i]);
        the_first_face_is_the_best_so_far(prefix, i);
    }
}

/// Without a face there is no match.
proof fn lemma_nobody(findings: Seq<VerifyFinding>)
    requires
        forall|j: int| 0 <= j < findings.len() ==> (#[trigger] findings[j]) is NoFace,
    ensures
        best_match(findings) is None,
    decreases findings.len(),
{
    if findings.len() > 0 {
        let prefix = findings.drop_last();
        assert forall|j: int| 0 <= j < prefix.len() implies (#[trigger] prefix[j]) is NoFace by {
            assert(prefix[j] == findings[j]);
        }
        assert(findings[findings.len() - 1] is NoFace);
        lemma_nobody(prefix);
    }
}

/// A verification goes on to the next frame until every frame was looked at. Then it
/// fails exactly if no frame had a face, and is over otherwise, but for the liveness
/// of a match where that is enabled.
pub proof fn verifications_need_a_face(
    frames: usize,
    findings: Seq<VerifyFinding>,
    liveness_enabled: bool,
)
    requires
        findings.len() <= usize::MAX,
    ensures
        findings.len() < frames ==> after_faces(frames, findings, liveness_enabled)
            == VerifyStepModel::Detect(findings.len() as usize),
        findings.len() >= frames && (forall|i: int|
            0 <= i < findings.len() ==> (#[trigger] findings[i]) is NoFace) ==> after_faces(
            frames,
            findings,
            liveness_enabled,
        ) == VerifyStepModel::Failed(EngineFault::NoFaceDetected),
        findings.len() >= frames && (exists|i: int|
            0 <= i < findings.len() && (#[trigger] findings[i]) is Face) ==> {
            &&& best_match(findings) is Some
            &&& liveness_enabled && best_match(findings)->Some_0.0.matched ==> after_faces(
                frames,
                findings,
                liveness_enabled,
            ) is CheckLiveness
            &&& !(liveness_enabled && best_match(findings)->Some_0.0.matched) ==> after_faces(
                frames,
                findings,
                liveness_enabled,
            ) is Complete
        },
{
    the_best_match_is_the_best(findings);
    if forall|i: int| 0 <= i < findings.len() ==> (#[trigger] findings[i]) is NoFace {
        lemma_nobody(findings);
    }
}

/// A missed deadline is told before anything else, and so is a failed capture and one
/// without frames; otherwise the first frame is looked at.
pub proof fn captures_decide_how_verifications_go_on(
    passed: bool,
    captured: Result<usize, CameraFault>,
)
    ensures
        passed ==> after_deadline(passed, captured) == VerifyStepModel::Failed(
            EngineFault::VerifyTimeout,
        ),
        !passed && captured is Err ==> after_deadline(passed, captured) == VerifyStepModel::Failed(
            EngineFault::Camera(captured->Err_0),
        ),
        !passed && captured == Ok::<usize, CameraFault>(0) ==> after_deadline(passed, captured)
            == VerifyStepModel::Failed(EngineFault::NoUsableFrames),
        !passed && captured is Ok && captured->Ok_0 > 0 ==> after_deadline(passed, captured)
            == VerifyStepModel::Detect(0),
{
}

/// A verification that was last told that its deadline passed, before the capture or
/// after it, timed out, whatever the capture gave.
pub proof fn missed_deadlines_time_out(run: VerifyRun)
    requires
        run.wf(),
        run.events().len() > 0,
        ({
            ||| run.events().last() == (VerifyEvent::DeadlineChecked { passed: true })
            ||| run.events().last() == (VerifyEvent::DeadlineRechecked { passed: true })
        }),
    ensures
        run.next() == VerifyStepModel::Failed(EngineFault::VerifyTimeout),
        run.late(),
{
}

/// Each frame adds one finding: a face that was detected and compared adds that face
/// and that comparison, and a frame without a face adds that there is none. What was
/// found before stays.
pub proof fn each_frame_adds_one_finding(
    before: VerifyRun,
    after: VerifyRun,
    face: DetectedFace,
    result: MatchModel,
)
    requires
        before.wf(),
        after.wf(),
        before.plan() == after.plan(),
    ensures
        after.events() == before.events().push(VerifyEvent::Detected(Ok(Some(face)))).push(
            VerifyEvent::Recognized(Ok(result)),
        ) ==> after.findings() == before.findings().push(
            (VerifyFinding::Face { face, result }),
        ),
        after.events() == before.events().push(VerifyEvent::Detected(Ok(None)))
            ==> after.findings() == before.findings().push(VerifyFinding::NoFace),
{
    let detected = VerifyEvent::Detected(Ok(Some(face)));
    lemma_told(before.plan(), before.events(), detected);
    lemma_told(
        before.plan(),
        before.events().push(detected),
        VerifyEvent::Recognized(Ok(result)),
    );
    lemma_told(before.plan(), before.events(), VerifyEvent::Detected(Ok(None)));
}

/// A model of a match holds all that the match does, and that of a comparison what was
/// compared or what went wrong.
pub proof fn match_models_hold_everything(result: MatchResult, e: String)
    ensures
        result@.matched == result.matched,
        result@.similarity == result.similarity,
        result.model_id matches Some(id) ==> result@.model_id == Some(id@),
        result.model_id is None ==> result@.model_id is None,
        result.model_label matches Some(label) ==> result@.model_label == Some(label@),
        result.model_label is None ==> result@.model_label is None,
        compared_model(Ok(result)) == Ok::<MatchModel, Seq<char>>(result@),
        compared_model(Err(e)) == Err::<MatchModel, Seq<char>>(e@),
{
}

} // verus!
