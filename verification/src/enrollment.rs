//! Enrolling a face: framing, capture, and the choice of the frames that the
//! enrolled model is averaged from.
//!
//! The emitter, the camera and the models are driven by the caller. A run says
//! which call comes next, and is told how it went.
use crate::camera::{CameraError, CameraFault};
use crate::engine::{EngineError, EngineFault};
use crate::scalar::{exceeding_is_a_strict_order, scalars_are_ordered_as_numbers, Scalar};
use crate::text::answer_of;
use vstd::prelude::*;

verus! {

/// The next call of an enrollment.
#[derive(Debug)]
pub enum EnrollStep {
    ActivateEmitter,
    /// Stream frames to the client for the framing phase; they are discarded.
    StreamFraming,
    /// Capture this many usable frames.
    Capture(usize),
    DeactivateEmitter,
    /// Detect faces in this frame.
    Detect(usize),
    /// Extract the embedding of the first face of this frame.
    Extract(usize),
    /// The enrollment is over.
    Complete,
    /// The enrollment failed.
    Failed(EngineError),
}

/// A step of an enrollment in terms of what it holds.
pub ghost enum EnrollStepModel {
    ActivateEmitter,
    StreamFraming,
    Capture(usize),
    DeactivateEmitter,
    Detect(usize),
    Extract(usize),
    Complete,
    Failed(EngineFault),
}

impl View for EnrollStep {
    type V = EnrollStepModel;

    open spec fn view(&self) -> EnrollStepModel {
        match self {
            EnrollStep::ActivateEmitter => EnrollStepModel::ActivateEmitter,
            EnrollStep::StreamFraming => EnrollStepModel::StreamFraming,
            EnrollStep::Capture(n) => EnrollStepModel::Capture(*n),
            EnrollStep::DeactivateEmitter => EnrollStepModel::DeactivateEmitter,
            EnrollStep::Detect(i) => EnrollStepModel::Detect(*i),
            EnrollStep::Extract(i) => EnrollStepModel::Extract(*i),
            EnrollStep::Complete => EnrollStepModel::Complete,
            EnrollStep::Failed(e) => EnrollStepModel::Failed(e@),
        }
    }
}

/// How extracting an embedding went.
#[derive(Debug)]
pub enum Extraction {
    /// The embedding was extracted.
    Embedded,
    /// The face has no landmarks to align it by.
    NoLandmarks,
    /// The recognizer failed.
    Failed(String),
}

/// How extracting an embedding went, in terms of what it holds.
pub ghost enum ExtractionModel {
    Embedded,
    NoLandmarks,
    Failed(Seq<char>),
}

impl View for Extraction {
    type V = ExtractionModel;

    open spec fn view(&self) -> ExtractionModel {
        match self {
            Extraction::Embedded => ExtractionModel::Embedded,
            Extraction::NoLandmarks => ExtractionModel::NoLandmarks,
            Extraction::Failed(e) => ExtractionModel::Failed(e@),
        }
    }
}

/// What a frame contributes to an enrollment.
pub ghost enum EnrollFinding {
    /// No face, or none that can be aligned.
    Nothing,
    /// An embedding, with its weight.
    Face(Scalar),
}

/// The indices of the frames that contribute an embedding.
pub open spec fn face_frames(findings: Seq<EnrollFinding>) -> Seq<usize>
    decreases findings.len(),
{
    if findings.len() == 0 {
        Seq::empty()
    } else {
        let before = face_frames(findings.drop_last());
        match findings.last() {
            EnrollFinding::Face(_) => before.push((findings.len() - 1) as usize),
            EnrollFinding::Nothing => before,
        }
    }
}

/// The weights of the embeddings, in the order of their frames.
pub open spec fn face_weights(findings: Seq<EnrollFinding>) -> Seq<Scalar>
    decreases findings.len(),
{
    if findings.len() == 0 {
        Seq::empty()
    } else {
        let before = face_weights(findings.drop_last());
        match findings.last() {
            EnrollFinding::Face(weight) => before.push(weight),
            EnrollFinding::Nothing => before,
        }
    }
}

/// The frame with the largest weight, and that weight: the first such frame, and
/// frame zero while no weight is positive.
pub open spec fn best_face(findings: Seq<EnrollFinding>) -> (usize, Scalar)
    decreases findings.len(),
{
    if findings.len() == 0 {
        (0, Scalar::zero())
    } else {
        let before = best_face(findings.drop_last());
        match findings.last() {
            EnrollFinding::Face(weight) => if weight.exceeds(before.1) {
                ((findings.len() - 1) as usize, weight)
            } else {
                before
            },
            EnrollFinding::Nothing => before,
        }
    }
}

/// What comes after `findings`, of `frames` captured frames.
pub open spec fn after_findings(frames: usize, findings: Seq<EnrollFinding>) -> EnrollStepModel {
    if findings.len() < frames {
        EnrollStepModel::Detect(findings.len() as usize)
    } else if face_frames(findings).len() == 0 {
        EnrollStepModel::Failed(EngineFault::NoFaceDetected)
    } else {
        EnrollStepModel::Complete
    }
}

/// What comes after the emitter is off again.
pub open spec fn after_capture(captured: Result<usize, CameraFault>) -> EnrollStepModel {
    match captured {
        Err(e) => EnrollStepModel::Failed(EngineFault::Camera(e)),
        Ok(frames) => if frames == 0 {
            EnrollStepModel::Failed(EngineFault::NoUsableFrames)
        } else {
            EnrollStepModel::Detect(0)
        },
    }
}

/// The settings of an enrollment.
#[derive(Debug, Clone, Copy, PartialEq, Eq, Structural)]
pub struct EnrollPlan {
    /// How many usable frames to capture.
    pub frames_count: usize,
    /// Whether somebody is watching the preview.
    pub has_preview: bool,
    /// How long to stream framing frames before capturing, in nanoseconds.
    pub framing_nanos: u128,
}

/// What an enrollment is told.
pub ghost enum EnrollEvent {
    EmitterActivated,
    Framed,
    Captured(Result<usize, CameraFault>),
    EmitterDeactivated,
    Detected(Result<Option<Scalar>, Seq<char>>),
    Extracted(ExtractionModel),
}

/// Where an enrollment is: its next step, what the capture gave, the confidence of
/// the face whose embedding is being extracted, what the frames contributed, and
/// whether the emitter is on.
pub ghost struct EnrollState {
    pub next: EnrollStepModel,
    pub captured: Result<usize, CameraFault>,
    pub confidence: Scalar,
    pub findings: Seq<EnrollFinding>,
    pub lit: bool,
}

/// Where an enrollment is once the current frame contributed `finding`.
pub open spec fn enroll_found(state: EnrollState, finding: EnrollFinding) -> EnrollState {
    let findings = state.findings.push(finding);
    EnrollState { next: after_findings(state.captured->Ok_0, findings), findings, ..state }
}

/// Where an event takes an enrollment.
pub open spec fn enroll_step(
    plan: EnrollPlan,
    state: EnrollState,
    event: EnrollEvent,
) -> EnrollState {
    match event {
        EnrollEvent::EmitterActivated => EnrollState {
            next: if plan.has_preview && plan.framing_nanos > 0 {
                EnrollStepModel::StreamFraming
            } else {
                EnrollStepModel::Capture(plan.frames_count)
            },
            lit: true,
            ..state
        },
        EnrollEvent::Framed => EnrollState {
            next: EnrollStepModel::Capture(plan.frames_count),
            ..state
        },
        EnrollEvent::Captured(captured) => EnrollState {
            next: EnrollStepModel::DeactivateEmitter,
            captured,
            ..state
        },
        EnrollEvent::EmitterDeactivated => EnrollState {
            next: after_capture(state.captured),
            lit: false,
            ..state
        },
        EnrollEvent::Detected(result) => match result {
            Ok(Some(confidence)) => EnrollState {
                next: EnrollStepModel::Extract(state.next->Detect_0),
                confidence,
                ..state
            },
            Ok(None) => enroll_found(state, EnrollFinding::Nothing),
            Err(e) => EnrollState {
                next: EnrollStepModel::Failed(EngineFault::Detector(e)),
                ..state
            },
        },
        EnrollEvent::Extracted(result) => match result {
            ExtractionModel::Embedded => enroll_found(
                state,
                EnrollFinding::Face(state.confidence.clamped()),
            ),
            ExtractionModel::NoLandmarks => enroll_found(state, EnrollFinding::Nothing),
            ExtractionModel::Failed(e) => EnrollState {
                next: EnrollStepModel::Failed(EngineFault::Recognizer(e)),
                ..state
            },
        },
    }
}

/// Where an enrollment is after the events.
pub open spec fn enroll_after(plan: EnrollPlan, events: Seq<EnrollEvent>) -> EnrollState
    decreases events.len(),
{
    if events.len() == 0 {
        EnrollState {
            next: EnrollStepModel::ActivateEmitter,
            captured: Ok(0),
            confidence: Scalar::zero(),
            findings: Seq::empty(),
            lit: false,
        }
    } else {
        enroll_step(plan, enroll_after(plan, events.drop_last()), events.last())
    }
}

/// What one more event does.
proof fn lemma_told(plan: EnrollPlan, events: Seq<EnrollEvent>, event: EnrollEvent)
    ensures
        enroll_after(plan, events.push(event)) == enroll_step(
            plan,
            enroll_after(plan, events),
            event,
        ),
{
    assert(events.push(event).drop_last() =~= events);
}

/// What is enrolled: the frames whose embeddings are averaged, and how.
#[derive(Debug)]
pub struct EnrollResult {
    /// The frames that contribute an embedding.
    pub frames: Vec<usize>,
    /// The weight of each of them: its detection confidence, or zero.
    pub weights: Vec<Scalar>,
    /// Whether the average is weighted. With no positive weight it is not.
    pub weighted: bool,
    /// The frame with the best face.
    pub best_frame: usize,
    /// The confidence of the best face.
    pub quality_score: Scalar,
}

/// An enrollment in progress.
pub struct EnrollRun {
    plan: EnrollPlan,
    step: EnrollStep,
    captured: Result<usize, CameraError>,
    confidence: Scalar,
    frames: Vec<usize>,
    weights: Vec<Scalar>,
    best_frame: usize,
    best_weight: Scalar,
    findings: Ghost<Seq<EnrollFinding>>,
    lit: Ghost<bool>,
    answer: Ghost<Result<usize, CameraFault>>,
    events: Ghost<Seq<EnrollEvent>>,
}

/// What a capture gave, in terms of what it holds.
pub open spec fn captured_model(captured: Result<usize, CameraError>) -> Result<
    usize,
    CameraFault,
> {
    match captured {
        Ok(n) => Ok(n),
        Err(e) => Err(e@),
    }
}

impl EnrollRun {
    /// The step that comes next.
    pub closed spec fn next(&self) -> EnrollStepModel {
        self.step@
    }

    /// The settings.
    pub closed spec fn plan(&self) -> EnrollPlan {
        self.plan
    }

    /// What the capture gave.
    pub closed spec fn captured(&self) -> Result<usize, CameraFault> {
        self.answer@
    }

    /// What the enrollment was told so far.
    pub closed spec fn events(&self) -> Seq<EnrollEvent> {
        self.events@
    }

    /// Where the enrollment is.
    pub open spec fn state(&self) -> EnrollState {
        EnrollState {
            next: self.next(),
            captured: self.captured(),
            confidence: self.confidence(),
            findings: self.findings(),
            lit: self.lit(),
        }
    }

    /// The confidence of the face whose embedding is being extracted.
    pub closed spec fn confidence(&self) -> Scalar {
        self.confidence
    }

    /// What the frames contributed so far.
    pub closed spec fn findings(&self) -> Seq<EnrollFinding> {
        self.findings@
    }

    /// Whether the emitter is on.
    pub closed spec fn lit(&self) -> bool {
        self.lit@
    }

    /// What was chosen is what the findings ask for.
    spec fn tallied(&self) -> bool {
        &&& self.frames@ == face_frames(self.findings@)
        &&& self.weights@ == face_weights(self.findings@)
        &&& (self.best_frame, self.best_weight) == best_face(self.findings@)
    }

    /// The run is in order: it is where its events took it, and what was chosen is
    /// what the findings ask for.
    pub closed spec fn wf(&self) -> bool {
        &&& self.tallied()
        &&& self.state() == enroll_after(self.plan, self.events@)
        &&& (self.step !is Failed ==> captured_model(self.captured) == self.answer@)
        &&& self.lit@ == (self.step is StreamFraming || self.step is Capture
            || self.step is DeactivateEmitter)
        &&& match self.step {
            EnrollStep::Detect(i) => self.captured matches Ok(n) && i == self.findings@.len() && i
                < n,
            EnrollStep::Extract(i) => self.captured matches Ok(n) && i == self.findings@.len() && i
                < n,
            EnrollStep::Complete => self.captured matches Ok(n) && self.findings@.len() == n
                && self.frames@.len() > 0,
            EnrollStep::Failed(_) => true,
            _ => self.findings@.len() == 0,
        }
    }

    /// Starts an enrollment.
    pub fn start(plan: EnrollPlan) -> (run: EnrollRun)
        ensures
            run.wf(),
            run.plan() == plan,
            run.next() is ActivateEmitter,
            run.findings().len() == 0,
            run.events().len() == 0,
            !run.lit(),
    {
        let run: EnrollRun = EnrollRun {
            plan,
            step: EnrollStep::ActivateEmitter,
            captured: Ok(0),
            confidence: Scalar { bits: 0 },
            frames: Vec::new(),
            weights: Vec::new(),
            best_frame: 0,
            best_weight: Scalar { bits: 0 },
            findings: Ghost(Seq::empty()),
            lit: Ghost(false),
            answer: Ghost(Ok(0)),
            events: Ghost(Seq::empty()),
        };
        proof {
            assert(run.frames@ =~= face_frames(run.findings@));
            assert(run.weights@ =~= face_weights(run.findings@));
        }
        run
    }

    /// The step that comes next.
    pub fn step(&self) -> (step: &EnrollStep)
        ensures
            step@ == self.next(),
    {
        &self.step
    }

    /// The emitter is on. Framing is only worth its latency when somebody is
    /// watching.
    pub fn emitter_activated(&mut self)
        requires
            old(self).wf(),
            old(self).next() is ActivateEmitter,
        ensures
            final(self).wf(),
            final(self).plan() == old(self).plan(),
            final(self).events() == old(self).events().push(EnrollEvent::EmitterActivated),
            final(self).findings() == old(self).findings(),
            final(self).lit(),
            final(self).next() == if old(self).plan().has_preview && old(self).plan().framing_nanos
                > 0 {
                EnrollStepModel::StreamFraming
            } else {
                EnrollStepModel::Capture(old(self).plan().frames_count)
            },
    {
        proof {
            lemma_told(self.plan, self.events@, EnrollEvent::EmitterActivated);
            self.events@ = self.events@.push(EnrollEvent::EmitterActivated);
        }
        self.lit = Ghost(true);
        self.step = if self.plan.has_preview && self.plan.framing_nanos > 0 {
            EnrollStep::StreamFraming
        } else {
            EnrollStep::Capture(self.plan.frames_count)
        };
    }

    /// The framing phase is over. A framing failure is not an enrollment
    /// failure: whatever became of it, the capture follows.
    pub fn framed(&mut self)
        requires
            old(self).wf(),
            old(self).next() is StreamFraming,
        ensures
            final(self).wf(),
            final(self).plan() == old(self).plan(),
            final(self).events() == old(self).events().push(EnrollEvent::Framed),
            final(self).findings() == old(self).findings(),
            final(self).lit() == old(self).lit(),
            final(self).next() == EnrollStepModel::Capture(old(self).plan().frames_count),
    {
        proof {
            lemma_told(self.plan, self.events@, EnrollEvent::Framed);
            self.events@ = self.events@.push(EnrollEvent::Framed);
        }
        self.step = EnrollStep::Capture(self.plan.frames_count);
    }

    /// The capture gave this many frames, or failed. Either way the emitter goes
    /// off before anything else.
    pub fn captured_frames(&mut self, captured: Result<usize, CameraError>)
        requires
            old(self).wf(),
            old(self).next() is Capture,
        ensures
            final(self).wf(),
            final(self).plan() == old(self).plan(),
            final(self).events() == old(self).events().push(
                EnrollEvent::Captured(captured_model(captured)),
            ),
            final(self).findings() == old(self).findings(),
            final(self).lit() == old(self).lit(),
            final(self).captured() == captured_model(captured),
            captured matches Ok(n) ==> final(self).captured() == Ok::<usize, CameraFault>(n),
            captured matches Err(e) ==> final(self).captured() == Err::<usize, CameraFault>(e@),
            final(self).next() is DeactivateEmitter,
    {
        proof {
            lemma_told(self.plan, self.events@, EnrollEvent::Captured(captured_model(captured)));
            self.events@ = self.events@.push(EnrollEvent::Captured(captured_model(captured)));
        }
        self.answer = Ghost(captured_model(captured));
        self.captured = captured;
        self.step = EnrollStep::DeactivateEmitter;
    }

    /// The emitter is off.
    pub fn emitter_deactivated(&mut self)
        requires
            old(self).wf(),
            old(self).next() is DeactivateEmitter,
        ensures
            final(self).wf(),
            final(self).plan() == old(self).plan(),
            final(self).events() == old(self).events().push(EnrollEvent::EmitterDeactivated),
            final(self).findings() == old(self).findings(),
            !final(self).lit(),
            final(self).next() == after_capture(old(self).captured()),
            final(self).captured() == old(self).captured(),
    {
        proof {
            lemma_told(self.plan, self.events@, EnrollEvent::EmitterDeactivated);
            self.events@ = self.events@.push(EnrollEvent::EmitterDeactivated);
        }
        self.lit = Ghost(false);
        let mut captured: Result<usize, CameraError> = Ok(0);
        std::mem::swap(&mut captured, &mut self.captured);
        match captured {
            Ok(frames) => {
                self.captured = Ok(frames);
                self.step = if frames == 0 {
                    EnrollStep::Failed(EngineError::NoUsableFrames)
                } else {
                    EnrollStep::Detect(0)
                };
            },
            Err(e) => {
                self.step = EnrollStep::Failed(EngineError::Camera(e));
            },
        }
    }

    /// The detector looked at the frame: the confidence of its first face, if
    /// there is one.
    pub fn detected(&mut self, result: Result<Option<Scalar>, String>)
        requires
            old(self).wf(),
            old(self).next() is Detect,
        ensures
            final(self).wf(),
            final(self).plan() == old(self).plan(),
            final(self).events() == old(self).events().push(
                EnrollEvent::Detected(answer_of(result)),
            ),
            final(self).captured() == old(self).captured(),
            final(self).lit() == old(self).lit(),
            match result {
                Ok(Some(confidence)) => {
                    &&& final(self).findings() == old(self).findings()
                    &&& final(self).confidence() == confidence
                    &&& final(self).next() == EnrollStepModel::Extract(old(self).next()->Detect_0)
                },
                Ok(None) => {
                    &&& final(self).findings() == old(self).findings().push(EnrollFinding::Nothing)
                    &&& final(self).next() == after_findings(
                        old(self).captured()->Ok_0,
                        final(self).findings(),
                    )
                },
                Err(e) => {
                    &&& final(self).findings() == old(self).findings()
                    &&& final(self).next() == EnrollStepModel::Failed(EngineFault::Detector(e@))
                },
            },
    {
        proof {
            lemma_told(self.plan, self.events@, EnrollEvent::Detected(answer_of(result)));
            self.events@ = self.events@.push(EnrollEvent::Detected(answer_of(result)));
        }
        match result {
            Ok(Some(confidence)) => {
                if let EnrollStep::Detect(i) = self.step {
                    self.confidence = confidence;
                    self.step = EnrollStep::Extract(i);
                }
            },
            Ok(None) => {
                self.record(None);
            },
            Err(e) => {
                self.step = EnrollStep::Failed(EngineError::Detector(e));
            },
        }
    }

    /// The recognizer looked at the face.
    pub fn extracted(&mut self, result: Extraction)
        requires
            old(self).wf(),
            old(self).next() is Extract,
        ensures
            final(self).wf(),
            final(self).plan() == old(self).plan(),
            final(self).events() == old(self).events().push(EnrollEvent::Extracted(result@)),
            final(self).captured() == old(self).captured(),
            final(self).lit() == old(self).lit(),
            match result {
                Extraction::Embedded => final(self).findings() == old(self).findings().push(
                    EnrollFinding::Face(old(self).confidence().clamped()),
                ),
                Extraction::NoLandmarks => final(self).findings() == old(self).findings().push(
                    EnrollFinding::Nothing,
                ),
                Extraction::Failed(_) => final(self).findings() == old(self).findings(),
            },
            final(self).next() == match result {
                Extraction::Failed(e) => EnrollStepModel::Failed(EngineFault::Recognizer(e@)),
                _ => after_findings(old(self).captured()->Ok_0, final(self).findings()),
            },
    {
        proof {
            lemma_told(self.plan, self.events@, EnrollEvent::Extracted(result@));
            self.events@ = self.events@.push(EnrollEvent::Extracted(result@));
        }
        match result {
            Extraction::Embedded => {
                let weight: Scalar = self.confidence.clamp_at_zero();
                self.record(Some(weight));
            },
            Extraction::NoLandmarks => {
                self.record(None);
            },
            Extraction::Failed(e) => {
                self.step = EnrollStep::Failed(EngineError::Recognizer(e));
            },
        }
    }

    /// Records what the current frame contributes, and goes on.
    fn record(&mut self, weight: Option<Scalar>)
        requires
            old(self).tallied(),
            !old(self).lit@,
            captured_model(old(self).captured) == old(self).answer@,
            old(self).captured matches Ok(n) && match old(self).step {
                EnrollStep::Detect(i) => i == old(self).findings@.len() && i < n,
                EnrollStep::Extract(i) => i == old(self).findings@.len() && i < n,
                _ => false,
            },
            enroll_after(old(self).plan, old(self).events@) == enroll_found(
                old(self).state(),
                match weight {
                    Some(w) => EnrollFinding::Face(w),
                    None => EnrollFinding::Nothing,
                },
            ),
        ensures
            final(self).wf(),
            final(self).plan() == old(self).plan(),
            final(self).events() == old(self).events(),
            final(self).captured() == old(self).captured(),
            final(self).lit() == old(self).lit(),
            final(self).findings() == old(self).findings().push(
                match weight {
                    Some(w) => EnrollFinding::Face(w),
                    None => EnrollFinding::Nothing,
                },
            ),
            final(self).next() == after_findings(
                old(self).captured()->Ok_0,
                final(self).findings(),
            ),
    {
        let i: usize = match &self.step {
            EnrollStep::Detect(i) => *i,
            EnrollStep::Extract(i) => *i,
            _ => 0,
        };
        let total: usize = match &self.captured {
            Ok(n) => *n,
            Err(_) => 0,
        };
        let ghost before = self.findings@;
        let ghost now = before.push(
            match weight {
                Some(w) => EnrollFinding::Face(w),
                None => EnrollFinding::Nothing,
            },
        );
        proof {
            assert(now.drop_last() =~= before);
        }
        if let Some(w) = weight {
            if w.is_above(self.best_weight) {
                self.best_weight = w;
                self.best_frame = i;
            }
            self.frames.push(i);
            self.weights.push(w);
        }
        self.findings = Ghost(now);
        self.step = if i + 1 < total {
            EnrollStep::Detect(i + 1)
        } else if self.frames.len() == 0 {
            EnrollStep::Failed(EngineError::NoFaceDetected)
        } else {
            EnrollStep::Complete
        };
    }

    /// The outcome of an enrollment that is over.
    pub fn finish(self) -> (outcome: Result<EnrollResult, EngineError>)
        requires
            self.wf(),
            self.next() is Complete || self.next() is Failed,
        ensures
            match outcome {
                Ok(chosen) => {
                    &&& self.next() is Complete
                    &&& chosen.frames@ == face_frames(self.findings())
                    &&& chosen.weights@ == face_weights(self.findings())
                    &&& (chosen.best_frame, chosen.quality_score) == best_face(self.findings())
                    &&& chosen.weighted == chosen.quality_score.exceeds(Scalar::zero())
                    &&& chosen.frames@.len() > 0
                },
                Err(e) => self.next() == EnrollStepModel::Failed(e@),
            },
    {
        match self.step {
            EnrollStep::Failed(e) => Err(e),
            _ => Ok(
                EnrollResult {
                    weighted: self.best_weight.is_above(Scalar { bits: 0 }),
                    frames: self.frames,
                    weights: self.weights,
                    best_frame: self.best_frame,
                    quality_score: self.best_weight,
                },
            ),
        }
    }
}

/// The emitter is off whenever an enrollment is over, however it ended, and
/// while the models are at work.
pub proof fn enrollments_end_with_the_emitter_off(run: EnrollRun)
    requires
        run.wf(),
        run.next() is Complete || run.next() is Failed || run.next() is Detect
            || run.next() is Extract,
    ensures
        !run.lit(),
{
}

/// An enrollment that is over has looked at every captured frame.
pub proof fn enrollments_look_at_every_frame(run: EnrollRun)
    requires
        run.wf(),
        run.next() is Complete,
    ensures
        run.captured() == Ok::<usize, CameraFault>(run.findings().len() as usize),
        face_frames(run.findings()).len() > 0,
{
}

/// No embedding weighs more than the best face, and as many frames are chosen
/// as weights.
pub proof fn the_best_face_is_the_best(findings: Seq<EnrollFinding>)
    ensures
        forall|i: int|
            0 <= i < findings.len() ==> match #[trigger] findings[i] {
                EnrollFinding::Face(weight) => !weight.exceeds(best_face(findings).1),
                EnrollFinding::Nothing => true,
            },
        face_frames(findings).len() == face_weights(findings).len(),
    decreases findings.len(),
{
    if findings.len() > 0 {
        let prefix = findings.drop_last();
        the_best_face_is_the_best(prefix);
        let best = best_face(findings).1;
        let before = best_face(prefix).1;
        assert forall|i: int| 0 <= i < findings.len() implies match #[trigger] findings[i] {
            EnrollFinding::Face(weight) => !weight.exceeds(best),
            EnrollFinding::Nothing => true,
        } by {
            if let EnrollFinding::Face(weight) = findings[i] {
                if i < prefix.len() {
                    assert(prefix[i] == findings[i]);
                    exceeding_is_a_strict_order(weight, best, before);
                } else {
                    exceeding_is_a_strict_order(weight, weight, weight);
                }
            }
        }
    }
}

/// The best face is the earliest among equals: it weighs more than every face
/// before it.
pub proof fn the_best_face_is_the_first_of_its_weight(findings: Seq<EnrollFinding>)
    requires
        findings.len() <= usize::MAX,
        best_face(findings).1.exceeds(Scalar::zero()),
    ensures
        best_face(findings).0 < findings.len(),
        findings[best_face(findings).0 as int] == EnrollFinding::Face(best_face(findings).1),
        forall|i: int|
            0 <= i < best_face(findings).0 ==> match #[trigger] findings[i] {
                EnrollFinding::Face(weight) => weight.is_nan() || best_face(findings).1.exceeds(
                    weight,
                ),
                EnrollFinding::Nothing => true,
            },
    decreases findings.len(),
{
    if findings.len() > 0 {
        let prefix = findings.drop_last();
        let best = best_face(findings);
        if best != best_face(prefix) || (findings.last() matches EnrollFinding::Face(w)
            && w.exceeds(best_face(prefix).1)) {
            the_best_face_is_the_best(prefix);
            assert forall|i: int| 0 <= i < best.0 implies match #[trigger] findings[i] {
                EnrollFinding::Face(weight) => weight.is_nan() || best.1.exceeds(weight),
                EnrollFinding::Nothing => true,
            } by {
                assert(prefix[i] == findings[i]);
            }
        } else {
            the_best_face_is_the_first_of_its_weight(prefix);
            assert forall|i: int| 0 <= i < best.0 implies match #[trigger] findings[i] {
                EnrollFinding::Face(weight) => weight.is_nan() || best.1.exceeds(weight),
                EnrollFinding::Nothing => true,
            } by {
                assert(prefix[i] == findings[i]);
            }
        }
    }
}

/// Without framing, a preview changes nothing on the way.
proof fn lemma_previews_change_nothing(a: EnrollPlan, b: EnrollPlan, events: Seq<EnrollEvent>)
    requires
        a.frames_count == b.frames_count,
        a.framing_nanos == 0,
        b.framing_nanos == 0,
    ensures
        enroll_after(a, events) == enroll_after(b, events),
    decreases events.len(),
{
    if events.len() > 0 {
        lemma_previews_change_nothing(a, b, events.drop_last());
    }
}

/// Without framing time there is no framing.
proof fn lemma_no_framing(plan: EnrollPlan, events: Seq<EnrollEvent>)
    requires
        plan.framing_nanos == 0,
    ensures
        enroll_after(plan, events).next !is StreamFraming,
    decreases events.len(),
{
    if events.len() > 0 {
        lemma_no_framing(plan, events.drop_last());
    }
}

/// A preview never changes an enrollment: with no framing phase, two enrollments of
/// as many frames that are given the same answers take the same steps, choose the
/// same faces and end alike, whether or not somebody is watching.
pub proof fn previews_never_change_an_enrollment(watched: EnrollRun, unwatched: EnrollRun)
    requires
        watched.wf(),
        unwatched.wf(),
        watched.plan().frames_count == unwatched.plan().frames_count,
        watched.plan().framing_nanos == 0,
        unwatched.plan().framing_nanos == 0,
        watched.events() == unwatched.events(),
    ensures
        watched.state() == unwatched.state(),
        watched.next() !is StreamFraming,
        face_frames(watched.findings()) == face_frames(unwatched.findings()),
        face_weights(watched.findings()) == face_weights(unwatched.findings()),
        best_face(watched.findings()) == best_face(unwatched.findings()),
{
    lemma_previews_change_nothing(watched.plan(), unwatched.plan(), watched.events());
    lemma_no_framing(watched.plan(), watched.events());
}

/// The embeddings that are averaged are those of exactly the frames that gave one, in
/// order, each with the weight of its own face.
pub proof fn every_face_enters_with_its_own_weight(findings: Seq<EnrollFinding>)
    requires
        findings.len() <= usize::MAX,
    ensures
        face_frames(findings).len() == face_weights(findings).len(),
        forall|k: int|
            0 <= k < face_frames(findings).len() ==> {
                let i = (#[trigger] face_frames(findings)[k]) as int;
                i < findings.len() && findings[i] == EnrollFinding::Face(face_weights(findings)[k])
            },
        forall|j: int, k: int|
            0 <= j < k < face_frames(findings).len() ==> (#[trigger] face_frames(findings)[j]) < (
            #[trigger] face_frames(findings)[k]),
        forall|i: int|
            0 <= i < findings.len() && (#[trigger] findings[i]) is Face ==> face_frames(
                findings,
            ).contains(i as usize),
    decreases findings.len(),
{
    if findings.len() > 0 {
        let prefix = findings.drop_last();
        let last = findings.len() - 1;
        every_face_enters_with_its_own_weight(prefix);
        let (frames, before) = (face_frames(findings), face_frames(prefix));
        assert forall|k: int| 0 <= k < frames.len() implies {
            let i = (#[trigger] frames[k]) as int;
            i < findings.len() && findings[i] == EnrollFinding::Face(face_weights(findings)[k])
        } by {
            if k < before.len() {
                assert(frames[k] == before[k]);
                assert(prefix[before[k] as int] == findings[before[k] as int]);
            }
        }
        assert forall|i: int|
            0 <= i < findings.len() && (#[trigger] findings[i]) is Face implies frames.contains(
            i as usize,
        ) by {
            if i < last {
                assert(prefix[i] == findings[i]);
                assert(before.contains(i as usize));
                let k = before.index_of(i as usize);
                assert(frames[k] == i as usize);
            } else {
                assert(frames.last() == i as usize);
            }
        }
        assert forall|j: int, k: int| 0 <= j < k < frames.len() implies (#[trigger] frames[j]) < (
        #[trigger] frames[k]) by {
            assert(frames[j] == before[j]);
            if k < before.len() {
                assert(frames[k] == before[k]);
            } else {
                assert(prefix[before[j] as int] is Face);
            }
        }
    }
}

/// The quality is positive exactly where some weight is, which is where the average is
/// weighted. Without a positive weight the quality is zero, and frame zero stands for
/// the best.
pub proof fn averages_are_weighted_where_a_weight_is_positive(findings: Seq<EnrollFinding>)
    requires
        findings.len() <= usize::MAX,
    ensures
        best_face(findings).1.exceeds(Scalar::zero()) <==> exists|k: int|
            0 <= k < face_weights(findings).len() && 0 < (#[trigger] face_weights(findings)[k]).bits
                <= 0x7f80_0000,
        best_face(findings).1.exceeds(Scalar::zero()) || best_face(findings) == (
            0usize,
            Scalar { bits: 0 },
        ),
{
    every_face_enters_with_its_own_weight(findings);
    the_best_face_is_the_best(findings);
    lemma_best_is_zero_or_positive(findings);
    let best = best_face(findings);
    let (frames, weights) = (face_frames(findings), face_weights(findings));
    if best.1.exceeds(Scalar::zero()) {
        the_best_face_is_the_first_of_its_weight(findings);
        assert(findings[best.0 as int] is Face);
        assert(frames.contains(best.0));
        let k = frames.index_of(best.0);
        assert(findings[frames[k] as int] == EnrollFinding::Face(weights[k]));
        scalars_are_ordered_as_numbers(best.1, Scalar::zero());
        assert(0 < weights[k].bits <= 0x7f80_0000);
    }
    if exists|k: int| 0 <= k < weights.len() && 0 < (#[trigger] weights[k]).bits <= 0x7f80_0000 {
        let k = choose|k: int|
            0 <= k < weights.len() && 0 < (#[trigger] weights[k]).bits <= 0x7f80_0000;
        assert(findings[frames[k] as int] == EnrollFinding::Face(weights[k]));
        scalars_are_ordered_as_numbers(weights[k], best.1);
        scalars_are_ordered_as_numbers(best.1, Scalar::zero());
    }
}

/// The best weight is positive, or nothing was chosen.
proof fn lemma_best_is_zero_or_positive(findings: Seq<EnrollFinding>)
    ensures
        best_face(findings).1.exceeds(Scalar::zero()) || best_face(findings) == (
            0usize,
            Scalar::zero(),
        ),
    decreases findings.len(),
{
    if findings.len() > 0 {
        let prefix = findings.drop_last();
        lemma_best_is_zero_or_positive(prefix);
        exceeding_is_a_strict_order(
            best_face(findings).1,
            best_face(prefix).1,
            Scalar::zero(),
        );
    }
}

/// An enrollment goes on to the next frame until every frame was looked at. Then it is
/// over, and succeeds exactly if some frame gave an embedding.
pub proof fn enrollments_succeed_with_any_face(frames: usize, findings: Seq<EnrollFinding>)
    requires
        findings.len() <= usize::MAX,
    ensures
        findings.len() < frames ==> after_findings(frames, findings) == EnrollStepModel::Detect(
            findings.len() as usize,
        ),
        findings.len() >= frames && (exists|i: int|
            0 <= i < findings.len() && (#[trigger] findings[i]) is Face) ==> after_findings(
            frames,
            findings,
        ) is Complete,
        findings.len() >= frames && (forall|i: int|
            0 <= i < findings.len() ==> (#[trigger] findings[i]) is Nothing) ==> after_findings(
            frames,
            findings,
        ) == EnrollStepModel::Failed(EngineFault::NoFaceDetected),
{
    every_face_enters_with_its_own_weight(findings);
    let chosen = face_frames(findings);
    if exists|i: int| 0 <= i < findings.len() && (#[trigger] findings[i]) is Face {
        let i = choose|i: int| 0 <= i < findings.len() && (#[trigger] findings[i]) is Face;
        assert(chosen.contains(i as usize));
    }
    if chosen.len() > 0 {
        assert(findings[chosen[0] as int] is Face);
    }
}

/// Without a capture there is no enrollment: a failed capture fails it with the
/// camera's own error, one without frames with that, and any other goes on to the
/// first frame.
pub proof fn captures_decide_how_enrollments_go_on(captured: Result<usize, CameraFault>)
    ensures
        captured matches Err(e) ==> after_capture(captured) == EnrollStepModel::Failed(
            EngineFault::Camera(e),
        ),
        captured == Ok::<usize, CameraFault>(0) ==> after_capture(captured)
            == EnrollStepModel::Failed(EngineFault::NoUsableFrames),
        captured matches Ok(n) && n > 0 ==> after_capture(captured) == EnrollStepModel::Detect(0),
{
}

/// What a face contributes is its own confidence, as far as that is positive: a frame
/// whose face was detected with a confidence and whose embedding was extracted adds
/// that frame and that confidence, and leaves all before it as they were.
pub proof fn each_face_adds_its_confidence(before: EnrollRun, after: EnrollRun, confidence: Scalar)
    requires
        before.wf(),
        after.wf(),
        before.plan() == after.plan(),
        before.findings().len() < usize::MAX,
        after.events() == before.events().push(
            EnrollEvent::Detected(Ok(Some(confidence))),
        ).push(EnrollEvent::Extracted(ExtractionModel::Embedded)),
    ensures
        face_weights(after.findings()) == face_weights(before.findings()).push(
            if 0 < confidence.bits <= 0x7f80_0000 {
                confidence
            } else {
                Scalar { bits: 0 }
            },
        ),
        face_frames(after.findings()) == face_frames(before.findings()).push(
            before.findings().len() as usize,
        ),
{
    let detected = EnrollEvent::Detected(Ok(Some(confidence)));
    lemma_told(before.plan(), before.events(), detected);
    lemma_told(
        before.plan(),
        before.events().push(detected),
        EnrollEvent::Extracted(ExtractionModel::Embedded),
    );
    assert(after.findings().drop_last() =~= before.findings());
}

/// A frame without a face, or with one that cannot be aligned, adds nothing.
pub proof fn frames_without_a_face_add_nothing(before: EnrollRun, after: EnrollRun)
    requires
        before.wf(),
        after.wf(),
        before.plan() == after.plan(),
        ({
            ||| after.events() == before.events().push(EnrollEvent::Detected(Ok(None)))
            ||| after.events() == before.events().push(
                EnrollEvent::Extracted(ExtractionModel::NoLandmarks),
            )
        }),
    ensures
        after.findings().len() == before.findings().len() + 1,
        face_weights(after.findings()) == face_weights(before.findings()),
        face_frames(after.findings()) == face_frames(before.findings()),
        best_face(after.findings()) == best_face(before.findings()),
{
    lemma_told(before.plan(), before.events(), EnrollEvent::Detected(Ok(None)));
    lemma_told(
        before.plan(),
        before.events(),
        EnrollEvent::Extracted(ExtractionModel::NoLandmarks),
    );
    assert(after.findings().drop_last() =~= before.findings());
}

} // verus!
