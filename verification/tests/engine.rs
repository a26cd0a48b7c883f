use visage::camera::CameraError;
use visage::engine::{
    capture_looks_broken, emitter_settle_millis, request_outcome, spawn_engine, EngineError,
    HealAction, SelfHeal, StartupStep,
};
use visage::enrollment::{EnrollPlan, EnrollRun, EnrollStep, Extraction};
use visage::recognition::{
    DetectedFace, Landmarks, MatchResult, VerifyPlan, VerifyRun, VerifyStep,
};
use visage::scalar::Scalar;

fn scalar(x: f32) -> Scalar {
    Scalar { bits: x.to_bits() }
}

/// The self-heal re-open must arm only on camera-broken outcomes: never on a
/// genuine no-face or unknown-user, a verify timeout, a liveness rejection, or a
/// success.
#[test]
fn self_heal_only_arms_on_camera_broken() {
    // Camera-broken: arm.
    assert!(capture_looks_broken::<()>(&Err(
        EngineError::NoUsableFrames
    )));
    assert!(capture_looks_broken::<()>(&Err(EngineError::Camera(
        CameraError::DeviceBusy
    ))));
    // Everything else: do not re-open.
    assert!(!capture_looks_broken::<()>(&Err(
        EngineError::NoFaceDetected
    )));
    assert!(!capture_looks_broken::<()>(&Err(
        EngineError::VerifyTimeout
    )));
    assert!(!capture_looks_broken::<()>(&Err(
        EngineError::LivenessCheckFailed {
            displacement: scalar(0.0),
            threshold: scalar(1.0),
        }
    )));
    assert!(!capture_looks_broken::<()>(&Ok(())));
}

#[test]
fn three_broken_captures_in_a_row_reopen_the_camera() {
    let mut heal = SelfHeal::new();
    assert_eq!(heal.served(true), HealAction::Continue);
    assert_eq!(heal.served(true), HealAction::Continue);
    assert_eq!(heal.served(false), HealAction::Continue);
    assert_eq!(heal.consecutive_failures(), 0);
    assert_eq!(heal.served(true), HealAction::Continue);
    assert_eq!(heal.served(true), HealAction::Continue);
    assert_eq!(heal.served(true), HealAction::Reopen);
    heal.reopened(false);
    assert_eq!(heal.consecutive_failures(), 3);
    assert_eq!(heal.served(true), HealAction::Reopen);
    heal.reopened(true);
    assert_eq!(heal.consecutive_failures(), 0);
}

#[test]
fn a_closed_channel_is_an_error() {
    assert!(matches!(
        request_outcome::<u8>(false, None),
        Err(EngineError::ChannelClosed)
    ));
    assert!(matches!(
        request_outcome::<u8>(true, None),
        Err(EngineError::ChannelClosed)
    ));
    assert!(matches!(request_outcome(true, Some(Ok(7u8))), Ok(7)));
    assert!(matches!(
        request_outcome::<u8>(true, Some(Err(EngineError::NoFaceDetected))),
        Err(EngineError::NoFaceDetected)
    ));
}

#[test]
fn the_emitter_settles_only_when_it_came_on() {
    assert_eq!(emitter_settle_millis(None), 0);
    assert_eq!(emitter_settle_millis(Some(false)), 0);
    assert_eq!(emitter_settle_millis(Some(true)), 100);
}

#[test]
fn the_engine_starts_with_its_resources_and_a_lit_warm_up() {
    let mut run = spawn_engine(4, true);
    run.camera_opened(Ok(()));
    run.detector_loaded(Ok(()));
    run.recognizer_loaded(Ok(()));
    assert!(matches!(run.step, StartupStep::ProbeEmitter));
    run.emitter_probed();
    assert!(matches!(run.step, StartupStep::ActivateEmitter));
    run.emitter_activated();
    assert!(matches!(run.step, StartupStep::WarmUp(4)));
    run.warmed_up();
    assert!(matches!(run.step, StartupStep::DeactivateEmitter));
    run.emitter_deactivated();
    assert!(matches!(run.step, StartupStep::Serve));

    let mut run = spawn_engine(0, false);
    run.camera_opened(Ok(()));
    run.detector_loaded(Ok(()));
    run.recognizer_loaded(Ok(()));
    assert!(matches!(run.step, StartupStep::Serve));
}

#[test]
fn the_engine_fails_fast() {
    let mut run = spawn_engine(4, true);
    run.camera_opened(Err(CameraError::DeviceBusy));
    assert!(matches!(
        run.step,
        StartupStep::Failed(EngineError::Camera(CameraError::DeviceBusy))
    ));
    let mut run = spawn_engine(4, true);
    run.camera_opened(Ok(()));
    run.detector_loaded(Err("no model".to_string()));
    assert!(matches!(
        run.step,
        StartupStep::Failed(EngineError::Detector(_))
    ));
    let mut run = spawn_engine(4, true);
    run.camera_opened(Ok(()));
    run.detector_loaded(Ok(()));
    run.recognizer_loaded(Err("no model".to_string()));
    assert!(matches!(
        run.step,
        StartupStep::Failed(EngineError::Recognizer(_))
    ));
}

#[test]
fn errors_say_what_happened() {
    let text = |e: EngineError| e.message();
    assert_eq!(
        text(EngineError::Camera(CameraError::DeviceBusy)).unwrap(),
        "camera error: device busy"
    );
    assert_eq!(
        text(EngineError::Detector("x".to_string())).unwrap(),
        "detector error: x"
    );
    assert_eq!(
        text(EngineError::Recognizer("y".to_string())).unwrap(),
        "recognizer error: y"
    );
    assert_eq!(
        text(EngineError::NoFaceDetected).unwrap(),
        "no face detected in any captured frame"
    );
    assert_eq!(
        text(EngineError::NoUsableFrames).unwrap(),
        "no usable frames captured (camera returned only dark or unreadable frames)"
    );
    assert_eq!(
        text(EngineError::VerifyTimeout).unwrap(),
        "verification timed out"
    );
    assert_eq!(
        text(EngineError::ChannelClosed).unwrap(),
        "engine thread exited"
    );
    assert!(text(EngineError::LivenessCheckFailed {
        displacement: scalar(0.1),
        threshold: scalar(0.8),
    })
    .is_none());
}

#[test]
fn scalars_compare_as_floats_do() {
    let values = [
        0.0f32,
        -0.0,
        1.0,
        -1.0,
        0.5,
        -0.5,
        f32::MIN_POSITIVE,
        f32::MAX,
        f32::INFINITY,
        f32::NEG_INFINITY,
        f32::NAN,
        1.0e-40,
        -1.0e-40,
    ];
    for a in values {
        for b in values {
            assert_eq!(scalar(a).is_above(scalar(b)), a > b, "{a} > {b}");
        }
        let clamped = f32::from_bits(scalar(a).clamp_at_zero().bits);
        assert_eq!(clamped, a.max(0.0), "{a}");
    }
}

fn enrollment(has_preview: bool, framing_nanos: u128) -> EnrollRun {
    EnrollRun::start(EnrollPlan {
        frames_count: 5,
        has_preview,
        framing_nanos,
    })
}

fn enrolling(frames: usize) -> EnrollRun {
    let mut run = enrollment(false, 0);
    run.emitter_activated();
    run.captured_frames(Ok(frames));
    assert!(matches!(run.step(), EnrollStep::DeactivateEmitter));
    run.emitter_deactivated();
    run
}

#[test]
fn framing_needs_somebody_watching() {
    for (has_preview, nanos) in [(false, 0), (false, 9), (true, 0)] {
        let mut run = enrollment(has_preview, nanos);
        assert!(matches!(run.step(), EnrollStep::ActivateEmitter));
        run.emitter_activated();
        assert!(matches!(run.step(), EnrollStep::Capture(5)));
    }
    let mut run = enrollment(true, 1);
    run.emitter_activated();
    assert!(matches!(run.step(), EnrollStep::StreamFraming));
    run.framed();
    assert!(matches!(run.step(), EnrollStep::Capture(5)));
}

#[test]
fn enrolling_weighs_faces_and_picks_the_first_best() {
    let mut run = enrolling(6);
    assert!(matches!(run.step(), EnrollStep::Detect(0)));
    run.detected(Ok(None));
    for (i, confidence) in [(1, 0.7), (2, 0.9), (3, 0.9), (4, -0.5)] {
        run.detected(Ok(Some(scalar(confidence))));
        match run.step() {
            EnrollStep::Extract(at) => assert_eq!(*at, i),
            step => panic!("{step:?}"),
        }
        run.extracted(Extraction::Embedded);
    }
    run.detected(Ok(Some(scalar(0.99))));
    run.extracted(Extraction::NoLandmarks);
    assert!(matches!(run.step(), EnrollStep::Complete));
    let chosen = run.finish().unwrap();
    assert_eq!(chosen.frames, vec![1, 2, 3, 4]);
    assert_eq!(
        chosen.weights,
        vec![scalar(0.7), scalar(0.9), scalar(0.9), scalar(0.0)]
    );
    assert_eq!(chosen.best_frame, 2);
    assert_eq!(chosen.quality_score, scalar(0.9));
    assert!(chosen.weighted);
}

#[test]
fn faces_without_confidence_are_averaged_equally() {
    let mut run = enrolling(2);
    for confidence in [f32::NAN, -1.0] {
        run.detected(Ok(Some(scalar(confidence))));
        run.extracted(Extraction::Embedded);
    }
    let chosen = run.finish().unwrap();
    assert!(!chosen.weighted);
    assert_eq!(chosen.frames, vec![0, 1]);
    assert_eq!(chosen.best_frame, 0);
    assert_eq!(chosen.quality_score, scalar(0.0));
}

#[test]
fn enrollments_fail_for_a_reason() {
    let mut run = enrollment(false, 0);
    run.emitter_activated();
    run.captured_frames(Err(CameraError::DeviceBusy));
    run.emitter_deactivated();
    assert!(matches!(
        run.finish(),
        Err(EngineError::Camera(CameraError::DeviceBusy))
    ));
    assert!(matches!(
        enrolling(0).finish(),
        Err(EngineError::NoUsableFrames)
    ));
    let mut run = enrolling(1);
    run.detected(Ok(None));
    assert!(matches!(run.finish(), Err(EngineError::NoFaceDetected)));
    let mut run = enrolling(1);
    run.detected(Err("x".to_string()));
    assert!(matches!(run.finish(), Err(EngineError::Detector(_))));
    let mut run = enrolling(1);
    run.detected(Ok(Some(scalar(0.5))));
    run.extracted(Extraction::Failed("y".to_string()));
    assert!(matches!(run.finish(), Err(EngineError::Recognizer(_))));
}

fn verification(liveness_enabled: bool) -> VerifyRun {
    VerifyRun::start(VerifyPlan {
        frames_count: 3,
        liveness_enabled,
        liveness_min_displacement: scalar(0.8),
    })
}

fn recognizing(liveness_enabled: bool, frames: usize) -> VerifyRun {
    let mut run = verification(liveness_enabled);
    assert!(matches!(run.step(), VerifyStep::CheckDeadline));
    run.deadline_checked(false);
    assert!(matches!(run.step(), VerifyStep::ActivateEmitter));
    run.emitter_activated();
    assert!(matches!(run.step(), VerifyStep::Capture(3)));
    run.captured_frames(Ok(frames));
    assert!(matches!(run.step(), VerifyStep::DeactivateEmitter));
    run.emitter_deactivated();
    assert!(matches!(run.step(), VerifyStep::RecheckDeadline));
    run.deadline_checked(false);
    run
}

fn face(confidence: f32, landmarks: bool) -> DetectedFace {
    DetectedFace {
        confidence: scalar(confidence),
        landmarks: if landmarks {
            Some(Landmarks {
                points: [(scalar(1.0), scalar(2.0)); 5],
            })
        } else {
            None
        },
    }
}

fn matching(matched: bool, similarity: f32, id: &str) -> MatchResult {
    MatchResult {
        matched,
        similarity: scalar(similarity),
        model_id: Some(id.to_string()),
        model_label: None,
    }
}

fn see(run: &mut VerifyRun, face: DetectedFace, result: MatchResult) {
    run.detected(Ok(Some(face)));
    assert!(matches!(run.step(), VerifyStep::Recognize(_)));
    run.recognized(Ok(result));
}

#[test]
fn verifying_takes_the_first_best_match() {
    let mut run = recognizing(false, 4);
    see(&mut run, face(0.5, true), matching(false, 0.3, "a"));
    run.detected(Ok(None));
    see(&mut run, face(0.6, true), matching(true, 0.9, "b"));
    see(&mut run, face(0.7, true), matching(true, 0.9, "c"));
    assert!(matches!(run.step(), VerifyStep::Complete));
    let verified = run.finish().unwrap();
    assert!(verified.result.matched);
    assert_eq!(verified.result.model_id.as_deref(), Some("b"));
    assert_eq!(verified.best_quality, scalar(0.6));
}

#[test]
fn a_match_has_to_be_live() {
    let mut run = recognizing(true, 2);
    see(&mut run, face(0.5, true), matching(true, 0.9, "a"));
    see(&mut run, face(0.5, true), matching(true, 0.8, "a"));
    assert!(matches!(run.step(), VerifyStep::CheckLiveness));
    assert_eq!(run.landmarks().len(), 2);
    run.liveness_checked(true, scalar(1.5));
    assert!(run.finish().unwrap().result.matched);

    let mut run = recognizing(true, 2);
    see(&mut run, face(0.5, true), matching(true, 0.9, "a"));
    see(&mut run, face(0.5, true), matching(true, 0.8, "a"));
    run.liveness_checked(false, scalar(0.25));
    match run.finish() {
        Err(EngineError::LivenessCheckFailed {
            displacement,
            threshold,
        }) => {
            assert_eq!(displacement, scalar(0.25));
            assert_eq!(threshold, scalar(0.8));
        }
        outcome => panic!("{outcome:?}"),
    }
}

/// A spoof that yields a single landmark frame cannot starve the check of
/// evidence.
#[test]
fn liveness_fails_closed_without_evidence() {
    let mut run = recognizing(true, 2);
    see(&mut run, face(0.5, true), matching(true, 0.9, "a"));
    see(&mut run, face(0.5, false), matching(true, 0.8, "a"));
    assert_eq!(run.landmarks().len(), 1);
    run.liveness_checked(true, scalar(0.0));
    assert!(matches!(
        run.finish(),
        Err(EngineError::LivenessCheckFailed { .. })
    ));
}

#[test]
fn liveness_only_gates_a_match() {
    let mut run = recognizing(true, 1);
    see(&mut run, face(0.5, true), matching(false, 0.2, "a"));
    assert!(matches!(run.step(), VerifyStep::Complete));
    assert!(!run.finish().unwrap().result.matched);
}

#[test]
fn a_missed_deadline_comes_first() {
    let mut run = verification(false);
    run.deadline_checked(true);
    assert!(matches!(run.finish(), Err(EngineError::VerifyTimeout)));

    let mut run = verification(false);
    run.deadline_checked(false);
    run.emitter_activated();
    run.captured_frames(Err(CameraError::DeviceBusy));
    run.emitter_deactivated();
    run.deadline_checked(true);
    assert!(matches!(run.finish(), Err(EngineError::VerifyTimeout)));
}

#[test]
fn verifications_fail_for_a_reason() {
    let mut run = verification(false);
    run.deadline_checked(false);
    run.emitter_activated();
    run.captured_frames(Err(CameraError::DeviceBusy));
    run.emitter_deactivated();
    run.deadline_checked(false);
    assert!(matches!(
        run.finish(),
        Err(EngineError::Camera(CameraError::DeviceBusy))
    ));
    assert!(matches!(
        recognizing(false, 0).finish(),
        Err(EngineError::NoUsableFrames)
    ));
    let mut run = recognizing(false, 1);
    run.detected(Ok(None));
    assert!(matches!(run.finish(), Err(EngineError::NoFaceDetected)));
    let mut run = recognizing(false, 1);
    run.detected(Err("x".to_string()));
    assert!(matches!(run.finish(), Err(EngineError::Detector(_))));
    let mut run = recognizing(false, 1);
    run.detected(Ok(Some(face(0.5, false))));
    run.recognized(Err("no landmarks".to_string()));
    assert!(matches!(run.finish(), Err(EngineError::Recognizer(_))));
}

#[test]
fn a_preview_without_framing_changes_nothing() {
    let mut outcomes = Vec::new();
    for has_preview in [false, true] {
        let mut run = enrollment(has_preview, 0);
        run.emitter_activated();
        assert!(matches!(run.step(), EnrollStep::Capture(5)));
        run.captured_frames(Ok(2));
        run.emitter_deactivated();
        run.detected(Ok(None));
        run.detected(Ok(Some(scalar(0.5))));
        run.extracted(Extraction::Embedded);
        let chosen = run.finish().unwrap();
        outcomes.push((chosen.frames, chosen.weights, chosen.best_frame));
    }
    assert_eq!(outcomes[0], outcomes[1]);
    assert_eq!(outcomes[0], (vec![1], vec![scalar(0.5)], 1));
}

#[test]
fn liveness_makes_no_difference_without_a_match() {
    let mut ends = Vec::new();
    for liveness_enabled in [false, true] {
        let mut run = recognizing(liveness_enabled, 2);
        see(&mut run, face(0.5, true), matching(false, 0.3, "a"));
        see(&mut run, face(0.6, false), matching(false, 0.2, "b"));
        let verified = run.finish().unwrap();
        ends.push((verified.result.model_id, verified.best_quality));
    }
    assert_eq!(ends[0], ends[1]);
    assert_eq!(ends[0], (Some("a".to_string()), scalar(0.5)));
    for liveness_enabled in [false, true] {
        let mut run = recognizing(liveness_enabled, 1);
        run.detected(Ok(None));
        assert!(matches!(run.finish(), Err(EngineError::NoFaceDetected)));
    }
    // With a match, only the verification without liveness is over.
    let mut run = recognizing(false, 1);
    see(&mut run, face(0.5, true), matching(true, 0.9, "a"));
    assert!(matches!(run.step(), VerifyStep::Complete));
    let mut run = recognizing(true, 1);
    see(&mut run, face(0.5, true), matching(true, 0.9, "a"));
    assert!(matches!(run.step(), VerifyStep::CheckLiveness));
}
