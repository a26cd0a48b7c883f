//! The one capture loop.
//!
//! Every way of capturing frames goes through it, so that the authentication
//! path and the enrollment path cannot diverge. The loop alternates driver
//! calls with decisions: a run says which call comes next and is told how it
//! went. Judging darkness and enhancing contrast are numeric and stay with the
//! caller; every frame, dark or not, comes back from the run to be observed.
use crate::camera::{
    check_format, check_reasserted, format_check, grayscale, reassert_fault, to_grayscale, Camera,
    CameraError, CameraFault, CameraModel, FormatCheck, FormatCheckModel, PixelFormat, VideoFormat,
};
use crate::frame::{covers_preview, whole_frames_cover_their_preview, Frame, FrameModel};
use crate::text::{answer_of, join};
use vstd::prelude::*;

verus! {

/// What ends a capture loop.
///
/// Counted captures want a number of usable frames and accept a bounded number
/// of attempts to get them. The framing phase wants a predictable slice of the
/// user's attention and does not care how many frames arrive.
#[derive(Debug, Clone, Copy, PartialEq, Eq, Structural)]
pub enum Budget {
    /// Stop after this many non-dark frames, or three times as many attempts.
    Frames(usize),
    /// Stop when the caller's deadline has passed, however many frames arrived.
    Deadline,
}

/// The next call of a capture.
#[derive(Debug)]
pub enum CaptureStep {
    /// Read the format that the device is in.
    ReadFormat,
    /// Set this format, all else as read.
    ApplyFormat(VideoFormat),
    /// Open the stream.
    OpenStream,
    /// See whether the deadline has passed.
    CheckClock,
    /// Take the next buffer off the stream.
    Dequeue,
    /// Judge the pixels: dark or not.
    Judge,
    /// Observe the frame, and hand it back.
    Retain,
    /// The capture is over.
    Complete,
    /// The capture failed.
    Failed(CameraError),
}

/// A step of a capture in terms of what it holds.
pub ghost enum CaptureStepModel {
    ReadFormat,
    ApplyFormat(VideoFormat),
    OpenStream,
    CheckClock,
    Dequeue,
    Judge,
    Retain,
    Complete,
    Failed(CameraFault),
}

impl View for CaptureStep {
    type V = CaptureStepModel;

    open spec fn view(&self) -> CaptureStepModel {
        match self {
            CaptureStep::ReadFormat => CaptureStepModel::ReadFormat,
            CaptureStep::ApplyFormat(f) => CaptureStepModel::ApplyFormat(*f),
            CaptureStep::OpenStream => CaptureStepModel::OpenStream,
            CaptureStep::CheckClock => CaptureStepModel::CheckClock,
            CaptureStep::Dequeue => CaptureStepModel::Dequeue,
            CaptureStep::Judge => CaptureStepModel::Judge,
            CaptureStep::Retain => CaptureStepModel::Retain,
            CaptureStep::Complete => CaptureStepModel::Complete,
            CaptureStep::Failed(e) => CaptureStepModel::Failed(e@),
        }
    }
}

/// The frames that are not dark, in the order in which they arrived.
pub open spec fn usable(seen: Seq<FrameModel>) -> Seq<FrameModel>
    decreases seen.len(),
{
    if seen.len() == 0 {
        Seq::empty()
    } else {
        let before = usable(seen.drop_last());
        if seen.last().is_dark {
            before
        } else {
            before.push(seen.last())
        }
    }
}

/// How many of the frames are dark.
pub open spec fn dark_count(seen: Seq<FrameModel>) -> int {
    seen.len() - usable(seen).len()
}

/// How many attempts a counted capture makes at most: three for each frame, as
/// far as that can be counted.
pub open spec fn attempt_limit(count: usize) -> nat {
    if 3 * count <= usize::MAX {
        (3 * count) as nat
    } else {
        usize::MAX as nat
    }
}

/// What the loop does next, once `seen` has been observed.
pub open spec fn loop_step(budget: Budget, seen: Seq<FrameModel>) -> CaptureStepModel {
    match budget {
        Budget::Frames(count) => if usable(seen).len() >= count || seen.len() >= attempt_limit(
            count,
        ) {
            CaptureStepModel::Complete
        } else {
            CaptureStepModel::Dequeue
        },
        Budget::Deadline => CaptureStepModel::CheckClock,
    }
}

/// What a list of frames holds.
pub open spec fn frame_models(frames: Seq<Frame>) -> Seq<FrameModel> {
    frames.map_values(|f: Frame| f@)
}

/// The error of a stream that could not be opened.
pub open spec fn stream_fault(e: Seq<char>) -> CameraFault {
    CameraFault::CaptureFailed("failed to create mmap stream: "@ + e)
}

/// The error of a stream that gave no buffer.
pub open spec fn dequeue_fault(e: Seq<char>) -> CameraFault {
    CameraFault::CaptureFailed("failed to dequeue buffer: "@ + e)
}

/// The error of a stream that could not be opened.
pub fn stream_failed(e: &str) -> (error: CameraError)
    ensures
        error@ == stream_fault(e@),
{
    CameraError::CaptureFailed(join("failed to create mmap stream: ", e))
}

/// The error of a stream that gave no buffer.
pub fn dequeue_failed(e: &str) -> (error: CameraError)
    ensures
        error@ == dequeue_fault(e@),
{
    CameraError::CaptureFailed(join("failed to dequeue buffer: ", e))
}

/// What a capture does not change: its format, its budget, and whether it keeps
/// frames.
pub ghost struct CapturePlan {
    pub format: VideoFormat,
    pub pixel_format: PixelFormat,
    pub budget: Budget,
    pub keep: bool,
}

/// What a capture is told.
pub ghost enum CaptureEvent {
    FormatRead(Result<VideoFormat, Seq<char>>),
    FormatApplied(Result<VideoFormat, Seq<char>>),
    StreamOpened(Result<(), Seq<char>>),
    ClockChecked { passed: bool },
    DequeueFailed(Seq<char>),
    Dequeued(Seq<u8>),
    JudgedDark { sequence: u32, timestamp: u64 },
    JudgedUsable { pixels: Seq<u8>, sequence: u32, timestamp: u64 },
    Retained,
}

/// Where a capture is: its next step, the frames observed, and the pixels that wait
/// for their verdict.
pub ghost struct CaptureState {
    pub next: CaptureStepModel,
    pub seen: Seq<FrameModel>,
    pub pending: Seq<u8>,
}

/// A frame of the size that was negotiated.
pub open spec fn frame_of(
    format: VideoFormat,
    data: Seq<u8>,
    is_dark: bool,
    sequence: u32,
    timestamp: u64,
) -> FrameModel {
    FrameModel { data, width: format.width, height: format.height, timestamp, sequence, is_dark }
}

/// Where an event takes a capture.
pub open spec fn capture_step(
    plan: CapturePlan,
    state: CaptureState,
    event: CaptureEvent,
) -> CaptureState {
    match event {
        CaptureEvent::FormatRead(current) => CaptureState {
            next: match format_check(plan.format, current) {
                FormatCheckModel::Ready => CaptureStepModel::OpenStream,
                FormatCheckModel::Reassert(f) => CaptureStepModel::ApplyFormat(f),
                FormatCheckModel::Failed(e) => CaptureStepModel::Failed(e),
            },
            ..state
        },
        CaptureEvent::FormatApplied(negotiated) => CaptureState {
            next: match reassert_fault(plan.format, negotiated) {
                None => CaptureStepModel::OpenStream,
                Some(e) => CaptureStepModel::Failed(e),
            },
            ..state
        },
        CaptureEvent::StreamOpened(result) => CaptureState {
            next: match result {
                Ok(_) => loop_step(plan.budget, state.seen),
                Err(e) => CaptureStepModel::Failed(stream_fault(e)),
            },
            ..state
        },
        CaptureEvent::ClockChecked { passed } => CaptureState {
            next: if passed {
                CaptureStepModel::Complete
            } else {
                CaptureStepModel::Dequeue
            },
            ..state
        },
        CaptureEvent::DequeueFailed(e) => CaptureState {
            next: CaptureStepModel::Failed(dequeue_fault(e)),
            ..state
        },
        CaptureEvent::Dequeued(buf) => match pixels_of(plan, buf) {
            Ok(pending) => CaptureState { next: CaptureStepModel::Judge, pending, ..state },
            Err(e) => CaptureState { next: CaptureStepModel::Failed(e), ..state },
        },
        CaptureEvent::JudgedDark { sequence, timestamp } => {
            let seen = state.seen.push(
                frame_of(plan.format, state.pending, true, sequence, timestamp),
            );
            CaptureState { next: loop_step(plan.budget, seen), seen, ..state }
        },
        CaptureEvent::JudgedUsable { pixels, sequence, timestamp } => CaptureState {
            next: CaptureStepModel::Retain,
            seen: state.seen.push(frame_of(plan.format, pixels, false, sequence, timestamp)),
            ..state
        },
        CaptureEvent::Retained => CaptureState {
            next: loop_step(plan.budget, state.seen),
            ..state
        },
    }
}

/// Where a capture is after the events.
pub open spec fn capture_after(plan: CapturePlan, events: Seq<CaptureEvent>) -> CaptureState
    decreases events.len(),
{
    if events.len() == 0 {
        CaptureState {
            next: CaptureStepModel::ReadFormat,
            seen: Seq::empty(),
            pending: Seq::empty(),
        }
    } else {
        capture_step(plan, capture_after(plan, events.drop_last()), events.last())
    }
}

/// The buffers that the events took off the stream, in order.
pub open spec fn buffers(events: Seq<CaptureEvent>) -> Seq<Seq<u8>>
    decreases events.len(),
{
    if events.len() == 0 {
        Seq::empty()
    } else {
        let before = buffers(events.drop_last());
        match events.last() {
            CaptureEvent::Dequeued(buf) => before.push(buf),
            _ => before,
        }
    }
}

/// What a buffer gives under a plan.
pub open spec fn pixels_of(plan: CapturePlan, buf: Seq<u8>) -> Result<Seq<u8>, CameraFault> {
    grayscale(plan.pixel_format, (plan.format.width * plan.format.height) as nat, buf)
}

/// Whether a frame is what a capture makes of a buffer: a dark frame is shown as it
/// was captured, and a usable one keeps its size.
pub open spec fn comes_from(plan: CapturePlan, frame: FrameModel, buf: Seq<u8>) -> bool {
    &&& is_whole_frame(frame, plan.format)
    &&& pixels_of(plan, buf) is Ok
    &&& frame.is_dark ==> pixels_of(plan, buf) == Ok::<Seq<u8>, CameraFault>(frame.data)
}

/// Whether a frame has the size that was negotiated, and all of its pixels.
pub open spec fn is_whole_frame(frame: FrameModel, format: VideoFormat) -> bool {
    &&& frame.width == format.width
    &&& frame.height == format.height
    &&& frame.data.len() == frame.width * frame.height
}

/// What one more event does.
proof fn lemma_told(plan: CapturePlan, events: Seq<CaptureEvent>, event: CaptureEvent)
    ensures
        capture_after(plan, events.push(event)) == capture_step(
            plan,
            capture_after(plan, events),
            event,
        ),
        buffers(events.push(event)) == match event {
            CaptureEvent::Dequeued(buf) => buffers(events).push(buf),
            _ => buffers(events),
        },
{
    assert(events.push(event).drop_last() =~= events);
}

/// A buffer that is large enough gives as many pixels as there are.
proof fn lemma_grayscale_len(pixel_format: PixelFormat, format: VideoFormat, buf: Seq<u8>)
    ensures
        grayscale(pixel_format, (format.width * format.height) as nat, buf) matches Ok(pixels)
            ==> pixels.len() == format.width * format.height,
{
    assert(format.width * format.height >= 0) by (nonlinear_arith)
        requires
            format.width >= 0,
            format.height >= 0,
    ;
}

/// Some of the frames are usable.
proof fn lemma_usable_len(seen: Seq<FrameModel>)
    ensures
        usable(seen).len() <= seen.len(),
    decreases seen.len(),
{
    if seen.len() > 0 {
        lemma_usable_len(seen.drop_last());
    }
}

/// A capture in progress.
pub struct CaptureRun {
    want: VideoFormat,
    pixel_format: PixelFormat,
    budget: Budget,
    keep: bool,
    step: CaptureStep,
    frames: Vec<Frame>,
    good: usize,
    attempts: usize,
    dark: usize,
    seen: Ghost<Seq<FrameModel>>,
    pending: Ghost<Seq<u8>>,
    events: Ghost<Seq<CaptureEvent>>,
}

impl CaptureRun {
    /// The step that comes next.
    pub closed spec fn next(&self) -> CaptureStepModel {
        self.step@
    }

    /// What the capture does not change: its format, its budget, and whether it
    /// keeps frames.
    pub closed spec fn plan(&self) -> CapturePlan {
        CapturePlan {
            format: self.want,
            pixel_format: self.pixel_format,
            budget: self.budget,
            keep: self.keep,
        }
    }

    /// What the capture was told so far.
    pub closed spec fn events(&self) -> Seq<CaptureEvent> {
        self.events@
    }

    /// The frames observed so far.
    pub closed spec fn seen(&self) -> Seq<FrameModel> {
        self.seen@
    }

    /// The pixels that wait for their verdict.
    pub closed spec fn pending(&self) -> Seq<u8> {
        self.pending@
    }

    /// The frames that have been handed back.
    spec fn settled(&self) -> Seq<FrameModel> {
        if self.step is Retain {
            self.seen@.drop_last()
        } else {
            self.seen@
        }
    }

    /// The counters and the kept frames are those of the frames observed, of
    /// which `settled` have been handed back.
    spec fn tallied(&self, settled: Seq<FrameModel>) -> bool {
        &&& frame_models(self.frames@) == if self.keep {
            usable(settled)
        } else {
            Seq::empty()
        }
        &&& self.dark == dark_count(self.seen@)
        &&& match self.budget {
            Budget::Frames(count) => {
                &&& self.good == usable(settled).len()
                &&& self.attempts == self.seen@.len()
                &&& self.seen@.len() <= attempt_limit(count)
                &&& usable(self.seen@).len() <= count
            },
            Budget::Deadline => true,
        }
    }

    /// Every frame observed comes from its buffer.
    spec fn frames_come_from_buffers(&self) -> bool {
        let taken = buffers(self.events@);
        &&& self.seen@.len() <= taken.len()
        &&& forall|i: int|
            0 <= i < self.seen@.len() ==> comes_from(
                self.plan(),
                #[trigger] self.seen@[i],
                taken[i],
            )
    }

    /// The capture is in order: it is where its events took it, its counters and
    /// kept frames are those of the frames observed, every frame comes from its
    /// buffer, and a counted capture is within its limits.
    pub closed spec fn wf(&self) -> bool {
        &&& self.step is Retain ==> self.seen@.len() > 0 && !self.seen@.last().is_dark
        &&& self.tallied(self.settled())
        &&& capture_after(self.plan(), self.events@) == (CaptureState {
            next: self.step@,
            seen: self.seen@,
            pending: self.pending@,
        })
        &&& self.frames_come_from_buffers()
        &&& match self.step {
            CaptureStep::Judge => {
                &&& buffers(self.events@).len() == self.seen@.len() + 1
                &&& self.pending@.len() == self.want.width * self.want.height
                &&& pixels_of(self.plan(), buffers(self.events@).last()) == Ok::<
                    Seq<u8>,
                    CameraFault,
                >(self.pending@)
            },
            CaptureStep::Failed(_) => true,
            _ => buffers(self.events@).len() == self.seen@.len(),
        }
        &&& match self.budget {
            Budget::Frames(count) => {
                &&& (self.step is Dequeue || self.step is Judge) ==> self.seen@.len()
                    < attempt_limit(count) && usable(self.seen@).len() < count
                &&& self.step is Complete ==> loop_step(self.budget, self.seen@) is Complete
                &&& !(self.step is CheckClock)
            },
            Budget::Deadline => true,
        }
    }

    /// Starts a capture.
    fn start(camera: &Camera, budget: Budget, keep: bool) -> (run: CaptureRun)
        ensures
            run.wf(),
            run.next() is ReadFormat,
            run.seen().len() == 0,
            run.events().len() == 0,
            run.plan() == (CapturePlan {
                format: camera@.format,
                pixel_format: camera@.pixel_format,
                budget,
                keep,
            }),
    {
        let run: CaptureRun = CaptureRun {
            want: camera.format(),
            pixel_format: camera.pixel_format,
            budget,
            keep,
            step: CaptureStep::ReadFormat,
            frames: Vec::new(),
            good: 0,
            attempts: 0,
            dark: 0,
            seen: Ghost(Seq::empty()),
            pending: Ghost(Seq::empty()),
            events: Ghost(Seq::empty()),
        };
        proof {
            assert(frame_models(run.frames@) =~= Seq::empty());
            assert(usable(run.seen@) =~= Seq::empty());
        }
        run
    }

    /// The step that comes next.
    pub fn step(&self) -> (step: &CaptureStep)
        ensures
            step@ == self.next(),
    {
        &self.step
    }

    /// How many frames were dark.
    pub fn dark_frames(&self) -> (n: usize)
        requires
            self.wf(),
        ensures
            n == dark_count(self.seen()),
    {
        self.dark
    }

    /// The top of the loop.
    fn turn(&mut self)
        requires
            old(self).tallied(old(self).seen@),
            old(self).frames_come_from_buffers(),
            buffers(old(self).events@).len() == old(self).seen@.len(),
            capture_after(old(self).plan(), old(self).events@) == (CaptureState {
                next: loop_step(old(self).budget, old(self).seen@),
                seen: old(self).seen@,
                pending: old(self).pending@,
            }),
        ensures
            final(self).wf(),
            final(self).next() == loop_step(old(self).budget, old(self).seen()),
            final(self).plan() == old(self).plan(),
            final(self).seen() == old(self).seen(),
            final(self).events() == old(self).events(),
    {
        self.step = match self.budget {
            Budget::Frames(count) => {
                let limit: usize = if count <= usize::MAX / 3 {
                    3 * count
                } else {
                    usize::MAX
                };
                if self.good >= count || self.attempts >= limit {
                    CaptureStep::Complete
                } else {
                    CaptureStep::Dequeue
                }
            },
            Budget::Deadline => CaptureStep::CheckClock,
        };
    }

    /// The device said which format it is in, or did not.
    pub fn format_read(&mut self, current: Result<VideoFormat, String>)
        requires
            old(self).wf(),
            old(self).next() is ReadFormat,
        ensures
            final(self).wf(),
            final(self).plan() == old(self).plan(),
            final(self).events() == old(self).events().push(
                CaptureEvent::FormatRead(answer_of(current)),
            ),
            final(self).seen() == old(self).seen(),
            final(self).next() == match format_check(old(self).plan().format, answer_of(current)) {
                FormatCheckModel::Ready => CaptureStepModel::OpenStream,
                FormatCheckModel::Reassert(f) => CaptureStepModel::ApplyFormat(f),
                FormatCheckModel::Failed(e) => CaptureStepModel::Failed(e),
            },
    {
        proof {
            lemma_told(self.plan(), self.events@, CaptureEvent::FormatRead(answer_of(current)));
            self.events@ = self.events@.push(CaptureEvent::FormatRead(answer_of(current)));
        }
        self.step = match check_format(self.want, current) {
            FormatCheck::Ready => CaptureStep::OpenStream,
            FormatCheck::Reassert(f) => CaptureStep::ApplyFormat(f),
            FormatCheck::Failed(e) => CaptureStep::Failed(e),
        };
    }

    /// The device settled on a format, or refused.
    pub fn format_applied(&mut self, negotiated: Result<VideoFormat, String>)
        requires
            old(self).wf(),
            old(self).next() is ApplyFormat,
        ensures
            final(self).wf(),
            final(self).plan() == old(self).plan(),
            final(self).events() == old(self).events().push(
                CaptureEvent::FormatApplied(answer_of(negotiated)),
            ),
            final(self).seen() == old(self).seen(),
            final(self).next() == match reassert_fault(
                old(self).plan().format,
                answer_of(negotiated),
            ) {
                None => CaptureStepModel::OpenStream,
                Some(e) => CaptureStepModel::Failed(e),
            },
    {
        proof {
            lemma_told(
                self.plan(),
                self.events@,
                CaptureEvent::FormatApplied(answer_of(negotiated)),
            );
            self.events@ = self.events@.push(CaptureEvent::FormatApplied(answer_of(negotiated)));
        }
        self.step = match check_reasserted(self.want, negotiated) {
            Ok(_) => CaptureStep::OpenStream,
            Err(e) => CaptureStep::Failed(e),
        };
    }

    /// The stream was opened, or not.
    pub fn stream_opened(&mut self, result: Result<(), String>)
        requires
            old(self).wf(),
            old(self).next() is OpenStream,
        ensures
            final(self).wf(),
            final(self).plan() == old(self).plan(),
            final(self).events() == old(self).events().push(
                CaptureEvent::StreamOpened(answer_of(result)),
            ),
            final(self).seen() == old(self).seen(),
            final(self).next() == match result {
                Ok(_) => loop_step(old(self).plan().budget, old(self).seen()),
                Err(e) => CaptureStepModel::Failed(stream_fault(e@)),
            },
    {
        proof {
            lemma_told(self.plan(), self.events@, CaptureEvent::StreamOpened(answer_of(result)));
            self.events@ = self.events@.push(CaptureEvent::StreamOpened(answer_of(result)));
        }
        match result {
            Ok(_) => {
                self.turn();
            },
            Err(e) => {
                self.step = CaptureStep::Failed(stream_failed(e.as_str()));
            },
        }
    }

    /// The deadline has passed, or has not.
    pub fn clock_checked(&mut self, passed: bool)
        requires
            old(self).wf(),
            old(self).next() is CheckClock,
        ensures
            final(self).wf(),
            final(self).plan() == old(self).plan(),
            final(self).events() == old(self).events().push(
                (CaptureEvent::ClockChecked { passed }),
            ),
            final(self).seen() == old(self).seen(),
            final(self).next() == if passed {
                CaptureStepModel::Complete
            } else {
                CaptureStepModel::Dequeue
            },
    {
        proof {
            lemma_told(self.plan(), self.events@, CaptureEvent::ClockChecked { passed });
            self.events@ = self.events@.push(CaptureEvent::ClockChecked { passed });
        }
        self.step = if passed {
            CaptureStep::Complete
        } else {
            CaptureStep::Dequeue
        };
    }

    /// No buffer could be taken off the stream.
    pub fn dequeue_failed(&mut self, e: &str)
        requires
            old(self).wf(),
            old(self).next() is Dequeue,
        ensures
            final(self).wf(),
            final(self).plan() == old(self).plan(),
            final(self).events() == old(self).events().push(CaptureEvent::DequeueFailed(e@)),
            final(self).seen() == old(self).seen(),
            final(self).next() == CaptureStepModel::Failed(dequeue_fault(e@)),
    {
        proof {
            lemma_told(self.plan(), self.events@, CaptureEvent::DequeueFailed(e@));
            self.events@ = self.events@.push(CaptureEvent::DequeueFailed(e@));
        }
        self.step = CaptureStep::Failed(dequeue_failed(e));
    }

    /// A buffer was taken off the stream: its pixels, to be judged.
    pub fn dequeued(&mut self, buf: &[u8]) -> (gray: Option<Vec<u8>>)
        requires
            old(self).wf(),
            old(self).next() is Dequeue,
            old(self).plan().format.width * old(self).plan().format.height <= u32::MAX,
        ensures
            final(self).wf(),
            final(self).plan() == old(self).plan(),
            final(self).events() == old(self).events().push(CaptureEvent::Dequeued(buf@)),
            final(self).seen() == old(self).seen(),
            ({
                match pixels_of(old(self).plan(), buf@) {
                    Ok(pixels) => final(self).next() is Judge && final(self).pending() == pixels
                        && gray is Some && gray->0@ == pixels,
                    Err(e) => final(self).next() == CaptureStepModel::Failed(e) && gray is None,
                }
            }),
    {
        proof {
            lemma_told(self.plan(), self.events@, CaptureEvent::Dequeued(buf@));
            self.events@ = self.events@.push(CaptureEvent::Dequeued(buf@));
        }
        match to_grayscale(self.pixel_format, self.want.width, self.want.height, buf) {
            Ok(gray) => {
                proof {
                    lemma_grayscale_len(self.pixel_format, self.want, buf@);
                }
                self.pending = Ghost(gray@);
                self.step = CaptureStep::Judge;
                Some(gray)
            },
            Err(e) => {
                self.step = CaptureStep::Failed(e);
                None
            },
        }
    }

    /// The pixels were judged too dark. The frame is returned to be observed, as
    /// it was captured, and is not kept.
    pub fn judged_dark(&mut self, gray: Vec<u8>, sequence: u32, timestamp: u64) -> (frame: Frame)
        requires
            old(self).wf(),
            old(self).next() is Judge,
            gray@ == old(self).pending(),
            old(self).plan().budget is Deadline ==> dark_count(old(self).seen()) < usize::MAX,
        ensures
            final(self).wf(),
            final(self).plan() == old(self).plan(),
            final(self).events() == old(self).events().push(
                (CaptureEvent::JudgedDark { sequence, timestamp }),
            ),
            frame@ == (FrameModel {
                data: old(self).pending(),
                width: old(self).plan().format.width,
                height: old(self).plan().format.height,
                timestamp,
                sequence,
                is_dark: true,
            }),
            final(self).seen() == old(self).seen().push(frame@),
            final(self).next() == loop_step(old(self).plan().budget, final(self).seen()),
    {
        proof {
            lemma_told(self.plan(), self.events@, CaptureEvent::JudgedDark { sequence, timestamp });
            self.events@ = self.events@.push(CaptureEvent::JudgedDark { sequence, timestamp });
        }
        let frame: Frame = Frame {
            data: gray,
            width: self.want.width,
            height: self.want.height,
            timestamp,
            sequence,
            is_dark: true,
        };
        let ghost before = self.seen@;
        let ghost now = before.push(frame@);
        proof {
            assert(now.drop_last() =~= before);
            lemma_usable_len(before);
        }
        self.dark = self.dark + 1;
        if let Budget::Frames(_) = self.budget {
            self.attempts = self.attempts + 1;
        }
        self.seen = Ghost(now);
        self.turn();
        frame
    }

    /// The pixels were judged usable; `pixels` is what contrast enhancement made
    /// of them in place. The frame is returned to be observed and handed back.
    pub fn judged_usable(&mut self, pixels: Vec<u8>, sequence: u32, timestamp: u64) -> (frame:
        Frame)
        requires
            old(self).wf(),
            old(self).next() is Judge,
            pixels@.len() == old(self).pending().len(),
        ensures
            final(self).wf(),
            final(self).plan() == old(self).plan(),
            final(self).events() == old(self).events().push(
                (CaptureEvent::JudgedUsable { pixels: pixels@, sequence, timestamp }),
            ),
            frame@ == (FrameModel {
                data: pixels@,
                width: old(self).plan().format.width,
                height: old(self).plan().format.height,
                timestamp,
                sequence,
                is_dark: false,
            }),
            final(self).seen() == old(self).seen().push(frame@),
            final(self).next() is Retain,
    {
        proof {
            lemma_told(
                self.plan(),
                self.events@,
                CaptureEvent::JudgedUsable { pixels: pixels@, sequence, timestamp },
            );
            self.events@ = self.events@.push(
                CaptureEvent::JudgedUsable { pixels: pixels@, sequence, timestamp },
            );
        }
        let frame: Frame = Frame {
            data: pixels,
            width: self.want.width,
            height: self.want.height,
            timestamp,
            sequence,
            is_dark: false,
        };
        let ghost before = self.seen@;
        let ghost now = before.push(frame@);
        proof {
            assert(now.drop_last() =~= before);
        }
        if let Budget::Frames(_) = self.budget {
            self.attempts = self.attempts + 1;
        }
        self.seen = Ghost(now);
        self.step = CaptureStep::Retain;
        frame
    }

    /// The observed frame comes back, to be kept where frames are kept.
    pub fn retain(&mut self, frame: Frame)
        requires
            old(self).wf(),
            old(self).next() is Retain,
            frame@ == old(self).seen().last(),
        ensures
            final(self).wf(),
            final(self).plan() == old(self).plan(),
            final(self).events() == old(self).events().push(CaptureEvent::Retained),
            final(self).seen() == old(self).seen(),
            final(self).next() == loop_step(old(self).plan().budget, old(self).seen()),
    {
        proof {
            lemma_told(self.plan(), self.events@, CaptureEvent::Retained);
            self.events@ = self.events@.push(CaptureEvent::Retained);
        }
        proof {
            assert(frame_models(self.frames@.push(frame)) =~= frame_models(self.frames@).push(
                frame@,
            ));
        }
        if self.keep {
            self.frames.push(frame);
        }
        if let Budget::Frames(_) = self.budget {
            self.good = self.good + 1;
        }
        self.turn();
    }

    /// The outcome of a capture that is over: the frames kept, and how many
    /// frames were skipped as too dark.
    pub fn finish(self) -> (outcome: Result<(Vec<Frame>, usize), CameraError>)
        requires
            self.wf(),
            self.next() is Complete || self.next() is Failed,
        ensures
            match outcome {
                Ok((frames, dark)) => {
                    &&& self.next() is Complete
                    &&& frame_models(frames@) == if self.plan().keep {
                        usable(self.seen())
                    } else {
                        Seq::empty()
                    }
                    &&& dark == dark_count(self.seen())
                    &&& self.plan().keep ==> {
                        &&& frames@.len() == usable(self.seen()).len()
                        &&& forall|i: int|
                            0 <= i < frames@.len() ==> (#[trigger] frames@[i])@ == usable(
                                self.seen(),
                            )[i]
                    }
                    &&& !self.plan().keep ==> frames@.len() == 0
                },
                Err(e) => self.next() == CaptureStepModel::Failed(e@),
            },
    {
        proof {
            let models = frame_models(self.frames@);
            assert(models.len() == self.frames@.len());
            assert forall|i: int| 0 <= i < models.len() implies (#[trigger] self.frames@[i])@
                == models[i] by {}
        }
        match self.step {
            CaptureStep::Failed(e) => Err(e),
            _ => Ok((self.frames, self.dark)),
        }
    }
}

/// A capture of a single frame in progress.
pub struct FrameRun {
    want: VideoFormat,
    pixel_format: PixelFormat,
    step: CaptureStep,
    pending: Ghost<Seq<u8>>,
}

impl FrameRun {
    /// The step that comes next.
    pub closed spec fn next(&self) -> CaptureStepModel {
        self.step@
    }

    /// The format that was negotiated.
    pub closed spec fn plan(&self) -> (VideoFormat, PixelFormat) {
        (self.want, self.pixel_format)
    }

    /// The pixels that wait for their verdict.
    pub closed spec fn pending(&self) -> Seq<u8> {
        self.pending@
    }

    /// The step that comes next.
    pub fn step(&self) -> (step: &CaptureStep)
        ensures
            step@ == self.next(),
    {
        &self.step
    }

    /// The device said which format it is in, or did not.
    pub fn format_read(&mut self, current: Result<VideoFormat, String>)
        requires
            old(self).next() is ReadFormat,
        ensures
            final(self).plan() == old(self).plan(),
            final(self).next() == match format_check(old(self).plan().0, answer_of(current)) {
                FormatCheckModel::Ready => CaptureStepModel::OpenStream,
                FormatCheckModel::Reassert(f) => CaptureStepModel::ApplyFormat(f),
                FormatCheckModel::Failed(e) => CaptureStepModel::Failed(e),
            },
    {
        self.step = match check_format(self.want, current) {
            FormatCheck::Ready => CaptureStep::OpenStream,
            FormatCheck::Reassert(f) => CaptureStep::ApplyFormat(f),
            FormatCheck::Failed(e) => CaptureStep::Failed(e),
        };
    }

    /// The device settled on a format, or refused.
    pub fn format_applied(&mut self, negotiated: Result<VideoFormat, String>)
        requires
            old(self).next() is ApplyFormat,
        ensures
            final(self).plan() == old(self).plan(),
            final(self).next() == match reassert_fault(old(self).plan().0, answer_of(negotiated)) {
                None => CaptureStepModel::OpenStream,
                Some(e) => CaptureStepModel::Failed(e),
            },
    {
        self.step = match check_reasserted(self.want, negotiated) {
            Ok(_) => CaptureStep::OpenStream,
            Err(e) => CaptureStep::Failed(e),
        };
    }

    /// The stream was opened, or not.
    pub fn stream_opened(&mut self, result: Result<(), String>)
        requires
            old(self).next() is OpenStream,
        ensures
            final(self).plan() == old(self).plan(),
            final(self).next() == match result {
                Ok(_) => CaptureStepModel::Dequeue,
                Err(e) => CaptureStepModel::Failed(stream_fault(e@)),
            },
    {
        self.step = match result {
            Ok(_) => CaptureStep::Dequeue,
            Err(e) => CaptureStep::Failed(stream_failed(e.as_str())),
        };
    }

    /// No buffer could be taken off the stream.
    pub fn dequeue_failed(&mut self, e: &str)
        requires
            old(self).next() is Dequeue,
        ensures
            final(self).plan() == old(self).plan(),
            final(self).next() == CaptureStepModel::Failed(dequeue_fault(e@)),
    {
        self.step = CaptureStep::Failed(dequeue_failed(e));
    }

    /// A buffer was taken off the stream: its pixels, to be judged.
    pub fn dequeued(&mut self, buf: &[u8]) -> (gray: Option<Vec<u8>>)
        requires
            old(self).next() is Dequeue,
            old(self).plan().0.width * old(self).plan().0.height <= u32::MAX,
        ensures
            final(self).plan() == old(self).plan(),
            ({
                let (format, pixel_format) = old(self).plan();
                match grayscale(pixel_format, (format.width * format.height) as nat, buf@) {
                    Ok(pixels) => final(self).next() is Judge && final(self).pending() == pixels
                        && gray is Some && gray->0@ == pixels,
                    Err(e) => final(self).next() == CaptureStepModel::Failed(e) && gray is None,
                }
            }),
    {
        match to_grayscale(self.pixel_format, self.want.width, self.want.height, buf) {
            Ok(gray) => {
                self.pending = Ghost(gray@);
                self.step = CaptureStep::Judge;
                Some(gray)
            },
            Err(e) => {
                self.step = CaptureStep::Failed(e);
                None
            },
        }
    }

    /// The pixels were judged, dark or not: the frame, as it was captured. A
    /// single frame is neither skipped nor enhanced.
    pub fn judged(self, gray: Vec<u8>, is_dark: bool, sequence: u32, timestamp: u64) -> (frame:
        Frame)
        requires
            self.next() is Judge,
            gray@ == self.pending(),
        ensures
            frame@ == (FrameModel {
                data: self.pending(),
                width: self.plan().0.width,
                height: self.plan().0.height,
                timestamp,
                sequence,
                is_dark,
            }),
    {
        Frame {
            data: gray,
            width: self.want.width,
            height: self.want.height,
            timestamp,
            sequence,
            is_dark,
        }
    }

    /// Why the capture failed, if it did.
    pub fn failure(self) -> (error: Option<CameraError>)
        ensures
            match error {
                Some(e) => self.next() == CaptureStepModel::Failed(e@),
                None => self.next() !is Failed,
            },
    {
        match self.step {
            CaptureStep::Failed(e) => Some(e),
            _ => None,
        }
    }
}

/// The plan of a capture of `count` usable frames.
pub open spec fn counted_plan(camera: CameraModel, count: usize) -> CapturePlan {
    CapturePlan {
        format: camera.format,
        pixel_format: camera.pixel_format,
        budget: Budget::Frames(count),
        keep: true,
    }
}

impl Camera {
    /// Starts capturing a single frame.
    pub fn capture_frame(&self) -> (run: FrameRun)
        ensures
            run.next() is ReadFormat,
            run.plan() == (self@.format, self@.pixel_format),
    {
        FrameRun {
            want: self.format(),
            pixel_format: self.pixel_format,
            step: CaptureStep::ReadFormat,
            pending: Ghost(Seq::empty()),
        }
    }

    /// Starts capturing `count` usable frames.
    ///
    /// Up to `count * 3` buffers are taken to find `count` frames that are not
    /// dark.
    pub fn capture_frames(&self, count: usize) -> (run: CaptureRun)
        ensures
            run.wf(),
            run.next() is ReadFormat,
            run.seen().len() == 0,
            run.events().len() == 0,
            run.plan() == counted_plan(self@, count),
            run.plan().format == self@.format,
            run.plan().pixel_format == self@.pixel_format,
            run.plan().budget == Budget::Frames(count),
            run.plan().keep,
    {
        self.capture_frames_observed(count)
    }

    /// [`Camera::capture_frames`], for a caller that looks at every frame as it
    /// arrives, including the dark ones that are skipped.
    ///
    /// The two start the same run: who looks at the frames makes no difference
    /// to what is captured.
    pub fn capture_frames_observed(&self, count: usize) -> (run: CaptureRun)
        ensures
            run.wf(),
            run.next() is ReadFormat,
            run.seen().len() == 0,
            run.events().len() == 0,
            run.plan() == counted_plan(self@, count),
            run.plan().format == self@.format,
            run.plan().pixel_format == self@.pixel_format,
            run.plan().budget == Budget::Frames(count),
            run.plan().keep,
    {
        CaptureRun::start(self, Budget::Frames(count), true)
    }

    /// Starts streaming frames until a deadline, retaining none of them.
    ///
    /// This is the framing phase: the frames are for the human, not the model.
    /// It is bounded by time because a counted capture only credits frames that
    /// are not dark.
    pub fn stream_frames_for(&self) -> (run: CaptureRun)
        ensures
            run.wf(),
            run.next() is ReadFormat,
            run.seen().len() == 0,
            run.events().len() == 0,
            run.plan() == (CapturePlan {
                format: self@.format,
                pixel_format: self@.pixel_format,
                budget: Budget::Deadline,
                keep: false,
            }),
    {
        CaptureRun::start(self, Budget::Deadline, false)
    }
}

/// A counted capture makes at most three attempts per frame wanted, keeps at
/// most as many frames as wanted, and accounts for every attempt as usable or
/// dark.
pub proof fn counted_captures_are_bounded(run: CaptureRun, count: usize)
    requires
        run.wf(),
        run.plan().budget == Budget::Frames(count),
    ensures
        run.seen().len() <= 3 * count,
        usable(run.seen()).len() <= count,
        usable(run.seen()).len() + dark_count(run.seen()) == run.seen().len(),
{
}

/// A counted capture that is over has the frames it wanted, or has used up its
/// attempts.
pub proof fn counted_captures_end_for_a_reason(run: CaptureRun, count: usize)
    requires
        run.wf(),
        run.plan().budget == Budget::Frames(count),
        run.next() is Complete,
    ensures
        usable(run.seen()).len() == count || run.seen().len() == attempt_limit(count),
{
}

/// The usable frames are those that are not dark, in order of arrival.
pub proof fn usable_frames_are_not_dark(seen: Seq<FrameModel>)
    ensures
        usable(seen) == seen.filter(|f: FrameModel| !f.is_dark),
    decreases seen.len(),
{
    reveal(Seq::filter);
    if seen.len() > 0 {
        usable_frames_are_not_dark(seen.drop_last());
    }
}

/// A single frame, whose pixels came from a buffer of the negotiated size, has a
/// preview.
pub proof fn single_frames_have_previews(
    frame: FrameModel,
    pixel_format: PixelFormat,
    buf: Seq<u8>,
)
    requires
        grayscale(pixel_format, (frame.width * frame.height) as nat, buf) == Ok::<
            Seq<u8>,
            CameraFault,
        >(frame.data),
    ensures
        frame.data.len() == frame.width * frame.height,
        covers_preview(frame),
{
    assert(frame.width * frame.height >= 0) by (nonlinear_arith)
        requires
            frame.width >= 0,
            frame.height >= 0,
    ;
    whole_frames_cover_their_preview(frame);
}

/// Every frame that a capture shows or keeps, dark or enhanced, comes from a buffer
/// of its own, in order, has the negotiated size, all of its pixels, and a preview.
/// The dark ones are shown as they were captured.
pub proof fn captured_frames_have_previews(run: CaptureRun)
    requires
        run.wf(),
    ensures
        run.seen().len() <= buffers(run.events()).len(),
        forall|i: int|
            0 <= i < run.seen().len() ==> comes_from(
                run.plan(),
                #[trigger] run.seen()[i],
                buffers(run.events())[i],
            ),
        forall|i: int|
            0 <= i < run.seen().len() ==> is_whole_frame(
                #[trigger] run.seen()[i],
                run.plan().format,
            ) && covers_preview(run.seen()[i]),
{
    assert forall|i: int| 0 <= i < run.seen().len() implies is_whole_frame(
        #[trigger] run.seen()[i],
        run.plan().format,
    ) && covers_preview(run.seen()[i]) by {
        whole_frames_cover_their_preview(run.seen()[i]);
    }
}

/// A capture that is over, counted or bounded by time, showed one frame for each
/// buffer that it took.
pub proof fn every_buffer_is_observed(run: CaptureRun)
    requires
        run.wf(),
        run.next() is Complete,
    ensures
        run.seen().len() == buffers(run.events()).len(),
        run.seen().len() == usable(run.seen()).len() + dark_count(run.seen()),
{
}

/// Two captures with the same plan and the same answers are in the same place: they
/// showed the same frames, kept the same ones and skipped as many as dark. Nobody
/// who looks on makes a difference.
pub proof fn same_answers_give_the_same_capture(a: CaptureRun, b: CaptureRun)
    requires
        a.wf(),
        b.wf(),
        a.plan() == b.plan(),
        a.events() == b.events(),
    ensures
        a.next() == b.next(),
        a.seen() == b.seen(),
        usable(a.seen()) == usable(b.seen()),
        dark_count(a.seen()) == dark_count(b.seen()),
{
}

/// A capture of `count` frames that is over showed one frame for each buffer that it
/// took, in order: those that it kept, and those that it skipped as dark. Who looks
/// on makes no difference: an observed and an unobserved capture with the same
/// answers kept the same frames and skipped as many.
pub proof fn observing_changes_nothing(
    camera: CameraModel,
    count: usize,
    plain: CaptureRun,
    observed: CaptureRun,
)
    requires
        plain.wf(),
        observed.wf(),
        plain.plan() == counted_plan(camera, count),
        observed.plan() == counted_plan(camera, count),
        plain.events() == observed.events(),
        observed.next() is Complete,
    ensures
        plain.next() is Complete,
        usable(plain.seen()) == usable(observed.seen()),
        dark_count(plain.seen()) == dark_count(observed.seen()),
        observed.seen().len() == usable(observed.seen()).len() + dark_count(observed.seen()),
        observed.seen().len() == buffers(observed.events()).len(),
        usable(observed.seen()) == observed.seen().filter(|f: FrameModel| !f.is_dark),
{
    same_answers_give_the_same_capture(plain, observed);
    usable_frames_are_not_dark(observed.seen());
}

/// A counted capture does not give up early: one that is over with fewer usable frames
/// than wanted has taken three buffers for each frame wanted, as far as that many can
/// be counted. One that goes on still wants a frame, and has buffers left to take.
pub proof fn counted_captures_use_all_their_attempts(run: CaptureRun, count: usize)
    requires
        run.wf(),
        run.plan().budget == Budget::Frames(count),
    ensures
        run.next() is Complete && usable(run.seen()).len() < count && 3 * count <= usize::MAX
            ==> run.seen().len() == 3 * count,
        run.next() is Complete && usable(run.seen()).len() < count && 3 * count > usize::MAX
            ==> run.seen().len() == usize::MAX,
        run.next() is Complete ==> usable(run.seen()).len() <= count,
        run.next() is Dequeue ==> usable(run.seen()).len() < count && run.seen().len() < 3 * count,
        run.next() !is CheckClock,
{
}

/// The loop turns on whether frames are missing and attempts are left: with frames
/// missing and attempts left another buffer is taken, and else a counted capture is
/// over. A capture bounded by time reads the clock instead, and knows no count.
pub proof fn captures_turn_on_what_is_missing(count: usize, seen: Seq<FrameModel>)
    ensures
        usable(seen).len() < count && seen.len() < 3 * count && seen.len() < usize::MAX
            ==> loop_step(Budget::Frames(count), seen) is Dequeue,
        usable(seen).len() >= count || seen.len() >= 3 * count || seen.len() >= usize::MAX
            ==> loop_step(Budget::Frames(count), seen) is Complete,
        loop_step(Budget::Deadline, seen) is CheckClock,
{
}

/// A capture bounded by time is over exactly once it was told that its time is up, and
/// reads the clock before every buffer.
pub proof fn timed_captures_end_with_their_time(run: CaptureRun)
    requires
        run.wf(),
        run.plan().budget == Budget::Deadline,
        run.events().len() > 0,
    ensures
        run.next() is Complete <==> run.events().last() == (CaptureEvent::ClockChecked {
            passed: true,
        }),
        run.next() is Dequeue <==> run.events().last() == (CaptureEvent::ClockChecked {
            passed: false,
        }),
{
}

/// Frames are skipped one by one: the usable ones of two stretches are those of the
/// first and those of the second, and so are the dark ones. A single frame is usable
/// or dark.
pub proof fn frames_are_judged_one_by_one(
    a: Seq<FrameModel>,
    b: Seq<FrameModel>,
    frame: FrameModel,
)
    ensures
        usable(Seq::empty()) == Seq::<FrameModel>::empty(),
        usable(a + b) == usable(a) + usable(b),
        dark_count(a + b) == dark_count(a) + dark_count(b),
        usable(seq![frame]) == if frame.is_dark {
            Seq::empty()
        } else {
            seq![frame]
        },
        dark_count(seq![frame]) == if frame.is_dark {
            1int
        } else {
            0int
        },
    decreases b.len(),
{
    let one = seq![frame];
    assert(one.drop_last() =~= Seq::empty());
    assert(usable(one.drop_last()).len() == 0);
    assert(usable(one).len() == if frame.is_dark {
        0nat
    } else {
        1nat
    });
    if b.len() == 0 {
        assert(a + b =~= a);
    } else {
        assert((a + b).drop_last() =~= a + b.drop_last());
        frames_are_judged_one_by_one(a, b.drop_last(), frame);
    }
}

/// Every frame that a capture shows or keeps has the width and the height that were
/// negotiated and a byte for every pixel. A dark one holds what its own buffer held at
/// the bytes that the format gives to brightness.
pub proof fn captured_frames_are_whole(run: CaptureRun, i: int, k: int)
    requires
        run.wf(),
        0 <= i < run.seen().len(),
        0 <= k < run.plan().format.width * run.plan().format.height,
    ensures
        run.seen()[i].width == run.plan().format.width,
        run.seen()[i].height == run.plan().format.height,
        run.seen()[i].data.len() == run.plan().format.width * run.plan().format.height,
        i < buffers(run.events()).len(),
        run.seen()[i].is_dark && run.plan().pixel_format is Grey ==> run.seen()[i].data[k]
            == buffers(run.events())[i][k],
        run.seen()[i].is_dark && run.plan().pixel_format is Y16 ==> run.seen()[i].data[k]
            == buffers(run.events())[i][2 * k + 1],
        run.seen()[i].is_dark && run.plan().pixel_format is Yuyv ==> run.seen()[i].data[k]
            == buffers(run.events())[i][2 * k],
{
    captured_frames_have_previews(run);
    assert(comes_from(run.plan(), run.seen()[i], buffers(run.events())[i]));
}

/// The buffers are those that were taken, in order: each one taken adds itself, and
/// nothing else adds one.
pub proof fn buffers_are_counted_as_taken(
    a: Seq<CaptureEvent>,
    b: Seq<CaptureEvent>,
    event: CaptureEvent,
)
    ensures
        buffers(Seq::empty()) == Seq::<Seq<u8>>::empty(),
        buffers(a + b) == buffers(a) + buffers(b),
        buffers(seq![event]) == match event {
            CaptureEvent::Dequeued(buf) => seq![buf],
            _ => Seq::empty(),
        },
    decreases b.len(),
{
    assert(seq![event].drop_last() =~= Seq::empty());
    if b.len() == 0 {
        assert(a + b =~= a);
    } else {
        assert((a + b).drop_last() =~= a + b.drop_last());
        buffers_are_counted_as_taken(a, b.drop_last(), event);
    }
}

/// A buffer is read at the negotiated size: it gives a pixel for each of them, or is
/// refused because it holds fewer bytes than that takes.
pub proof fn buffers_are_read_at_the_negotiated_size(plan: CapturePlan, buf: Seq<u8>)
    ensures
        pixels_of(plan, buf) is Ok <==> buf.len() >= plan.format.width * plan.format.height * (
        if plan.pixel_format is Grey {
            1int
        } else {
            2int
        }),
        pixels_of(plan, buf) matches Ok(pixels) ==> pixels.len() == plan.format.width
            * plan.format.height,
        pixels_of(plan, buf) matches Err(e) ==> e is CaptureFailed,
{
    lemma_grayscale_len(plan.pixel_format, plan.format, buf);
    assert(plan.format.width * plan.format.height >= 0) by (nonlinear_arith)
        requires
            plan.format.width >= 0,
            plan.format.height >= 0,
    ;
}

} // verus!
