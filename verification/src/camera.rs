//! The camera: what it is opened as, which formats it may deliver, and how its
//! buffers become grayscale pixels.
//!
//! Opening a device alternates calls into the driver with decisions. The
//! decisions are made here: a run says which call comes next, and is told how
//! the call went.
use crate::text::{
    answer_of, append_decimal, contains, decimal, join, occurring_is_lying_between, occurs,
};
use vstd::prelude::*;

verus! {

/// What can go wrong with a camera.
#[derive(Debug)]
pub enum CameraError {
    DeviceNotFound(String),
    CaptureFailed(String),
    DeviceBusy,
    FormatNegotiationFailed(String),
    StreamingNotSupported,
}

/// What a camera error says.
pub ghost enum CameraFault {
    DeviceNotFound(Seq<char>),
    CaptureFailed(Seq<char>),
    DeviceBusy,
    FormatNegotiationFailed(Seq<char>),
    StreamingNotSupported,
}

impl View for CameraError {
    type V = CameraFault;

    open spec fn view(&self) -> CameraFault {
        match self {
            CameraError::DeviceNotFound(s) => CameraFault::DeviceNotFound(s@),
            CameraError::CaptureFailed(s) => CameraFault::CaptureFailed(s@),
            CameraError::DeviceBusy => CameraFault::DeviceBusy,
            CameraError::FormatNegotiationFailed(s) => CameraFault::FormatNegotiationFailed(s@),
            CameraError::StreamingNotSupported => CameraFault::StreamingNotSupported,
        }
    }
}

/// How a camera error reads.
pub open spec fn camera_text(fault: CameraFault) -> Seq<char> {
    match fault {
        CameraFault::DeviceNotFound(s) => "device not found: "@ + s,
        CameraFault::CaptureFailed(s) => "capture failed: "@ + s,
        CameraFault::DeviceBusy => "device busy"@,
        CameraFault::FormatNegotiationFailed(s) => "format negotiation failed: "@ + s,
        CameraFault::StreamingNotSupported => "streaming not supported"@,
    }
}

impl CameraError {
    /// How the error reads.
    pub fn message(&self) -> (text: String)
        ensures
            text@ == camera_text(self@),
    {
        match self {
            CameraError::DeviceNotFound(s) => join("device not found: ", s.as_str()),
            CameraError::CaptureFailed(s) => join("capture failed: ", s.as_str()),
            CameraError::DeviceBusy => "device busy".to_owned(),
            CameraError::FormatNegotiationFailed(s) => join(
                "format negotiation failed: ",
                s.as_str(),
            ),
            CameraError::StreamingNotSupported => "streaming not supported".to_owned(),
        }
    }
}

/// Info about a discovered video device.
#[derive(Debug)]
pub struct DeviceInfo {
    pub path: String,
    pub name: String,
    pub driver: String,
    pub bus: String,
}

/// What a [`DeviceInfo`] holds.
pub ghost struct DeviceModel {
    pub path: Seq<char>,
    pub name: Seq<char>,
    pub driver: Seq<char>,
    pub bus: Seq<char>,
}

impl Clone for DeviceInfo {
    fn clone(&self) -> (copy: Self)
        ensures
            copy@ == self@,
    {
        DeviceInfo {
            path: self.path.clone(),
            name: self.name.clone(),
            driver: self.driver.clone(),
            bus: self.bus.clone(),
        }
    }
}

impl View for DeviceInfo {
    type V = DeviceModel;

    open spec fn view(&self) -> DeviceModel {
        DeviceModel { path: self.path@, name: self.name@, driver: self.driver@, bus: self.bus@ }
    }
}

/// Negotiated pixel format for the camera.
#[derive(Debug, Clone, Copy, PartialEq, Eq, Structural)]
pub enum PixelFormat {
    /// YUYV 4:2:2 packed (2 bytes/pixel, extract Y channel).
    Yuyv,
    /// 8-bit grayscale (1 byte/pixel, native IR camera output).
    Grey,
    /// 16-bit little-endian grayscale (2 bytes/pixel, common IR camera format).
    Y16,
}

/// Four character code of a pixel format.
#[derive(Debug, Clone, Copy, PartialEq, Eq, Structural)]
pub struct FourCc {
    pub a: u8,
    pub b: u8,
    pub c: u8,
    pub d: u8,
}

/// The part of a streaming format that the camera negotiates.
#[derive(Debug, Clone, Copy, PartialEq, Eq, Structural)]
pub struct VideoFormat {
    pub fourcc: FourCc,
    pub width: u32,
    pub height: u32,
}

/// What a device reports of itself.
#[derive(Debug)]
pub struct Capabilities {
    pub driver: String,
    pub card: String,
    pub bus: String,
    /// The capability flags, as the driver encodes them.
    pub flags: u32,
}

/// A camera, as opened.
#[derive(Debug)]
pub struct Camera {
    pub width: u32,
    pub height: u32,
    pub device_path: String,
    pub fourcc: FourCc,
    /// Negotiated pixel format.
    pub pixel_format: PixelFormat,
}

/// What a camera is.
pub ghost struct CameraModel {
    pub format: VideoFormat,
    pub device_path: Seq<char>,
    pub pixel_format: PixelFormat,
}

impl View for Camera {
    type V = CameraModel;

    open spec fn view(&self) -> CameraModel {
        CameraModel {
            format: VideoFormat { fourcc: self.fourcc, width: self.width, height: self.height },
            device_path: self.device_path@,
            pixel_format: self.pixel_format,
        }
    }
}

/// `YUYV`.
pub open spec fn yuyv_code() -> FourCc {
    FourCc { a: 0x59, b: 0x55, c: 0x59, d: 0x56 }
}

/// `GREY`.
pub open spec fn grey_code() -> FourCc {
    FourCc { a: 0x47, b: 0x52, c: 0x45, d: 0x59 }
}

/// `Y16`, padded with a blank or with a zero byte.
pub open spec fn is_y16_code(code: FourCc) -> bool {
    code.a == 0x59 && code.b == 0x31 && code.c == 0x36 && (code.d == 0x20 || code.d == 0)
}

/// The pixel format that a code stands for, among those the camera can read.
pub open spec fn pixel_format_of(code: FourCc) -> Option<PixelFormat> {
    if code == grey_code() {
        Some(PixelFormat::Grey)
    } else if code == yuyv_code() {
        Some(PixelFormat::Yuyv)
    } else if is_y16_code(code) {
        Some(PixelFormat::Y16)
    } else {
        None
    }
}

/// How a code is written in messages.
pub open spec fn code_text(code: FourCc) -> Seq<char> {
    "FourCC { repr: ["@ + decimal(code.a as nat) + ", "@ + decimal(code.b as nat) + ", "@
        + decimal(code.c as nat) + ", "@ + decimal(code.d as nat) + "] }"@
}

/// Appends a code to a message.
fn append_code(text: &mut String, code: FourCc)
    ensures
        final(text)@ == old(text)@ + code_text(code),
{
    let ghost before = text@;
    text.append("FourCC { repr: [");
    append_decimal(text, code.a as u64);
    text.append(", ");
    append_decimal(text, code.b as u64);
    text.append(", ");
    append_decimal(text, code.c as u64);
    text.append(", ");
    append_decimal(text, code.d as u64);
    text.append("] }");
    proof {
        assert(text@ =~= before + code_text(code));
    }
}

/// The pixel format that a code stands for.
pub fn pixel_format(code: FourCc) -> (format: Option<PixelFormat>)
    ensures
        format == pixel_format_of(code),
{
    if code == (FourCc { a: 0x47, b: 0x52, c: 0x45, d: 0x59 }) {
        Some(PixelFormat::Grey)
    } else if code == (FourCc { a: 0x59, b: 0x55, c: 0x59, d: 0x56 }) {
        Some(PixelFormat::Yuyv)
    } else if code.a == 0x59 && code.b == 0x31 && code.c == 0x36 && (code.d == 0x20 || code.d
        == 0) {
        Some(PixelFormat::Y16)
    } else {
        None
    }
}

/// The capability flag of devices that capture video.
pub const VIDEO_CAPTURE: u32 = 1;

/// Whether a device captures video.
pub open spec fn captures_video(flags: u32) -> bool {
    flags % 2 == VIDEO_CAPTURE
}

/// Whether the text of a driver error says that the device is in use.
pub open spec fn says_busy(text: Seq<char>) -> bool {
    occurs(text, "busy"@) || occurs(text, "EBUSY"@)
}

/// Whether the text of a driver error says that the device is in use.
fn is_busy(text: &str) -> (b: bool)
    ensures
        b == says_busy(text@),
{
    contains(text, "busy") || contains(text, "EBUSY")
}

/// What is asked of a device: `YUYV` at 640x360, a common size of IR cameras.
pub open spec fn wanted_format() -> VideoFormat {
    VideoFormat { fourcc: yuyv_code(), width: 640, height: 360 }
}

/// The next call of a run that opens a camera.
#[derive(Debug)]
pub enum OpenStep {
    /// See whether the path exists.
    CheckPath,
    /// Open the device.
    OpenDevice,
    /// Query what the device can do.
    QueryCapabilities,
    /// Read the format that the device is in.
    ReadFormat,
    /// Set this format, all else as read.
    ApplyFormat(VideoFormat),
    /// Nothing more: this is the outcome.
    Finished(Result<Camera, CameraError>),
}

/// A step of a run that opens a camera, in terms of what it holds.
pub ghost enum OpenStepModel {
    CheckPath,
    OpenDevice,
    QueryCapabilities,
    ReadFormat,
    ApplyFormat(VideoFormat),
    Finished(Result<CameraModel, CameraFault>),
}

impl View for OpenStep {
    type V = OpenStepModel;

    open spec fn view(&self) -> OpenStepModel {
        match self {
            OpenStep::CheckPath => OpenStepModel::CheckPath,
            OpenStep::OpenDevice => OpenStepModel::OpenDevice,
            OpenStep::QueryCapabilities => OpenStepModel::QueryCapabilities,
            OpenStep::ReadFormat => OpenStepModel::ReadFormat,
            OpenStep::ApplyFormat(f) => OpenStepModel::ApplyFormat(*f),
            OpenStep::Finished(Ok(c)) => OpenStepModel::Finished(Ok(c@)),
            OpenStep::Finished(Err(e)) => OpenStepModel::Finished(Err(e@)),
        }
    }
}

/// A run that opens a camera.
#[derive(Debug)]
pub struct OpenRun {
    pub path: String,
    pub step: OpenStep,
}

/// The outcome for a device that settled on `format`.
pub open spec fn negotiated_camera(path: Seq<char>, format: VideoFormat) -> Result<
    CameraModel,
    CameraFault,
> {
    match pixel_format_of(format.fourcc) {
        Some(pixel_format) => Ok(CameraModel { format, device_path: path, pixel_format }),
        None => Err(
            CameraFault::FormatNegotiationFailed(
                "unsupported pixel format: "@ + code_text(format.fourcc)
                    + " (need YUYV, GREY, or Y16)"@,
            ),
        ),
    }
}

impl OpenRun {
    /// The path was looked up.
    pub fn path_checked(&mut self, present: bool)
        requires
            old(self).step@ is CheckPath,
        ensures
            final(self).path == old(self).path,
            final(self).step@ == if present {
                OpenStepModel::OpenDevice
            } else {
                OpenStepModel::Finished(Err(CameraFault::DeviceNotFound(old(self).path@)))
            },
    {
        self.step = if present {
            OpenStep::OpenDevice
        } else {
            OpenStep::Finished(Err(CameraError::DeviceNotFound(self.path.clone())))
        };
    }

    /// The device was opened, or not.
    pub fn device_opened(&mut self, result: Result<(), String>)
        requires
            old(self).step@ is OpenDevice,
        ensures
            final(self).path == old(self).path,
            final(self).step@ == match result {
                Ok(_) => OpenStepModel::QueryCapabilities,
                Err(e) => OpenStepModel::Finished(
                    Err(
                        if says_busy(e@) {
                            CameraFault::DeviceBusy
                        } else {
                            CameraFault::DeviceNotFound(old(self).path@ + ": "@ + e@)
                        },
                    ),
                ),
            },
    {
        self.step = match result {
            Ok(_) => OpenStep::QueryCapabilities,
            Err(e) => {
                if is_busy(e.as_str()) {
                    OpenStep::Finished(Err(CameraError::DeviceBusy))
                } else {
                    let mut text: String = join(self.path.as_str(), ": ");
                    text.append(e.as_str());
                    OpenStep::Finished(Err(CameraError::DeviceNotFound(text)))
                }
            },
        };
    }

    /// The device said what it can do, or did not.
    pub fn capabilities_queried(&mut self, result: Result<u32, String>)
        requires
            old(self).step@ is QueryCapabilities,
        ensures
            final(self).path == old(self).path,
            final(self).step@ == match result {
                Ok(flags) => if captures_video(flags) {
                    OpenStepModel::ReadFormat
                } else {
                    OpenStepModel::Finished(Err(CameraFault::StreamingNotSupported))
                },
                Err(e) => OpenStepModel::Finished(
                    Err(CameraFault::CaptureFailed("failed to query capabilities: "@ + e@)),
                ),
            },
    {
        self.step = match result {
            Ok(flags) => {
                if flags % 2 == VIDEO_CAPTURE {
                    OpenStep::ReadFormat
                } else {
                    OpenStep::Finished(Err(CameraError::StreamingNotSupported))
                }
            },
            Err(e) => OpenStep::Finished(
                Err(CameraError::CaptureFailed(join("failed to query capabilities: ", e.as_str()))),
            ),
        };
    }

    /// The device said which format it is in, or did not.
    pub fn format_read(&mut self, result: Result<(), String>)
        requires
            old(self).step@ is ReadFormat,
        ensures
            final(self).path == old(self).path,
            final(self).step@ == match result {
                Ok(_) => OpenStepModel::ApplyFormat(wanted_format()),
                Err(e) => OpenStepModel::Finished(
                    Err(CameraFault::FormatNegotiationFailed("failed to get format: "@ + e@)),
                ),
            },
    {
        self.step = match result {
            Ok(_) => OpenStep::ApplyFormat(
                VideoFormat {
                    fourcc: FourCc { a: 0x59, b: 0x55, c: 0x59, d: 0x56 },
                    width: 640,
                    height: 360,
                },
            ),
            Err(e) => OpenStep::Finished(
                Err(CameraError::FormatNegotiationFailed(join("failed to get format: ", e.as_str()))),
            ),
        };
    }

    /// The device settled on a format, or refused.
    pub fn format_applied(&mut self, result: Result<VideoFormat, String>)
        requires
            old(self).step@ is ApplyFormat,
        ensures
            final(self).path == old(self).path,
            final(self).step@ == OpenStepModel::Finished(
                match result {
                    Ok(format) => negotiated_camera(old(self).path@, format),
                    Err(e) => Err(
                        CameraFault::FormatNegotiationFailed("failed to set format: "@ + e@),
                    ),
                },
            ),
    {
        let outcome: Result<Camera, CameraError> = match result {
            Ok(format) => match pixel_format(format.fourcc) {
                Some(pixel_format) => Ok(
                    Camera {
                        width: format.width,
                        height: format.height,
                        device_path: self.path.clone(),
                        fourcc: format.fourcc,
                        pixel_format,
                    },
                ),
                None => {
                    let mut text: String = "unsupported pixel format: ".to_owned();
                    append_code(&mut text, format.fourcc);
                    text.append(" (need YUYV, GREY, or Y16)");
                    Err(CameraError::FormatNegotiationFailed(text))
                },
            },
            Err(e) => Err(
                CameraError::FormatNegotiationFailed(join("failed to set format: ", e.as_str())),
            ),
        };
        self.step = OpenStep::Finished(outcome);
    }
}

/// What the format of a device asks for before a capture.
#[derive(Debug)]
pub enum FormatCheck {
    /// The device is in the negotiated format.
    Ready,
    /// The device drifted: set this format again, all else as read.
    Reassert(VideoFormat),
    /// The capture cannot start.
    Failed(CameraError),
}

/// A [`FormatCheck`] in terms of what it holds.
pub ghost enum FormatCheckModel {
    Ready,
    Reassert(VideoFormat),
    Failed(CameraFault),
}

impl View for FormatCheck {
    type V = FormatCheckModel;

    open spec fn view(&self) -> FormatCheckModel {
        match self {
            FormatCheck::Ready => FormatCheckModel::Ready,
            FormatCheck::Reassert(f) => FormatCheckModel::Reassert(*f),
            FormatCheck::Failed(e) => FormatCheckModel::Failed(e@),
        }
    }
}

/// What the format that a device is in asks for, where `want` was negotiated.
pub open spec fn format_check(
    want: VideoFormat,
    current: Result<VideoFormat, Seq<char>>,
) -> FormatCheckModel {
    match current {
        Ok(format) => if format == want {
            FormatCheckModel::Ready
        } else {
            FormatCheckModel::Reassert(want)
        },
        Err(e) => FormatCheckModel::Failed(
            CameraFault::CaptureFailed("failed to query current format: "@ + e),
        ),
    }
}

/// A format as messages give it: the code, and the size.
pub open spec fn format_text(format: VideoFormat) -> Seq<char> {
    code_text(format.fourcc) + " "@ + decimal(format.width as nat) + "x"@ + decimal(
        format.height as nat,
    )
}

/// Why re-asserting `want` failed, if it did.
pub open spec fn reassert_fault(
    want: VideoFormat,
    negotiated: Result<VideoFormat, Seq<char>>,
) -> Option<CameraFault> {
    match negotiated {
        Ok(format) => if format == want {
            None
        } else {
            Some(
                CameraFault::FormatNegotiationFailed(
                    "re-assert negotiated "@ + format_text(format) + ", expected "@ + format_text(
                        want,
                    ),
                ),
            )
        },
        Err(e) => Some(
            if says_busy(e) {
                CameraFault::DeviceBusy
            } else {
                CameraFault::FormatNegotiationFailed("failed to re-assert format: "@ + e)
            },
        ),
    }
}

/// Appends a format to a message.
fn append_format(text: &mut String, format: VideoFormat)
    ensures
        final(text)@ == old(text)@ + format_text(format),
{
    let ghost before = text@;
    append_code(text, format.fourcc);
    text.append(" ");
    append_decimal(text, format.width as u64);
    text.append("x");
    append_decimal(text, format.height as u64);
    proof {
        assert(text@ =~= before + format_text(format));
    }
}

/// Decides what the format that a device is in asks for.
pub(crate) fn check_format(want: VideoFormat, current: Result<VideoFormat, String>) -> (check:
    FormatCheck)
    ensures
        check@ == format_check(want, answer_of(current)),
{
    match current {
        Ok(format) => {
            if format == want {
                FormatCheck::Ready
            } else {
                FormatCheck::Reassert(want)
            }
        },
        Err(e) => FormatCheck::Failed(
            CameraError::CaptureFailed(join("failed to query current format: ", e.as_str())),
        ),
    }
}

/// Decides whether re-asserting a format worked.
pub(crate) fn check_reasserted(want: VideoFormat, negotiated: Result<VideoFormat, String>) -> (r:
    Result<(), CameraError>)
    ensures
        match r {
            Ok(_) => reassert_fault(want, answer_of(negotiated)) is None,
            Err(e) => reassert_fault(want, answer_of(negotiated)) == Some(e@),
        },
{
    match negotiated {
        Ok(format) => {
            if format == want {
                Ok(())
            } else {
                let mut text: String = "re-assert negotiated ".to_owned();
                append_format(&mut text, format);
                text.append(", expected ");
                append_format(&mut text, want);
                Err(CameraError::FormatNegotiationFailed(text))
            }
        },
        Err(e) => {
            if is_busy(e.as_str()) {
                Err(CameraError::DeviceBusy)
            } else {
                Err(
                    CameraError::FormatNegotiationFailed(
                        join("failed to re-assert format: ", e.as_str()),
                    ),
                )
            }
        },
    }
}

/// Bytes that one pixel takes in a buffer.
pub open spec fn bytes_per_pixel(format: PixelFormat) -> nat {
    match format {
        PixelFormat::Grey => 1,
        PixelFormat::Y16 => 2,
        PixelFormat::Yuyv => 2,
    }
}

/// Where in a buffer the brightness of pixel `i` stands: the only byte, the high
/// byte of a little-endian pair, or the Y byte that precedes each U or V byte.
pub open spec fn brightness_index(format: PixelFormat, i: int) -> int {
    match format {
        PixelFormat::Grey => i,
        PixelFormat::Y16 => 2 * i + 1,
        PixelFormat::Yuyv => 2 * i,
    }
}

/// The message about a buffer of `got` bytes that should have `expected`.
/// That a `YUYV` buffer has to hold two bytes for each pixel, and what is said of one
/// that does not, beyond the words `YUYV conversion failed`, is this library's own
/// choice.
pub open spec fn short_buffer_text(format: PixelFormat, expected: nat, got: nat) -> Seq<char> {
    (match format {
        PixelFormat::Grey => "GREY buffer too short: expected "@,
        PixelFormat::Y16 => "Y16 buffer too short: expected "@,
        PixelFormat::Yuyv => "YUYV conversion failed: buffer too short: expected "@,
    }) + decimal(expected) + ", got "@ + decimal(got)
}

/// The grayscale pixels that a buffer holds, or what is wrong with it.
pub open spec fn grayscale(format: PixelFormat, pixels: nat, buf: Seq<u8>) -> Result<
    Seq<u8>,
    CameraFault,
> {
    let expected = pixels * bytes_per_pixel(format);
    if buf.len() < expected {
        Err(CameraFault::CaptureFailed(short_buffer_text(format, expected, buf.len())))
    } else {
        Ok(Seq::new(pixels, |i: int| buf[brightness_index(format, i)]))
    }
}

/// Converts a raw buffer of `width * height` pixels to grayscale.
pub(crate) fn to_grayscale(format: PixelFormat, width: u32, height: u32, buf: &[u8]) -> (r: Result<
    Vec<u8>,
    CameraError,
>)
    requires
        width * height <= u32::MAX,
    ensures
        match r {
            Ok(gray) => grayscale(format, (width * height) as nat, buf@) == Ok::<
                Seq<u8>,
                CameraFault,
            >(gray@),
            Err(e) => grayscale(format, (width * height) as nat, buf@) == Err::<
                Seq<u8>,
                CameraFault,
            >(e@),
        },
{
    let pixels: u64 = (width * height) as u64;
    let each: u64 = match format {
        PixelFormat::Grey => 1,
        PixelFormat::Y16 => 2,
        PixelFormat::Yuyv => 2,
    };
    let expected: u64 = pixels * each;
    if (buf.len() as u64) < expected {
        let mut text: String = (match format {
            PixelFormat::Grey => "GREY buffer too short: expected ",
            PixelFormat::Y16 => "Y16 buffer too short: expected ",
            PixelFormat::Yuyv => "YUYV conversion failed: buffer too short: expected ",
        }).to_owned();
        append_decimal(&mut text, expected);
        text.append(", got ");
        append_decimal(&mut text, buf.len() as u64);
        proof {
            assert(text@ =~= short_buffer_text(format, expected as nat, buf@.len()));
        }
        return Err(CameraError::CaptureFailed(text));
    }
    let mut gray: Vec<u8> = Vec::with_capacity(pixels as usize);
    let mut i: u64 = 0;
    while i < pixels
        invariant
            pixels <= u32::MAX,
            buf@.len() >= pixels * bytes_per_pixel(format),
            0 <= i <= pixels,
            gray@.len() == i,
            forall|k: int| 0 <= k < i ==> gray@[k] == buf@[brightness_index(format, k)],
        decreases pixels - i,
    {
        let index: u64 = match format {
            PixelFormat::Grey => i,
            PixelFormat::Y16 => 2 * i + 1,
            PixelFormat::Yuyv => 2 * i,
        };
        gray.push(buf[index as usize]);
        i = i + 1;
    }
    proof {
        assert(gray@ =~= Seq::new(
            pixels as nat,
            |i: int| buf@[brightness_index(format, i)],
        ));
    }
    Ok(gray)
}

impl Camera {
    /// Starts opening the camera at a path such as `/dev/video2`.
    pub fn open(device_path: &str) -> (run: OpenRun)
        ensures
            run.path@ == device_path@,
            run.step@ is CheckPath,
    {
        OpenRun { path: device_path.to_owned(), step: OpenStep::CheckPath }
    }

    /// The format that was negotiated.
    pub fn format(&self) -> (format: VideoFormat)
        ensures
            format == self@.format,
    {
        VideoFormat { fourcc: self.fourcc, width: self.width, height: self.height }
    }

    /// Re-asserting the negotiated format, first half: what the format that the
    /// device is in asks for.
    ///
    /// Another application can change the format of a shared device, and leave
    /// it in a format that no longer matches. One read settles the common,
    /// uncontended case.
    pub fn reassert_format(&self, current: Result<VideoFormat, String>) -> (check: FormatCheck)
        ensures
            check@ == format_check(self@.format, answer_of(current)),
    {
        check_format(self.format(), current)
    }

    /// Re-asserting the negotiated format, second half: whether setting it again
    /// worked.
    pub fn format_reasserted(&self, negotiated: Result<VideoFormat, String>) -> (r: Result<
        (),
        CameraError,
    >)
        ensures
            match r {
                Ok(_) => reassert_fault(self@.format, answer_of(negotiated)) is None,
                Err(e) => reassert_fault(self@.format, answer_of(negotiated)) == Some(e@),
            },
    {
        check_reasserted(self.format(), negotiated)
    }

    /// Converts a raw buffer to grayscale, as the negotiated format asks.
    pub fn buf_to_grayscale(&self, buf: &[u8]) -> (r: Result<Vec<u8>, CameraError>)
        requires
            self.width * self.height <= u32::MAX,
        ensures
            match r {
                Ok(gray) => grayscale(self.pixel_format, (self.width * self.height) as nat, buf@)
                    == Ok::<Seq<u8>, CameraFault>(gray@),
                Err(e) => grayscale(self.pixel_format, (self.width * self.height) as nat, buf@)
                    == Err::<Seq<u8>, CameraFault>(e@),
            },
    {
        to_grayscale(self.pixel_format, self.width, self.height, buf)
    }
}

/// A buffer becomes grayscale pixel by pixel: it is read exactly if it holds one byte
/// for each pixel, or two where the format has two. A pixel is the only byte of a gray
/// one, the byte of higher value of a 16-bit one, and the first byte of a color one.
pub proof fn buffers_hold_their_pixels(format: PixelFormat, pixels: nat, buf: Seq<u8>, i: int)
    requires
        0 <= i < pixels,
    ensures
        grayscale(format, pixels, buf) is Ok <==> buf.len() >= (if format is Grey {
            pixels
        } else {
            pixels + pixels
        }),
        grayscale(format, pixels, buf) matches Ok(gray) ==> {
            &&& gray.len() == pixels
            &&& format is Grey ==> gray[i] == buf[i]
            &&& format is Yuyv ==> gray[i] == buf[2 * i]
            &&& format is Y16 ==> gray[i] == (buf[2 * i] + 256 * buf[2 * i + 1]) / 256
        },
        grayscale(format, pixels, buf) matches Err(e) ==> e is CaptureFailed,
{
}

/// The formats that can be read are `YUYV`, `GREY` and `Y16` with either padding, and
/// no others.
pub proof fn only_known_codes_stand_for_formats(code: FourCc)
    ensures
        pixel_format_of(code) == Some(PixelFormat::Grey) <==> (code.a, code.b, code.c, code.d) == (
            71u8,
            82u8,
            69u8,
            89u8,
        ),
        pixel_format_of(code) == Some(PixelFormat::Yuyv) <==> (code.a, code.b, code.c, code.d) == (
            89u8,
            85u8,
            89u8,
            86u8,
        ),
        pixel_format_of(code) == Some(PixelFormat::Y16) <==> (code.a, code.b, code.c) == (
            89u8,
            49u8,
            54u8,
        ) && (code.d == 32 || code.d == 0),
{
}

/// A device that settled on a format is opened exactly if that format can be read, and
/// then with that very format at the path that was asked for.
pub proof fn cameras_are_opened_as_negotiated(path: Seq<char>, format: VideoFormat)
    ensures
        negotiated_camera(path, format) is Ok <==> pixel_format_of(format.fourcc) is Some,
        negotiated_camera(path, format) matches Ok(camera) ==> {
            &&& camera.format == format
            &&& camera.device_path == path
            &&& Some(camera.pixel_format) == pixel_format_of(format.fourcc)
        },
        negotiated_camera(path, format) matches Err(e) ==> e is FormatNegotiationFailed,
{
}

/// A device captures video exactly if the lowest of its flags is set, whatever the
/// others.
pub proof fn the_lowest_flag_says_capture(flags: u32)
    ensures
        captures_video(flags) <==> flags & 1 == 1,
{
    assert(flags & 1 == 1 <==> flags % 2 == 1) by (bit_vector);
}

/// An error says that the device is busy wherever the word stands in it.
pub proof fn busy_errors_say_so(before: Seq<char>, after: Seq<char>, text: Seq<char>)
    ensures
        says_busy(before + "busy"@ + after),
        says_busy(before + "EBUSY"@ + after),
        says_busy(text) ==> occurs(text, "busy"@) || occurs(text, "EBUSY"@),
{
    occurring_is_lying_between(before + "busy"@ + after, "busy"@);
    occurring_is_lying_between(before + "EBUSY"@ + after, "EBUSY"@);
}

/// A capture starts only in the format that was negotiated: a device found in it is
/// left alone, one found in any other is asked for it again, and one that then settles
/// on anything else fails.
pub proof fn captures_start_in_the_negotiated_format(
    want: VideoFormat,
    found: VideoFormat,
    e: Seq<char>,
)
    ensures
        format_check(want, Ok(found)) is Ready <==> found == want,
        found != want ==> format_check(want, Ok(found)) == FormatCheckModel::Reassert(want),
        format_check(want, Err(e)) == FormatCheckModel::Failed(
            CameraFault::CaptureFailed("failed to query current format: "@ + e),
        ),
        reassert_fault(want, Ok(found)) is None <==> found == want,
        found != want ==> reassert_fault(want, Ok(found))->0 is FormatNegotiationFailed,
        says_busy(e) ==> reassert_fault(want, Err(e)) == Some(CameraFault::DeviceBusy),
        !says_busy(e) ==> reassert_fault(want, Err(e)) == Some(
            CameraFault::FormatNegotiationFailed("failed to re-assert format: "@ + e),
        ),
{
}

/// What went wrong survives in the message of a camera error, behind what was tried.
pub proof fn camera_messages_keep_the_reason(reason: Seq<char>)
    ensures
        camera_text(CameraFault::DeviceNotFound(reason)) == "device not found: "@ + reason,
        camera_text(CameraFault::CaptureFailed(reason)) == "capture failed: "@ + reason,
        camera_text(CameraFault::FormatNegotiationFailed(reason))
            == "format negotiation failed: "@ + reason,
        camera_text(CameraFault::DeviceBusy) == "device busy"@,
        camera_text(CameraFault::StreamingNotSupported) == "streaming not supported"@,
{
}

/// Models of cameras and devices hold all that these do.
pub proof fn device_models_hold_everything(camera: Camera, device: DeviceInfo)
    ensures
        camera@.format == (VideoFormat {
            fourcc: camera.fourcc,
            width: camera.width,
            height: camera.height,
        }),
        camera@.device_path == camera.device_path@,
        camera@.pixel_format == camera.pixel_format,
        device@.path == device.path@,
        device@.name == device.name@,
        device@.driver == device.driver@,
        device@.bus == device.bus@,
{
}

/// A message about a format names its four bytes and its size, and one about a short
/// buffer how many bytes there should have been and how many there were.
pub proof fn format_messages_name_the_format(format: VideoFormat, expected: nat, got: nat)
    ensures
        code_text(format.fourcc) == "FourCC { repr: ["@ + decimal(format.fourcc.a as nat) + ", "@
            + decimal(format.fourcc.b as nat) + ", "@ + decimal(format.fourcc.c as nat) + ", "@
            + decimal(format.fourcc.d as nat) + "] }"@,
        format_text(format) == code_text(format.fourcc) + " "@ + decimal(format.width as nat)
            + "x"@ + decimal(format.height as nat),
        short_buffer_text(PixelFormat::Grey, expected, got) == "GREY buffer too short: expected "@
            + decimal(expected) + ", got "@ + decimal(got),
        short_buffer_text(PixelFormat::Y16, expected, got) == "Y16 buffer too short: expected "@
            + decimal(expected) + ", got "@ + decimal(got),
{
}

/// A buffer that is refused is refused for its own length, against what the format
/// takes for all pixels.
pub proof fn short_buffers_are_named(format: PixelFormat, pixels: nat, buf: Seq<u8>)
    requires
        buf.len() < pixels || (format !is Grey && buf.len() < pixels + pixels),
    ensures
        format is Grey ==> grayscale(format, pixels, buf) == Err::<Seq<u8>, CameraFault>(
            CameraFault::CaptureFailed(short_buffer_text(format, pixels, buf.len())),
        ),
        format !is Grey ==> grayscale(format, pixels, buf) == Err::<Seq<u8>, CameraFault>(
            CameraFault::CaptureFailed(short_buffer_text(format, pixels + pixels, buf.len())),
        ),
{
}

} // verus!
