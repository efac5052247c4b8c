//! Plain descriptions of the values handed to the hardware decoder session:
//! timeouts and the media format a session is configured with.

use vstd::prelude::*;
use crate::mime::MimeType;

verus! {

/// Timeout value for decoder session methods, in microseconds.  The value
/// `-1` is the reserved sentinel meaning "block until available".
#[derive(Debug, Clone, Copy, PartialEq, Eq, Structural)]
pub struct MediaTimeout(pub i64);

impl MediaTimeout {
    /// Create a new `MediaTimeout` from a duration in microseconds.  The
    /// timeout must fit in a signed 64-bit count of microseconds.
    pub fn new(timeout_micros: u64) -> (r: MediaTimeout)
        requires
            timeout_micros <= i64::MAX,
        ensures
            r.0 == timeout_micros,
    {
        MediaTimeout(timeout_micros as i64)
    }

    /// The sentinel that signals to the operation to wait indefinitely.
    pub fn infinite() -> (r: MediaTimeout)
        ensures
            r.0 == -1,
    {
        MediaTimeout(-1)
    }
}

/// A pure description of the media format a decoder session is configured
/// with.  The platform layer turns it into the codec interface's own format
/// object.
#[derive(Debug, Clone, PartialEq, Eq, Structural)]
pub struct VideoFormatParams {
    /// Negotiated MIME type of the stream.
    pub mime_type: MimeType,
    /// Picture width in pixels.
    pub width: i32,
    /// Picture height in pixels.
    pub height: i32,
    /// Maximum width, for adaptive playback.
    pub max_width: i32,
    /// Maximum height, for adaptive playback.
    pub max_height: i32,
    /// Whether the codec runs with realtime priority.
    pub realtime_priority: bool,
    /// Whether low-latency decoding is requested.
    pub low_latency: bool,
}

/// The lowest platform API level that understands the low-latency format
/// flag.
pub const LOW_LATENCY_MIN_API_LEVEL: i32 = 30;

/// Build the format a video decoder session is configured with: realtime
/// priority always, the detected resolution as both current and maximum
/// size, and low latency exactly on platform levels that understand it.
pub fn build_video_format(mime_type: MimeType, width: i32, height: i32, api_level: i32) -> (r:
    VideoFormatParams)
    ensures
        r.mime_type == mime_type,
        r.width == width,
        r.height == height,
        r.max_width == width,
        r.max_height == height,
        r.realtime_priority,
        r.low_latency == (api_level >= LOW_LATENCY_MIN_API_LEVEL),
{
    VideoFormatParams {
        mime_type,
        width,
        height,
        max_width: width,
        max_height: height,
        realtime_priority: true,
        low_latency: api_level >= LOW_LATENCY_MIN_API_LEVEL,
    }
}

/// The codec's reserved return values when output is dequeued.
pub const OUTPUT_INFO_TRY_AGAIN_LATER: i64 = -1;

/// Output format change marker.
pub const OUTPUT_INFO_FORMAT_CHANGED: i64 = -2;

/// Output buffer set change marker (obsolete on the supported platform
/// levels).
pub const OUTPUT_INFO_BUFFERS_CHANGED: i64 = -3;

/// What to do with one dequeued output status.
#[derive(Debug, Clone, Copy, PartialEq, Eq, Structural)]
pub enum OutputBufferDecision {
    /// No buffer became available; with an infinite timeout this is
    /// unreachable and surfaces as the no-buffer error.
    NoBuffer,
    /// The output format changed; ignored, assuming the surface copes.
    IgnoreFormatChanged,
    /// The buffer set changed; obsolete on the supported platform
    /// levels, ignored.
    IgnoreBuffersChanged,
    /// A proper buffer index: release it, rendering or not.
    Release(i64),
}

/// The meaning of each dequeued output status.
pub open spec fn output_decision(status: i64) -> OutputBufferDecision {
    if status == OUTPUT_INFO_TRY_AGAIN_LATER {
        OutputBufferDecision::NoBuffer
    } else if status == OUTPUT_INFO_FORMAT_CHANGED {
        OutputBufferDecision::IgnoreFormatChanged
    } else if status == OUTPUT_INFO_BUFFERS_CHANGED {
        OutputBufferDecision::IgnoreBuffersChanged
    } else {
        OutputBufferDecision::Release(status)
    }
}

/// Classify what dequeuing an output buffer returned.
pub fn classify_output_buffer(status: i64) -> (r: OutputBufferDecision)
    ensures
        r == output_decision(status),
{
    match status {
        OUTPUT_INFO_TRY_AGAIN_LATER => OutputBufferDecision::NoBuffer,
        OUTPUT_INFO_FORMAT_CHANGED => OutputBufferDecision::IgnoreFormatChanged,
        OUTPUT_INFO_BUFFERS_CHANGED => OutputBufferDecision::IgnoreBuffersChanged,
        _ => OutputBufferDecision::Release(status),
    }
}

/// Classify what dequeuing an input buffer returned: `-1` means no
/// buffer became available within the timeout.
pub fn classify_input_buffer(index: i64) -> (r: Option<i64>)
    ensures
        r == (if index == -1 {
            None::<i64>
        } else {
            Some(index)
        }),
{
    if index == -1 {
        None
    } else {
        Some(index)
    }
}

/// The platform encoding of the realtime-priority flag: zero means
/// realtime.
pub fn realtime_priority_flag(realtime: bool) -> (r: i32)
    ensures
        r == (if realtime {
            0int
        } else {
            1int
        }),
{
    if realtime {
        0
    } else {
        1
    }
}

/// The H.264 profiles a decoder can announce.
#[derive(Debug, Clone, Copy, PartialEq, Eq, Structural)]
pub enum H264Profile {
    Baseline,
    Main,
    Extended,
    High,
    High10,
    High422,
    High444,
    ConstrainedBaseline,
    ConstrainedHigh,
}

/// How the platform's numeric profile identifiers map to profiles.
pub open spec fn profile_from_id(id: i32) -> Option<H264Profile> {
    if id == 1 {
        Some(H264Profile::Baseline)
    } else if id == 2 {
        Some(H264Profile::Main)
    } else if id == 4 {
        Some(H264Profile::Extended)
    } else if id == 8 {
        Some(H264Profile::High)
    } else if id == 16 {
        Some(H264Profile::High10)
    } else if id == 32 {
        Some(H264Profile::High422)
    } else if id == 64 {
        Some(H264Profile::High444)
    } else if id == 65536 {
        Some(H264Profile::ConstrainedBaseline)
    } else if id == 524288 {
        Some(H264Profile::ConstrainedHigh)
    } else {
        None
    }
}

/// Map a platform codec-profile identifier to the H.264 profile it
/// stands for; unknown identifiers are skipped by the caller.
pub fn h264_profile_from_android_id(id: i32) -> (r: Option<H264Profile>)
    ensures
        r == profile_from_id(id),
{
    match id {
        1 => Some(H264Profile::Baseline),
        2 => Some(H264Profile::Main),
        4 => Some(H264Profile::Extended),
        8 => Some(H264Profile::High),
        16 => Some(H264Profile::High10),
        32 => Some(H264Profile::High422),
        64 => Some(H264Profile::High444),
        65536 => Some(H264Profile::ConstrainedBaseline),
        524288 => Some(H264Profile::ConstrainedHigh),
        _ => None,
    }
}

} // verus!
