//! Abstraction of the MIME types the pipeline can negotiate.

use vstd::prelude::*;

verus! {

/// Abstraction of a MIME type.
#[derive(Debug, Clone, Copy, PartialEq, Eq, Hash, Structural)]
pub enum MimeType {
    AudioPcma,
    AudioPcmu,
    AudioOpus,
    VideoAv1,
    VideoH264,
    VideoH265,
    VideoVp8,
}

/// The nul-terminated form of the string that Android understands.
pub open spec fn nul_terminated_android_str(m: MimeType) -> Seq<char> {
    match m {
        MimeType::AudioPcma => "audio/g711-alaw\0"@,
        MimeType::AudioPcmu => "audio/g711-mlaw\0"@,
        MimeType::AudioOpus => "audio/opus\0"@,
        MimeType::VideoAv1 => "video/av01\0"@,
        MimeType::VideoH264 => "video/avc\0"@,
        MimeType::VideoH265 => "video/hevc\0"@,
        MimeType::VideoVp8 => "video/x-vnd.on2.vp8\0"@,
    }
}

/// The string that Android understands, without the terminator.
pub open spec fn android_str(m: MimeType) -> Seq<char> {
    match m {
        MimeType::AudioPcma => "audio/g711-alaw"@,
        MimeType::AudioPcmu => "audio/g711-mlaw"@,
        MimeType::AudioOpus => "audio/opus"@,
        MimeType::VideoAv1 => "video/av01"@,
        MimeType::VideoH264 => "video/avc"@,
        MimeType::VideoH265 => "video/hevc"@,
        MimeType::VideoVp8 => "video/x-vnd.on2.vp8"@,
    }
}

/// The SDP form of the MIME type.
pub open spec fn sdp_str(m: MimeType) -> Seq<char> {
    match m {
        MimeType::AudioPcma => "audio/PCMA"@,
        MimeType::AudioPcmu => "audio/PCMU"@,
        MimeType::AudioOpus => "audio/opus"@,
        MimeType::VideoAv1 => "video/AV1"@,
        MimeType::VideoH264 => "video/H264"@,
        MimeType::VideoH265 => "video/H265"@,
        MimeType::VideoVp8 => "video/VP8"@,
    }
}

impl MimeType {
    /// The string Android understands, with a nul terminator appended, for
    /// handing to C interfaces.
    pub fn to_nul_terminated_rust_str(self) -> (r: &'static str)
        ensures
            r@ == nul_terminated_android_str(self),
    {
        match self {
            MimeType::AudioPcma => "audio/g711-alaw\0",
            MimeType::AudioPcmu => "audio/g711-mlaw\0",
            MimeType::AudioOpus => "audio/opus\0",
            MimeType::VideoAv1 => "video/av01\0",
            MimeType::VideoH264 => "video/avc\0",
            MimeType::VideoH265 => "video/hevc\0",
            MimeType::VideoVp8 => "video/x-vnd.on2.vp8\0",
        }
    }

    /// Convert `MimeType` to a `str` that Android understands.
    pub fn to_android_str(self) -> (r: &'static str)
        ensures
            r@ == android_str(self),
    {
        match self {
            MimeType::AudioPcma => "audio/g711-alaw",
            MimeType::AudioPcmu => "audio/g711-mlaw",
            MimeType::AudioOpus => "audio/opus",
            MimeType::VideoAv1 => "video/av01",
            MimeType::VideoH264 => "video/avc",
            MimeType::VideoH265 => "video/hevc",
            MimeType::VideoVp8 => "video/x-vnd.on2.vp8",
        }
    }

    /// Convert `MimeType` to an SDP MIME type.
    pub fn to_sdp_str(self) -> (r: &'static str)
        ensures
            r@ == sdp_str(self),
    {
        match self {
            MimeType::AudioPcma => "audio/PCMA",
            MimeType::AudioPcmu => "audio/PCMU",
            MimeType::AudioOpus => "audio/opus",
            MimeType::VideoAv1 => "video/AV1",
            MimeType::VideoH264 => "video/H264",
            MimeType::VideoH265 => "video/H265",
            MimeType::VideoVp8 => "video/VP8",
        }
    }
}

} // verus!
