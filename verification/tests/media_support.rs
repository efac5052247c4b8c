use rtp_pipeline::media::{
    build_video_format, classify_input_buffer, classify_output_buffer,
    h264_profile_from_android_id, realtime_priority_flag, H264Profile, MediaTimeout,
    OutputBufferDecision,
};
use rtp_pipeline::mime::MimeType;
use rtp_pipeline::status::{AsMediaStatus, MediaStatus, NonZeroSysMediaStatus};
use rtp_pipeline::util::{gcd, ratio_to_lowest_terms};

#[test]
fn gcd_values() {
    assert_eq!(gcd(0, 5), 5);
    assert_eq!(gcd(5, 0), 5);
    assert_eq!(gcd(48, 18), 6);
    assert_eq!(gcd(17, 13), 1);
    assert_eq!(gcd(1920, 1080), 120);
}

#[test]
fn ratio_reduces_to_lowest_terms() {
    assert_eq!(ratio_to_lowest_terms(1920, 1080), (16, 9));
    assert_eq!(ratio_to_lowest_terms(320, 240), (4, 3));
    assert_eq!(ratio_to_lowest_terms(7, 5), (7, 5));
}

#[test]
fn mime_strings() {
    assert_eq!(MimeType::VideoH264.to_android_str(), "video/avc");
    assert_eq!(MimeType::VideoH264.to_sdp_str(), "video/H264");
    assert_eq!(MimeType::AudioOpus.to_android_str(), "audio/opus");
    assert_eq!(MimeType::VideoVp8.to_android_str(), "video/x-vnd.on2.vp8");
    assert_eq!(
        MimeType::VideoH265.to_nul_terminated_rust_str(),
        "video/hevc\0"
    );
}

#[test]
fn media_timeout_values() {
    assert_eq!(MediaTimeout::new(1_000_000).0, 1_000_000);
    assert_eq!(MediaTimeout::infinite().0, -1);
}

#[test]
fn status_codes_round_trip() {
    let known = [
        (1100, NonZeroSysMediaStatus::AMEDIACODEC_ERROR_INSUFFICIENT_RESOURCE),
        (-10001, NonZeroSysMediaStatus::AMEDIA_ERROR_MALFORMED),
        (-20004, NonZeroSysMediaStatus::AMEDIA_DRM_SHORT_BUFFER),
        (-30005, NonZeroSysMediaStatus::AMEDIA_IMGREADER_IMAGE_NOT_LOCKED),
    ];
    for (code, status) in known {
        assert_eq!(NonZeroSysMediaStatus::try_from_code(code), Ok(status));
        assert_eq!(status.code(), code);
    }
    assert_eq!(NonZeroSysMediaStatus::try_from_code(0), Err(()));
    // Unknown failure codes collapse to the unknown error.
    assert_eq!(
        NonZeroSysMediaStatus::try_from_code(-12345),
        Ok(NonZeroSysMediaStatus::AMEDIA_ERROR_UNKNOWN)
    );
}

#[test]
fn status_success_helper() {
    assert_eq!(0i32.success(), Ok(()));
    assert_eq!(
        (-10007i32).success(),
        Err(MediaStatus::Sys(NonZeroSysMediaStatus::AMEDIA_ERROR_IO))
    );
}

#[test]
fn status_names() {
    assert_eq!(
        NonZeroSysMediaStatus::AMEDIA_ERROR_END_OF_STREAM.err_str(),
        "AMEDIA_ERROR_END_OF_STREAM"
    );
}

#[test]
fn format_follows_api_level() {
    let f = build_video_format(MimeType::VideoH264, 320, 240, 30);
    assert!(f.low_latency);
    assert!(f.realtime_priority);
    assert_eq!((f.width, f.height), (320, 240));
    assert_eq!((f.max_width, f.max_height), (320, 240));
    let f2 = build_video_format(MimeType::VideoH264, 320, 240, 29);
    assert!(!f2.low_latency);
}

#[test]
fn profile_ids_map_to_profiles() {
    assert_eq!(h264_profile_from_android_id(1), Some(H264Profile::Baseline));
    assert_eq!(h264_profile_from_android_id(8), Some(H264Profile::High));
    assert_eq!(
        h264_profile_from_android_id(65536),
        Some(H264Profile::ConstrainedBaseline)
    );
    assert_eq!(h264_profile_from_android_id(3), None);
}

#[test]
fn media_status_names() {
    assert_eq!(MediaStatus::NoAvailableBuffer.err_str(), "NoAvailableBuffer");
    assert_eq!(
        MediaStatus::Sys(NonZeroSysMediaStatus::AMEDIA_ERROR_IO).err_str(),
        "AMEDIA_ERROR_IO"
    );
}

#[test]
fn output_buffer_statuses_classify() {
    assert_eq!(classify_output_buffer(-1), OutputBufferDecision::NoBuffer);
    assert_eq!(classify_output_buffer(-2), OutputBufferDecision::IgnoreFormatChanged);
    assert_eq!(classify_output_buffer(-3), OutputBufferDecision::IgnoreBuffersChanged);
    assert_eq!(classify_output_buffer(5), OutputBufferDecision::Release(5));
}

#[test]
fn input_buffer_index_classifies() {
    assert_eq!(classify_input_buffer(-1), None);
    assert_eq!(classify_input_buffer(3), Some(3));
}

#[test]
fn realtime_priority_encoding_is_inverted() {
    assert_eq!(realtime_priority_flag(true), 0);
    assert_eq!(realtime_priority_flag(false), 1);
}
