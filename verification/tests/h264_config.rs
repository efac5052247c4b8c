use rtp_pipeline::h264::{nal_boundaries, nalu_chunks, H264Csd, H264Decoder, VideoType};
use rtp_pipeline::sps::sps_resolution;

/// A hand-assembled baseline sequence parameter set for a 320x240
/// picture: profile 66, level 30, all optional fields at their smallest,
/// 20x15 macroblocks, no cropping.
fn sps_320x240() -> Vec<u8> {
    vec![0x67, 0x42, 0x00, 0x1E, 0xF8, 0x28, 0x3E, 0x40]
}

fn pps() -> Vec<u8> {
    vec![0x68, 0xCE, 0x38, 0x80]
}

#[test]
fn sps_resolution_decodes_the_picture_size() {
    assert_eq!(sps_resolution(&sps_320x240()), Some((320, 240)));
}

#[test]
fn sps_resolution_rejects_garbage() {
    assert_eq!(sps_resolution(&[0x67, 0x42]), None);
    assert_eq!(sps_resolution(&[]), None);
}

#[test]
fn boundaries_find_start_code_runs() {
    let data = [0u8, 0, 0, 1, 0x67, 5, 0, 0, 1, 0x68, 0, 1];
    // The run of three zeroes starts at 0; the run of two at 6; the
    // trailing "0, 1" has only one zero and is no marker.
    assert_eq!(nal_boundaries(&data), vec![0, 6]);
}

#[test]
fn boundaries_record_the_run_start() {
    let data = [9u8, 0, 0, 0, 0, 1, 7];
    assert_eq!(nal_boundaries(&data), vec![1]);
}

#[test]
fn chunks_split_between_markers() {
    let data = [0u8, 0, 0, 1, 0x67, 5, 5, 0, 0, 0, 1, 0x68, 7];
    let chunks = nalu_chunks(&data);
    assert_eq!(chunks, vec![vec![0x67, 5, 5], vec![0x68, 7]]);
}

#[test]
fn csd_from_slice_finds_both_parameter_sets() {
    let mut data = vec![0u8, 0, 0, 1];
    data.extend(sps_320x240());
    data.extend(vec![0u8, 0, 0, 1]);
    data.extend(pps());
    let csd = H264Csd::from_slice(&data).unwrap();
    assert_eq!(csd.csd0, data[0..12].to_vec());
    assert_eq!(csd.csd1, data[12..].to_vec());
}

#[test]
fn csd_from_slice_needs_both_sets() {
    let mut data = vec![0u8, 0, 0, 1];
    data.extend(sps_320x240());
    assert!(H264Csd::from_slice(&data).is_none());
    assert!(H264Csd::from_slice(&[]).is_none());
}

#[test]
fn decoder_accumulates_configuration() {
    let mut dec = H264Decoder::new();
    assert!(!dec.init_done());
    let mut unit = vec![0u8, 0, 0, 1];
    unit.extend(sps_320x240());
    unit.extend(vec![0u8, 0, 0, 1]);
    unit.extend(pps());
    assert!(dec.read_payload(&unit).is_ok());
    assert!(dec.init_done());
    assert_eq!(dec.resolution(), Some((320, 240)));
    let mut expect = vec![0u8, 0, 0, 1];
    expect.extend(sps_320x240());
    expect.extend(vec![0u8, 0, 0, 1]);
    expect.extend(pps());
    assert_eq!(dec.codec_config().unwrap(), &expect);
}

#[test]
fn decoder_rejects_frame_data_while_configuring() {
    let mut dec = H264Decoder::new();
    let unit = [0u8, 0, 0, 1, 0x65, 8, 8];
    assert!(dec.read_payload(&unit).is_err());
    assert!(!dec.init_done());
}

#[test]
fn decoder_rejects_empty_payload() {
    let mut dec = H264Decoder::new();
    assert!(dec.read_payload(&[]).is_err());
}

#[test]
fn video_type_mime_strings() {
    assert_eq!(VideoType::H264.mime_cstr(), "video/avc\0");
    assert_eq!(VideoType::Hevc.mime_cstr(), "video/hevc\0");
}
