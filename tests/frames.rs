use termusic::estimate::{estimate_exact, estimate_fast, estimate_sampled, BitrateMode, Strategy};
use termusic::header::{decode, frame_length, HeaderError};
use termusic::scan::{scan, ScanEnd, VbrTag};
use termusic::tables::{
    bitrate, padding_unit, sample_rate, samples_per_frame, side_information_size, version_group,
    ChannelMode, Layer, MpegVersion, VersionGroup,
};

/// MPEG1, Layer III, no CRC, 128 kbps, 44100 Hz, no padding, stereo.
const MP3_128: u32 = 0xFFFB_9000;
/// The same at 160 kbps.
const MP3_160: u32 = 0xFFFB_A000;

fn frame(word: u32, len: usize) -> Vec<u8> {
    let mut f = word.to_be_bytes().to_vec();
    f.resize(len, 0);
    f
}

fn ten_frames_with_garbage() -> Vec<u8> {
    let mut data = Vec::new();
    for i in 0..10 {
        if i == 4 {
            data.extend_from_slice(&[0x12, 0x34, 0x56]);
        }
        data.extend(frame(MP3_128, 417));
    }
    data
}

#[test]
fn bitrate_table_defined_for_indices_1_to_14() {
    let layers = [Layer::Layer1, Layer::Layer2, Layer::Layer3];
    let groups = [VersionGroup::Mpeg1, VersionGroup::Mpeg2And2_5];
    for l in layers {
        for g in groups {
            for i in 1..=14u32 {
                assert!(bitrate(l, g, i).unwrap() > 0);
            }
            assert_eq!(bitrate(l, g, 0), None);
            assert_eq!(bitrate(l, g, 15), None);
        }
    }
    assert_eq!(bitrate(Layer::Layer3, VersionGroup::Mpeg1, 9), Some(128));
    assert_eq!(bitrate(Layer::Layer1, VersionGroup::Mpeg1, 14), Some(448));
    assert_eq!(bitrate(Layer::Layer2, VersionGroup::Mpeg2And2_5, 1), Some(8));
}

#[test]
fn sample_rate_table_defined_for_indices_0_to_2() {
    for v in [MpegVersion::Mpeg1, MpegVersion::Mpeg2, MpegVersion::Mpeg2_5] {
        for i in 0..=2u32 {
            assert!(sample_rate(v, i).unwrap() > 0);
        }
        assert_eq!(sample_rate(v, 3), None);
    }
    assert_eq!(sample_rate(MpegVersion::Mpeg1, 0), Some(44100));
    assert_eq!(sample_rate(MpegVersion::Mpeg2, 1), Some(24000));
    assert_eq!(sample_rate(MpegVersion::Mpeg2_5, 2), Some(8000));
}

#[test]
fn small_tables() {
    assert_eq!(version_group(MpegVersion::Mpeg2_5), VersionGroup::Mpeg2And2_5);
    assert_eq!(samples_per_frame(Layer::Layer1, VersionGroup::Mpeg2And2_5), 384);
    assert_eq!(samples_per_frame(Layer::Layer3, VersionGroup::Mpeg1), 1152);
    assert_eq!(samples_per_frame(Layer::Layer3, VersionGroup::Mpeg2And2_5), 576);
    assert_eq!(side_information_size(MpegVersion::Mpeg1, ChannelMode::Stereo), 32);
    assert_eq!(side_information_size(MpegVersion::Mpeg1, ChannelMode::Mono), 17);
    assert_eq!(side_information_size(MpegVersion::Mpeg2_5, ChannelMode::Mono), 9);
    assert_eq!(padding_unit(Layer::Layer1), 4);
    assert_eq!(padding_unit(Layer::Layer3), 1);
}

#[test]
fn frame_length_layer3_mpeg1() {
    let h = decode(MP3_128).unwrap();
    assert_eq!(h.version, MpegVersion::Mpeg1);
    assert_eq!(h.layer, Layer::Layer3);
    assert!(!h.protected);
    assert_eq!(h.bitrate_kbps, 128);
    assert_eq!(h.sample_rate_hz, 44100);
    assert_eq!(h.samples_per_frame, 1152);
    assert_eq!(h.side_information_bytes, 32);
    assert_eq!(h.channel_mode, ChannelMode::Stereo);
    assert_eq!(h.frame_length_bytes, 417);
    let p = decode(MP3_128 | 0x200).unwrap();
    assert!(p.padding);
    assert_eq!(p.frame_length_bytes, 418);
}

#[test]
fn frame_length_layer1_mpeg1() {
    // 384 kbps, 48000 Hz: 12 * 384000 / 48000 = 96 slots of 4 bytes.
    let h = decode(0xFFFF_C400).unwrap();
    assert_eq!(h.layer, Layer::Layer1);
    assert_eq!(h.bitrate_kbps, 384);
    assert_eq!(h.sample_rate_hz, 48000);
    assert_eq!(h.frame_length_bytes, 384);
    assert_eq!(decode(0xFFFF_C600).unwrap().frame_length_bytes, 388);
    assert_eq!(frame_length(Layer::Layer1, 384, 384, 48000, false), 384);
}

#[test]
fn frame_length_layer3_mpeg2_uses_half_coefficient() {
    // MPEG2, Layer III, 64 kbps, 22050 Hz: 72 * 64000 / 22050 = 208.
    let h = decode(0xFFF3_8000).unwrap();
    assert_eq!(h.version, MpegVersion::Mpeg2);
    assert_eq!(h.samples_per_frame, 576);
    assert_eq!(h.side_information_bytes, 17);
    assert_eq!(h.frame_length_bytes, 208);
}

#[test]
fn frame_length_at_least_header_size() {
    for w in [0xFFE2_1000u32, 0xFFE3_1800, 0xFFE7_1800, 0xFFFF_1400, 0xFFF5_1C00] {
        if let Ok(h) = decode(w) {
            assert!(h.frame_length_bytes >= 4);
        }
    }
    // MPEG2.5, Layer III, 8 kbps, 8000 Hz: 72 * 8000 / 8000 = 72.
    let h = decode(0xFFE3_1800).unwrap();
    assert_eq!(h.sample_rate_hz, 8000);
    assert_eq!(h.frame_length_bytes, 72);
}

#[test]
fn decode_errors() {
    assert_eq!(decode(0x0000_0000), Err(HeaderError::SyncLost));
    assert_eq!(decode(0xFFDB_9000), Err(HeaderError::SyncLost));
    assert_eq!(decode(0xFFEB_9000), Err(HeaderError::ReservedVersion));
    assert_eq!(decode(0xFFF9_9000), Err(HeaderError::ReservedLayer));
    assert_eq!(decode(0xFFFB_F000), Err(HeaderError::ReservedBitrate));
    assert_eq!(decode(0xFFFB_0000), Err(HeaderError::FreeBitrate));
    assert_eq!(decode(0xFFFB_9C00), Err(HeaderError::ReservedSampleRate));
    assert!(HeaderError::SyncLost.is_resynchronizable());
    assert!(!HeaderError::FreeBitrate.is_resynchronizable());
}

#[test]
fn decode_is_idempotent() {
    for w in [MP3_128, MP3_160, 0xFFFF_C400, 0x1234_5678] {
        assert_eq!(decode(w), decode(w));
    }
}

#[test]
fn scan_resynchronizes_after_garbage() {
    let data = ten_frames_with_garbage();
    let r = scan(&data, 0, None);
    assert_eq!(r.frames.len(), 10);
    assert!(r.sync_losses >= 1);
    assert_eq!(r.sync_losses, 3);
    assert_eq!(r.end, ScanEnd::EndOfInput);
    assert_eq!(r.bytes_consumed, data.len());
    assert_eq!(r.vbr_info, None);
}

#[test]
fn scan_from_offset() {
    let mut data = vec![0u8, 0, 0, 0, 0];
    data.extend(frame(MP3_128, 417));
    let r = scan(&data, 5, None);
    assert_eq!(r.frames.len(), 1);
    assert_eq!(r.sync_losses, 0);
    assert_eq!(r.bytes_consumed, 417);
    let past = scan(&data, 1000, None);
    assert_eq!(past.frames.len(), 0);
    assert_eq!(past.end, ScanEnd::EndOfInput);
    assert_eq!(past.bytes_consumed, 0);
}

#[test]
fn exact_duration_of_ten_frames() {
    let data = ten_frames_with_garbage();
    let e = estimate_exact(&scan(&data, 0, None));
    // 10 * 1152 / 44100 s = 261224.48... us
    assert_eq!(e.duration_us, 261224);
    assert_eq!(e.bitrate_mode, BitrateMode::Constant);
    assert_eq!(e.strategy, Strategy::Exact);
    assert_eq!(e.average_bitrate_bps, 127706);
}

#[test]
fn differing_bitrates_are_variable() {
    let mut data = frame(MP3_128, 417);
    data.extend(frame(MP3_160, 522));
    let r = scan(&data, 0, None);
    assert_eq!(r.frames.len(), 2);
    assert_eq!(r.frames[1].frame_length_bytes, 522);
    assert_eq!(estimate_exact(&r).bitrate_mode, BitrateMode::Variable);
}

#[test]
fn truncated_frame_is_excluded() {
    let mut data = frame(MP3_128, 417);
    data.extend(frame(MP3_128, 417));
    data.extend(frame(MP3_128, 100));
    let r = scan(&data, 0, None);
    assert_eq!(r.end, ScanEnd::TruncatedFrame);
    assert_eq!(r.frames.len(), 2);
    assert_eq!(r.bytes_consumed, 834);
}

#[test]
fn empty_input() {
    let r = scan(&[], 0, None);
    assert_eq!(r.frames.len(), 0);
    assert_eq!(r.end, ScanEnd::EndOfInput);
    let e = estimate_exact(&r);
    assert_eq!(e.duration_us, 0);
    assert_eq!(e.bitrate_mode, BitrateMode::Unknown);
    assert_eq!(e.strategy, Strategy::Exact);
    let f = estimate_fast(&r, 0);
    assert_eq!(f.duration_us, 0);
    assert_eq!(f.bitrate_mode, BitrateMode::Unknown);
    assert_eq!(scan(&[], 0, Some(0)).end, ScanEnd::EndOfInput);
}

#[test]
fn free_format_headers_are_counted() {
    let mut data = frame(0xFFFB_0000, 8);
    data.extend(frame(MP3_128, 417));
    let r = scan(&data, 0, None);
    assert_eq!(r.free_format_headers, 1);
    assert_eq!(r.sync_losses, 7);
    assert_eq!(r.frames.len(), 1);
}

#[test]
fn max_frames_stops_the_scan() {
    let data = ten_frames_with_garbage();
    let r = scan(&data, 0, Some(5));
    assert_eq!(r.end, ScanEnd::MaxFramesReached);
    assert_eq!(r.frames.len(), 5);
    let e = estimate_sampled(&r, 4170);
    assert_eq!(e.strategy, Strategy::Sampled);
    assert_eq!(e.bitrate_mode, BitrateMode::Constant);
    assert_eq!(e.average_bitrate_bps, 127706);
    assert_eq!(e.duration_us, 261225);
}

#[test]
fn sampled_mixed_bitrates_are_unknown() {
    let mut data = frame(MP3_128, 417);
    data.extend(frame(MP3_160, 522));
    let e = estimate_sampled(&scan(&data, 0, Some(2)), 939);
    assert_eq!(e.bitrate_mode, BitrateMode::Unknown);
}

fn xing_frame(flags: u32, frames: u32, bytes: u32, tag: &[u8; 4]) -> Vec<u8> {
    let mut f = frame(MP3_128, 417);
    f[36..40].copy_from_slice(tag);
    f[40..44].copy_from_slice(&flags.to_be_bytes());
    f[44..48].copy_from_slice(&frames.to_be_bytes());
    f[48..52].copy_from_slice(&bytes.to_be_bytes());
    f
}

#[test]
fn vbr_header_duration() {
    let mut data = xing_frame(3, 1000, 417000, b"Xing");
    data.extend(frame(MP3_128, 417));
    let r = scan(&data, 0, None);
    let v = r.vbr_info.unwrap();
    assert_eq!(v.tag, VbrTag::Xing);
    assert_eq!(v.frame_count, 1000);
    assert_eq!(v.byte_count, 417000);
    assert_eq!(r.frames.len(), 2);
    let e = estimate_fast(&r, 0);
    assert_eq!(e.strategy, Strategy::VbrHeader);
    assert_eq!(e.duration_us, 26122448);
    assert_eq!(e.average_bitrate_bps, 127706);
    assert_eq!(e.bitrate_mode, BitrateMode::Variable);
}

#[test]
fn info_tag_is_constant() {
    let data = xing_frame(1, 1000, 0, b"Info");
    let r = scan(&data, 0, None);
    let v = r.vbr_info.unwrap();
    assert_eq!(v.tag, VbrTag::Info);
    assert_eq!(v.byte_count, 0);
    let e = estimate_fast(&r, 417000);
    assert_eq!(e.bitrate_mode, BitrateMode::Constant);
    assert_eq!(e.average_bitrate_bps, 127706);
}

#[test]
fn vbr_header_without_frame_count_falls_back_to_sampling() {
    let data = xing_frame(2, 1000, 417000, b"Xing");
    let r = scan(&data, 0, None);
    assert_eq!(r.vbr_info.unwrap().frame_count, 0);
    assert_eq!(r.vbr_info.unwrap().byte_count, 1000);
    let e = estimate_fast(&r, 417);
    assert_eq!(e.strategy, Strategy::Sampled);
}
