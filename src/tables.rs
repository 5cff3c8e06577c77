//! Constant lookup tables of the MPEG audio frame header.
use vstd::prelude::*;

verus! {

/// MPEG revision of a frame.
#[derive(Clone, Copy, Debug, PartialEq, Eq, Structural)]
pub enum MpegVersion {
    Mpeg1,
    Mpeg2,
    Mpeg2_5,
}

/// Compression layer of a frame.
#[derive(Clone, Copy, Debug, PartialEq, Eq, Structural)]
pub enum Layer {
    Layer1,
    Layer2,
    Layer3,
}

/// Bitrate-table axis: MPEG 2 and MPEG 2.5 share their bitrate values.
#[derive(Clone, Copy, Debug, PartialEq, Eq, Structural)]
pub enum VersionGroup {
    Mpeg1,
    Mpeg2And2_5,
}

/// Channel layout of a frame.
#[derive(Clone, Copy, Debug, PartialEq, Eq, Structural)]
pub enum ChannelMode {
    Stereo,
    JointStereo,
    DualChannel,
    Mono,
}

pub open spec fn version_group_spec(version: MpegVersion) -> VersionGroup {
    match version {
        MpegVersion::Mpeg1 => VersionGroup::Mpeg1,
        _ => VersionGroup::Mpeg2And2_5,
    }
}

/// Collapses MPEG 2 and MPEG 2.5 into one bitrate-table axis.
pub fn version_group(version: MpegVersion) -> (r: VersionGroup)
    ensures
        r == version_group_spec(version),
{
    match version {
        MpegVersion::Mpeg1 => VersionGroup::Mpeg1,
        _ => VersionGroup::Mpeg2And2_5,
    }
}

/// The bitrate table's entry in kbps; 0 stands for the free (0) and
/// reserved (15) indices and for indices past the table.
pub open spec fn bitrate_entry(layer: Layer, group: VersionGroup, index: u32) -> u32 {
    match (group, layer) {
        (VersionGroup::Mpeg1, Layer::Layer1) => match index {
            1 => 32u32, 2 => 64, 3 => 96, 4 => 128, 5 => 160, 6 => 192, 7 => 224,
            8 => 256, 9 => 288, 10 => 320, 11 => 352, 12 => 384, 13 => 416, 14 => 448,
            _ => 0,
        },
        (VersionGroup::Mpeg1, Layer::Layer2) => match index {
            1 => 32u32, 2 => 48, 3 => 56, 4 => 64, 5 => 80, 6 => 96, 7 => 112,
            8 => 128, 9 => 160, 10 => 192, 11 => 224, 12 => 256, 13 => 320, 14 => 384,
            _ => 0,
        },
        (VersionGroup::Mpeg1, Layer::Layer3) => match index {
            1 => 32u32, 2 => 40, 3 => 48, 4 => 56, 5 => 64, 6 => 80, 7 => 96,
            8 => 112, 9 => 128, 10 => 160, 11 => 192, 12 => 224, 13 => 256, 14 => 320,
            _ => 0,
        },
        (VersionGroup::Mpeg2And2_5, Layer::Layer1) => match index {
            1 => 32u32, 2 => 48, 3 => 56, 4 => 64, 5 => 80, 6 => 96, 7 => 112,
            8 => 128, 9 => 144, 10 => 160, 11 => 176, 12 => 192, 13 => 224, 14 => 256,
            _ => 0,
        },
        (VersionGroup::Mpeg2And2_5, _) => match index {
            1 => 8u32, 2 => 16, 3 => 24, 4 => 32, 5 => 40, 6 => 48, 7 => 56,
            8 => 64, 9 => 80, 10 => 96, 11 => 112, 12 => 128, 13 => 144, 14 => 160,
            _ => 0,
        },
    }
}

/// Bitrate in kbps of a table index; absent for the free index 0, the
/// reserved index 15 and anything past the table.
pub open spec fn bitrate_spec(layer: Layer, group: VersionGroup, index: u32) -> Option<u32> {
    if 1 <= index <= 14 {
        Some(bitrate_entry(layer, group, index))
    } else {
        None
    }
}

pub fn bitrate(layer: Layer, group: VersionGroup, index: u32) -> (r: Option<u32>)
    ensures
        r == bitrate_spec(layer, group, index),
{
    if index < 1 || index > 14 {
        return None;
    }
    let kbps: u32 = match (group, layer) {
        (VersionGroup::Mpeg1, Layer::Layer1) => match index {
            1 => 32u32, 2 => 64, 3 => 96, 4 => 128, 5 => 160, 6 => 192, 7 => 224,
            8 => 256, 9 => 288, 10 => 320, 11 => 352, 12 => 384, 13 => 416, 14 => 448,
            _ => 0,
        },
        (VersionGroup::Mpeg1, Layer::Layer2) => match index {
            1 => 32u32, 2 => 48, 3 => 56, 4 => 64, 5 => 80, 6 => 96, 7 => 112,
            8 => 128, 9 => 160, 10 => 192, 11 => 224, 12 => 256, 13 => 320, 14 => 384,
            _ => 0,
        },
        (VersionGroup::Mpeg1, Layer::Layer3) => match index {
            1 => 32u32, 2 => 40, 3 => 48, 4 => 56, 5 => 64, 6 => 80, 7 => 96,
            8 => 112, 9 => 128, 10 => 160, 11 => 192, 12 => 224, 13 => 256, 14 => 320,
            _ => 0,
        },
        (VersionGroup::Mpeg2And2_5, Layer::Layer1) => match index {
            1 => 32u32, 2 => 48, 3 => 56, 4 => 64, 5 => 80, 6 => 96, 7 => 112,
            8 => 128, 9 => 144, 10 => 160, 11 => 176, 12 => 192, 13 => 224, 14 => 256,
            _ => 0,
        },
        (VersionGroup::Mpeg2And2_5, _) => match index {
            1 => 8u32, 2 => 16, 3 => 24, 4 => 32, 5 => 40, 6 => 48, 7 => 56,
            8 => 64, 9 => 80, 10 => 96, 11 => 112, 12 => 128, 13 => 144, 14 => 160,
            _ => 0,
        },
    };
    Some(kbps)
}

/// Sample rate in Hz; absent for the reserved index 3 and beyond.
pub open spec fn sample_rate_spec(version: MpegVersion, index: u32) -> Option<u32> {
    match (version, index) {
        (MpegVersion::Mpeg1, 0) => Some(44100u32),
        (MpegVersion::Mpeg1, 1) => Some(48000u32),
        (MpegVersion::Mpeg1, 2) => Some(32000u32),
        (MpegVersion::Mpeg2, 0) => Some(22050u32),
        (MpegVersion::Mpeg2, 1) => Some(24000u32),
        (MpegVersion::Mpeg2, 2) => Some(16000u32),
        (MpegVersion::Mpeg2_5, 0) => Some(11025u32),
        (MpegVersion::Mpeg2_5, 1) => Some(12000u32),
        (MpegVersion::Mpeg2_5, 2) => Some(8000u32),
        _ => None,
    }
}

pub fn sample_rate(version: MpegVersion, index: u32) -> (r: Option<u32>)
    ensures
        r == sample_rate_spec(version, index),
{
    match (version, index) {
        (MpegVersion::Mpeg1, 0) => Some(44100u32),
        (MpegVersion::Mpeg1, 1) => Some(48000u32),
        (MpegVersion::Mpeg1, 2) => Some(32000u32),
        (MpegVersion::Mpeg2, 0) => Some(22050u32),
        (MpegVersion::Mpeg2, 1) => Some(24000u32),
        (MpegVersion::Mpeg2, 2) => Some(16000u32),
        (MpegVersion::Mpeg2_5, 0) => Some(11025u32),
        (MpegVersion::Mpeg2_5, 1) => Some(12000u32),
        (MpegVersion::Mpeg2_5, 2) => Some(8000u32),
        _ => None,
    }
}

/// Number of audio samples that one frame carries.
pub open spec fn samples_per_frame_spec(layer: Layer, group: VersionGroup) -> u16 {
    match (layer, group) {
        (Layer::Layer1, _) => 384u16,
        (Layer::Layer2, _) => 1152u16,
        (Layer::Layer3, VersionGroup::Mpeg1) => 1152u16,
        (Layer::Layer3, VersionGroup::Mpeg2And2_5) => 576u16,
    }
}

pub fn samples_per_frame(layer: Layer, group: VersionGroup) -> (r: u16)
    ensures
        r == samples_per_frame_spec(layer, group),
{
    match (layer, group) {
        (Layer::Layer1, _) => 384u16,
        (Layer::Layer2, _) => 1152u16,
        (Layer::Layer3, VersionGroup::Mpeg1) => 1152u16,
        (Layer::Layer3, VersionGroup::Mpeg2And2_5) => 576u16,
    }
}

/// Size in bytes of the side information that follows the header.
pub open spec fn side_information_size_spec(version: MpegVersion, mode: ChannelMode) -> u32 {
    match (version, mode) {
        (MpegVersion::Mpeg1, ChannelMode::Mono) => 17u32,
        (MpegVersion::Mpeg1, _) => 32u32,
        (_, ChannelMode::Mono) => 9u32,
        (_, _) => 17u32,
    }
}

pub fn side_information_size(version: MpegVersion, mode: ChannelMode) -> (r: u32)
    ensures
        r == side_information_size_spec(version, mode),
{
    match (version, mode) {
        (MpegVersion::Mpeg1, ChannelMode::Mono) => 17u32,
        (MpegVersion::Mpeg1, _) => 32u32,
        (_, ChannelMode::Mono) => 9u32,
        (_, _) => 17u32,
    }
}

/// Bytes that a set padding bit adds to a frame.
pub open spec fn padding_unit_spec(layer: Layer) -> u8 {
    match layer {
        Layer::Layer1 => 4u8,
        _ => 1u8,
    }
}

pub fn padding_unit(layer: Layer) -> (r: u8)
    ensures
        r == padding_unit_spec(layer),
{
    match layer {
        Layer::Layer1 => 4u8,
        _ => 1u8,
    }
}

/// Every table index 1 to 14 has a positive bitrate; 0 and 15 have none.
pub proof fn lemma_bitrate_defined(layer: Layer, group: VersionGroup, index: u32)
    ensures
        1 <= index <= 14 ==> (bitrate_spec(layer, group, index) matches Some(k) && k > 0),
        (index == 0 || index == 15) ==> bitrate_spec(layer, group, index) is None,
{
}

/// Sample-rate indices 0 to 2 give a positive rate; index 3 gives none.
pub proof fn lemma_sample_rate_defined(version: MpegVersion, index: u32)
    ensures
        index <= 2 ==> (sample_rate_spec(version, index) matches Some(hz) && hz > 0),
        index == 3 ==> sample_rate_spec(version, index) is None,
{
}

} // verus!
