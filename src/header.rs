//! Decoding of the 32-bit MPEG audio frame header.
use vstd::prelude::*;
use vstd::arithmetic::div_mod::{lemma_div_is_ordered, lemma_div_is_ordered_by_denominator};
use vstd::arithmetic::mul::lemma_mul_inequality;
use crate::tables::{
    bitrate, bitrate_entry, padding_unit, padding_unit_spec, sample_rate, sample_rate_spec,
    samples_per_frame, samples_per_frame_spec, side_information_size,
    side_information_size_spec, version_group, version_group_spec, ChannelMode, Layer,
    MpegVersion,
};

verus! {

/// Why a 32-bit word is not a usable frame header.
#[derive(Clone, Copy, Debug, PartialEq, Eq, Structural)]
pub enum HeaderError {
    /// The top 11 bits are not all set.
    SyncLost,
    /// Version bits `01`.
    ReservedVersion,
    /// Layer bits `00`.
    ReservedLayer,
    /// Bitrate index 15.
    ReservedBitrate,
    /// Bitrate index 0: the frame size cannot be taken from the tables.
    FreeBitrate,
    /// Sample-rate index 3.
    ReservedSampleRate,
}

impl HeaderError {
    /// Whether a scanner should step one byte forward and look for a new header.
    pub fn is_resynchronizable(&self) -> (r: bool)
        ensures
            r == !(*self is FreeBitrate),
    {
        !matches!(self, HeaderError::FreeBitrate)
    }
}

/// A decoded and validated frame header, with the quantities derived from it.
#[derive(Clone, Copy, Debug, PartialEq, Eq, Structural)]
pub struct FrameHeader {
    pub version: MpegVersion,
    pub layer: Layer,
    /// A CRC follows the header (protection bit clear).
    pub protected: bool,
    pub bitrate_index: u8,
    pub sample_rate_index: u8,
    pub padding: bool,
    pub channel_mode: ChannelMode,
    pub bitrate_kbps: u32,
    pub sample_rate_hz: u32,
    pub samples_per_frame: u16,
    pub side_information_bytes: u32,
    pub frame_length_bytes: u32,
}

pub open spec fn sync_bits(w: u32) -> u32 {
    (w >> 21u32) & 0x7ffu32
}

pub open spec fn version_bits(w: u32) -> u32 {
    (w >> 19u32) & 3u32
}

pub open spec fn layer_bits(w: u32) -> u32 {
    (w >> 17u32) & 3u32
}

pub open spec fn protection_bit(w: u32) -> u32 {
    (w >> 16u32) & 1u32
}

pub open spec fn bitrate_bits(w: u32) -> u32 {
    (w >> 12u32) & 0xfu32
}

pub open spec fn sample_rate_bits(w: u32) -> u32 {
    (w >> 10u32) & 3u32
}

pub open spec fn padding_bit(w: u32) -> u32 {
    (w >> 9u32) & 1u32
}

pub open spec fn channel_bits(w: u32) -> u32 {
    (w >> 6u32) & 3u32
}

pub open spec fn version_of(bits: u32) -> Option<MpegVersion> {
    if bits == 3 {
        Some(MpegVersion::Mpeg1)
    } else if bits == 2 {
        Some(MpegVersion::Mpeg2)
    } else if bits == 0 {
        Some(MpegVersion::Mpeg2_5)
    } else {
        None
    }
}

pub open spec fn layer_of(bits: u32) -> Option<Layer> {
    if bits == 3 {
        Some(Layer::Layer1)
    } else if bits == 2 {
        Some(Layer::Layer2)
    } else if bits == 1 {
        Some(Layer::Layer3)
    } else {
        None
    }
}

pub open spec fn channel_mode_of(bits: u32) -> ChannelMode {
    if bits == 0 {
        ChannelMode::Stereo
    } else if bits == 1 {
        ChannelMode::JointStereo
    } else if bits == 2 {
        ChannelMode::DualChannel
    } else {
        ChannelMode::Mono
    }
}

pub open spec fn sample_rate_entry(version: MpegVersion, index: u32) -> u32 {
    match sample_rate_spec(version, index) {
        Some(hz) => hz,
        None => 0,
    }
}

/// Frame length in bytes, with flooring division. A frame carries
/// `samples * bitrate / rate` bits. Layer I counts them in 4-byte slots
/// (`samples / 32` slots per bit-per-second-over-rate) and pads by one slot;
/// layers II and III count bytes (`samples / 8`) and pad by one byte.
pub open spec fn frame_length_spec(
    layer: Layer,
    samples: u16,
    kbps: u32,
    hz: u32,
    padding: bool,
) -> int {
    let bps = kbps as int * 1000;
    match layer {
        Layer::Layer1 => ((samples as int / 32) * bps / hz as int + if padding { 1int } else { 0 }) * 4,
        _ => (samples as int / 8) * bps / hz as int + if padding {
            padding_unit_spec(layer) as int
        } else {
            0
        },
    }
}

impl FrameHeader {
    /// The header's fields agree with the frame tables.
    pub open spec fn well_formed(self) -> bool {
        let group = version_group_spec(self.version);
        &&& 1 <= self.bitrate_index <= 14
        &&& self.sample_rate_index <= 2
        &&& self.bitrate_kbps == bitrate_entry(self.layer, group, self.bitrate_index as u32)
        &&& self.sample_rate_hz == sample_rate_entry(self.version, self.sample_rate_index as u32)
        &&& self.samples_per_frame == samples_per_frame_spec(self.layer, group)
        &&& self.side_information_bytes == side_information_size_spec(
            self.version,
            self.channel_mode,
        )
        &&& self.frame_length_bytes == frame_length_spec(
            self.layer,
            self.samples_per_frame,
            self.bitrate_kbps,
            self.sample_rate_hz,
            self.padding,
        )
    }
}

/// What decoding a 32-bit word yields, field by field, in the order the checks are made.
pub open spec fn decode_spec(w: u32) -> Result<FrameHeader, HeaderError> {
    if sync_bits(w) != 0x7ff {
        Err(HeaderError::SyncLost)
    } else if version_of(version_bits(w)) is None {
        Err(HeaderError::ReservedVersion)
    } else if layer_of(layer_bits(w)) is None {
        Err(HeaderError::ReservedLayer)
    } else if bitrate_bits(w) == 15 {
        Err(HeaderError::ReservedBitrate)
    } else if bitrate_bits(w) == 0 {
        Err(HeaderError::FreeBitrate)
    } else if sample_rate_bits(w) == 3 {
        Err(HeaderError::ReservedSampleRate)
    } else {
        let version = version_of(version_bits(w))->Some_0;
        let layer = layer_of(layer_bits(w))->Some_0;
        let group = version_group_spec(version);
        let channel_mode = channel_mode_of(channel_bits(w));
        let kbps = bitrate_entry(layer, group, bitrate_bits(w));
        let hz = sample_rate_entry(version, sample_rate_bits(w));
        let samples = samples_per_frame_spec(layer, group);
        let padding = padding_bit(w) == 1;
        Ok(
            FrameHeader {
                version,
                layer,
                protected: protection_bit(w) == 0,
                bitrate_index: bitrate_bits(w) as u8,
                sample_rate_index: sample_rate_bits(w) as u8,
                padding,
                channel_mode,
                bitrate_kbps: kbps,
                sample_rate_hz: hz,
                samples_per_frame: samples,
                side_information_bytes: side_information_size_spec(version, channel_mode),
                frame_length_bytes: frame_length_spec(layer, samples, kbps, hz, padding) as u32,
            },
        )
    }
}

proof fn lemma_field_bounds(w: u32)
    ensures
        sync_bits(w) <= 0x7ff,
        version_bits(w) <= 3,
        layer_bits(w) <= 3,
        protection_bit(w) <= 1,
        bitrate_bits(w) <= 15,
        sample_rate_bits(w) <= 3,
        padding_bit(w) <= 1,
        channel_bits(w) <= 3,
{
    assert((w >> 21u32) & 0x7ffu32 <= 0x7ff) by (bit_vector);
    assert((w >> 19u32) & 3u32 <= 3) by (bit_vector);
    assert((w >> 17u32) & 3u32 <= 3) by (bit_vector);
    assert((w >> 16u32) & 1u32 <= 1) by (bit_vector);
    assert((w >> 12u32) & 0xfu32 <= 15) by (bit_vector);
    assert((w >> 10u32) & 3u32 <= 3) by (bit_vector);
    assert((w >> 9u32) & 1u32 <= 1) by (bit_vector);
    assert((w >> 6u32) & 3u32 <= 3) by (bit_vector);
}

/// `lo_c * lo_b / hi_d <= c * b / d <= hi_c * hi_b / lo_d` for values within those bounds.
proof fn lemma_quotient_range(c: int, b: int, d: int, lo_c: int, hi_c: int, lo_b: int, hi_b: int, lo_d: int, hi_d: int)
    requires
        0 <= lo_c <= c <= hi_c,
        0 <= lo_b <= b <= hi_b,
        1 <= lo_d <= d <= hi_d,
    ensures
        lo_c * lo_b / hi_d <= c * b / d <= hi_c * hi_b / lo_d,
{
    lemma_mul_inequality(c, hi_c, b);
    lemma_mul_inequality(b, hi_b, hi_c);
    lemma_mul_inequality(lo_c, c, lo_b);
    lemma_mul_inequality(lo_b, b, c);
    assert(c * b <= hi_c * hi_b) by {
        assert(c * b == b * c);
        assert(hi_c * b == b * hi_c);
        assert(hi_c * hi_b == hi_b * hi_c);
    }
    assert(lo_c * lo_b <= c * b) by {
        assert(c * lo_b == lo_b * c);
        assert(c * b == b * c);
    }
    assert(0 <= lo_c * lo_b) by (nonlinear_arith)
        requires
            0 <= lo_c,
            0 <= lo_b,
    ;
    lemma_div_is_ordered_by_denominator(c * b, lo_d, d);
    lemma_div_is_ordered(c * b, hi_c * hi_b, lo_d);
    lemma_div_is_ordered_by_denominator(lo_c * lo_b, d, hi_d);
    lemma_div_is_ordered(lo_c * lo_b, c * b, d);
}

/// Bounds of the frame length over the ranges that the tables produce.
proof fn lemma_frame_length_range(layer: Layer, samples: u16, kbps: u32, hz: u32, padding: bool)
    requires
        samples == 384 || samples == 576 || samples == 1152,
        layer is Layer1 <==> samples == 384,
        8 <= kbps <= 448,
        8000 <= hz <= 48000,
    ensures
        4 <= frame_length_spec(layer, samples, kbps, hz, padding) <= 8100,
{
    let bps = kbps as int * 1000;
    if layer is Layer1 {
        lemma_quotient_range(samples as int / 32, bps, hz as int, 12, 12, 8000, 448000, 8000, 48000);
    } else {
        lemma_quotient_range(samples as int / 8, bps, hz as int, 72, 144, 8000, 448000, 8000, 48000);
    }
}

/// A header that decodes is well formed, and its frame is at least the 4
/// header bytes long.
pub proof fn lemma_decoded_well_formed(w: u32)
    ensures
        decode_spec(w) matches Ok(h) ==> h.well_formed() && 4 <= h.frame_length_bytes <= 8100,
{
    lemma_field_bounds(w);
    if decode_spec(w) is Ok {
        let h = decode_spec(w)->Ok_0;
        let group = version_group_spec(h.version);
        assert(8 <= h.bitrate_kbps <= 448);
        assert(8000 <= h.sample_rate_hz <= 48000);
        lemma_frame_length_range(h.layer, h.samples_per_frame, h.bitrate_kbps, h.sample_rate_hz, h.padding);
    }
}

/// A well-formed header's frame is between 4 and 8100 bytes long.
pub proof fn lemma_well_formed_length(h: FrameHeader)
    requires
        h.well_formed(),
    ensures
        4 <= h.frame_length_bytes <= 8100,
        8 <= h.bitrate_kbps <= 448,
        8000 <= h.sample_rate_hz <= 48000,
        h.samples_per_frame == 384 || h.samples_per_frame == 576 || h.samples_per_frame == 1152,
{
    lemma_frame_length_range(h.layer, h.samples_per_frame, h.bitrate_kbps, h.sample_rate_hz, h.padding);
}

/// Decoding depends on the word alone: the same word decodes to the same
/// result every time.
pub proof fn lemma_decode_deterministic(a: u32, b: u32)
    requires
        a == b,
    ensures
        decode_spec(a) == decode_spec(b),
{
}

/// Parses a 32-bit header word (most significant bit first).
pub fn decode(w: u32) -> (r: Result<FrameHeader, HeaderError>)
    ensures
        r == decode_spec(w),
        r matches Ok(h) ==> h.well_formed() && 4 <= h.frame_length_bytes <= 8100,
{
    proof {
        lemma_field_bounds(w);
        lemma_decoded_well_formed(w);
    }
    if (w >> 21u32) & 0x7ffu32 != 0x7ff {
        return Err(HeaderError::SyncLost);
    }
    let vbits = (w >> 19u32) & 3u32;
    let version = if vbits == 3 {
        MpegVersion::Mpeg1
    } else if vbits == 2 {
        MpegVersion::Mpeg2
    } else if vbits == 0 {
        MpegVersion::Mpeg2_5
    } else {
        return Err(HeaderError::ReservedVersion);
    };
    let lbits = (w >> 17u32) & 3u32;
    let layer = if lbits == 3 {
        Layer::Layer1
    } else if lbits == 2 {
        Layer::Layer2
    } else if lbits == 1 {
        Layer::Layer3
    } else {
        return Err(HeaderError::ReservedLayer);
    };
    let protected = (w >> 16u32) & 1u32 == 0;
    let bitrate_index = (w >> 12u32) & 0xfu32;
    if bitrate_index == 15 {
        return Err(HeaderError::ReservedBitrate);
    }
    if bitrate_index == 0 {
        return Err(HeaderError::FreeBitrate);
    }
    let sample_rate_index = (w >> 10u32) & 3u32;
    if sample_rate_index == 3 {
        return Err(HeaderError::ReservedSampleRate);
    }
    let padding = (w >> 9u32) & 1u32 == 1;
    let cbits = (w >> 6u32) & 3u32;
    let channel_mode = if cbits == 0 {
        ChannelMode::Stereo
    } else if cbits == 1 {
        ChannelMode::JointStereo
    } else if cbits == 2 {
        ChannelMode::DualChannel
    } else {
        ChannelMode::Mono
    };
    let group = version_group(version);
    let kbps = match bitrate(layer, group, bitrate_index) {
        Some(k) => k,
        None => return Err(HeaderError::ReservedBitrate),
    };
    let hz = match sample_rate(version, sample_rate_index) {
        Some(h) => h,
        None => return Err(HeaderError::ReservedSampleRate),
    };
    let samples = samples_per_frame(layer, group);
    let frame_length_bytes = frame_length(layer, samples, kbps, hz, padding);
    Ok(
        FrameHeader {
            version,
            layer,
            protected,
            bitrate_index: bitrate_index as u8,
            sample_rate_index: sample_rate_index as u8,
            padding,
            channel_mode,
            bitrate_kbps: kbps,
            sample_rate_hz: hz,
            samples_per_frame: samples,
            side_information_bytes: side_information_size(version, channel_mode),
            frame_length_bytes,
        },
    )
}

/// Frame length in bytes from the layer, samples per frame, bitrate, sample
/// rate and padding bit.
pub fn frame_length(layer: Layer, samples: u16, kbps: u32, hz: u32, padding: bool) -> (r: u32)
    requires
        samples == 384 || samples == 576 || samples == 1152,
        layer is Layer1 <==> samples == 384,
        8 <= kbps <= 448,
        8000 <= hz <= 48000,
    ensures
        r == frame_length_spec(layer, samples, kbps, hz, padding),
        4 <= r <= 8100,
{
    proof {
        lemma_frame_length_range(layer, samples, kbps, hz, padding);
    }
    let bps = kbps * 1000;
    match layer {
        Layer::Layer1 => {
            let c = (samples / 32) as u32;
            assert(c * bps <= 12 * 448000) by (nonlinear_arith)
                requires
                    c == 12,
                    bps <= 448000,
            ;
            let slots = c * bps / hz;
            let pad: u32 = if padding { 1 } else { 0 };
            (slots + pad) * 4
        },
        _ => {
            let c = (samples / 8) as u32;
            assert(c * bps <= 144 * 448000) by (nonlinear_arith)
                requires
                    c <= 144,
                    bps <= 448000,
            ;
            let bytes = c * bps / hz;
            let pad: u32 = if padding { padding_unit(layer) as u32 } else { 0 };
            bytes + pad
        },
    }
}

} // verus!
