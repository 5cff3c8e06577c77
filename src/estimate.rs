//! Track duration and bitrate classification from scanned frames.
use vstd::prelude::*;
use vstd::arithmetic::div_mod::lemma_div_is_ordered_by_denominator;
use crate::header::{sample_rate_entry, FrameHeader};
use crate::scan::{frame_bytes, lemma_scan_empty, scan_spec, ScanResult, VbrInfo, VbrTag};

verus! {

/// Whether the bitrate stays the same from frame to frame.
#[derive(Clone, Copy, Debug, PartialEq, Eq, Structural)]
pub enum BitrateMode {
    Constant,
    Variable,
    Unknown,
}

/// How a duration was obtained.
#[derive(Clone, Copy, Debug, PartialEq, Eq, Structural)]
pub enum Strategy {
    /// Sum over every frame of a full scan.
    Exact,
    /// Extrapolated from the average bitrate of a bounded sample.
    Sampled,
    /// Taken from the frame count of a VBR information frame.
    VbrHeader,
}

/// Duration and bitrate of a track.
#[derive(Clone, Copy, Debug, PartialEq, Eq, Structural)]
pub struct DurationEstimate {
    /// Duration in microseconds, rounded down.
    pub duration_us: u128,
    /// Average bitrate in bits per second, rounded down; 0 without frames.
    pub average_bitrate_bps: u128,
    pub bitrate_mode: BitrateMode,
    pub strategy: Strategy,
}

/// Time units per second in which every frame lasts a whole number of units:
/// the least common multiple of all the sample rates.
pub const TICKS_PER_SECOND: u128 = 14_112_000;

pub const MICROS_PER_SECOND: u128 = 1_000_000;

/// Duration of one frame in ticks.
pub open spec fn frame_ticks(h: FrameHeader) -> int {
    h.samples_per_frame as int * (TICKS_PER_SECOND as int / h.sample_rate_hz as int)
}

pub open spec fn total_ticks(frames: Seq<FrameHeader>) -> int
    decreases frames.len(),
{
    if frames.len() == 0 {
        0
    } else {
        total_ticks(frames.drop_last()) + frame_ticks(frames.last())
    }
}

/// Every frame has the bitrate of the first.
pub open spec fn uniform_bitrate(frames: Seq<FrameHeader>) -> bool {
    forall|i: int| 0 <= i < frames.len() ==> #[trigger] frames[i].bitrate_kbps == frames[0].bitrate_kbps
}

/// The estimate for a stream without frames.
pub open spec fn empty_estimate() -> DurationEstimate {
    DurationEstimate {
        duration_us: 0,
        average_bitrate_bps: 0,
        bitrate_mode: BitrateMode::Unknown,
        strategy: Strategy::Exact,
    }
}

pub open spec fn micros_of_ticks(ticks: int) -> int {
    ticks * MICROS_PER_SECOND / TICKS_PER_SECOND as int
}

/// Bits per second of `bytes` played over `ticks`.
pub open spec fn bitrate_of(bytes: int, ticks: int) -> int {
    if ticks == 0 {
        0
    } else {
        bytes * 8 * TICKS_PER_SECOND / ticks
    }
}

/// Exact strategy: the durations of all frames added up; constant when every
/// frame has the first frame's bitrate, variable otherwise.
pub open spec fn exact_spec(frames: Seq<FrameHeader>) -> DurationEstimate {
    if frames.len() == 0 {
        empty_estimate()
    } else {
        DurationEstimate {
            duration_us: micros_of_ticks(total_ticks(frames)) as u128,
            average_bitrate_bps: bitrate_of(frame_bytes(frames), total_ticks(frames)) as u128,
            bitrate_mode: if uniform_bitrate(frames) {
                BitrateMode::Constant
            } else {
                BitrateMode::Variable
            },
            strategy: Strategy::Exact,
        }
    }
}

/// Sampled strategy: the audio length divided by the sample's average bitrate;
/// constant when the sample is uniform, unknown otherwise.
pub open spec fn sampled_spec(frames: Seq<FrameHeader>, audio_bytes: u64) -> DurationEstimate {
    if frames.len() == 0 {
        empty_estimate()
    } else {
        let bps = bitrate_of(frame_bytes(frames), total_ticks(frames));
        DurationEstimate {
            duration_us: if bps == 0 {
                0
            } else {
                (audio_bytes as int * 8 * MICROS_PER_SECOND / bps) as u128
            },
            average_bitrate_bps: bps as u128,
            bitrate_mode: if uniform_bitrate(frames) {
                BitrateMode::Constant
            } else {
                BitrateMode::Unknown
            },
            strategy: Strategy::Sampled,
        }
    }
}

/// VBR-header strategy: the declared frame count times the first frame's
/// duration. The declared byte count gives the bitrate, or the audio length
/// where none is declared. An "Info" tag marks a constant bitrate, a "Xing"
/// tag a variable one. Without a usable frame count, the sampled strategy.
pub open spec fn fast_spec(
    frames: Seq<FrameHeader>,
    vbr: Option<VbrInfo>,
    audio_bytes: u64,
) -> DurationEstimate {
    if frames.len() > 0 && vbr is Some && vbr->Some_0.frame_count > 0 {
        let v = vbr->Some_0;
        let ticks = v.frame_count as int * frame_ticks(frames[0]);
        let bytes = if v.byte_count > 0 { v.byte_count as int } else { audio_bytes as int };
        DurationEstimate {
            duration_us: micros_of_ticks(ticks) as u128,
            average_bitrate_bps: bitrate_of(bytes, ticks) as u128,
            bitrate_mode: if v.tag is Info {
                BitrateMode::Constant
            } else {
                BitrateMode::Variable
            },
            strategy: Strategy::VbrHeader,
        }
    } else {
        sampled_spec(frames, audio_bytes)
    }
}

/// Frames whose first two bitrates differ make the exact estimate variable.
pub proof fn lemma_differing_bitrates_variable(frames: Seq<FrameHeader>)
    requires
        frames.len() >= 2,
        frames[0].bitrate_kbps != frames[1].bitrate_kbps,
    ensures
        exact_spec(frames).bitrate_mode is Variable,
{
    assert(!uniform_bitrate(frames)) by {
        assert(frames[1].bitrate_kbps != frames[0].bitrate_kbps);
    }
}

/// An empty input scans to no frames and `EndOfInput`, and every strategy then
/// gives a zero duration with an unknown bitrate mode.
pub proof fn lemma_empty_input(start: int, max: Option<usize>, audio_bytes: u64)
    ensures
        ({
            let s = scan_spec(Seq::empty(), start, max);
            &&& s.frames.len() == 0
            &&& s.end is EndOfInput
            &&& exact_spec(s.frames) == empty_estimate()
            &&& fast_spec(s.frames, s.vbr_info, audio_bytes) == empty_estimate()
            &&& empty_estimate().duration_us == 0
            &&& empty_estimate().bitrate_mode is Unknown
        }),
{
    lemma_scan_empty(start, max);
}

/// Ticks and bytes of a well-formed frame.
proof fn lemma_frame_measures(h: FrameHeader)
    requires
        h.well_formed(),
        4 <= h.frame_length_bytes <= 8100,
    ensures
        294 <= frame_ticks(h) <= 2_032_128,
        8000 <= h.sample_rate_hz <= 48000,
{
    assert(h.samples_per_frame == 384 || h.samples_per_frame == 576 || h.samples_per_frame == 1152);
    let d = TICKS_PER_SECOND as int / h.sample_rate_hz as int;
    lemma_div_is_ordered_by_denominator(TICKS_PER_SECOND as int, 8000, h.sample_rate_hz as int);
    lemma_div_is_ordered_by_denominator(TICKS_PER_SECOND as int, h.sample_rate_hz as int, 48000);
    assert(TICKS_PER_SECOND as int / 8000 == 1764);
    assert(TICKS_PER_SECOND as int / 48000 == 294);
    assert(294 <= h.samples_per_frame as int * d <= 2_032_128) by (nonlinear_arith)
        requires
            294 <= d <= 1764,
            1 <= h.samples_per_frame <= 1152,
    ;
}

/// Frame ticks, bytes and bitrate agreement over a prefix.
proof fn lemma_prefix_step(frames: Seq<FrameHeader>, i: int)
    requires
        0 <= i < frames.len(),
    ensures
        total_ticks(frames.subrange(0, i + 1)) == total_ticks(frames.subrange(0, i)) + frame_ticks(frames[i]),
        frame_bytes(frames.subrange(0, i + 1)) == frame_bytes(frames.subrange(0, i)) + frames[i].frame_length_bytes,
{
    assert(frames.subrange(0, i + 1).drop_last() =~= frames.subrange(0, i));
}

/// Ticks, bytes and bitrate agreement of `frames`, summed in one pass.
fn measure(frames: &Vec<FrameHeader>) -> (r: (u128, u128, bool))
    requires
        forall|i: int| 0 <= i < frames@.len() ==> #[trigger] frames@[i].well_formed(),
    ensures
        r.0 == total_ticks(frames@),
        r.1 == frame_bytes(frames@),
        r.2 == uniform_bitrate(frames@),
        r.0 <= frames@.len() * 2_032_128,
        r.1 <= frames@.len() * 8100,
        frames@.len() > 0 ==> r.0 > 0,
{
    let n = frames.len();
    let mut ticks: u128 = 0;
    let mut bytes: u128 = 0;
    let mut uniform = true;
    let mut i: usize = 0;
    while i < n
        invariant
            n == frames@.len(),
            i <= n,
            forall|j: int| 0 <= j < frames@.len() ==> #[trigger] frames@[j].well_formed(),
            ticks == total_ticks(frames@.subrange(0, i as int)),
            bytes == frame_bytes(frames@.subrange(0, i as int)),
            ticks <= i * 2_032_128,
            bytes <= i * 8100,
            i > 0 ==> ticks > 0,
            uniform == (forall|j: int| 0 <= j < i ==> #[trigger] frames@[j].bitrate_kbps == frames@[0].bitrate_kbps),
        decreases n - i,
    {
        let h = frames[i];
        proof {
            assert(frames@[i as int].well_formed());
            crate::header::lemma_well_formed_length(h);
            lemma_frame_measures(h);
            lemma_prefix_step(frames@, i as int);
        }
        let t = (h.samples_per_frame as u128) * (TICKS_PER_SECOND / (h.sample_rate_hz as u128));
        ticks = ticks + t;
        bytes = bytes + h.frame_length_bytes as u128;
        if h.bitrate_kbps != frames[0].bitrate_kbps {
            uniform = false;
        }
        i = i + 1;
    }
    assert(frames@.subrange(0, n as int) =~= frames@);
    (ticks, bytes, uniform)
}

fn micros(ticks: u128) -> (r: u128)
    requires
        ticks <= 0x1_0000_0000_0000_0000 * 2_032_128,
    ensures
        r == micros_of_ticks(ticks as int),
{
    ticks * MICROS_PER_SECOND / TICKS_PER_SECOND
}

fn bits_per_second(bytes: u128, ticks: u128) -> (r: u128)
    requires
        bytes <= 0x1_0000_0000_0000_0000 * 8100,
    ensures
        r == bitrate_of(bytes as int, ticks as int),
{
    if ticks == 0 {
        0
    } else {
        bytes * 8 * TICKS_PER_SECOND / ticks
    }
}

/// Exact strategy over every frame of `scan`; exact when the scan ran to
/// the end of the input.
pub fn estimate_exact(scan: &ScanResult) -> (r: DurationEstimate)
    requires
        scan.well_formed(),
    ensures
        r == exact_spec(scan.frames@),
{
    let n = scan.frames.len();
    if n == 0 {
        return DurationEstimate {
            duration_us: 0,
            average_bitrate_bps: 0,
            bitrate_mode: BitrateMode::Unknown,
            strategy: Strategy::Exact,
        };
    }
    let (ticks, bytes, uniform) = measure(&scan.frames);
    DurationEstimate {
        duration_us: micros(ticks),
        average_bitrate_bps: bits_per_second(bytes, ticks),
        bitrate_mode: if uniform {
            BitrateMode::Constant
        } else {
            BitrateMode::Variable
        },
        strategy: Strategy::Exact,
    }
}

/// Sampled strategy: extrapolates the duration of `audio_bytes` bytes of
/// audio from the frames of a bounded scan.
pub fn estimate_sampled(scan: &ScanResult, audio_bytes: u64) -> (r: DurationEstimate)
    requires
        scan.well_formed(),
    ensures
        r == sampled_spec(scan.frames@, audio_bytes),
{
    let n = scan.frames.len();
    if n == 0 {
        return DurationEstimate {
            duration_us: 0,
            average_bitrate_bps: 0,
            bitrate_mode: BitrateMode::Unknown,
            strategy: Strategy::Exact,
        };
    }
    let (ticks, bytes, uniform) = measure(&scan.frames);
    let bps = bits_per_second(bytes, ticks);
    let duration_us = if bps == 0 {
        0
    } else {
        (audio_bytes as u128) * 8 * MICROS_PER_SECOND / bps
    };
    DurationEstimate {
        duration_us,
        average_bitrate_bps: bps,
        bitrate_mode: if uniform {
            BitrateMode::Constant
        } else {
            BitrateMode::Unknown
        },
        strategy: Strategy::Sampled,
    }
}

/// Fast estimate: from the VBR information frame when it declares a frame
/// count, otherwise by sampling.
pub fn estimate_fast(scan: &ScanResult, audio_bytes: u64) -> (r: DurationEstimate)
    requires
        scan.well_formed(),
    ensures
        r == fast_spec(scan.frames@, scan.vbr_info, audio_bytes),
{
    if scan.frames.len() > 0 {
        if let Some(v) = scan.vbr_info {
            if v.frame_count > 0 {
                let h = scan.frames[0];
                proof {
                    assert(scan.frames@[0].well_formed());
                    crate::header::lemma_well_formed_length(h);
                    lemma_frame_measures(h);
                }
                let t = (h.samples_per_frame as u128) * (TICKS_PER_SECOND / (h.sample_rate_hz as u128));
                assert(v.frame_count as u128 * t <= 0x1_0000_0000 * 2_032_128) by (nonlinear_arith)
                    requires
                        t <= 2_032_128,
                        v.frame_count < 0x1_0000_0000,
                ;
                let ticks = (v.frame_count as u128) * t;
                let bytes: u128 = if v.byte_count > 0 {
                    v.byte_count as u128
                } else {
                    audio_bytes as u128
                };
                return DurationEstimate {
                    duration_us: micros(ticks),
                    average_bitrate_bps: bits_per_second(bytes, ticks),
                    bitrate_mode: match v.tag {
                        VbrTag::Info => BitrateMode::Constant,
                        VbrTag::Xing => BitrateMode::Variable,
                    },
                    strategy: Strategy::VbrHeader,
                };
            }
        }
    }
    estimate_sampled(scan, audio_bytes)
}

} // verus!
