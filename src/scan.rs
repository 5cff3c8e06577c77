//! Frame-by-frame scanning of an MPEG audio byte stream, with resynchronisation.
use vstd::prelude::*;
use crate::header::{decode, decode_spec, lemma_decoded_well_formed, FrameHeader, HeaderError};

verus! {

/// Why a scan stopped.
#[derive(Clone, Copy, Debug, PartialEq, Eq, Structural)]
pub enum ScanEnd {
    /// Fewer than 4 bytes were left.
    EndOfInput,
    /// A decoded frame would run past the end of the input; it is not counted.
    TruncatedFrame,
    /// The requested number of frames was accepted.
    MaxFramesReached,
}

/// Signature of a VBR information frame.
#[derive(Clone, Copy, Debug, PartialEq, Eq, Structural)]
pub enum VbrTag {
    Xing,
    Info,
}

/// Counts declared by a VBR information frame; 0 where a count is absent.
#[derive(Clone, Copy, Debug, PartialEq, Eq, Structural)]
pub struct VbrInfo {
    pub tag: VbrTag,
    pub frame_count: u32,
    pub byte_count: u32,
}

/// Outcome of a scan.
#[derive(Debug)]
pub struct ScanResult {
    /// Accepted frames, in stream order.
    pub frames: Vec<FrameHeader>,
    /// Bytes from the start offset to where the scan stopped.
    pub bytes_consumed: usize,
    /// Positions skipped one byte at a time because no valid header stood there.
    pub sync_losses: usize,
    /// Free-format headers seen (skipped one byte at a time, like a sync loss).
    pub free_format_headers: usize,
    pub end: ScanEnd,
    /// The VBR information found in the first accepted frame, if any.
    pub vbr_info: Option<VbrInfo>,
}

/// The state of a scan at some position, as a mathematical value.
pub struct ScanState {
    pub pos: int,
    pub frames: Seq<FrameHeader>,
    pub sync_losses: nat,
    pub free_format_headers: nat,
    pub end: ScanEnd,
    pub vbr_info: Option<VbrInfo>,
}

pub open spec fn initial_state(start: int) -> ScanState {
    ScanState {
        pos: start,
        frames: Seq::empty(),
        sync_losses: 0,
        free_format_headers: 0,
        end: ScanEnd::EndOfInput,
        vbr_info: None,
    }
}

/// Big-endian 32-bit word at `pos`.
pub open spec fn word_at(data: Seq<u8>, pos: int) -> u32 {
    (data[pos] as int * 0x1000000 + data[pos + 1] as int * 0x10000 + data[pos + 2] as int * 0x100
        + data[pos + 3] as int) as u32
}

/// "Xing" in ASCII, big-endian.
pub const XING_TAG: u32 = 0x58696e67;

/// "Info" in ASCII, big-endian.
pub const INFO_TAG: u32 = 0x496e666f;

/// The VBR information of the frame that starts at `pos`: the tag sits right
/// after the header and side information, followed by a flags word, then the
/// frame count (flag bit 0) and the byte count (flag bit 1), each present
/// only where its flag is set and it fits in the frame.
pub open spec fn vbr_info_spec(data: Seq<u8>, pos: int, h: FrameHeader) -> Option<VbrInfo> {
    let o = pos + 4 + h.side_information_bytes;
    let end = pos + h.frame_length_bytes;
    if o + 8 > end {
        None
    } else if word_at(data, o) != XING_TAG && word_at(data, o) != INFO_TAG {
        None
    } else {
        let flags = word_at(data, o + 4);
        let has_frames = flags & 1u32 != 0;
        let has_bytes = flags & 2u32 != 0;
        let frames_at = o + 8;
        let bytes_at = if has_frames { o + 12 } else { o + 8 };
        Some(
            VbrInfo {
                tag: if word_at(data, o) == XING_TAG { VbrTag::Xing } else { VbrTag::Info },
                frame_count: if has_frames && frames_at + 4 <= end {
                    word_at(data, frames_at)
                } else {
                    0
                },
                byte_count: if has_bytes && bytes_at + 4 <= end {
                    word_at(data, bytes_at)
                } else {
                    0
                },
            },
        )
    }
}

/// The state after accepting frame `h` at position `s.pos`.
pub open spec fn accept(data: Seq<u8>, s: ScanState, h: FrameHeader) -> ScanState {
    ScanState {
        pos: s.pos + h.frame_length_bytes,
        frames: s.frames.push(h),
        vbr_info: if s.frames.len() == 0 { vbr_info_spec(data, s.pos, h) } else { s.vbr_info },
        ..s
    }
}

/// Skip one byte after a header that could not be used.
pub open spec fn skip(s: ScanState, e: HeaderError) -> ScanState {
    if e is FreeBitrate {
        ScanState { pos: s.pos + 1, free_format_headers: s.free_format_headers + 1, ..s }
    } else {
        ScanState { pos: s.pos + 1, sync_losses: s.sync_losses + 1, ..s }
    }
}

/// Scans `data` from state `s` to the end: stop with fewer than 4 bytes left
/// or once `max` frames are accepted; otherwise decode the word at the
/// position and accept the frame when it fits, stop when it does not, and step
/// one byte on a header error.
#[verifier::opaque]
pub open spec fn scan_from(data: Seq<u8>, max: Option<usize>, s: ScanState) -> ScanState
    decreases data.len() - s.pos,
    via scan_from_decreases
{
    if s.pos < 0 || s.pos + 4 > data.len() {
        ScanState { end: ScanEnd::EndOfInput, ..s }
    } else if max matches Some(m) && s.frames.len() >= m {
        ScanState { end: ScanEnd::MaxFramesReached, ..s }
    } else {
        match decode_spec(word_at(data, s.pos)) {
            Ok(h) => if s.pos + h.frame_length_bytes > data.len() {
                ScanState { end: ScanEnd::TruncatedFrame, ..s }
            } else {
                scan_from(data, max, accept(data, s, h))
            },
            Err(e) => scan_from(data, max, skip(s, e)),
        }
    }
}

#[via_fn]
proof fn scan_from_decreases(data: Seq<u8>, max: Option<usize>, s: ScanState) {
    lemma_decoded_well_formed(word_at(data, s.pos));
}

/// The scan of `data` from `start`.
pub open spec fn scan_spec(data: Seq<u8>, start: int, max: Option<usize>) -> ScanState {
    scan_from(data, max, initial_state(start))
}

impl ScanResult {
    /// The result describes the scan of `data` from `start` with bound `max`.
    pub open spec fn describes(&self, data: Seq<u8>, start: int, max: Option<usize>) -> bool {
        let s = scan_spec(data, start, max);
        &&& self.frames@ == s.frames
        &&& self.bytes_consumed == s.pos - start
        &&& self.sync_losses == s.sync_losses
        &&& self.free_format_headers == s.free_format_headers
        &&& self.end == s.end
        &&& self.vbr_info == s.vbr_info
    }

    /// Every accepted frame is well formed.
    pub open spec fn well_formed(&self) -> bool {
        forall|i: int| 0 <= i < self.frames@.len() ==> #[trigger] self.frames@[i].well_formed()
    }
}

/// Every frame that a scan accepts is well formed, and the scan ends at or
/// past its start.
pub proof fn lemma_scan_from_well_formed(data: Seq<u8>, max: Option<usize>, s: ScanState)
    requires
        forall|i: int| 0 <= i < s.frames.len() ==> #[trigger] s.frames[i].well_formed(),
    ensures
        forall|i: int|
            0 <= i < scan_from(data, max, s).frames.len() ==> #[trigger] scan_from(
                data,
                max,
                s,
            ).frames[i].well_formed(),
        scan_from(data, max, s).pos >= s.pos,
    decreases data.len() - s.pos,
{
    reveal(scan_from);
    if s.pos < 0 || s.pos + 4 > data.len() {
    } else if max matches Some(m) && s.frames.len() >= m {
    } else {
        lemma_decoded_well_formed(word_at(data, s.pos));
        match decode_spec(word_at(data, s.pos)) {
            Ok(h) => if s.pos + h.frame_length_bytes > data.len() {
            } else {
                let n = accept(data, s, h);
                assert(forall|i: int| 0 <= i < n.frames.len() ==> #[trigger] n.frames[i].well_formed()) by {
                    assert forall|i: int| 0 <= i < n.frames.len() implies #[trigger] n.frames[i].well_formed() by {
                        if i < s.frames.len() {
                            assert(n.frames[i] == s.frames[i]);
                        }
                    }
                }
                lemma_scan_from_well_formed(data, max, n);
            },
            Err(e) => lemma_scan_from_well_formed(data, max, skip(s, e)),
        }
    }
}

/// Sum of the frame lengths of `frames`.
pub open spec fn frame_bytes(frames: Seq<FrameHeader>) -> int
    decreases frames.len(),
{
    if frames.len() == 0 {
        0
    } else {
        frame_bytes(frames.drop_last()) + frames.last().frame_length_bytes
    }
}

/// Bytes that a scan state accounts for: whole frames and skipped bytes.
pub open spec fn accounted(s: ScanState) -> int {
    frame_bytes(s.frames) + s.sync_losses + s.free_format_headers
}

proof fn lemma_scan_from_truncation(data: Seq<u8>, max: Option<usize>, s: ScanState)
    ensures
        ({
            let r = scan_from(data, max, s);
            &&& accounted(r) - accounted(s) == r.pos - s.pos
            &&& s.frames.is_prefix_of(r.frames)
            &&& r.end is TruncatedFrame ==> {
                &&& 0 <= r.pos
                &&& r.pos + 4 <= data.len()
                &&& decode_spec(word_at(data, r.pos)) matches Ok(h)
                &&& r.pos + h.frame_length_bytes > data.len()
            }
        }),
    decreases data.len() - s.pos,
{
    reveal(scan_from);
    if s.pos < 0 || s.pos + 4 > data.len() {
    } else if max matches Some(m) && s.frames.len() >= m {
    } else {
        lemma_decoded_well_formed(word_at(data, s.pos));
        match decode_spec(word_at(data, s.pos)) {
            Ok(h) => if s.pos + h.frame_length_bytes > data.len() {
            } else {
                let n = accept(data, s, h);
                assert(n.frames.drop_last() =~= s.frames);
                lemma_scan_from_truncation(data, max, n);
            },
            Err(e) => lemma_scan_from_truncation(data, max, skip(s, e)),
        }
    }
}

/// A scan that ends on a truncated frame stops where a valid header declares
/// a frame longer than the bytes that remain, and that frame is not among the
/// accepted ones: every byte consumed lies in an accepted frame or was
/// skipped, so the consumed count stops before the partial frame.
pub proof fn lemma_truncation(data: Seq<u8>, start: int, max: Option<usize>)
    ensures
        ({
            let r = scan_spec(data, start, max);
            &&& frame_bytes(r.frames) + r.sync_losses + r.free_format_headers == r.pos - start
            &&& r.end is TruncatedFrame ==> {
                &&& r.pos + 4 <= data.len()
                &&& decode_spec(word_at(data, r.pos)) matches Ok(h)
                &&& r.pos + h.frame_length_bytes > data.len()
            }
        }),
{
    lemma_scan_from_truncation(data, max, initial_state(start));
}

/// Scanning an empty input accepts nothing and ends with `EndOfInput`.
pub proof fn lemma_scan_empty(start: int, max: Option<usize>)
    ensures
        scan_spec(Seq::empty(), start, max).frames.len() == 0,
        scan_spec(Seq::empty(), start, max).end is EndOfInput,
{
    reveal(scan_from);
}

/// Reads the big-endian word at `pos`.
pub(crate) fn read_word(data: &[u8], pos: usize) -> (r: u32)
    requires
        pos + 4 <= data@.len(),
    ensures
        r == word_at(data@, pos as int),
{
    let b0 = data[pos] as u32;
    let b1 = data[pos + 1] as u32;
    let b2 = data[pos + 2] as u32;
    let b3 = data[pos + 3] as u32;
    b0 * 0x1000000 + b1 * 0x10000 + b2 * 0x100 + b3
}

/// Looks for a VBR information frame inside the frame `h` that starts at `pos`.
pub fn read_vbr_info(data: &[u8], pos: usize, h: &FrameHeader) -> (r: Option<VbrInfo>)
    requires
        pos + h.frame_length_bytes <= data@.len(),
    ensures
        r == vbr_info_spec(data@, pos as int, *h),
{
    let n = data.len();
    let len = h.frame_length_bytes as usize;
    let side = h.side_information_bytes as usize;
    if side > len || len - side < 12 {
        return None;
    }
    let o = pos + 4 + side;
    let tag_word = read_word(data, o);
    let tag = if tag_word == XING_TAG {
        VbrTag::Xing
    } else if tag_word == INFO_TAG {
        VbrTag::Info
    } else {
        return None;
    };
    let flags = read_word(data, o + 4);
    let has_frames = flags & 1u32 != 0;
    let has_bytes = flags & 2u32 != 0;
    let frames_at = o + 8;
    let rest = pos + len - frames_at;
    let frame_count = if has_frames && rest >= 4 {
        read_word(data, frames_at)
    } else {
        0
    };
    let byte_count = if !has_bytes {
        0
    } else if has_frames {
        if rest >= 8 {
            read_word(data, frames_at + 4)
        } else {
            0
        }
    } else if rest >= 4 {
        read_word(data, frames_at)
    } else {
        0
    };
    Some(VbrInfo { tag, frame_count, byte_count })
}

/// Scans `data` from `start_offset`, accepting at most `max_frames` frames
/// when a bound is given.
pub fn scan(data: &[u8], start_offset: usize, max_frames: Option<usize>) -> (r: ScanResult)
    ensures
        r.describes(data@, start_offset as int, max_frames),
        r.well_formed(),
{
    let ghost s0 = initial_state(start_offset as int);
    let mut pos = start_offset;
    let mut frames: Vec<FrameHeader> = Vec::new();
    let mut sync_losses: usize = 0;
    let mut free_format_headers: usize = 0;
    let mut vbr_info: Option<VbrInfo> = None;
    let ghost mut state = s0;
    proof {
        lemma_scan_from_well_formed(data@, max_frames, s0);
    }
    let mut end = ScanEnd::EndOfInput;
    loop
        invariant
            state.pos == pos,
            state.frames == frames@,
            state.sync_losses == sync_losses,
            state.free_format_headers == free_format_headers,
            state.vbr_info == vbr_info,
            start_offset <= pos,
            pos > data@.len() ==> pos == start_offset,
            sync_losses + free_format_headers + frames@.len() <= pos - start_offset,
            scan_from(data@, max_frames, state) == scan_spec(data@, start_offset as int, max_frames),
            forall|i: int| 0 <= i < frames@.len() ==> #[trigger] frames@[i].well_formed(),
        ensures
            state.pos == pos,
            state.frames == frames@,
            state.sync_losses == sync_losses,
            state.free_format_headers == free_format_headers,
            state.vbr_info == vbr_info,
            start_offset <= pos,
            scan_spec(data@, start_offset as int, max_frames) == (ScanState { end, ..state }),
            forall|i: int| 0 <= i < frames@.len() ==> #[trigger] frames@[i].well_formed(),
        decreases data@.len() - pos,
    {
        proof {
            reveal(scan_from);
        }
        if data.len() < 4 || pos > data.len() - 4 {
            end = ScanEnd::EndOfInput;
                break;
        }
        if let Some(m) = max_frames {
            if frames.len() >= m {
                end = ScanEnd::MaxFramesReached;
                break;
            }
        }
        let word = read_word(data, pos);
        match decode(word) {
            Ok(h) => {
                let len = h.frame_length_bytes as usize;
                if len > data.len() - pos {
                    end = ScanEnd::TruncatedFrame;
                break;
                }
                if frames.len() == 0 {
                    vbr_info = read_vbr_info(data, pos, &h);
                }
                proof {
                    state = accept(data@, state, h);
                }
                frames.push(h);
                pos = pos + len;
            },
            Err(e) => {
                proof {
                    state = skip(state, e);
                }
                if e.is_resynchronizable() {
                    sync_losses = sync_losses + 1;
                } else {
                    free_format_headers = free_format_headers + 1;
                }
                pos = pos + 1;
            },
        }
    }
    ScanResult {
        frames,
        bytes_consumed: pos - start_offset,
        sync_losses,
        free_format_headers,
        end,
        vbr_info,
    }
}

} // verus!
