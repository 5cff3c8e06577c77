//! Scanning a byte stream that arrives in chunks, keeping only the bytes of
//! a frame that is not complete yet.
use vstd::prelude::*;
use crate::header::{decode, decode_spec, lemma_decoded_well_formed, FrameHeader};
use crate::scan::{
    accept, initial_state, read_vbr_info, read_word, scan_from, scan_spec, skip, vbr_info_spec,
    word_at, ScanEnd, ScanResult, ScanState, VbrInfo,
};

verus! {

/// A word read from a window of a sequence is the word at the window's offset.
proof fn lemma_word_at_window(a: Seq<u8>, b: Seq<u8>, shift: int, p: int)
    requires
        0 <= p,
        p + 4 <= a.len(),
        0 <= shift,
        p + shift + 4 <= b.len(),
        forall|k: int| 0 <= k < a.len() && shift + k < b.len() ==> a[k] == b[shift + k],
    ensures
        word_at(a, p) == word_at(b, shift + p),
{
    assert(a[p] == b[shift + p]);
    assert(a[p + 1] == b[shift + p + 1]);
    assert(a[p + 2] == b[shift + p + 2]);
    assert(a[p + 3] == b[shift + p + 3]);
}

/// The VBR information of a frame depends only on the frame's own bytes.
proof fn lemma_vbr_info_window(a: Seq<u8>, b: Seq<u8>, shift: int, p: int, h: FrameHeader)
    requires
        0 <= p,
        p + h.frame_length_bytes <= a.len(),
        0 <= shift,
        p + shift + h.frame_length_bytes <= b.len(),
        forall|k: int| 0 <= k < a.len() && shift + k < b.len() ==> a[k] == b[shift + k],
    ensures
        vbr_info_spec(a, p, h) == vbr_info_spec(b, shift + p, h),
{
    let o = p + 4 + h.side_information_bytes;
    let end = p + h.frame_length_bytes;
    if o + 8 <= end {
        lemma_word_at_window(a, b, shift, o);
        lemma_word_at_window(a, b, shift, o + 4);
        if o + 12 <= end {
            lemma_word_at_window(a, b, shift, o + 8);
        }
        if o + 16 <= end {
            lemma_word_at_window(a, b, shift, o + 12);
        }
        assert(shift + p + 4 + h.side_information_bytes == shift + o);
    }
}

/// One step of a scan that reads only bytes already fed takes the same
/// decision whatever follows them.
proof fn lemma_step_with_suffix(fed: Seq<u8>, f: Seq<u8>, max: Option<usize>, s: ScanState)
    requires
        0 <= s.pos,
        s.pos + 4 <= fed.len(),
        !(max matches Some(m) && s.frames.len() >= m),
    ensures
        word_at(fed + f, s.pos) == word_at(fed, s.pos),
        ({
            let r = decode_spec(word_at(fed, s.pos));
            r is Ok && s.pos + r->Ok_0.frame_length_bytes <= fed.len() ==> scan_from(fed + f, max, s)
                == scan_from(fed + f, max, accept(fed, s, r->Ok_0))
        }),
        ({
            let r = decode_spec(word_at(fed, s.pos));
            r is Err ==> scan_from(fed + f, max, s) == scan_from(fed + f, max, skip(s, r->Err_0))
        }),
{
    reveal(scan_from);
    let d = fed + f;
    assert(forall|k: int| 0 <= k < fed.len() && k < d.len() ==> fed[k] == d[0 + k]);
    lemma_word_at_window(fed, d, 0, s.pos);
    if let Ok(h) = decode_spec(word_at(fed, s.pos)) {
        if s.pos + h.frame_length_bytes <= fed.len() {
            lemma_vbr_info_window(fed, d, 0, s.pos, h);
            assert(accept(d, s, h) == accept(fed, s, h));
        }
    }
}

/// Where the scan of the whole input stops at state `s`.
proof fn lemma_stop(data: Seq<u8>, max: Option<usize>, s: ScanState)
    requires
        0 <= s.pos,
    ensures
        s.pos + 4 > data.len() ==> scan_from(data, max, s) == (ScanState { end: ScanEnd::EndOfInput, ..s }),
        s.pos + 4 <= data.len() && (max matches Some(m) && s.frames.len() >= m) ==> scan_from(data, max, s)
            == (ScanState { end: ScanEnd::MaxFramesReached, ..s }),
        ({
            let r = decode_spec(word_at(data, s.pos));
            s.pos + 4 <= data.len() && !(max matches Some(m) && s.frames.len() >= m) && r is Ok
                && s.pos + r->Ok_0.frame_length_bytes > data.len() ==> scan_from(data, max, s)
                == (ScanState { end: ScanEnd::TruncatedFrame, ..s })
        }),
{
    reveal(scan_from);
}

/// A scanner that takes its input in chunks. It holds back only the bytes from
/// the first undecided position on: less than a header, or one frame whose end
/// has not arrived.
pub struct StreamScanner {
    carry: Vec<u8>,
    consumed: usize,
    max_frames: Option<usize>,
    frames: Vec<FrameHeader>,
    sync_losses: usize,
    free_format_headers: usize,
    vbr_info: Option<VbrInfo>,
    fed: Ghost<Seq<u8>>,
}

impl StreamScanner {
    /// Every byte fed so far, in order.
    pub closed spec fn fed(&self) -> Seq<u8> {
        self.fed@
    }

    /// The bound on accepted frames.
    pub closed spec fn max(&self) -> Option<usize> {
        self.max_frames
    }

    /// Frames accepted so far.
    pub closed spec fn accepted(&self) -> Seq<FrameHeader> {
        self.frames@
    }

    /// Bytes held back for the next chunk.
    pub closed spec fn pending(&self) -> Seq<u8> {
        self.carry@
    }

    closed spec fn state(&self) -> ScanState {
        ScanState {
            pos: self.consumed as int,
            frames: self.frames@,
            sync_losses: self.sync_losses as nat,
            free_format_headers: self.free_format_headers as nat,
            end: ScanEnd::EndOfInput,
            vbr_info: self.vbr_info,
        }
    }

    /// The state reached is that of a scan of the bytes fed so far, and stays
    /// so whatever bytes come next.
    pub closed spec fn well_formed(&self) -> bool {
        &&& self.consumed <= self.fed@.len() <= usize::MAX
        &&& self.carry@ == self.fed@.subrange(self.consumed as int, self.fed@.len() as int)
        &&& self.sync_losses + self.free_format_headers + self.frames@.len() <= self.consumed
        &&& forall|i: int| 0 <= i < self.frames@.len() ==> #[trigger] self.frames@[i].well_formed()
        &&& forall|f: Seq<u8>|
            #[trigger] scan_spec(self.fed@ + f, 0, self.max_frames) == scan_from(
                self.fed@ + f,
                self.max_frames,
                self.state(),
            )
    }

    /// A scanner that has seen no byte, accepting at most `max_frames` frames
    /// when a bound is given.
    pub fn new(max_frames: Option<usize>) -> (r: StreamScanner)
        ensures
            r.well_formed(),
            r.fed() == Seq::<u8>::empty(),
            r.max() == max_frames,
    {
        let r = StreamScanner {
            carry: Vec::new(),
            consumed: 0,
            max_frames,
            frames: Vec::new(),
            sync_losses: 0,
            free_format_headers: 0,
            vbr_info: None,
            fed: Ghost(Seq::empty()),
        };
        assert(r.state() == initial_state(0));
        assert(r.carry@ =~= r.fed@.subrange(0, 0));
        r
    }

    /// Takes the next chunk of the stream and scans as far as the bytes allow.
    pub fn feed(&mut self, chunk: &[u8])
        requires
            old(self).well_formed(),
            old(self).fed().len() + chunk@.len() <= usize::MAX,
        ensures
            final(self).well_formed(),
            final(self).fed() == old(self).fed() + chunk@,
            final(self).max() == old(self).max(),
            // What is held back is less than a header, or one frame that has not
            // arrived whole, unless the bound on frames is reached.
            ({
                let p = final(self).pending();
                ||| p.len() < 4
                ||| (final(self).max() matches Some(m) && final(self).accepted().len() >= m)
                ||| (decode_spec(word_at(p, 0)) is Ok && decode_spec(word_at(p, 0))->Ok_0.frame_length_bytes > p.len())
            }),
            final(self).pending().len() < 8100 || (final(self).max() matches Some(m)
                && final(self).accepted().len() >= m),
    {
        let ghost fed0 = self.fed@;
        let ghost st0 = self.state();
        let ghost max0 = self.max_frames;
        let n = chunk.len();
        let mut k: usize = 0;
        while k < n
            invariant
                self.fed@ == fed0,
                self.max_frames == max0,
                self.state() == st0,
                self.sync_losses + self.free_format_headers + self.frames@.len() <= self.consumed,
                forall|i: int| 0 <= i < self.frames@.len() ==> #[trigger] self.frames@[i].well_formed(),
                forall|f: Seq<u8>|
                    #[trigger] scan_spec(fed0 + f, 0, max0) == scan_from(fed0 + f, max0, st0),
                self.carry@ == fed0.subrange(self.consumed as int, fed0.len() as int) + chunk@.subrange(0, k as int),
                self.consumed <= fed0.len(),
                fed0.len() + n <= usize::MAX,
                n == chunk@.len(),
                k <= n,
            decreases n - k,
        {
            self.carry.push(chunk[k]);
            k = k + 1;
            assert(self.carry@ =~= fed0.subrange(self.consumed as int, fed0.len() as int) + chunk@.subrange(0, k as int));
        }
        proof {
            let fed1 = fed0 + chunk@;
            assert(self.carry@ =~= fed1.subrange(self.consumed as int, fed1.len() as int));
            assert forall|f: Seq<u8>|
                #[trigger] scan_spec(fed1 + f, 0, self.max_frames) == scan_from(
                    fed1 + f,
                    self.max_frames,
                    self.state(),
                ) by {
                assert(fed0 + (chunk@ + f) =~= fed1 + f);
                assert(scan_spec(fed0 + (chunk@ + f), 0, self.max_frames) == scan_from(
                    fed0 + (chunk@ + f),
                    self.max_frames,
                    self.state(),
                ));
            }
            self.fed = Ghost(fed1);
        }
        self.run(false);
        proof {
            let p = self.carry@;
            if p.len() >= 4 && !(self.max_frames matches Some(m) && self.frames@.len() >= m) {
                lemma_decoded_well_formed(word_at(p, 0));
            }
        }
    }

    /// Scans the held-back bytes. With `at_end`, no more bytes will come and
    /// the reason for stopping is final.
    fn run(&mut self, at_end: bool) -> (end: ScanEnd)
        requires
            old(self).well_formed(),
        ensures
            final(self).well_formed(),
            final(self).fed() == old(self).fed(),
            final(self).max() == old(self).max(),
            at_end ==> scan_spec(final(self).fed(), 0, final(self).max()) == (ScanState {
                end,
                ..final(self).state()
            }),
            ({
                let p = final(self).pending();
                ||| p.len() < 4
                ||| (final(self).max() matches Some(m) && final(self).accepted().len() >= m)
                ||| (decode_spec(word_at(p, 0)) is Ok && decode_spec(word_at(p, 0))->Ok_0.frame_length_bytes > p.len())
            }),
    {
        let ghost fed = self.fed@;
        let ghost max = self.max_frames;
        let ghost mut st = self.state();
        let len = self.carry.len();
        let mut i: usize = 0;
        let mut end = ScanEnd::EndOfInput;
        loop
            invariant
                len == self.carry@.len(),
                self.fed@ == fed,
                self.max_frames == max,
                self.consumed <= fed.len() <= usize::MAX,
                self.carry@ == fed.subrange(self.consumed as int, fed.len() as int),
                i <= len,
                st.pos == self.consumed + i,
                st.frames == self.frames@,
                st.sync_losses == self.sync_losses,
                st.free_format_headers == self.free_format_headers,
                st.vbr_info == self.vbr_info,
                st.end == ScanEnd::EndOfInput,
                self.sync_losses + self.free_format_headers + self.frames@.len() <= self.consumed + i,
                forall|j: int| 0 <= j < self.frames@.len() ==> #[trigger] self.frames@[j].well_formed(),
                forall|f: Seq<u8>|
                    #[trigger] scan_spec(fed + f, 0, max) == scan_from(fed + f, max, st),
            ensures
                len == self.carry@.len(),
                self.fed@ == fed,
                self.max_frames == max,
                self.consumed <= fed.len() <= usize::MAX,
                self.carry@ == fed.subrange(self.consumed as int, fed.len() as int),
                i <= len,
                st.pos == self.consumed + i,
                st.frames == self.frames@,
                st.sync_losses == self.sync_losses,
                st.free_format_headers == self.free_format_headers,
                st.vbr_info == self.vbr_info,
                st.end == ScanEnd::EndOfInput,
                self.sync_losses + self.free_format_headers + self.frames@.len() <= self.consumed + i,
                forall|j: int| 0 <= j < self.frames@.len() ==> #[trigger] self.frames@[j].well_formed(),
                forall|f: Seq<u8>|
                    #[trigger] scan_spec(fed + f, 0, max) == scan_from(fed + f, max, st),
                at_end ==> scan_from(fed, max, st) == (ScanState { end, ..st }),
                ({
                    let p = self.carry@.subrange(i as int, len as int);
                    ||| p.len() < 4
                    ||| (max matches Some(m) && self.frames@.len() >= m)
                    ||| (decode_spec(word_at(p, 0)) is Ok && decode_spec(word_at(p, 0))->Ok_0.frame_length_bytes > p.len())
                }),
            decreases len - i,
        {
            proof {
                assert(fed + Seq::<u8>::empty() =~= fed);
                assert(scan_spec(fed + Seq::<u8>::empty(), 0, max) == scan_from(fed + Seq::<u8>::empty(), max, st));
                lemma_stop(fed, max, st);
            }
            if len - i < 4 {
                end = ScanEnd::EndOfInput;
                break;
            }
            if let Some(m) = self.max_frames {
                if self.frames.len() >= m {
                    end = ScanEnd::MaxFramesReached;
                    break;
                }
            }
            let word = read_word(self.carry.as_slice(), i);
            proof {
                lemma_stop(fed, max, st);
                assert(forall|k: int| 0 <= k < self.carry@.len() && self.consumed + k < fed.len()
                    ==> self.carry@[k] == fed[self.consumed + k]);
                lemma_word_at_window(self.carry@, fed, self.consumed as int, i as int);
                lemma_decoded_well_formed(word);
            }
            match decode(word) {
                Ok(h) => {
                    let flen = h.frame_length_bytes as usize;
                    proof {
                        let p = self.carry@.subrange(i as int, len as int);
                        assert(forall|k: int| 0 <= k < p.len() && i + k < self.carry@.len() ==> p[k] == self.carry@[i + k]);
                        lemma_word_at_window(p, self.carry@, i as int, 0);
                    }
                    if flen > len - i {
                        end = ScanEnd::TruncatedFrame;
                        break;
                    }
                    proof {
                        assert forall|f: Seq<u8>|
                            #[trigger] scan_spec(fed + f, 0, max) == scan_from(fed + f, max, accept(fed, st, h)) by {
                            lemma_step_with_suffix(fed, f, max, st);
                        }
                    }
                    if self.frames.len() == 0 {
                        self.vbr_info = read_vbr_info(self.carry.as_slice(), i, &h);
                        proof {
                            lemma_vbr_info_window(self.carry@, fed, self.consumed as int, i as int, h);
                        }
                    }
                    proof {
                        st = accept(fed, st, h);
                    }
                    self.frames.push(h);
                    i = i + flen;
                },
                Err(e) => {
                    proof {
                        assert forall|f: Seq<u8>|
                            #[trigger] scan_spec(fed + f, 0, max) == scan_from(fed + f, max, skip(st, e)) by {
                            lemma_step_with_suffix(fed, f, max, st);
                        }
                        st = skip(st, e);
                    }
                    if e.is_resynchronizable() {
                        self.sync_losses = self.sync_losses + 1;
                    } else {
                        self.free_format_headers = self.free_format_headers + 1;
                    }
                    i = i + 1;
                },
            }
        }
        let ghost before = self.carry@;
        let rest = self.carry.split_off(i);
        self.carry = rest;
        self.consumed = self.consumed + i;
        proof {
            assert(self.carry@ == before.subrange(i as int, len as int));
            assert(self.carry@ =~= fed.subrange(self.consumed as int, fed.len() as int));
            assert(self.state() == st);
            assert(fed + Seq::<u8>::empty() =~= fed);
            assert(scan_spec(fed + Seq::<u8>::empty(), 0, max) == scan_from(fed + Seq::<u8>::empty(), max, st));
        }
        end
    }

    /// Number of frames accepted so far.
    pub fn frames_accepted(&self) -> (r: usize)
        ensures
            r == self.accepted().len(),
    {
        self.frames.len()
    }

    /// Ends the stream: scans what is held back and returns the result of
    /// scanning every byte fed, from the first.
    pub fn finish(self) -> (r: ScanResult)
        requires
            self.well_formed(),
        ensures
            r.describes(self.fed(), 0, self.max()),
            r.well_formed(),
    {
        let mut s = self;
        let end = s.run(true);
        ScanResult {
            frames: s.frames,
            bytes_consumed: s.consumed,
            sync_losses: s.sync_losses,
            free_format_headers: s.free_format_headers,
            end,
            vbr_info: s.vbr_info,
        }
    }
}

} // verus!
