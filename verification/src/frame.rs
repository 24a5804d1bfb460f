//! Encoded frames, their segmentation for transmission, and the reassembly
//! of segments back into frames at the receiving side.

use vstd::prelude::*;

use crate::protocol::{spec_frame_header_bytes, spec_parse_frame_header, FrameHeader, MAX_SEGMENT_SIZE};
use crate::wire::{copy_range, push_bytes};

verus! {

/// The largest frame that segmentation accepts: 65535 segments of 64 KiB.
pub const MAX_FRAME_DATA: usize = 65535 * 65536;

/// Metadata for a captured or encoded frame.
#[derive(Debug, Clone, Copy, PartialEq, Eq, Structural)]
pub struct FrameMetadata {
    pub frame_number: u64,
    pub pts_us: u64,
    pub capture_ts_us: u64,
    pub is_keyframe: bool,
}

impl FrameMetadata {
    pub fn new(frame_number: u64, pts_us: u64, capture_ts_us: u64, is_keyframe: bool) -> (r: Self)
        ensures
            r == (FrameMetadata { frame_number, pts_us, capture_ts_us, is_keyframe }),
    {
        Self { frame_number, pts_us, capture_ts_us, is_keyframe }
    }
}

/// An encoded video frame ready for transmission.
#[derive(Debug, Clone)]
pub struct EncodedFrame {
    pub metadata: FrameMetadata,
    pub data: Vec<u8>,
}

/// A segment of an encoded frame: the unit of transmission for FRAME packets.
#[derive(Debug, Clone)]
pub struct FrameSegment {
    pub metadata: FrameMetadata,
    /// Total encoded bytes across all segments of the frame.
    pub frame_size: u32,
    pub segment_index: u16,
    pub segment_count: u16,
    pub data: Vec<u8>,
}

/// How many segments a frame of the given byte length splits into: the
/// ceiling of len / 64 KiB, and at least one.
pub open spec fn spec_seg_count(len: int) -> int
    decreases len,
{
    if len <= MAX_SEGMENT_SIZE as int {
        1
    } else {
        1 + spec_seg_count(len - MAX_SEGMENT_SIZE as int)
    }
}

/// Where segment i of a frame of the given length ends (exclusive).
pub open spec fn spec_seg_end(len: int, i: int) -> int {
    if (i + 1) * (MAX_SEGMENT_SIZE as int) <= len {
        (i + 1) * (MAX_SEGMENT_SIZE as int)
    } else {
        len
    }
}

/// The bytes of segment i of a frame: the i-th 64 KiB slice, the last one
/// possibly shorter.
pub open spec fn spec_seg_data(b: Seq<u8>, i: int) -> Seq<u8> {
    b.subrange(i * (MAX_SEGMENT_SIZE as int), spec_seg_end(b.len() as int, i))
}

/// The segment count is at least one, covers the whole frame, and is the
/// least count that does.
pub proof fn lemma_seg_count_bounds(len: int)
    requires
        0 <= len,
    ensures
        1 <= spec_seg_count(len),
        len <= spec_seg_count(len) * (MAX_SEGMENT_SIZE as int),
        len > 0 ==> (spec_seg_count(len) - 1) * (MAX_SEGMENT_SIZE as int) < len,
    decreases len,
{
    if len > MAX_SEGMENT_SIZE as int {
        lemma_seg_count_bounds(len - MAX_SEGMENT_SIZE as int);
    }
}

/// The recursive segment count agrees with the closed form used by the
/// executable code: ceiling division, floored at one.
pub proof fn lemma_seg_count_closed(len: int)
    requires
        0 <= len,
    ensures
        spec_seg_count(len) == if len == 0 {
            1int
        } else {
            (len + (MAX_SEGMENT_SIZE - 1) as int) / (MAX_SEGMENT_SIZE as int)
        },
    decreases len,
{
    if len > MAX_SEGMENT_SIZE as int {
        lemma_seg_count_closed(len - MAX_SEGMENT_SIZE as int);
        assert((len + 65535) / 65536 == 1 + ((len - 65536) + 65535) / 65536) by (nonlinear_arith)
            requires
                len > 65536,
        ;
    } else if len >= 1 {
        assert((len + 65535) / 65536 == 1) by (nonlinear_arith)
            requires
                1 <= len <= 65536,
        ;
    }
}

/// Every segment's byte range lies within the frame, is at most 64 KiB long,
/// and segments tile the frame: each one ends where the next begins.
pub proof fn lemma_seg_bounds(len: int, i: int)
    requires
        0 <= len,
        0 <= i < spec_seg_count(len),
    ensures
        0 <= i * (MAX_SEGMENT_SIZE as int),
        i * (MAX_SEGMENT_SIZE as int) <= spec_seg_end(len, i),
        spec_seg_end(len, i) <= len,
        spec_seg_end(len, i) - i * (MAX_SEGMENT_SIZE as int) <= MAX_SEGMENT_SIZE as int,
        i + 1 < spec_seg_count(len) ==> spec_seg_end(len, i) == (i + 1) * (MAX_SEGMENT_SIZE as int),
        i + 1 == spec_seg_count(len) ==> spec_seg_end(len, i) == len,
{
    lemma_seg_count_bounds(len);
    let m = MAX_SEGMENT_SIZE as int;
    let count = spec_seg_count(len);
    if len > 0 {
        assert(i * m <= (count - 1) * m);
        assert((count - 1) * m < len);
    }
    if i + 1 < count {
        assert((i + 1) * m <= (count - 1) * m);
    }
    if i + 1 == count {
        assert(len <= count * m);
    }
}

/// Whether a segment is exactly segment i of a frame with the given metadata
/// and bytes, out of the given segment count.
pub open spec fn is_segment_of(s: FrameSegment, md: FrameMetadata, b: Seq<u8>, count: int, i: int) -> bool {
    &&& s.metadata == md
    &&& s.frame_size as int == b.len() as int
    &&& s.segment_index as int == i
    &&& s.segment_count as int == count
    &&& s.data@ == spec_seg_data(b, i)
}

impl EncodedFrame {
    pub fn new(metadata: FrameMetadata, data: Vec<u8>) -> (r: Self)
        ensures
            r.metadata == metadata,
            r.data == data,
    {
        Self { metadata, data }
    }

    /// Split the frame into segments of at most 64 KiB for transmission.
    ///
    /// Every segment replicates the frame's metadata, total size and segment
    /// count; segment i carries exactly the i-th 64 KiB slice of the data.
    pub fn into_segments(self) -> (r: Vec<FrameSegment>)
        requires
            self.data@.len() <= MAX_FRAME_DATA,
        ensures
            r@.len() == spec_seg_count(self.data@.len() as int),
            forall|i: int| 0 <= i < r@.len() ==> is_segment_of(
                #[trigger] r@[i],
                self.metadata,
                self.data@,
                r@.len() as int,
                i,
            ),
    {
        let metadata = self.metadata;
        let data = self.data;
        let total: usize = data.len();
        let ghost glen: int = data@.len() as int;

        proof {
            lemma_seg_count_closed(glen);
            lemma_seg_count_bounds(glen);
        }

        let count: usize = if total == 0 {
            1
        } else {
            (total + (MAX_SEGMENT_SIZE - 1)) / MAX_SEGMENT_SIZE
        };
        assert(count as int == spec_seg_count(glen));
        assert(count <= 65535);

        let count16: u16 = count as u16;
        let size32: u32 = total as u32;

        let mut segments: Vec<FrameSegment> = Vec::new();
        let mut i: usize = 0;
        while i < count
            invariant
                i <= count,
                count as int == spec_seg_count(glen),
                count <= 65535,
                count16 == count as u16,
                size32 == total as u32,
                total == data@.len(),
                glen == data@.len() as int,
                glen <= MAX_FRAME_DATA,
                segments@.len() == i,
                forall|j: int| 0 <= j < i ==> is_segment_of(
                    #[trigger] segments@[j],
                    metadata,
                    data@,
                    count as int,
                    j,
                ),
            decreases count - i,
        {
            proof {
                lemma_seg_bounds(glen, i as int);
            }
            let start: usize = i * MAX_SEGMENT_SIZE;
            let end: usize = if start + MAX_SEGMENT_SIZE <= total {
                start + MAX_SEGMENT_SIZE
            } else {
                total
            };
            assert(end as int == spec_seg_end(glen, i as int));

            let seg_data = copy_range(data.as_slice(), start, end);

            segments.push(FrameSegment {
                metadata,
                frame_size: size32,
                segment_index: i as u16,
                segment_count: count16,
                data: seg_data,
            });
            i = i + 1;
        }
        segments
    }
}

impl FrameSegment {
    /// The FRAME header this segment is transmitted under.
    pub open spec fn spec_header(self) -> FrameHeader {
        FrameHeader {
            frame_number: self.metadata.frame_number,
            pts_us: self.metadata.pts_us,
            capture_ts_us: self.metadata.capture_ts_us,
            frame_size: self.frame_size,
            segment_index: self.segment_index,
            segment_count: self.segment_count,
        }
    }

    /// Build the FRAME packet payload: the 32-byte frame header followed by
    /// the segment bytes.
    pub fn to_payload(&self) -> (r: Vec<u8>)
        ensures
            r@ == spec_frame_header_bytes(self.spec_header()) + self.data@,
    {
        let header = FrameHeader::new(
            self.metadata.frame_number,
            self.metadata.pts_us,
            self.metadata.capture_ts_us,
            self.frame_size,
            self.segment_index,
            self.segment_count,
        );
        let mut buf = header.to_bytes();
        push_bytes(&mut buf, self.data.as_slice());
        buf
    }
}

/// The bytes of a sequence of segments, concatenated in order.
pub open spec fn spec_concat_data(segs: Seq<FrameSegment>) -> Seq<u8>
    decreases segs.len(),
{
    if segs.len() == 0 {
        Seq::empty()
    } else {
        spec_concat_data(segs.drop_last()) + segs.last().data@
    }
}

proof fn lemma_concat_prefix(b: Seq<u8>, md: FrameMetadata, segs: Seq<FrameSegment>, k: int)
    requires
        segs.len() == spec_seg_count(b.len() as int),
        forall|i: int| 0 <= i < segs.len() ==> is_segment_of(
            #[trigger] segs[i],
            md,
            b,
            segs.len() as int,
            i,
        ),
        0 <= k <= segs.len(),
    ensures
        spec_concat_data(segs.take(k)) == b.subrange(
            0,
            if k == segs.len() { b.len() as int } else { k * (MAX_SEGMENT_SIZE as int) },
        ),
    decreases k,
{
    let len = b.len() as int;
    let m = MAX_SEGMENT_SIZE as int;
    let count = segs.len() as int;
    lemma_seg_count_bounds(len);
    if k == 0 {
        assert(segs.take(0) =~= Seq::<FrameSegment>::empty());
        assert(spec_concat_data(segs.take(0)) =~= b.subrange(0, 0));
    } else {
        lemma_concat_prefix(b, md, segs, k - 1);
        lemma_seg_bounds(len, k - 1);
        let prev_end = (k - 1) * m;
        let this_end = if k == count { len } else { k * m };
        assert(spec_seg_end(len, k - 1) == this_end);
        assert(segs.take(k).drop_last() =~= segs.take(k - 1));
        assert(segs.take(k).last() == segs[k - 1]);
        assert(spec_concat_data(segs.take(k)) == spec_concat_data(segs.take(k - 1))
            + segs[k - 1].data@);
        assert(segs[k - 1].data@ == spec_seg_data(b, k - 1));
        assert(b.subrange(0, prev_end) + b.subrange(prev_end, this_end) =~= b.subrange(0, this_end));
    }
}

/// Segmentation law: concatenating a frame's segments in index order yields
/// the frame's bytes back.
pub proof fn lemma_segments_concat(b: Seq<u8>, md: FrameMetadata, segs: Seq<FrameSegment>)
    requires
        segs.len() == spec_seg_count(b.len() as int),
        forall|i: int| 0 <= i < segs.len() ==> is_segment_of(
            #[trigger] segs[i],
            md,
            b,
            segs.len() as int,
            i,
        ),
    ensures
        spec_concat_data(segs) == b,
{
    lemma_concat_prefix(b, md, segs, segs.len() as int);
    assert(segs.take(segs.len() as int) =~= segs);
    assert(b.subrange(0, b.len() as int) =~= b);
}

/// The mathematical state of a reassembly in progress: the frame being
/// collected and, for each segment index, the bytes received for it so far.
#[verifier::ext_equal]
pub ghost struct PendingModel {
    pub frame_number: u64,
    pub pts_us: u64,
    pub capture_ts_us: u64,
    pub frame_size: u32,
    pub segment_count: u16,
    pub slots: Seq<Option<Seq<u8>>>,
}

/// How many segment slots hold received bytes.
pub open spec fn count_filled(slots: Seq<Option<Seq<u8>>>) -> int
    decreases slots.len(),
{
    if slots.len() == 0 {
        0
    } else {
        count_filled(slots.drop_last()) + if slots.last() is Some {
            1int
        } else {
            0int
        }
    }
}

/// The bytes of the filled slots, concatenated in index order; empty slots
/// contribute nothing.
pub open spec fn spec_concat_slots(slots: Seq<Option<Seq<u8>>>) -> Seq<u8>
    decreases slots.len(),
{
    if slots.len() == 0 {
        Seq::empty()
    } else {
        spec_concat_slots(slots.drop_last()) + match slots.last() {
            Some(d) => d,
            None => Seq::empty(),
        }
    }
}

pub proof fn lemma_count_filled_bounds(slots: Seq<Option<Seq<u8>>>)
    ensures
        0 <= count_filled(slots) <= slots.len(),
    decreases slots.len(),
{
    if slots.len() > 0 {
        lemma_count_filled_bounds(slots.drop_last());
    }
}

/// Filling an empty slot raises the filled count by exactly one.
pub proof fn lemma_count_filled_update(slots: Seq<Option<Seq<u8>>>, i: int, d: Seq<u8>)
    requires
        0 <= i < slots.len(),
        slots[i] is None,
    ensures
        count_filled(slots.update(i, Some(d))) == count_filled(slots) + 1,
    decreases slots.len(),
{
    let u = slots.update(i, Some(d));
    if i == slots.len() - 1 {
        assert(u.drop_last() =~= slots.drop_last());
    } else {
        assert(u.drop_last() =~= slots.drop_last().update(i, Some(d)));
        assert(u.last() == slots.last());
        lemma_count_filled_update(slots.drop_last(), i, d);
    }
}

/// A slot sequence whose filled count equals its length has no empty slot.
pub proof fn lemma_count_filled_full(slots: Seq<Option<Seq<u8>>>)
    requires
        count_filled(slots) == slots.len(),
    ensures
        forall|i: int| 0 <= i < slots.len() ==> slots[i] is Some,
    decreases slots.len(),
{
    if slots.len() > 0 {
        lemma_count_filled_bounds(slots.drop_last());
        lemma_count_filled_full(slots.drop_last());
        assert forall|i: int| 0 <= i < slots.len() implies slots[i] is Some by {
            if i < slots.len() - 1 {
                assert(slots.drop_last()[i] == slots[i]);
            }
        }
    }
}

/// A fresh all-empty slot sequence has a filled count of zero.
pub proof fn lemma_count_filled_empty(n: nat)
    ensures
        count_filled(Seq::new(n, |i: int| None::<Seq<u8>>)) == 0,
    decreases n,
{
    let s = Seq::new(n, |i: int| None::<Seq<u8>>);
    if n > 0 {
        assert(s.drop_last() =~= Seq::new((n - 1) as nat, |i: int| None::<Seq<u8>>));
        lemma_count_filled_empty((n - 1) as nat);
    }
}

/// A well-formed pending reassembly: at least one segment expected, one slot
/// per segment, and strictly fewer slots filled than expected (a finished
/// frame never stays pending).
pub open spec fn pending_wf(p: PendingModel) -> bool {
    &&& p.segment_count >= 1
    &&& p.slots.len() == p.segment_count
    &&& 1 <= count_filled(p.slots) < p.segment_count
}

/// What feeding one segment does to the reassembler: the new state, and the
/// completed frame if this segment finished one.
///
/// A segment for a different frame number than the pending one discards the
/// pending frame and starts fresh; a segment whose header contradicts the
/// pending frame's segment count, or whose slot is already filled, is
/// dropped without effect.
pub open spec fn spec_add(cur: Option<PendingModel>, h: FrameHeader, data: Seq<u8>) -> (
    Option<PendingModel>,
    Option<(FrameMetadata, Seq<u8>)>,
)
    recommends
        h.valid(),
{
    if cur is Some && cur.unwrap().frame_number == h.frame_number {
        let p = cur.unwrap();
        if h.segment_count != p.segment_count {
            (cur, None)
        } else if p.slots[h.segment_index as int] is Some {
            (cur, None)
        } else {
            let slots2 = p.slots.update(h.segment_index as int, Some(data));
            if count_filled(slots2) == p.segment_count {
                (
                    None,
                    Some((
                        FrameMetadata {
                            frame_number: p.frame_number,
                            pts_us: p.pts_us,
                            capture_ts_us: p.capture_ts_us,
                            is_keyframe: false,
                        },
                        spec_concat_slots(slots2),
                    )),
                )
            } else {
                (
                    Some(PendingModel {
                        frame_number: p.frame_number,
                        pts_us: p.pts_us,
                        capture_ts_us: p.capture_ts_us,
                        frame_size: p.frame_size,
                        segment_count: p.segment_count,
                        slots: slots2,
                    }),
                    None,
                )
            }
        }
    } else {
        let slots0 = Seq::new(h.segment_count as nat, |i: int| None::<Seq<u8>>).update(
            h.segment_index as int,
            Some(data),
        );
        if h.segment_count == 1 {
            (
                None,
                Some((
                    FrameMetadata {
                        frame_number: h.frame_number,
                        pts_us: h.pts_us,
                        capture_ts_us: h.capture_ts_us,
                        is_keyframe: false,
                    },
                    data,
                )),
            )
        } else {
            (
                Some(PendingModel {
                    frame_number: h.frame_number,
                    pts_us: h.pts_us,
                    capture_ts_us: h.capture_ts_us,
                    frame_size: h.frame_size,
                    segment_count: h.segment_count,
                    slots: slots0,
                }),
                None,
            )
        }
    }
}

#[derive(Debug)]
struct PendingFrame {
    frame_number: u64,
    pts_us: u64,
    capture_ts_us: u64,
    frame_size: u32,
    segment_count: u16,
    received_segments: Vec<Option<Vec<u8>>>,
    received_count: u16,
}

/// The slot sequence a slot vector stands for: each received segment's bytes.
pub open spec fn slots_view(v: Seq<Option<Vec<u8>>>) -> Seq<Option<Seq<u8>>> {
    Seq::new(
        v.len(),
        |i: int| match v[i] {
            Some(d) => Some(d@),
            None => None,
        },
    )
}

impl PendingFrame {
    spec fn model(self) -> PendingModel {
        PendingModel {
            frame_number: self.frame_number,
            pts_us: self.pts_us,
            capture_ts_us: self.capture_ts_us,
            frame_size: self.frame_size,
            segment_count: self.segment_count,
            slots: slots_view(self.received_segments@),
        }
    }

    spec fn inv(self) -> bool {
        &&& pending_wf(self.model())
        &&& self.received_count == count_filled(self.model().slots)
    }
}

/// Reassembles frame segments into complete frames using a single in-flight
/// frame slot: a segment for a newer frame discards the older partial frame.
#[derive(Debug)]
pub struct FrameReassembler {
    pending: Option<PendingFrame>,
}

impl View for FrameReassembler {
    type V = Option<PendingModel>;

    closed spec fn view(&self) -> Option<PendingModel> {
        match self.pending {
            None => None,
            Some(p) => Some(p.model()),
        }
    }
}

impl FrameReassembler {
    /// The reassembler's internal invariant; holds of a fresh reassembler and
    /// is preserved by every operation.
    pub closed spec fn wf(self) -> bool {
        match self.pending {
            None => true,
            Some(p) => p.inv(),
        }
    }

    /// A fresh reassembler with no pending frame.
    pub fn new() -> (r: Self)
        ensures
            r@ == None::<PendingModel>,
            r.wf(),
    {
        Self { pending: None }
    }

    /// The frame number of the reassembly in progress, if any.
    pub fn pending_frame_number(&self) -> (r: Option<u64>)
        ensures
            r == match self@ {
                Some(p) => Some(p.frame_number),
                None => None::<u64>,
            },
    {
        match &self.pending {
            Some(p) => Some(p.frame_number),
            None => None,
        }
    }

    /// Clear any pending incomplete frame.
    pub fn reset(&mut self)
        ensures
            final(self)@ == None::<PendingModel>,
            final(self).wf(),
    {
        self.pending = None;
    }

    /// Feed one segment. Returns the completed frame when this segment was
    /// the last missing piece; the state and result are exactly those of the
    /// `spec_add` transition.
    pub fn add_segment(&mut self, header: &FrameHeader, data: Vec<u8>) -> (r: Option<EncodedFrame>)
        requires
            header.valid(),
            old(self).wf(),
        ensures
            final(self).wf(),
            final(self)@ == spec_add(old(self)@, *header, data@).0,
            r is Some <==> spec_add(old(self)@, *header, data@).1 is Some,
            r matches Some(f) ==> {
                let e = spec_add(old(self)@, *header, data@).1.unwrap();
                f.metadata == e.0 && f.data@ == e.1
            },
    {
        let is_same: bool = match &self.pending {
            Some(p) => p.frame_number == header.frame_number,
            None => false,
        };

        if !is_same {
            let n: usize = header.segment_count as usize;
            let idx: usize = header.segment_index as usize;

            let mut slots: Vec<Option<Vec<u8>>> = Vec::new();
            let mut k: usize = 0;
            while k < n
                invariant
                    k <= n,
                    slots@.len() == k,
                    forall|j: int| 0 <= j < k ==> slots@[j] is None,
                decreases n - k,
            {
                slots.push(None);
                k = k + 1;
            }
            proof {
                assert(slots_view(slots@) =~= Seq::new(n as nat, |i: int| None::<Seq<u8>>));
                lemma_count_filled_empty(n as nat);
            }
            let ghost slots0 = slots_view(slots@);
            slots[idx] = Some(data);
            proof {
                assert(slots_view(slots@) =~= slots0.update(
                    idx as int,
                    Some(slots@[idx as int].unwrap()@),
                ));
                lemma_count_filled_update(slots0, idx as int, slots@[idx as int].unwrap()@);
            }

            let pf = PendingFrame {
                frame_number: header.frame_number,
                pts_us: header.pts_us,
                capture_ts_us: header.capture_ts_us,
                frame_size: header.frame_size,
                segment_count: header.segment_count,
                received_segments: slots,
                received_count: 1,
            };

            if header.segment_count == 1 {
                self.pending = None;
                proof {
                    lemma_count_filled_full(pf.model().slots);
                }
                let frame = Self::complete_frame(pf);
                proof {
                    let e = spec_add(old(self)@, *header, data@).1.unwrap();
                    let s = pf.model().slots;
                    assert(s.len() == 1);
                    assert(s.drop_last() =~= Seq::<Option<Seq<u8>>>::empty());
                    assert(s.last() == Some(e.1));
                    assert(spec_concat_slots(s.drop_last()) == Seq::<u8>::empty());
                    assert(spec_concat_slots(s) == Seq::<u8>::empty() + e.1);
                    assert(frame.data@ =~= e.1);
                }
                return Some(frame);
            } else {
                self.pending = Some(pf);
                proof {
                    assert(final(self)@ =~= spec_add(old(self)@, *header, data@).0);
                }
                return None;
            }
        }

        // A segment of the frame already being collected.
        let mut p = self.pending.take().unwrap();

        if header.segment_count != p.segment_count {
            // The header contradicts the pending frame; drop the segment.
            self.pending = Some(p);
            return None;
        }

        let idx: usize = header.segment_index as usize;
        if p.received_segments[idx].is_some() {
            // Duplicate segment; drop it.
            self.pending = Some(p);
            return None;
        }

        let ghost slots_before = slots_view(p.received_segments@);
        p.received_segments[idx] = Some(data);
        p.received_count = p.received_count + 1;
        proof {
            assert(slots_view(p.received_segments@) =~= slots_before.update(
                idx as int,
                Some(p.received_segments@[idx as int].unwrap()@),
            ));
            lemma_count_filled_update(
                slots_before,
                idx as int,
                p.received_segments@[idx as int].unwrap()@,
            );
        }

        if p.received_count == p.segment_count {
            proof {
                lemma_count_filled_full(p.model().slots);
            }
            let frame = Self::complete_frame(p);
            proof {
                assert(final(self)@ =~= spec_add(old(self)@, *header, data@).0);
            }
            return Some(frame);
        } else {
            self.pending = Some(p);
            proof {
                assert(final(self)@ =~= spec_add(old(self)@, *header, data@).0);
            }
            return None;
        }
    }

    /// Concatenate the received slots of a finished reassembly, in index
    /// order, into the completed frame.
    fn complete_frame(pending: PendingFrame) -> (r: EncodedFrame)
        ensures
            r.metadata == (FrameMetadata {
                frame_number: pending.frame_number,
                pts_us: pending.pts_us,
                capture_ts_us: pending.capture_ts_us,
                is_keyframe: false,
            }),
            r.data@ == spec_concat_slots(slots_view(pending.received_segments@)),
    {
        let ghost s = slots_view(pending.received_segments@);
        let n: usize = pending.received_segments.len();
        let mut data: Vec<u8> = Vec::new();
        let mut i: usize = 0;
        while i < n
            invariant
                i <= n,
                n == pending.received_segments@.len(),
                s == slots_view(pending.received_segments@),
                data@ == spec_concat_slots(s.take(i as int)),
            decreases n - i,
        {
            proof {
                assert(s.take(i + 1).drop_last() =~= s.take(i as int));
                assert(s.take(i + 1).last() == s[i as int]);
            }
            match &pending.received_segments[i] {
                Some(d) => {
                    push_bytes(&mut data, d.as_slice());
                }
                None => {
                    proof {
                        assert(data@ =~= data@ + Seq::<u8>::empty());
                    }
                }
            }
            i = i + 1;
        }
        proof {
            assert(s.take(n as int) =~= s);
        }
        EncodedFrame::new(
            FrameMetadata::new(pending.frame_number, pending.pts_us, pending.capture_ts_us, false),
            data,
        )
    }
}

impl Default for FrameReassembler {
    /// A fresh reassembler with no pending frame.
    fn default() -> (r: Self)
        ensures
            r@ == None::<PendingModel>,
            r.wf(),
    {
        Self::new()
    }
}

/// Duplicate-segment idempotence: when feeding a segment does not complete a
/// frame, feeding the same segment again changes nothing and emits nothing.
///
/// (A segment that completes a frame clears the pending state, so feeding it
/// again starts a fresh reassembly; such inputs are excluded here.)
pub proof fn lemma_duplicate_segment_idempotent(
    cur: Option<PendingModel>,
    h: FrameHeader,
    data: Seq<u8>,
)
    requires
        h.valid(),
        cur matches Some(p) ==> pending_wf(p),
        spec_add(cur, h, data).1 is None,
    ensures
        spec_add(spec_add(cur, h, data).0, h, data) == (
            spec_add(cur, h, data).0,
            None::<(FrameMetadata, Seq<u8>)>,
        ),
{
    let (mid, em) = spec_add(cur, h, data);
    if cur is Some && cur.unwrap().frame_number == h.frame_number {
        let p = cur.unwrap();
        if h.segment_count != p.segment_count {
            assert(spec_add(mid, h, data) == (mid, None::<(FrameMetadata, Seq<u8>)>));
        } else if p.slots[h.segment_index as int] is Some {
            assert(spec_add(mid, h, data) == (mid, None::<(FrameMetadata, Seq<u8>)>));
        } else {
            let p2 = mid.unwrap();
            assert(p.slots.len() == p.segment_count);
            assert(0 <= (h.segment_index as int) && (h.segment_index as int) < p.slots.len());
            assert(p2.slots[h.segment_index as int] is Some);
            assert(spec_add(mid, h, data) == (mid, None::<(FrameMetadata, Seq<u8>)>));
        }
    } else {
        assert(h.segment_count != 1);
        let p2 = mid.unwrap();
        let slots0 = Seq::new(h.segment_count as nat, |i: int| None::<Seq<u8>>);
        assert(slots0.len() == h.segment_count as int);
        assert(0 <= (h.segment_index as int) && (h.segment_index as int) < slots0.len());
        assert(p2.slots == slots0.update(h.segment_index as int, Some(data)));
        assert(p2.slots[h.segment_index as int] == Some(data));
        assert(spec_add(mid, h, data) == (mid, None::<(FrameMetadata, Seq<u8>)>));
    }
}

/// Skip-ahead: a segment for a frame other than the pending one discards the
/// pending partial frame; the reassembler afterwards holds only the new
/// frame (or completed it, when it was its only segment).
pub proof fn lemma_new_frame_discards_pending(
    cur: Option<PendingModel>,
    h: FrameHeader,
    data: Seq<u8>,
)
    requires
        h.valid(),
        cur matches Some(p) && p.frame_number != h.frame_number,
    ensures
        h.segment_count > 1 ==> spec_add(cur, h, data) == (
            Some(PendingModel {
                frame_number: h.frame_number,
                pts_us: h.pts_us,
                capture_ts_us: h.capture_ts_us,
                frame_size: h.frame_size,
                segment_count: h.segment_count,
                slots: Seq::new(h.segment_count as nat, |i: int| None::<Seq<u8>>).update(
                    h.segment_index as int,
                    Some(data),
                ),
            }),
            None::<(FrameMetadata, Seq<u8>)>,
        ),
        h.segment_count == 1 ==> spec_add(cur, h, data) == (
            None::<PendingModel>,
            Some((
                FrameMetadata {
                    frame_number: h.frame_number,
                    pts_us: h.pts_us,
                    capture_ts_us: h.capture_ts_us,
                    is_keyframe: false,
                },
                data,
            )),
        ),
{
}

/// Every frame the reassembler emits carries the frame number of the segment
/// that completed it.
pub proof fn lemma_emission_frame_number(cur: Option<PendingModel>, h: FrameHeader, data: Seq<u8>)
    ensures
        spec_add(cur, h, data).1 matches Some(e) ==> e.0.frame_number == h.frame_number,
{
}

/// The outcome of feeding a sequence of segments one after another: the
/// final state, and every emitted frame in emission order.
pub open spec fn feed_outcomes(cur: Option<PendingModel>, feeds: Seq<(FrameHeader, Seq<u8>)>) -> (
    Option<PendingModel>,
    Seq<(FrameMetadata, Seq<u8>)>,
)
    decreases feeds.len(),
{
    if feeds.len() == 0 {
        (cur, Seq::empty())
    } else {
        let (mid, ems) = feed_outcomes(cur, feeds.drop_last());
        let (fin, em) = spec_add(mid, feeds.last().0, feeds.last().1);
        (
            fin,
            ems + match em {
                Some(e) => seq![e],
                None => Seq::empty(),
            },
        )
    }
}

/// The FRAME header under which segment i of a frame travels.
pub open spec fn seg_header(frame_number: u64, pts_us: u64, capture_ts_us: u64, b: Seq<u8>, i: int) -> FrameHeader {
    FrameHeader {
        frame_number,
        pts_us,
        capture_ts_us,
        frame_size: b.len() as u32,
        segment_index: i as u16,
        segment_count: spec_seg_count(b.len() as int) as u16,
    }
}

/// A pending reassembly holding exactly the segments of `b` whose indices
/// appear in the first k places of the feeding order.
spec fn partial_state(
    p: PendingModel,
    frame_number: u64,
    pts_us: u64,
    capture_ts_us: u64,
    b: Seq<u8>,
    order: Seq<int>,
    k: int,
) -> bool {
    &&& p.frame_number == frame_number
    &&& p.pts_us == pts_us
    &&& p.capture_ts_us == capture_ts_us
    &&& p.frame_size == b.len() as u32
    &&& p.segment_count as int == spec_seg_count(b.len() as int)
    &&& p.slots.len() == p.segment_count as int
    &&& forall|j: int| 0 <= j < p.slots.len() ==> ((#[trigger] p.slots[j]) is Some <==> order.take(
        k,
    ).contains(j))
    &&& forall|j: int| 0 <= j < p.slots.len() && (#[trigger] p.slots[j]) is Some ==> p.slots[j]
        == Some(spec_seg_data(b, j))
    &&& count_filled(p.slots) == k
}

/// Slots that hold every segment of `b` concatenate back to `b`.
proof fn lemma_concat_slots_prefix(b: Seq<u8>, slots: Seq<Option<Seq<u8>>>, k: int)
    requires
        slots.len() == spec_seg_count(b.len() as int),
        forall|j: int| 0 <= j < slots.len() ==> #[trigger] slots[j] == Some(spec_seg_data(b, j)),
        0 <= k <= slots.len(),
    ensures
        spec_concat_slots(slots.take(k)) == b.subrange(
            0,
            if k == slots.len() { b.len() as int } else { k * (MAX_SEGMENT_SIZE as int) },
        ),
    decreases k,
{
    let len = b.len() as int;
    let m = MAX_SEGMENT_SIZE as int;
    let count = slots.len() as int;
    lemma_seg_count_bounds(len);
    if k == 0 {
        assert(slots.take(0) =~= Seq::<Option<Seq<u8>>>::empty());
        assert(spec_concat_slots(slots.take(0)) =~= b.subrange(0, 0));
    } else {
        lemma_concat_slots_prefix(b, slots, k - 1);
        lemma_seg_bounds(len, k - 1);
        let prev_end = (k - 1) * m;
        let this_end = if k == count { len } else { k * m };
        assert(spec_seg_end(len, k - 1) == this_end);
        assert(slots.take(k).drop_last() =~= slots.take(k - 1));
        assert(slots.take(k).last() == slots[k - 1]);
        assert(spec_concat_slots(slots.take(k)) == spec_concat_slots(slots.take(k - 1))
            + spec_seg_data(b, k - 1));
        assert(b.subrange(0, prev_end) + b.subrange(prev_end, this_end) =~= b.subrange(0, this_end));
    }
}

proof fn lemma_concat_slots_full(b: Seq<u8>, slots: Seq<Option<Seq<u8>>>)
    requires
        slots.len() == spec_seg_count(b.len() as int),
        forall|j: int| 0 <= j < slots.len() ==> #[trigger] slots[j] == Some(spec_seg_data(b, j)),
    ensures
        spec_concat_slots(slots) == b,
{
    lemma_concat_slots_prefix(b, slots, slots.len() as int);
    assert(slots.take(slots.len() as int) =~= slots);
    assert(b.subrange(0, b.len() as int) =~= b);
}

/// After feeding the first k segments of the order: for k short of the whole
/// frame, a pending reassembly holding exactly those segments and no
/// emission; for k covering it, no pending state and the frame emitted once.
proof fn lemma_feed_prefix(
    frame_number: u64,
    pts_us: u64,
    capture_ts_us: u64,
    b: Seq<u8>,
    order: Seq<int>,
    k: int,
)
    requires
        b.len() <= MAX_FRAME_DATA,
        order.len() == spec_seg_count(b.len() as int),
        forall|i: int| 0 <= i < order.len() ==> 0 <= #[trigger] order[i] < order.len(),
        forall|i: int, j: int| 0 <= i < j < order.len() ==> order[i] != order[j],
        1 <= k <= order.len(),
    ensures
        ({
            let feeds = Seq::new(
                order.len() as nat,
                |t: int| (
                    seg_header(frame_number, pts_us, capture_ts_us, b, order[t]),
                    spec_seg_data(b, order[t]),
                ),
            );
            let (fin, ems) = feed_outcomes(None::<PendingModel>, feeds.take(k));
            if k < order.len() {
                &&& fin matches Some(p) && partial_state(
                    p,
                    frame_number,
                    pts_us,
                    capture_ts_us,
                    b,
                    order,
                    k,
                )
                &&& ems =~= Seq::<(FrameMetadata, Seq<u8>)>::empty()
            } else {
                &&& fin is None
                &&& ems =~= seq![
                    (
                        FrameMetadata {
                            frame_number,
                            pts_us,
                            capture_ts_us,
                            is_keyframe: false,
                        },
                        b,
                    ),
                ]
            }
        }),
    decreases k,
{
    let len = b.len() as int;
    let n = order.len() as int;
    let md = FrameMetadata { frame_number, pts_us, capture_ts_us, is_keyframe: false };
    lemma_seg_count_bounds(len);
    assert(n <= 65535) by {
        if len > 0 {
            assert((spec_seg_count(len) - 1) * (MAX_SEGMENT_SIZE as int) < len);
        }
    }
    let feeds = Seq::new(
        order.len() as nat,
        |t: int| (
            seg_header(frame_number, pts_us, capture_ts_us, b, order[t]),
            spec_seg_data(b, order[t]),
        ),
    );
    let idx = order[k - 1];
    let h = seg_header(frame_number, pts_us, capture_ts_us, b, idx);
    let d = spec_seg_data(b, idx);
    assert(feeds.take(k).drop_last() =~= feeds.take(k - 1));
    assert(feeds.take(k).last() == (h, d));

    if k == 1 {
        assert(feeds.take(0) =~= Seq::<(FrameHeader, Seq<u8>)>::empty());
        let (fin, em) = spec_add(None::<PendingModel>, h, d);
        let slots0 = Seq::new(h.segment_count as nat, |i: int| None::<Seq<u8>>).update(
            idx,
            Some(d),
        );
        if n == 1 {
            assert(idx == 0);
            lemma_seg_bounds(len, 0);
            assert(d =~= b);
            assert(fin is None);
            assert(em == Some((md, b)));
        } else {
            let p = fin.unwrap();
            lemma_count_filled_empty(h.segment_count as nat);
            lemma_count_filled_update(
                Seq::new(h.segment_count as nat, |i: int| None::<Seq<u8>>),
                idx,
                d,
            );
            assert(count_filled(p.slots) == 1);
            assert forall|j: int| 0 <= j < p.slots.len() implies ((#[trigger] p.slots[j]) is Some
                <==> order.take(1).contains(j)) by {
                if p.slots[j] is Some {
                    assert(j == idx);
                    assert(order.take(1)[0] == idx);
                }
                if order.take(1).contains(j) {
                    let w = choose|w: int| 0 <= w < order.take(1).len() && #[trigger] order.take(1)[w] == j;
                    assert(w == 0);
                    assert(j == idx);
                }
            }
            assert(partial_state(p, frame_number, pts_us, capture_ts_us, b, order, 1));
        }
        return;
    }

    lemma_feed_prefix(frame_number, pts_us, capture_ts_us, b, order, k - 1);
    let (mid, ems_p) = feed_outcomes(None::<PendingModel>, feeds.take(k - 1));
    let p = mid.unwrap();
    assert(partial_state(p, frame_number, pts_us, capture_ts_us, b, order, k - 1));

    // The k-th segment's slot is still empty: its index appears nowhere in
    // the first k - 1 places of the order.
    assert(0 <= idx < p.slots.len());
    assert(!order.take(k - 1).contains(idx)) by {
        if order.take(k - 1).contains(idx) {
            let w = choose|w: int| 0 <= w < order.take(k - 1).len() && #[trigger] order.take(k - 1)[w] == idx;
            assert(order[w] == order[k - 1]);
        }
    }
    assert(p.slots[idx] is None);
    assert(h.segment_count == p.segment_count);

    let slots2 = p.slots.update(idx, Some(d));
    lemma_count_filled_update(p.slots, idx, d);
    assert(count_filled(slots2) == k);

    let (fin, em) = spec_add(mid, h, d);

    if k == n {
        assert(count_filled(slots2) == p.segment_count);
        lemma_count_filled_full(slots2);
        assert forall|j: int| 0 <= j < slots2.len() implies #[trigger] slots2[j] == Some(
            spec_seg_data(b, j),
        ) by {
            if j != idx {
                assert(slots2[j] is Some);
                assert(slots2[j] == p.slots[j]);
                assert(p.slots[j] is Some);
            }
        }
        lemma_concat_slots_full(b, slots2);
        assert(fin is None);
        assert(em == Some((md, b)));
    } else {
        assert(count_filled(slots2) != p.segment_count as int);
        let p2 = fin.unwrap();
        assert(p2.slots == slots2);
        assert forall|j: int| 0 <= j < p2.slots.len() implies ((#[trigger] p2.slots[j]) is Some
            <==> order.take(k).contains(j)) by {
            assert(order.take(k) =~= order.take(k - 1).push(idx));
            if p2.slots[j] is Some {
                if j == idx {
                    assert(order.take(k)[k - 1] == idx);
                } else {
                    assert(p.slots[j] is Some);
                    let w = choose|w: int|
                        0 <= w < order.take(k - 1).len() && #[trigger] order.take(k - 1)[w] == j;
                    assert(order.take(k)[w] == j);
                }
            }
            if order.take(k).contains(j) {
                let w = choose|w: int| 0 <= w < order.take(k).len() && #[trigger] order.take(k)[w] == j;
                if w < k - 1 {
                    assert(order.take(k - 1)[w] == j);
                    assert(p.slots[j] is Some);
                } else {
                    assert(j == idx);
                }
            }
        }
        assert(partial_state(p2, frame_number, pts_us, capture_ts_us, b, order, k));
    }
}

/// Reassembly law: feeding the segments of one frame in any order, each
/// exactly once, completes the frame with exactly the frame's bytes, and
/// emits nothing before the last segment arrives.
pub proof fn lemma_reassembly_complete(
    frame_number: u64,
    pts_us: u64,
    capture_ts_us: u64,
    b: Seq<u8>,
    order: Seq<int>,
)
    requires
        b.len() <= MAX_FRAME_DATA,
        order.len() == spec_seg_count(b.len() as int),
        forall|i: int| 0 <= i < order.len() ==> 0 <= #[trigger] order[i] < order.len(),
        forall|i: int, j: int| 0 <= i < j < order.len() ==> order[i] != order[j],
    ensures
        ({
            let feeds = Seq::new(
                order.len() as nat,
                |t: int| (
                    seg_header(frame_number, pts_us, capture_ts_us, b, order[t]),
                    spec_seg_data(b, order[t]),
                ),
            );
            let (fin, ems) = feed_outcomes(None::<PendingModel>, feeds);
            &&& fin is None
            &&& ems == seq![
                (
                    FrameMetadata { frame_number, pts_us, capture_ts_us, is_keyframe: false },
                    b,
                ),
            ]
        }),
{
    let feeds = Seq::new(
        order.len() as nat,
        |t: int| (
            seg_header(frame_number, pts_us, capture_ts_us, b, order[t]),
            spec_seg_data(b, order[t]),
        ),
    );
    lemma_seg_count_bounds(b.len() as int);
    lemma_feed_prefix(frame_number, pts_us, capture_ts_us, b, order, order.len() as int);
    assert(feeds.take(order.len() as int) =~= feeds);
}

/// End to end: the FRAME payloads that carry one frame's segments, parsed
/// and fed in order to an idle reassembler, complete exactly that frame.
///
/// Each payload is the segment's 32-byte FRAME header followed by its
/// bytes, as the source emits them; the receiving side parses the header
/// back out of the payload and feeds the rest, as the sink does.
pub proof fn lemma_frame_pipeline(md: FrameMetadata, b: Seq<u8>)
    requires
        b.len() <= MAX_FRAME_DATA,
    ensures
        ({
            let n = spec_seg_count(b.len() as int);
            let feeds = Seq::new(
                n as nat,
                |i: int|
                    {
                        let payload = spec_frame_header_bytes(seg_header(
                            md.frame_number,
                            md.pts_us,
                            md.capture_ts_us,
                            b,
                            i,
                        )) + spec_seg_data(b, i);
                        (spec_parse_frame_header(payload), payload.skip(32))
                    },
            );
            let r = feed_outcomes(None::<PendingModel>, feeds);
            &&& r.0 is None
            &&& r.1 == seq![
                (
                    FrameMetadata {
                        frame_number: md.frame_number,
                        pts_us: md.pts_us,
                        capture_ts_us: md.capture_ts_us,
                        is_keyframe: false,
                    },
                    b,
                ),
            ]
        }),
{
    let len = b.len() as int;
    let n = spec_seg_count(len);
    lemma_seg_count_bounds(len);
    let order = Seq::new(n as nat, |i: int| i);
    let feeds2 = Seq::new(
        n as nat,
        |k: int| (
            seg_header(md.frame_number, md.pts_us, md.capture_ts_us, b, order[k]),
            spec_seg_data(b, order[k]),
        ),
    );
    let feeds = Seq::new(
        n as nat,
        |i: int|
            {
                let payload = spec_frame_header_bytes(seg_header(
                    md.frame_number,
                    md.pts_us,
                    md.capture_ts_us,
                    b,
                    i,
                )) + spec_seg_data(b, i);
                (spec_parse_frame_header(payload), payload.skip(32))
            },
    );
    assert forall|i: int| 0 <= i < n implies feeds[i] == feeds2[i] by {
        let h = seg_header(md.frame_number, md.pts_us, md.capture_ts_us, b, i);
        let payload = spec_frame_header_bytes(h) + spec_seg_data(b, i);
        assert(spec_frame_header_bytes(h).len() == 32);
        assert(payload.subrange(0, 32) =~= spec_frame_header_bytes(h));
        crate::protocol::lemma_frame_header_roundtrip_prefix(h, payload);
        assert(payload.skip(32) =~= spec_seg_data(b, i));
    }
    assert(feeds =~= feeds2);
    lemma_reassembly_complete(md.frame_number, md.pts_us, md.capture_ts_us, b, order);
}

/// Ordering: when segments arrive with non-decreasing frame numbers, the
/// frames the reassembler emits also carry non-decreasing frame numbers.
pub proof fn lemma_emissions_ordered(feeds: Seq<(FrameHeader, Seq<u8>)>)
    requires
        forall|i: int| 0 <= i < feeds.len() - 1 ==> (#[trigger] feeds[i].0).frame_number
            <= feeds[i + 1].0.frame_number,
    ensures
        ({
            let ems = feed_outcomes(None::<PendingModel>, feeds).1;
            &&& forall|i: int, j: int| 0 <= i < j < ems.len() ==> (#[trigger] ems[i].0).frame_number
                <= (#[trigger] ems[j].0).frame_number
            &&& ems.len() > 0 && feeds.len() > 0 ==> ems.last().0.frame_number
                <= feeds.last().0.frame_number
        }),
    decreases feeds.len(),
{
    if feeds.len() > 0 {
        let prefix = feeds.drop_last();
        assert forall|i: int| 0 <= i < prefix.len() - 1 implies (#[trigger] prefix[i].0).frame_number
            <= prefix[i + 1].0.frame_number by {
            assert(feeds[i].0.frame_number <= feeds[i + 1].0.frame_number);
        }
        lemma_emissions_ordered(prefix);
        let (mid, ems_p) = feed_outcomes(None::<PendingModel>, prefix);
        let (fin, em) = spec_add(mid, feeds.last().0, feeds.last().1);
        let ems = feed_outcomes(None::<PendingModel>, feeds).1;
        lemma_emission_frame_number(mid, feeds.last().0, feeds.last().1);
        if prefix.len() > 0 {
            assert(prefix.last().0.frame_number <= feeds.last().0.frame_number);
        }
        if prefix.len() == 0 {
            assert(ems_p.len() == 0);
        }
        match em {
            Some(e) => {
                assert(ems =~= ems_p + seq![e]);
                assert(e.0.frame_number == feeds.last().0.frame_number);
                assert forall|i: int, j: int| 0 <= i < j < ems.len() implies
                    (#[trigger] ems[i].0).frame_number <= (#[trigger] ems[j].0).frame_number by {
                    if j < ems_p.len() {
                        assert(ems[i] == ems_p[i] && ems[j] == ems_p[j]);
                        assert(ems_p[i].0.frame_number <= ems_p[j].0.frame_number);
                    } else {
                        assert(ems[j] == e);
                        assert(ems[i] == ems_p[i]);
                        assert(prefix.len() > 0);
                        if i < ems_p.len() - 1 {
                            assert(ems_p[i].0.frame_number <= ems_p.last().0.frame_number);
                        }
                        assert(ems_p.last().0.frame_number <= prefix.last().0.frame_number);
                        assert(prefix[prefix.len() - 1] == feeds[feeds.len() - 2]);
                        assert(feeds[feeds.len() - 2].0.frame_number
                            <= feeds[feeds.len() - 1].0.frame_number);
                    }
                }
                assert(ems.last() == e);
            }
            None => {
                assert(ems =~= ems_p);
                if ems.len() > 0 {
                    assert(prefix.len() > 0);
                    assert(ems.last().0.frame_number <= prefix.last().0.frame_number);
                    assert(prefix[prefix.len() - 1] == feeds[feeds.len() - 2]);
                    assert(feeds[feeds.len() - 2].0.frame_number
                        <= feeds[feeds.len() - 1].0.frame_number);
                }
            }
        }
    }
}

/// A decoded video frame ready for rendering: YUV420P planes stored as one
/// contiguous buffer, Y then U then V.
#[derive(Debug, Clone)]
pub struct DecodedFrame {
    pub frame_number: u64,
    pub pts_us: u64,
    pub width: u32,
    pub height: u32,
    /// YUV420P bytes: Y plane, then U plane, then V plane.
    pub yuv_data: Vec<u8>,
}

impl DecodedFrame {
    /// The luma plane's byte count: one byte per pixel.
    pub open spec fn y_size(self) -> int {
        self.width as int * self.height as int
    }

    /// Each chroma plane's byte count: a quarter of the luma plane.
    pub open spec fn uv_size(self) -> int {
        self.y_size() / 4
    }

    /// The frame's plane bytes.
    pub open spec fn data(self) -> Seq<u8> {
        self.yuv_data@
    }

    /// A well-formed frame: the pixel count fits a 32-bit value and the
    /// buffer holds exactly the three YUV420P planes.
    pub open spec fn wf(self) -> bool {
        &&& self.width as int * self.height as int <= u32::MAX as int
        &&& self.data().len() == self.y_size() + 2 * self.uv_size()
    }

    pub fn new(frame_number: u64, pts_us: u64, width: u32, height: u32, yuv_data: Vec<u8>) -> (r: Self)
        requires
            width as int * height as int <= u32::MAX as int,
            yuv_data@.len() == width as int * height as int + 2 * ((width as int * height as int)
                / 4),
        ensures
            r.frame_number == frame_number,
            r.pts_us == pts_us,
            r.width == width,
            r.height == height,
            r.data() == yuv_data@,
            r.wf(),
    {
        Self { frame_number, pts_us, width, height, yuv_data }
    }

    /// The Y (luma) plane.
    pub fn y_plane(&self) -> (r: &[u8])
        requires
            self.wf(),
        ensures
            r@ == self.data().subrange(0, self.y_size()),
    {
        let y_size: usize = (self.width * self.height) as usize;
        vstd::slice::slice_subrange(self.yuv_data.as_slice(), 0, y_size)
    }

    /// The U (chroma-blue) plane.
    pub fn u_plane(&self) -> (r: &[u8])
        requires
            self.wf(),
        ensures
            r@ == self.data().subrange(self.y_size(), self.y_size() + self.uv_size()),
    {
        let n: usize = self.yuv_data.len();
        let y_size: usize = (self.width * self.height) as usize;
        let uv_size: usize = y_size / 4;
        assert(y_size + uv_size <= n);
        vstd::slice::slice_subrange(self.yuv_data.as_slice(), y_size, y_size + uv_size)
    }

    /// The V (chroma-red) plane.
    pub fn v_plane(&self) -> (r: &[u8])
        requires
            self.wf(),
        ensures
            r@ == self.data().subrange(self.y_size() + self.uv_size(), self.data().len() as int),
    {
        let n: usize = self.yuv_data.len();
        let y_size: usize = (self.width * self.height) as usize;
        let uv_size: usize = y_size / 4;
        assert(y_size + uv_size <= n);
        vstd::slice::slice_subrange(self.yuv_data.as_slice(), y_size + uv_size, n)
    }

    /// Bytes per row of the Y plane.
    pub fn y_stride(&self) -> (r: usize)
        ensures
            r == self.width as int,
    {
        self.width as usize
    }

    /// Bytes per row of the U and V planes.
    pub fn uv_stride(&self) -> (r: usize)
        ensures
            r == self.width as int / 2,
    {
        (self.width / 2) as usize
    }
}

/// The first `rows` rows of a plane stored with a row stride, copied tightly
/// one after another: row r contributes the `width` bytes starting at
/// r * stride.
pub open spec fn spec_packed_rows(data: Seq<u8>, stride: int, width: int, rows: int) -> Seq<u8>
    decreases rows,
{
    if rows <= 0 {
        Seq::empty()
    } else {
        spec_packed_rows(data, stride, width, rows - 1) + data.subrange(
            (rows - 1) * stride,
            (rows - 1) * stride + width,
        )
    }
}

pub proof fn lemma_packed_rows_len(data: Seq<u8>, stride: int, width: int, rows: int)
    requires
        0 <= width <= stride,
        0 <= rows,
        rows > 0 ==> (rows - 1) * stride + width <= data.len(),
    ensures
        spec_packed_rows(data, stride, width, rows).len() == rows * width,
    decreases rows,
{
    if rows > 0 {
        assert(0 <= (rows - 1) * stride) by (nonlinear_arith)
            requires
                0 <= rows - 1,
                0 <= stride,
        ;
        if rows > 1 {
            assert((rows - 2) * stride <= (rows - 1) * stride) by (nonlinear_arith)
                requires
                    0 <= stride,
                    rows > 1,
            ;
        }
        lemma_packed_rows_len(data, stride, width, rows - 1);
        assert(rows * width == (rows - 1) * width + width) by (nonlinear_arith);
    } else {
        assert(rows * width == 0) by (nonlinear_arith)
            requires
                rows == 0,
        ;
    }
}

/// Copy a plane stored with a row stride into a tightly packed buffer of
/// `height` rows of `width` bytes.
pub fn pack_plane(data: &[u8], stride: usize, width: usize, height: usize) -> (r: Vec<u8>)
    requires
        width <= stride,
        height > 0 ==> (height - 1) * stride + width <= data@.len(),
    ensures
        r@ == spec_packed_rows(data@, stride as int, width as int, height as int),
        r@.len() == height * width,
{
    let n: usize = data.len();
    let mut out: Vec<u8> = Vec::new();
    let mut row: usize = 0;
    while row < height
        invariant
            row <= height,
            width <= stride,
            n == data@.len(),
            height > 0 ==> (height - 1) * stride + width <= n,
            out@ == spec_packed_rows(data@, stride as int, width as int, row as int),
        decreases height - row,
    {
        proof {
            assert(row * stride <= (height - 1) * stride) by (nonlinear_arith)
                requires
                    row <= height - 1,
                    0 <= stride,
            ;
        }
        let start: usize = row * stride;
        let end: usize = start + width;
        push_bytes(&mut out, vstd::slice::slice_subrange(data, start, end));
        row = row + 1;
    }
    proof {
        lemma_packed_rows_len(data@, stride as int, width as int, height as int);
    }
    out
}

/// Pack decoded YUV420P planes, each stored with its own stride, into the
/// single contiguous buffer a decoded frame holds: the Y rows, then the U
/// rows, then the V rows.
pub fn pack_yuv420p(
    y: &[u8],
    u: &[u8],
    v: &[u8],
    y_stride: usize,
    uv_stride: usize,
    width: usize,
    height: usize,
) -> (r: Vec<u8>)
    requires
        width <= y_stride,
        width / 2 <= uv_stride,
        height > 0 ==> (height - 1) * y_stride + width <= y@.len(),
        height / 2 > 0 ==> (height / 2 - 1) * uv_stride + width / 2 <= u@.len(),
        height / 2 > 0 ==> (height / 2 - 1) * uv_stride + width / 2 <= v@.len(),
    ensures
        r@ == spec_packed_rows(y@, y_stride as int, width as int, height as int)
            + spec_packed_rows(u@, uv_stride as int, width as int / 2, height as int / 2)
            + spec_packed_rows(v@, uv_stride as int, width as int / 2, height as int / 2),
        r@.len() == height * width + 2 * ((height / 2) * (width / 2)),
{
    let mut out = pack_plane(y, y_stride, width, height);
    let packed_u = pack_plane(u, uv_stride, width / 2, height / 2);
    push_bytes(&mut out, packed_u.as_slice());
    let packed_v = pack_plane(v, uv_stride, width / 2, height / 2);
    push_bytes(&mut out, packed_v.as_slice());
    out
}

} // verus!
