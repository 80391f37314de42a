//! Scatter-gather arrays.

use vstd::prelude::*;

verus! {

/// What a segment holds.
#[verifier::ext_equal]
pub struct SegmentView {
    /// Number of bytes.
    pub len: nat,
    /// The bytes, unless there is no memory behind the segment.
    pub data: Option<Seq<u8>>,
}

impl SegmentView {
    /// The bytes behind the segment.
    pub open spec fn bytes(self) -> Seq<u8> {
        match self.data {
            Some(data) => data,
            None => Seq::empty(),
        }
    }

    /// The segment after its first bytes were overwritten.
    pub open spec fn overwritten(self, bytes: Seq<u8>) -> SegmentView {
        SegmentView { len: self.len, data: Some(bytes + self.bytes().skip(bytes.len() as int)) }
    }

    /// Whether the memory behind the segment, if any, is as large as the segment says.
    pub open spec fn wf(self) -> bool {
        self.data matches Some(data) ==> data.len() == self.len
    }

    /// Whether there is memory behind every byte of the segment.
    pub open spec fn is_backed(self) -> bool {
        self.wf() && (self.len > 0 ==> self.data is Some)
    }
}

/// A piece of memory in a scatter-gather array.
#[derive(Debug)]
pub struct Segment {
    /// Number of bytes.
    pub data_len_bytes: u32,
    /// The bytes, unless there is no memory behind the segment.
    pub data: Option<Vec<u8>>,
}

impl View for Segment {
    type V = SegmentView;

    open spec fn view(&self) -> SegmentView {
        SegmentView {
            len: self.data_len_bytes as nat,
            data: match self.data {
                Some(data) => Some(data@),
                None => None,
            },
        }
    }
}

/// A scatter-gather array: bytes in several pieces of memory.
#[derive(Debug)]
pub struct SgArray {
    pub segments: Vec<Segment>,
}

impl View for SgArray {
    type V = Seq<SegmentView>;

    open spec fn view(&self) -> Seq<SegmentView> {
        self.segments@.map_values(|segment: Segment| segment@)
    }
}

/// Whether every segment is well formed.
pub open spec fn sga_wf(segments: Seq<SegmentView>) -> bool {
    forall|i: int| 0 <= i < segments.len() ==> (#[trigger] segments[i]).wf()
}

/// Whether there is memory behind every byte.
pub open spec fn sga_is_backed(segments: Seq<SegmentView>) -> bool {
    forall|i: int| 0 <= i < segments.len() ==> (#[trigger] segments[i]).is_backed()
}

/// The bytes of a scatter-gather array.
pub open spec fn gathered(segments: Seq<SegmentView>) -> Seq<u8>
    decreases segments.len(),
{
    if segments.len() == 0 {
        Seq::empty()
    } else {
        segments[0].bytes() + gathered(segments.skip(1))
    }
}

/// How many bytes there are up to the first empty segment.
pub open spec fn capacity(segments: Seq<SegmentView>) -> nat
    decreases segments.len(),
{
    if segments.len() == 0 || segments[0].len == 0 {
        0
    } else {
        segments[0].len + capacity(segments.skip(1))
    }
}

/// The scatter-gather array after `payload` was written over its first bytes.
pub open spec fn scattered(payload: Seq<u8>, segments: Seq<SegmentView>) -> Seq<SegmentView>
    decreases segments.len(),
{
    if segments.len() == 0 || payload.len() == 0 {
        segments
    } else {
        let n = if segments[0].len < payload.len() {
            segments[0].len as int
        } else {
            payload.len() as int
        };
        seq![segments[0].overwritten(payload.take(n))] + scattered(payload.skip(n), segments.skip(1))
    }
}

impl Segment {
    /// Overwrites the first bytes of the segment with `count` bytes of `payload`, from `from` on.
    fn overwrite(&mut self, payload: &[u8], from: usize, count: usize)
        requires
            old(self)@.is_backed(),
            0 < count <= old(self)@.len,
            from + count <= payload@.len(),
        ensures
            final(self)@ == old(self)@.overwritten(payload@.subrange(from as int, from + count)),
    {
        let ghost before = self@;
        let total: usize = payload.len();
        let mut i: usize = 0;
        if let Some(data) = &mut self.data {
            assert(data@ =~= payload@.subrange(from as int, from + 0) + before.bytes().skip(0));
            while i < count
                invariant
                    i <= count <= data@.len(),
                    data@.len() == before.bytes().len(),
                    from + count <= total == payload@.len(),
                    data@ == payload@.subrange(from as int, from + i) + before.bytes().skip(i as int),
                decreases count - i,
            {
                data.set(i, payload[from + i]);
                i = i + 1;
                assert(data@ =~= payload@.subrange(from as int, from + i) + before.bytes().skip(i as int));
            }
        }
    }
}

impl SgArray {
    /// Writes `payload` over the first bytes, as far as there are bytes up to the first empty segment. Tells how many
    /// were written.
    pub fn scatter(&mut self, payload: &[u8]) -> (copied: usize)
        requires
            sga_is_backed(old(self)@),
        ensures
            copied == if capacity(old(self)@) < payload@.len() {
                capacity(old(self)@)
            } else {
                payload@.len()
            },
            final(self)@ == scattered(payload@.take(copied as int), old(self)@),
    {
        let ghost before = self@;
        let ghost fits = if capacity(before) < payload@.len() {
            payload@.take(capacity(before) as int)
        } else {
            payload@.take(payload@.len() as int)
        };
        let mut offset: usize = 0;
        let mut i: usize = 0;
        proof {
            assert(before.skip(0) =~= before);
            assert(fits.skip(0) =~= fits);
            assert(self@.take(0) + scattered(fits, before) =~= scattered(fits, before));
        }
        while i < self.segments.len()
            invariant_except_break
                fits.len() - offset == if capacity(before.skip(i as int)) < payload@.len() - offset {
                    capacity(before.skip(i as int)) as int
                } else {
                    payload@.len() - offset
                },
            invariant
                i <= self@.len() == before.len(),
                offset <= fits.len() <= payload@.len(),
                fits == payload@.take(fits.len() as int),
                sga_is_backed(before),
                self@.skip(i as int) == before.skip(i as int),
                self@.take(i as int) + scattered(fits.skip(offset as int), before.skip(i as int)) == scattered(
                    fits,
                    before,
                ),
            ensures
                offset == fits.len(),
            decreases self.segments@.len() - i,
        {
            let ghost rest = before.skip(i as int);
            let ghost now = self@;
            assert(now.skip(i as int)[0] == self.segments@[i as int]@);
            assert(rest[0] == before[i as int]);
            let seg_len: usize = self.segments[i].data_len_bytes as usize;
            let left: usize = payload.len() - offset;
            let to_copy: usize = if seg_len < left {
                seg_len
            } else {
                left
            };
            if to_copy == 0 {
                break ;
            }
            let segment = &mut self.segments[i];
            segment.overwrite(payload, offset, to_copy);
            proof {
                let todo = fits.skip(offset as int);
                let piece = rest[0].overwritten(todo.take(to_copy as int));
                assert(todo.take(to_copy as int) =~= payload@.subrange(offset as int, offset + to_copy));
                assert(self@ =~= now.update(i as int, piece));
                assert(self@.skip(i + 1) =~= now.skip(i as int).skip(1));
                assert(rest.skip(1) =~= before.skip(i + 1));
                assert(todo.skip(to_copy as int) =~= fits.skip(offset + to_copy));
                let more = scattered(todo.skip(to_copy as int), rest.skip(1));
                assert(self@.take(i + 1) + more =~= now.take(i as int) + (seq![piece] + more));
            }
            offset = offset + to_copy;
            i = i + 1;
        }
        proof {
            assert(fits.skip(offset as int) =~= Seq::<u8>::empty());
            assert(self@ =~= self@.take(i as int) + self@.skip(i as int));
        }
        offset
    }

    /// The bytes of the array, one segment after the other.
    pub fn gather(&self) -> (data: Vec<u8>)
        requires
            sga_wf(self@),
        ensures
            data@ == gathered(self@),
    {
        let mut data: Vec<u8> = Vec::new();
        let mut i: usize = 0;
        assert(self@.skip(0) =~= self@);
        assert(data@ + gathered(self@) =~= gathered(self@));
        while i < self.segments.len()
            invariant
                i <= self.segments@.len(),
                sga_wf(self@),
                data@ + gathered(self@.skip(i as int)) == gathered(self@),
            decreases self.segments@.len() - i,
        {
            let segment = &self.segments[i];
            let ghost written = data@;
            let ghost rest = self@.skip(i as int);
            assert(rest[0] == segment@);
            assert(rest[0].wf());
            assert(rest.skip(1) =~= self@.skip(i + 1));
            if let Some(bytes) = &segment.data {
                if segment.data_len_bytes > 0 {
                    data.extend_from_slice(bytes.as_slice());
                }
                assert(data@ =~= written + rest[0].bytes());
            }
            assert(data@ + gathered(rest.skip(1)) =~= written + gathered(rest));
            i = i + 1;
        }
        assert(self@.skip(i as int) =~= Seq::<SegmentView>::empty());
        assert(data@ + Seq::<u8>::empty() =~= data@);
        data
    }
}

/// Writing over a scatter-gather array changes the bytes and nothing else.
pub proof fn law_scatter_keeps_shape(payload: Seq<u8>, segments: Seq<SegmentView>)
    requires
        sga_is_backed(segments),
        payload.len() <= gathered(segments).len(),
    ensures
        scattered(payload, segments).len() == segments.len(),
        sga_is_backed(scattered(payload, segments)),
        forall|i: int|
            0 <= i < segments.len() ==> (#[trigger] scattered(payload, segments)[i]).len == segments[i].len,
    decreases segments.len(),
{
    if segments.len() > 0 && payload.len() > 0 {
        assert(segments[0].is_backed());
        let n = if segments[0].len < payload.len() {
            segments[0].len as int
        } else {
            payload.len() as int
        };
        let rest = segments.skip(1);
        assert forall|i: int| 0 <= i < rest.len() implies (#[trigger] rest[i]).is_backed() by {
            assert(segments[i + 1].is_backed());
        }
        law_scatter_keeps_shape(payload.skip(n), rest);
        let first = segments[0].overwritten(payload.take(n));
        let after = scattered(payload, segments);
        assert(after =~= seq![first] + scattered(payload.skip(n), rest));
        assert forall|i: int| 0 <= i < after.len() implies (#[trigger] after[i]).is_backed() && after[i].len
            == segments[i].len by {
            if i > 0 {
                assert(after[i] == scattered(payload.skip(n), rest)[i - 1]);
                assert(rest[i - 1] == segments[i]);
            }
        }
    }
}

/// What was scattered is gathered again, in front of the bytes that were not written over. Where there are no others,
/// the bytes gathered are the bytes scattered.
pub proof fn law_gather_of_scattered(payload: Seq<u8>, segments: Seq<SegmentView>)
    requires
        sga_is_backed(segments),
        payload.len() <= gathered(segments).len(),
    ensures
        gathered(scattered(payload, segments)) == payload + gathered(segments).skip(payload.len() as int),
        payload.len() == gathered(segments).len() ==> gathered(scattered(payload, segments)) == payload,
    decreases segments.len(),
{
    if segments.len() > 0 && payload.len() > 0 {
        assert(segments[0].is_backed());
        let n = if segments[0].len < payload.len() {
            segments[0].len as int
        } else {
            payload.len() as int
        };
        let rest = segments.skip(1);
        assert forall|i: int| 0 <= i < rest.len() implies (#[trigger] rest[i]).is_backed() by {
            assert(segments[i + 1].is_backed());
        }
        law_gather_of_scattered(payload.skip(n), rest);
        let first = segments[0].overwritten(payload.take(n));
        let after = scattered(payload, segments);
        assert(after =~= seq![first] + scattered(payload.skip(n), rest));
        assert(after.skip(1) =~= scattered(payload.skip(n), rest));
        assert(gathered(after) == first.bytes() + gathered(after.skip(1)));
        assert(gathered(after) =~= payload + gathered(segments).skip(payload.len() as int));
    } else {
        assert(gathered(segments) =~= payload + gathered(segments).skip(payload.len() as int));
    }
    if payload.len() == gathered(segments).len() {
        assert(payload + gathered(segments).skip(payload.len() as int) =~= payload);
    }
}

/// The bytes of two arrays, one behind the other, are the bytes of the first and then those of the second; the bytes of
/// one segment are those of its memory, and of no segment none.
pub proof fn law_gather_one_by_one(first: Seq<SegmentView>, second: Seq<SegmentView>, one: SegmentView)
    ensures
        gathered(first + second) == gathered(first) + gathered(second),
        one.data matches Some(data) ==> gathered(seq![one]) == data,
        one.data is None ==> gathered(seq![one]).len() == 0,
        gathered(Seq::empty()).len() == 0,
    decreases first.len(),
{
    let all = first + second;
    if first.len() == 0 {
        assert(all =~= second);
        assert(gathered(first) + gathered(second) =~= gathered(second));
    } else {
        law_gather_one_by_one(first.skip(1), second, one);
        assert(all.skip(1) =~= first.skip(1) + second);
        assert(gathered(all) =~= gathered(first) + gathered(second));
    }
    let single = seq![one];
    assert(single.skip(1) =~= Seq::<SegmentView>::empty());
    assert(gathered(single.skip(1)) =~= Seq::<u8>::empty());
    assert(gathered(single) =~= one.bytes());
}

/// The room of an array is what its segments hold up to the first empty one.
pub proof fn law_capacity_ends_at_empty_segment(segments: Seq<SegmentView>, n: int)
    requires
        sga_is_backed(segments),
        0 <= n <= segments.len(),
        forall|i: int| 0 <= i < n ==> (#[trigger] segments[i]).len > 0,
        n < segments.len() ==> segments[n].len == 0,
    ensures
        capacity(segments) == gathered(segments.take(n)).len(),
        capacity(segments) <= gathered(segments).len(),
    decreases n,
{
    if n == 0 {
        assert(gathered(segments.take(0)).len() == 0);
    } else {
        let rest = segments.skip(1);
        assert(segments[0].is_backed());
        assert forall|i: int| 0 <= i < rest.len() implies (#[trigger] rest[i]).is_backed() by {
            assert(segments[i + 1].is_backed());
        }
        assert forall|i: int| 0 <= i < n - 1 implies (#[trigger] rest[i]).len > 0 by {
            assert(segments[i + 1].len > 0);
        }
        law_capacity_ends_at_empty_segment(rest, n - 1);
        assert(segments.take(n).skip(1) =~= rest.take(n - 1));
    }
}

/// Whether there is memory: every byte that a segment counts is there, exactly those, or the segment counts but has no
/// memory at all.
pub proof fn law_memory_of_segments(segment: SegmentView)
    ensures
        segment.wf() <==> segment.data is None || segment.data->0.len() == segment.len,
        segment.is_backed() ==> segment.bytes().len() == segment.len,
        segment.is_backed() <==> segment.wf() && (segment.len == 0 || segment.data is Some),
{
}

} // verus!
