//! Packet buffers.

use crate::runtime::errno::{einval, EINVAL};
use crate::runtime::fail::{fail_view, Fail};
use vstd::prelude::*;
use vstd::slice::slice_subrange;

verus! {

/// The largest number of bytes that a buffer stores, headroom and tailroom included.
pub const MAX_BUFFER_SIZE: usize = 65535;

/// The contents of a packet buffer: the packet, and the spare room in front of it and behind it.
#[verifier::ext_equal]
pub struct BufferView {
    /// The bytes in front of the packet, into which headers can be prepended.
    pub head: Seq<u8>,
    /// The packet.
    pub data: Seq<u8>,
    /// The bytes behind the packet.
    pub tail: Seq<u8>,
    /// Whether the storage came out of a DPDK memory pool.
    pub dpdk: bool,
}

impl BufferView {
    /// Whether a buffer can hold these contents.
    pub open spec fn wf(self) -> bool {
        self.head.len() + self.data.len() + self.tail.len() <= MAX_BUFFER_SIZE
    }

    /// The contents after the first `n` bytes of the packet went over to the headroom.
    pub open spec fn adjust(self, n: int) -> BufferView {
        BufferView { head: self.head + self.data.take(n), data: self.data.skip(n), ..self }
    }

    /// The contents after the last `n` bytes of the packet went over to the tailroom.
    pub open spec fn trim(self, n: int) -> BufferView {
        let keep = self.data.len() - n;
        BufferView { data: self.data.take(keep), tail: self.data.skip(keep) + self.tail, ..self }
    }

    /// The contents after the last `n` bytes of the headroom went over to the packet.
    pub open spec fn prepend(self, n: int) -> BufferView {
        self.attach(self.head.skip(self.head.len() - n))
    }

    /// The contents after the last bytes of the headroom were replaced by `header`, which became the front of the
    /// packet.
    pub open spec fn attach(self, header: Seq<u8>) -> BufferView {
        BufferView {
            head: self.head.take(self.head.len() - header.len()),
            data: header + self.data,
            ..self
        }
    }
}

/// A packet in a contiguous piece of storage, with room in front of it and behind it.
#[derive(Debug)]
pub struct DemiBuffer {
    storage: Vec<u8>,
    data_off: usize,
    data_len: usize,
    dpdk_allocated: bool,
}

impl View for DemiBuffer {
    type V = BufferView;

    closed spec fn view(&self) -> BufferView {
        let end = self.data_off + self.data_len;
        BufferView {
            head: self.storage@.take(self.data_off as int),
            data: self.storage@.subrange(self.data_off as int, end),
            tail: self.storage@.skip(end),
            dpdk: self.dpdk_allocated,
        }
    }
}

impl DemiBuffer {
    #[verifier::type_invariant]
    closed spec fn inv(self) -> bool {
        &&& self.storage@.len() <= MAX_BUFFER_SIZE
        &&& self.data_off + self.data_len <= self.storage@.len()
    }

    /// Allocates a zeroed packet of `capacity` bytes behind `headroom` bytes of headroom.
    pub fn new_with_headroom(capacity: u16, headroom: u16) -> (buffer: DemiBuffer)
        requires
            capacity + headroom <= MAX_BUFFER_SIZE,
        ensures
            buffer@ == (BufferView {
                head: zeros(headroom as nat),
                data: zeros(capacity as nat),
                tail: Seq::empty(),
                dpdk: false,
            }),
    {
        let size: usize = capacity as usize + headroom as usize;
        let storage: Vec<u8> = vec![0u8; size];
        let buffer = DemiBuffer {
            storage,
            data_off: headroom as usize,
            data_len: capacity as usize,
            dpdk_allocated: false,
        };
        assert(buffer@.head =~= zeros(headroom as nat));
        assert(buffer@.data =~= zeros(capacity as nat));
        assert(buffer@.tail =~= Seq::<u8>::empty());
        buffer
    }

    /// Makes a buffer out of a whole piece of storage, of which the packet takes up `data_len` bytes from `data_off`
    /// on.
    pub fn from_storage(
        storage: Vec<u8>,
        data_off: usize,
        data_len: usize,
        dpdk_allocated: bool,
    ) -> (buffer: DemiBuffer)
        requires
            storage@.len() <= MAX_BUFFER_SIZE,
            data_off + data_len <= storage@.len(),
        ensures
            buffer@ == (BufferView {
                head: storage@.take(data_off as int),
                data: storage@.subrange(data_off as int, data_off + data_len),
                tail: storage@.skip(data_off + data_len),
                dpdk: dpdk_allocated,
            }),
    {
        DemiBuffer { storage, data_off, data_len, dpdk_allocated }
    }

    /// Number of bytes in the packet.
    pub fn len(&self) -> (n: usize)
        ensures
            n == self@.data.len(),
            self@.wf(),
    {
        proof {
            use_type_invariant(self);
        }
        self.data_len
    }

    /// Number of bytes in front of the packet.
    pub fn headroom(&self) -> (n: usize)
        ensures
            n == self@.head.len(),
            self@.wf(),
    {
        proof {
            use_type_invariant(self);
        }
        self.data_off
    }

    /// Whether the storage came out of a DPDK memory pool.
    pub fn is_dpdk_allocated(&self) -> (dpdk: bool)
        ensures
            dpdk == self@.dpdk,
    {
        self.dpdk_allocated
    }

    /// The packet.
    pub fn as_slice(&self) -> (bytes: &[u8])
        ensures
            bytes@ == self@.data,
            self@.wf(),
    {
        proof {
            use_type_invariant(self);
        }
        slice_subrange(self.storage.as_slice(), self.data_off, self.data_off + self.data_len)
    }

    /// One byte of the packet.
    pub fn get(&self, index: usize) -> (byte: u8)
        requires
            index < self@.data.len(),
        ensures
            byte == self@.data[index as int],
    {
        proof {
            use_type_invariant(self);
        }
        self.storage[self.data_off + index]
    }

    /// Overwrites one byte of the packet.
    pub fn set(&mut self, index: usize, byte: u8)
        requires
            index < old(self)@.data.len(),
        ensures
            final(self)@ == (BufferView { data: old(self)@.data.update(index as int, byte), ..old(self)@ }),
    {
        proof {
            use_type_invariant(&*self);
        }
        let at: usize = self.data_off + index;
        self.storage[at] = byte;
        assert(self@ =~= (BufferView { data: old(self)@.data.update(index as int, byte), ..old(self)@ }));
    }

    /// Overwrites the packet with bytes of the same number.
    pub fn copy_from_slice(&mut self, source: &[u8])
        requires
            source@.len() == old(self)@.data.len(),
        ensures
            final(self)@ == (BufferView { data: source@, ..old(self)@ }),
    {
        let n: usize = self.len();
        let mut i: usize = 0;
        assert(self@.data =~= source@.take(0) + old(self)@.data.skip(0));
        while i < n
            invariant
                i <= n,
                n == source@.len() == old(self)@.data.len(),
                self@.data == source@.take(i as int) + old(self)@.data.skip(i as int),
                self@ == (BufferView { data: self@.data, ..old(self)@ }),
            decreases n - i,
        {
            self.set(i, source[i]);
            i = i + 1;
            assert(self@.data =~= source@.take(i as int) + old(self)@.data.skip(i as int));
        }
        assert(self@.data =~= source@);
    }

    /// Removes the first `nbytes` bytes of the packet; they become headroom.
    pub fn adjust(&mut self, nbytes: usize) -> (result: Result<(), Fail>)
        ensures
            match result {
                Ok(_) => nbytes <= old(self)@.data.len() && final(self)@ == old(self)@.adjust(nbytes as int),
                Err(fail) => {
                    &&& nbytes > old(self)@.data.len()
                    &&& final(self)@ == old(self)@
                    &&& fail@ == fail_view(EINVAL, "tried to remove more bytes than are present"@)
                },
            },
    {
        proof {
            use_type_invariant(&*self);
        }
        if nbytes > self.data_len {
            return Err(Fail::new(einval(), "tried to remove more bytes than are present"));
        }
        self.data_len = self.data_len - nbytes;
        self.data_off = self.data_off + nbytes;
        assert(self@ =~= old(self)@.adjust(nbytes as int));
        Ok(())
    }

    /// Removes the last `nbytes` bytes of the packet; they become tailroom.
    pub fn trim(&mut self, nbytes: usize) -> (result: Result<(), Fail>)
        ensures
            match result {
                Ok(_) => nbytes <= old(self)@.data.len() && final(self)@ == old(self)@.trim(nbytes as int),
                Err(fail) => {
                    &&& nbytes > old(self)@.data.len()
                    &&& final(self)@ == old(self)@
                    &&& fail@ == fail_view(EINVAL, "tried to remove more bytes than are present"@)
                },
            },
    {
        proof {
            use_type_invariant(&*self);
        }
        if nbytes > self.data_len {
            return Err(Fail::new(einval(), "tried to remove more bytes than are present"));
        }
        self.data_len = self.data_len - nbytes;
        assert(self@ =~= old(self)@.trim(nbytes as int));
        Ok(())
    }

    /// Extends the packet by the last `nbytes` bytes of the headroom.
    pub fn prepend(&mut self, nbytes: usize) -> (result: Result<(), Fail>)
        ensures
            match result {
                Ok(_) => nbytes <= old(self)@.head.len() && final(self)@ == old(self)@.prepend(nbytes as int),
                Err(fail) => {
                    &&& nbytes > old(self)@.head.len()
                    &&& final(self)@ == old(self)@
                    &&& fail@ == fail_view(EINVAL, "tried to prepend more bytes than are allowed"@)
                },
            },
    {
        proof {
            use_type_invariant(&*self);
        }
        if nbytes > self.data_off {
            return Err(Fail::new(einval(), "tried to prepend more bytes than are allowed"));
        }
        self.data_off = self.data_off - nbytes;
        self.data_len = self.data_len + nbytes;
        assert(self@ =~= old(self)@.prepend(nbytes as int));
        Ok(())
    }

    /// Writes `header` into the end of the headroom, which becomes the front of the packet.
    pub fn attach(&mut self, header: &[u8])
        requires
            header@.len() <= old(self)@.head.len(),
        ensures
            final(self)@ == old(self)@.attach(header@),
    {
        let n: usize = header.len();
        let ghost before = self@;
        let _ = self.prepend(n);
        let mut i: usize = 0;
        assert(self@ =~= before.attach(header@.take(0) + before.head.skip(before.head.len() - n)));
        while i < n
            invariant
                i <= n == header@.len() <= before.head.len(),
                self@ == before.attach(header@.take(i as int) + before.head.skip(before.head.len() - n + i)),
            decreases n - i,
        {
            self.set(i, header[i]);
            i = i + 1;
            assert(self@ =~= before.attach(header@.take(i as int) + before.head.skip(before.head.len() - n + i)));
        }
        assert(self@ =~= before.attach(header@));
    }

    /// Hands the packet over as a DPDK message buffer, if its storage came out of a DPDK memory pool.
    pub fn into_mbuf(self) -> (mbuf: Option<Mbuf>)
        ensures
            match mbuf {
                Some(mbuf) => self@.dpdk && mbuf@ == self@,
                None => !self@.dpdk,
            },
    {
        if self.dpdk_allocated {
            Some(Mbuf { buffer: self })
        } else {
            None
        }
    }

    /// Takes the packet out of a DPDK message buffer.
    pub fn from_mbuf(mbuf: Mbuf) -> (buffer: DemiBuffer)
        ensures
            buffer@ == mbuf@,
            buffer@.dpdk,
    {
        proof {
            use_type_invariant(&mbuf);
        }
        mbuf.buffer
    }
}

/// Where packet buffers come from.
pub trait DemiMemoryAllocator {
    /// The largest number of bytes in a buffer.
    fn max_buffer_size_bytes(&self) -> usize;

    /// Allocates a buffer for `size` bytes.
    fn allocate_demi_buffer(&self, size: usize) -> Result<DemiBuffer, Fail>;
}

/// `n` zero bytes.
pub open spec fn zeros(n: nat) -> Seq<u8> {
    Seq::new(n, |i: int| 0u8)
}

/// A DPDK message buffer: a packet in storage out of a DPDK memory pool.
#[derive(Debug)]
pub struct Mbuf {
    buffer: DemiBuffer,
}

impl View for Mbuf {
    type V = BufferView;

    closed spec fn view(&self) -> BufferView {
        self.buffer@
    }
}

impl Mbuf {
    #[verifier::type_invariant]
    closed spec fn inv(self) -> bool {
        self.buffer@.dpdk
    }

    /// Number of bytes in the packet.
    pub fn len(&self) -> (n: usize)
        ensures
            n == self@.data.len(),
    {
        self.buffer.len()
    }

    /// The packet.
    pub fn as_slice(&self) -> (bytes: &[u8])
        ensures
            bytes@ == self@.data,
    {
        self.buffer.as_slice()
    }
}

/// Taking bytes off the front of a packet and prepending as many gives the packet back.
pub proof fn law_prepend_undoes_adjust(b: BufferView, n: int)
    requires
        0 <= n <= b.data.len(),
    ensures
        b.adjust(n).prepend(n) == b,
{
    assert(b.adjust(n).prepend(n) =~= b);
}

/// Prepending bytes and taking as many off the front gives the packet back.
pub proof fn law_adjust_undoes_prepend(b: BufferView, n: int)
    requires
        0 <= n <= b.head.len(),
    ensures
        b.prepend(n).adjust(n) == b,
{
    assert(b.prepend(n).adjust(n) =~= b);
}

/// Moving the ends of a packet moves bytes between the packet and the room around it: none is lost, changed or put
/// elsewhere.
pub proof fn law_ends_move(b: BufferView, n: int)
    ensures
        0 <= n <= b.data.len() ==> {
            let after = b.adjust(n);
            &&& after.head + after.data + after.tail == b.head + b.data + b.tail
            &&& after.data.len() == b.data.len() - n
            &&& after.head.len() == b.head.len() + n
            &&& after.tail == b.tail
            &&& after.dpdk == b.dpdk
        },
        0 <= n <= b.data.len() ==> {
            let after = b.trim(n);
            &&& after.head + after.data + after.tail == b.head + b.data + b.tail
            &&& after.data.len() == b.data.len() - n
            &&& after.head == b.head
            &&& after.dpdk == b.dpdk
        },
        0 <= n <= b.head.len() ==> {
            let after = b.prepend(n);
            &&& after.head + after.data + after.tail == b.head + b.data + b.tail
            &&& after.data.len() == b.data.len() + n
            &&& after.tail == b.tail
            &&& after.dpdk == b.dpdk
        },
{
    if 0 <= n <= b.data.len() {
        let adjusted = b.adjust(n);
        assert(adjusted.head + adjusted.data + adjusted.tail =~= b.head + b.data + b.tail);
        let trimmed = b.trim(n);
        assert(trimmed.head + trimmed.data + trimmed.tail =~= b.head + b.data + b.tail);
    }
    if 0 <= n <= b.head.len() {
        let prepended = b.prepend(n);
        assert(prepended.head + prepended.data + prepended.tail =~= b.head + b.data + b.tail);
    }
}

/// A header that is attached stands in front of the packet and takes up as much of the headroom, from its end;
/// everything else stays.
pub proof fn law_attached_header(b: BufferView, header: Seq<u8>)
    requires
        header.len() <= b.head.len(),
    ensures
        ({
            let after = b.attach(header);
            &&& after.data.take(header.len() as int) == header
            &&& after.data.skip(header.len() as int) == b.data
            &&& after.head == b.head.take(b.head.len() - header.len())
            &&& after.tail == b.tail
            &&& after.dpdk == b.dpdk
            &&& after.wf() == b.wf()
        }),
{
    let after = b.attach(header);
    assert(after.data.take(header.len() as int) =~= header);
    assert(after.data.skip(header.len() as int) =~= b.data);
}

/// A buffer holds up to 65535 bytes, the room around the packet among them; zeros are zeros.
pub proof fn law_buffer_size(b: BufferView, n: nat)
    ensures
        b.wf() <==> b.head.len() + b.data.len() + b.tail.len() <= 65535,
        zeros(n).len() == n,
        forall|i: int| 0 <= i < n ==> zeros(n)[i] == 0,
{
}

} // verus!
