//! Packets on their way to and from the network card.
//!
//! The network card reads and writes message buffers. A packet in other storage is copied into one on its way out.

use crate::catnip::runtime::{DPDKRuntime, SharedDPDKRuntime};
use crate::inetstack::consts::MAX_BATCH_SIZE_NUM_PACKETS;
use crate::inetstack::protocols::layer1::{batch_packets, new_packet_batch, push_packet, take_packets};
use crate::inetstack::protocols::layer3::ip::IpProtocol;
use crate::runtime::errno::{eagain, einval, EAGAIN, EINVAL};
use crate::runtime::fail::{fail_view, Fail, FailView};
use crate::runtime::memory::{BufferView, DemiBuffer, Mbuf};
use arrayvec::ArrayVec;
use vstd::prelude::*;

verus! {

/// The contents of several buffers.
pub open spec fn buffer_views(buffers: Seq<DemiBuffer>) -> Seq<BufferView> {
    buffers.map_values(|buffer: DemiBuffer| buffer@)
}

/// The contents of several message buffers.
pub open spec fn mbuf_views(mbufs: Seq<Mbuf>) -> Seq<BufferView> {
    mbufs.map_values(|mbuf: Mbuf| mbuf@)
}

/// The packets in several buffers.
pub open spec fn payloads(buffers: Seq<BufferView>) -> Seq<Seq<u8>> {
    buffers.map_values(|buffer: BufferView| buffer.data)
}

/// Where the transmission of a batch stands.
pub enum TransmitStepView {
    Allocate { mbufs: Seq<BufferView>, waiting: Seq<BufferView> },
    Send { mbufs: Seq<BufferView> },
}

/// How a transmission goes on by itself: packets that are in message buffers need nothing, and one that is not needs
/// a message buffer, unless it is larger than any.
pub open spec fn spec_advance(max_body_size: usize, mbufs: Seq<BufferView>, waiting: Seq<BufferView>) -> Result<
    TransmitStepView,
    FailView,
>
    decreases waiting.len(),
{
    if waiting.len() == 0 {
        Ok(TransmitStepView::Send { mbufs })
    } else if waiting[0].dpdk {
        spec_advance(max_body_size, mbufs.push(waiting[0]), waiting.skip(1))
    } else if waiting[0].data.len() <= max_body_size {
        Ok(TransmitStepView::Allocate { mbufs, waiting })
    } else {
        Err(fail_view(EINVAL, "packet too large for DPDK buffer"@))
    }
}

/// A batch of packets on its way out, of which the first that waits needs a message buffer.
#[derive(Debug)]
pub struct Transmission {
    runtime: DPDKRuntime,
    mbufs: Vec<Mbuf>,
    packet: DemiBuffer,
    waiting: Vec<DemiBuffer>,
}

impl Transmission {
    /// The runtime that transmits.
    pub closed spec fn runtime(self) -> DPDKRuntime {
        self.runtime
    }

    /// The packets that are in message buffers.
    pub closed spec fn mbufs(self) -> Seq<BufferView> {
        mbuf_views(self.mbufs@)
    }

    /// The packets that are not, first the one that needs a message buffer.
    pub closed spec fn waiting(self) -> Seq<BufferView> {
        seq![self.packet@] + buffer_views(self.waiting@)
    }
}

/// What a transmission needs next.
#[derive(Debug)]
pub enum TransmitStep {
    /// A message buffer for `size` bytes out of the memory pool.
    Allocate { size: usize, transmission: Transmission },
    /// `rte_eth_tx_burst`, which takes the message buffers.
    Send { port: u16, queue: u16, mbufs: Vec<Mbuf> },
}

impl TransmitStep {
    /// Whether this step, of the transmission of `runtime`, stands where `view` says.
    pub open spec fn shows(self, runtime: DPDKRuntime, view: TransmitStepView) -> bool {
        match (self, view) {
            (TransmitStep::Allocate { size, transmission }, TransmitStepView::Allocate { mbufs, waiting }) => {
                &&& size == waiting[0].data.len()
                &&& transmission.runtime() == runtime
                &&& transmission.mbufs() == mbufs
                &&& transmission.waiting() == waiting
            },
            (TransmitStep::Send { port, queue, mbufs }, TransmitStepView::Send { mbufs: sent }) => {
                &&& port == runtime.port_id
                &&& queue == 0
                &&& mbuf_views(mbufs@) == sent
            },
            _ => false,
        }
    }
}

/// Whether `result` is how the transmission of `runtime` goes on according to `spec`.
pub open spec fn goes_on(
    runtime: DPDKRuntime,
    result: Result<TransmitStep, Fail>,
    spec: Result<TransmitStepView, FailView>,
) -> bool {
    match (result, spec) {
        (Ok(step), Ok(view)) => step.shows(runtime, view),
        (Err(fail), Err(view)) => fail@ == view,
        _ => false,
    }
}

/// Goes on with a transmission as far as it needs nothing.
fn advance(runtime: DPDKRuntime, ready: Vec<Mbuf>, packets: Vec<DemiBuffer>) -> (step: Result<TransmitStep, Fail>)
    ensures
        goes_on(runtime, step, spec_advance(runtime.max_body_size, mbuf_views(ready@), buffer_views(packets@))),
{
    let mut mbufs = ready;
    let mut waiting = packets;
    loop
        invariant
            spec_advance(runtime.max_body_size, mbuf_views(ready@), buffer_views(packets@)) == spec_advance(
                runtime.max_body_size,
                mbuf_views(mbufs@),
                buffer_views(waiting@),
            ),
        decreases waiting@.len(),
    {
        let ghost before = waiting@;
        if waiting.len() == 0 {
            return Ok(TransmitStep::Send { port: runtime.port_id, queue: 0, mbufs });
        }
        let packet = waiting.remove(0);
        assert(buffer_views(before)[0] == packet@);
        assert(buffer_views(before).skip(1) =~= buffer_views(waiting@));
        let size: usize = packet.len();
        if packet.is_dpdk_allocated() {
            let mbuf = match packet.into_mbuf() {
                Some(mbuf) => mbuf,
                None => return Err(Fail::new(einval(), "failed to extract DPDK mbuf")),
            };
            assert(mbuf_views(mbufs@.push(mbuf)) =~= mbuf_views(mbufs@).push(mbuf@));
            mbufs.push(mbuf);
        } else if size <= runtime.max_body_size {
            let transmission = Transmission { runtime, mbufs, packet, waiting };
            assert(transmission.waiting() =~= buffer_views(before));
            return Ok(TransmitStep::Allocate { size, transmission });
        } else {
            return Err(Fail::new(einval(), "packet too large for DPDK buffer"));
        }
    }
}

/// Copies a packet into a message buffer of its size.
fn fill(mbuf: DemiBuffer, packet: &DemiBuffer) -> (result: Result<Mbuf, Fail>)
    requires
        mbuf@.data.len() == packet@.data.len(),
        mbuf@.dpdk,
    ensures
        result matches Ok(filled) && filled@ == (BufferView { data: packet@.data, ..mbuf@ }),
{
    let mut mbuf = mbuf;
    mbuf.copy_from_slice(packet.as_slice());
    match mbuf.into_mbuf() {
        Some(filled) => Ok(filled),
        None => Err(Fail::new(einval(), "failed to convert copied buffer to mbuf")),
    }
}

impl Transmission {
    /// How the transmission goes on once it was given a message buffer.
    pub open spec fn spec_resume(self, mbuf: BufferView) -> Result<TransmitStepView, FailView> {
        spec_advance(
            self.runtime().max_body_size,
            self.mbufs().push(BufferView { data: self.waiting()[0].data, ..mbuf }),
            self.waiting().skip(1),
        )
    }

    /// Goes on with what the memory pool gave for the packet.
    pub fn resume(self, allocated: Result<Mbuf, Fail>) -> (step: Result<TransmitStep, Fail>)
        requires
            allocated matches Ok(mbuf) ==> mbuf@.data.len() == self.waiting()[0].data.len(),
        ensures
            match allocated {
                Ok(mbuf) => goes_on(self.runtime(), step, self.spec_resume(mbuf@)),
                Err(fail) => step matches Err(e) && e@ == fail@,
            },
    {
        let mbuf = match SharedDPDKRuntime::dpdk_allocate_mbuf(allocated) {
            Ok(mbuf) => mbuf,
            Err(fail) => return Err(fail),
        };
        let ghost filled = BufferView { data: self.packet@.data, ..mbuf@ };
        let ghost mbufs_before = self.mbufs();
        assert(self.waiting().skip(1) =~= buffer_views(self.waiting@));
        let mbuf = match fill(mbuf, &self.packet) {
            Ok(mbuf) => mbuf,
            Err(fail) => return Err(fail),
        };
        let mut mbufs = self.mbufs;
        assert(mbuf_views(mbufs@.push(mbuf)) =~= mbufs_before.push(filled));
        mbufs.push(mbuf);
        advance(self.runtime, mbufs, self.waiting)
    }
}

/// The offload flags of a packet: which checksums the network card is to compute. The flag for IPv4 is set on every
/// packet; those for the checksum of the IPv4 header and for that of TCP or UDP only go together.
pub open spec fn spec_offload_flags(runtime: DPDKRuntime, protocol: IpProtocol) -> u64 {
    if runtime.tcp_checksum_offload && protocol == IpProtocol::TCP {
        (1u64 << 55) | (1u64 << 54) | (1u64 << 52)
    } else if runtime.udp_checksum_offload && protocol == IpProtocol::UDP {
        (1u64 << 55) | (1u64 << 54) | (3u64 << 52)
    } else {
        1u64 << 55
    }
}

/// The header lengths of a packet in one word: seven bits for layer 2, nine for layer 3, eight for layer 4.
pub open spec fn spec_tx_offload(l2_header_len: u8, l3_header_len: u8, l4_header_len: u8) -> int {
    l2_header_len % 128 + l3_header_len * 128 + l4_header_len * 65536
}

/// The header lengths of a packet in one word.
pub fn tx_offload(l2_header_len: u8, l3_header_len: u8, l4_header_len: u8) -> (word: u64)
    ensures
        word == spec_tx_offload(l2_header_len, l3_header_len, l4_header_len),
{
    let l2: u64 = l2_header_len as u64 & 0x7F;
    let l3: u64 = (l3_header_len as u64 & 0x1FF) << 7;
    let l4: u64 = (l4_header_len as u64 & 0xFF) << 16;
    proof {
        lemma_offload_word(l2_header_len, l3_header_len, l4_header_len);
    }
    l2 | l3 | l4
}

proof fn lemma_offload_word(a: u8, b: u8, c: u8)
    ensures
        ((a as u64 & 0x7F) | ((b as u64 & 0x1FF) << 7) | ((c as u64 & 0xFF) << 16)) == spec_tx_offload(a, b, c),
{
    assert(((a as u64 & 0x7F) | ((b as u64 & 0x1FF) << 7) | ((c as u64 & 0xFF) << 16)) == (a as u64) % 128 + (
    b as u64) * 128 + (c as u64) * 65536) by (bit_vector);
}

/// The offload flags of a packet.
pub fn offload_flags(runtime: &DPDKRuntime, protocol: IpProtocol) -> (flags: u64)
    ensures
        flags == spec_offload_flags(*runtime, protocol),
{
    if runtime.tcp_checksum_offload && protocol == IpProtocol::TCP {
        (1u64 << 55) | (1u64 << 54) | (1u64 << 52)
    } else if runtime.udp_checksum_offload && protocol == IpProtocol::UDP {
        (1u64 << 55) | (1u64 << 54) | (3u64 << 52)
    } else {
        1u64 << 55
    }
}

/// A packet on its way out, with what the network card needs to know of it, for which there is no message buffer yet.
#[derive(Debug)]
pub struct OffloadTransmission {
    pub packet: DemiBuffer,
    pub port: u16,
    pub ol_flags: u64,
    pub tx_offload: u64,
}

/// What such a transmission needs next.
#[derive(Debug)]
pub enum OffloadStep {
    /// A message buffer for `size` bytes out of the memory pool.
    Allocate { size: usize, transmission: OffloadTransmission },
    /// Flags and header lengths go into the message buffer, and `rte_eth_tx_burst` takes it.
    Send { port: u16, queue: u16, mbuf: Mbuf, ol_flags: u64, tx_offload: u64 },
}

impl OffloadTransmission {
    /// Goes on with what the memory pool gave for the packet.
    pub fn resume(self, allocated: Result<Mbuf, Fail>) -> (step: Result<OffloadStep, Fail>)
        requires
            allocated matches Ok(mbuf) ==> mbuf@.data.len() == self.packet@.data.len(),
        ensures
            match allocated {
                Ok(given) => {
                    &&& step matches Ok(OffloadStep::Send { port, queue, mbuf, ol_flags, tx_offload })
                    &&& port == self.port
                    &&& queue == 0
                    &&& mbuf@ == (BufferView { data: self.packet@.data, ..given@ })
                    &&& ol_flags == self.ol_flags
                    &&& tx_offload == self.tx_offload
                },
                Err(fail) => step matches Err(e) && e@ == fail@,
            },
    {
        let mbuf = match SharedDPDKRuntime::dpdk_allocate_mbuf(allocated) {
            Ok(mbuf) => mbuf,
            Err(fail) => return Err(fail),
        };
        let mbuf = match fill(mbuf, &self.packet) {
            Ok(mbuf) => mbuf,
            Err(fail) => return Err(fail),
        };
        let ol_flags: u64 = self.ol_flags;
        let tx_offload: u64 = self.tx_offload;
        Ok(OffloadStep::Send { port: self.port, queue: 0, mbuf, ol_flags, tx_offload })
    }
}

/// How such a transmission ended.
#[derive(Debug)]
pub enum OffloadEnd {
    /// It succeeded. The message buffer is the network card's and must not be freed.
    Sent { mbuf: Mbuf },
    /// It failed. The message buffer is to be freed, and `fail` is to be reported.
    Free { mbuf: Mbuf, fail: Fail },
}

impl OffloadEnd {
    /// The message buffer that is to be freed, if any.
    pub open spec fn to_free(self) -> Option<BufferView> {
        match self {
            OffloadEnd::Sent { .. } => None,
            OffloadEnd::Free { mbuf, .. } => Some(mbuf@),
        }
    }

    /// What is reported of the transmission.
    pub open spec fn report(self) -> Result<(), FailView> {
        match self {
            OffloadEnd::Sent { .. } => Ok(()),
            OffloadEnd::Free { fail, .. } => Err(fail@),
        }
    }
}

/// A call of `rte_eth_rx_burst`, which brings at most `count` message buffers.
#[derive(Clone, Copy, Debug, PartialEq, Eq, Structural)]
pub struct RxBurst {
    pub port: u16,
    pub queue: u16,
    pub count: u16,
}

impl SharedDPDKRuntime {
    /// Takes the buffer that the memory pool gave.
    pub fn dpdk_allocate_mbuf(allocated: Result<Mbuf, Fail>) -> (buffer: Result<DemiBuffer, Fail>)
        ensures
            match (allocated, buffer) {
                (Ok(mbuf), Ok(buffer)) => buffer@ == mbuf@ && buffer@.dpdk,
                (Err(fail), Err(e)) => e@ == fail@,
                _ => false,
            },
    {
        match allocated {
            Ok(mbuf) => Ok(DemiBuffer::from_mbuf(mbuf)),
            Err(fail) => Err(fail),
        }
    }

    /// Starts to transmit a batch of packets. Once the message buffers went out the transmission is done, however
    /// many of them the network card took.
    pub fn transmit(&self, packets: ArrayVec<DemiBuffer, MAX_BATCH_SIZE_NUM_PACKETS>) -> (step: Result<
        TransmitStep,
        Fail,
    >)
        ensures
            goes_on(
                self.0,
                step,
                spec_advance(self.0.max_body_size, Seq::empty(), buffer_views(batch_packets(packets))),
            ),
    {
        let packets = take_packets(packets);
        let mbufs: Vec<Mbuf> = Vec::new();
        assert(mbuf_views(mbufs@) =~= Seq::<BufferView>::empty());
        advance(self.0, mbufs, packets)
    }

    /// Starts to transmit one packet, with what the network card needs to know to compute its checksums.
    pub fn transmit_with_offload(
        &self,
        packet: DemiBuffer,
        l2_header_len: u8,
        l3_header_len: u8,
        l4_header_len: u8,
        protocol: IpProtocol,
    ) -> (step: Result<OffloadStep, Fail>)
        ensures
            match step {
                Ok(OffloadStep::Send { port, queue, mbuf, ol_flags, tx_offload }) => {
                    &&& packet@.dpdk
                    &&& port == self.0.port_id
                    &&& queue == 0
                    &&& mbuf@ == packet@
                    &&& ol_flags == spec_offload_flags(self.0, protocol)
                    &&& tx_offload == spec_tx_offload(l2_header_len, l3_header_len, l4_header_len)
                },
                Ok(OffloadStep::Allocate { size, transmission }) => {
                    &&& !packet@.dpdk
                    &&& size == packet@.data.len() <= self.0.max_body_size
                    &&& transmission.packet@ == packet@
                    &&& transmission.port == self.0.port_id
                    &&& transmission.ol_flags == spec_offload_flags(self.0, protocol)
                    &&& transmission.tx_offload == spec_tx_offload(l2_header_len, l3_header_len, l4_header_len)
                },
                Err(fail) => {
                    &&& !packet@.dpdk
                    &&& packet@.data.len() > self.0.max_body_size
                    &&& fail@ == fail_view(EINVAL, "packet too large for DPDK buffer"@)
                },
            },
    {
        let port: u16 = self.0.port_id;
        let ol_flags: u64 = offload_flags(&self.0, protocol);
        let tx_offload: u64 = tx_offload(l2_header_len, l3_header_len, l4_header_len);
        let size: usize = packet.len();
        if packet.is_dpdk_allocated() {
            match packet.into_mbuf() {
                Some(mbuf) => Ok(OffloadStep::Send { port, queue: 0, mbuf, ol_flags, tx_offload }),
                None => Err(Fail::new(einval(), "failed to extract DPDK mbuf")),
            }
        } else if size <= self.0.max_body_size {
            let transmission = OffloadTransmission { packet, port, ol_flags, tx_offload };
            Ok(OffloadStep::Allocate { size, transmission })
        } else {
            Err(Fail::new(einval(), "packet too large for DPDK buffer"))
        }
    }

    /// Ends the transmission of one packet, in `mbuf`, of which the network card took `sent`.
    pub fn transmitted_with_offload(sent: u16, mbuf: Mbuf) -> (end: OffloadEnd)
        ensures
            end matches OffloadEnd::Sent { mbuf: taken } ==> taken@ == mbuf@,
            end.to_free() == if sent == 1 {
                None
            } else {
                Some(mbuf@)
            },
            end.report() == if sent == 1 {
                Ok::<(), FailView>(())
            } else {
                Err(fail_view(EAGAIN, "TX queue full"@))
            },
    {
        if sent == 1 {
            OffloadEnd::Sent { mbuf }
        } else {
            OffloadEnd::Free { mbuf, fail: Fail::new(eagain(), "TX queue full") }
        }
    }

    /// Starts to receive a batch of packets.
    pub fn rx_burst(&self) -> (burst: RxBurst)
        ensures
            burst.port == self.0.port_id,
            burst.queue == 0,
            burst.count == MAX_BATCH_SIZE_NUM_PACKETS,
    {
        RxBurst { port: self.0.port_id, queue: 0, count: MAX_BATCH_SIZE_NUM_PACKETS as u16 }
    }

    /// Receives the packets that `rte_eth_rx_burst` brought, no more than a batch.
    pub fn receive(&self, mbufs: Vec<Mbuf>) -> (result: Result<
        ArrayVec<DemiBuffer, MAX_BATCH_SIZE_NUM_PACKETS>,
        Fail,
    >)
        requires
            mbufs@.len() <= MAX_BATCH_SIZE_NUM_PACKETS,
        ensures
            result matches Ok(packets) && buffer_views(batch_packets(packets)) == mbuf_views(mbufs@),
    {
        let mut mbufs = mbufs;
        let ghost all = mbufs@;
        let mut packets = new_packet_batch();
        let ghost mut taken: int = 0;
        assert(buffer_views(batch_packets(packets)) =~= mbuf_views(all.take(0)));
        assert(all.skip(0) =~= all);
        while mbufs.len() > 0
            invariant
                0 <= taken <= all.len() <= MAX_BATCH_SIZE_NUM_PACKETS,
                mbufs@ == all.skip(taken),
                buffer_views(batch_packets(packets)) == mbuf_views(all.take(taken)),
            decreases mbufs@.len(),
        {
            assert(buffer_views(batch_packets(packets)).len() == batch_packets(packets).len());
            let ghost before = batch_packets(packets);
            let buffer = DemiBuffer::from_mbuf(mbufs.remove(0));
            push_packet(&mut packets, buffer);
            assert(buffer_views(before.push(buffer)) =~= buffer_views(before).push(buffer@));
            assert(all.take(taken + 1) =~= all.take(taken).push(all[taken]));
            assert(mbuf_views(all.take(taken).push(all[taken])) =~= mbuf_views(all.take(taken)).push(all[taken]@));
            proof {
                taken = taken + 1;
            }
            assert(mbufs@ =~= all.skip(taken));
            assert(buffer_views(batch_packets(packets)) =~= mbuf_views(all.take(taken)));
        }
        assert(all.take(taken) =~= all);
        Ok(packets)
    }

    /// The largest number of bytes in a buffer.
    pub fn max_buffer_size_bytes(&self) -> (size: usize)
        ensures
            size == self.0.max_body_size,
    {
        self.0.max_body_size
    }

    /// Takes the buffer of `size` bytes that the memory pool gave.
    pub fn allocate_demi_buffer(&self, size: usize, allocated: Result<Mbuf, Fail>) -> (buffer: Result<DemiBuffer, Fail>)
        requires
            size < self.0.max_body_size,
            allocated matches Ok(mbuf) ==> mbuf@.data.len() == size,
        ensures
            match (allocated, buffer) {
                (Ok(mbuf), Ok(buffer)) => buffer@ == mbuf@ && buffer@.dpdk && buffer@.data.len() == size,
                (Err(fail), Err(e)) => e@ == fail@,
                _ => false,
            },
    {
        SharedDPDKRuntime::dpdk_allocate_mbuf(allocated)
    }
}

/// Where the transmission of `waiting` stands once it was given the message buffers `given`, one after the other.
pub open spec fn transmission_after(
    max_body_size: usize,
    mbufs: Seq<BufferView>,
    waiting: Seq<BufferView>,
    given: Seq<BufferView>,
) -> Result<TransmitStepView, FailView>
    decreases given.len(),
{
    match spec_advance(max_body_size, mbufs, waiting) {
        Ok(TransmitStepView::Allocate { mbufs, waiting }) => if given.len() == 0 {
            Ok(TransmitStepView::Allocate { mbufs, waiting })
        } else {
            let filled = BufferView { data: waiting[0].data, ..given[0] };
            transmission_after(max_body_size, mbufs.push(filled), waiting.skip(1), given.skip(1))
        },
        end => end,
    }
}

/// Whether a packet can go out.
pub open spec fn is_sendable(max_body_size: usize, packet: BufferView) -> bool {
    packet.dpdk || packet.data.len() <= max_body_size
}

proof fn lemma_advance(max_body_size: usize, mbufs: Seq<BufferView>, waiting: Seq<BufferView>)
    ensures
        match spec_advance(max_body_size, mbufs, waiting) {
            Ok(TransmitStepView::Send { mbufs: sent }) => payloads(sent) == payloads(mbufs) + payloads(waiting),
            Ok(TransmitStepView::Allocate { mbufs: m, waiting: w }) => {
                &&& payloads(m) + payloads(w) == payloads(mbufs) + payloads(waiting)
                &&& 0 < w.len() <= waiting.len()
                &&& w == waiting.skip(waiting.len() - w.len())
            },
            Err(_) => exists|i: int| 0 <= i < waiting.len() && !is_sendable(max_body_size, #[trigger] waiting[i]),
        },
    decreases waiting.len(),
{
    if waiting.len() == 0 {
        assert(payloads(mbufs) + payloads(waiting) =~= payloads(mbufs));
    } else if waiting[0].dpdk {
        let rest = waiting.skip(1);
        lemma_advance(max_body_size, mbufs.push(waiting[0]), rest);
        assert(payloads(mbufs.push(waiting[0])) + payloads(rest) =~= payloads(mbufs) + payloads(waiting));
        match spec_advance(max_body_size, mbufs, waiting) {
            Ok(TransmitStepView::Allocate { waiting: w, .. }) => {
                assert(rest.skip(rest.len() - w.len()) =~= waiting.skip(waiting.len() - w.len()));
            },
            Ok(_) => {},
            Err(_) => {
                let i = choose|i: int| 0 <= i < rest.len() && !is_sendable(max_body_size, #[trigger] rest[i]);
                assert(!is_sendable(max_body_size, waiting[i + 1]));
            },
        }
    } else {
        assert(!is_sendable(max_body_size, waiting[0]) || waiting.skip(0) =~= waiting);
    }
}

/// The packets that go out are those that were handed over, all of them, unchanged and in order, whether or not they
/// were copied on the way.
pub proof fn law_packets_go_out_unchanged(
    max_body_size: usize,
    mbufs: Seq<BufferView>,
    waiting: Seq<BufferView>,
    given: Seq<BufferView>,
)
    ensures
        transmission_after(max_body_size, mbufs, waiting, given) matches Ok(TransmitStepView::Send { mbufs: sent })
            ==> payloads(sent) == payloads(mbufs) + payloads(waiting),
    decreases given.len(),
{
    lemma_advance(max_body_size, mbufs, waiting);
    if let Ok(TransmitStepView::Allocate { mbufs: m, waiting: w }) = spec_advance(max_body_size, mbufs, waiting) {
        if given.len() > 0 {
            let filled = BufferView { data: w[0].data, ..given[0] };
            law_packets_go_out_unchanged(max_body_size, m.push(filled), w.skip(1), given.skip(1));
            assert(payloads(m.push(filled)) + payloads(w.skip(1)) =~= payloads(m) + payloads(w));
        }
    }
}

/// A batch goes out if no packet of it is too large and the memory pool has a message buffer for each.
pub proof fn law_sendable_packets_go_out(
    max_body_size: usize,
    mbufs: Seq<BufferView>,
    waiting: Seq<BufferView>,
    given: Seq<BufferView>,
)
    requires
        forall|i: int| 0 <= i < waiting.len() ==> is_sendable(max_body_size, #[trigger] waiting[i]),
        given.len() >= waiting.len(),
    ensures
        transmission_after(max_body_size, mbufs, waiting, given) matches Ok(TransmitStepView::Send { .. }),
    decreases given.len(),
{
    lemma_advance(max_body_size, mbufs, waiting);
    if let Ok(TransmitStepView::Allocate { mbufs: m, waiting: w }) = spec_advance(max_body_size, mbufs, waiting) {
        let filled = BufferView { data: w[0].data, ..given[0] };
        assert forall|i: int| 0 <= i < w.skip(1).len() implies is_sendable(max_body_size, #[trigger] w.skip(1)[i]) by {
            assert(w.skip(1)[i] == waiting[waiting.len() - w.len() + i + 1]);
        }
        law_sendable_packets_go_out(max_body_size, m.push(filled), w.skip(1), given.skip(1));
    }
}

/// A batch with a packet that is too large does not go out, whatever the memory pool gives.
pub proof fn law_large_packets_stay(
    max_body_size: usize,
    mbufs: Seq<BufferView>,
    waiting: Seq<BufferView>,
    given: Seq<BufferView>,
    large: int,
)
    requires
        0 <= large < waiting.len(),
        !is_sendable(max_body_size, waiting[large]),
    ensures
        !(transmission_after(max_body_size, mbufs, waiting, given) matches Ok(TransmitStepView::Send { .. })),
    decreases waiting.len(), given.len(),
{
    if waiting[0].dpdk {
        law_large_packets_stay(max_body_size, mbufs.push(waiting[0]), waiting.skip(1), given, large - 1);
        lemma_after_advance(max_body_size, mbufs, waiting, given);
    } else if waiting[0].data.len() <= max_body_size && given.len() > 0 {
        let filled = BufferView { data: waiting[0].data, ..given[0] };
        law_large_packets_stay(max_body_size, mbufs.push(filled), waiting.skip(1), given.skip(1), large - 1);
    }
}

/// A packet that is in a message buffer makes no difference to what else a transmission needs.
proof fn lemma_after_advance(
    max_body_size: usize,
    mbufs: Seq<BufferView>,
    waiting: Seq<BufferView>,
    given: Seq<BufferView>,
)
    requires
        waiting.len() > 0,
        waiting[0].dpdk,
    ensures
        transmission_after(max_body_size, mbufs, waiting, given) == transmission_after(
            max_body_size,
            mbufs.push(waiting[0]),
            waiting.skip(1),
            given,
        ),
{
    reveal_with_fuel(transmission_after, 2);
}

/// The network card reads each header length back out of the word that holds them, that of layer 2 by its low seven
/// bits.
pub proof fn law_header_lengths_are_kept(l2_header_len: u8, l3_header_len: u8, l4_header_len: u8, word: u64)
    requires
        word == spec_tx_offload(l2_header_len, l3_header_len, l4_header_len),
    ensures
        word & 0x7F == l2_header_len & 0x7F,
        (word >> 7) & 0x1FF == l3_header_len,
        (word >> 16) & 0xFF == l4_header_len,
{
    lemma_offload_word(l2_header_len, l3_header_len, l4_header_len);
    lemma_offload_fields(l2_header_len, l3_header_len, l4_header_len);
}

proof fn lemma_offload_fields(a: u8, b: u8, c: u8)
    ensures
        ({
            let word = (a as u64 & 0x7F) | ((b as u64 & 0x1FF) << 7) | ((c as u64 & 0xFF) << 16);
            &&& word & 0x7F == a & 0x7F
            &&& (word >> 7) & 0x1FF == b
            &&& (word >> 16) & 0xFF == c
        }),
{
    let word = (a as u64 & 0x7F) | ((b as u64 & 0x1FF) << 7) | ((c as u64 & 0xFF) << 16);
    assert(word & 0x7F == (a & 0x7F) as u64 && (word >> 7) & 0x1FF == b as u64 && (word >> 16) & 0xFF == c as u64)
        by (bit_vector)
        requires
            word == (a as u64 & 0x7F) | ((b as u64 & 0x1FF) << 7) | ((c as u64 & 0xFF) << 16),
    ;
}

/// Every packet is marked as IPv4. The network card computes the checksum of the header, and that of TCP or UDP, of
/// the packets of a protocol whose offload is on, and of no others.
pub proof fn law_checksums_are_offloaded(runtime: DPDKRuntime, protocol: IpProtocol)
    ensures
        ({
            let flags = spec_offload_flags(runtime, protocol);
            let tcp = runtime.tcp_checksum_offload && protocol == IpProtocol::TCP;
            let udp = runtime.udp_checksum_offload && protocol == IpProtocol::UDP;
            &&& (flags >> 55) & 1 == 1
            &&& (flags >> 54) & 1 == if tcp || udp {
                1u64
            } else {
                0u64
            }
            &&& (flags >> 52) & 3 == if tcp {
                1u64
            } else if udp {
                3u64
            } else {
                0u64
            }
        }),
{
    let tcp = (1u64 << 55) | (1u64 << 54) | (1u64 << 52);
    let udp = (1u64 << 55) | (1u64 << 54) | (3u64 << 52);
    let none = 1u64 << 55;
    assert((tcp >> 55) & 1 == 1 && (tcp >> 54) & 1 == 1 && (tcp >> 52) & 3 == 1) by (bit_vector)
        requires
            tcp == (1u64 << 55) | (1u64 << 54) | (1u64 << 52),
    ;
    assert((udp >> 55) & 1 == 1 && (udp >> 54) & 1 == 1 && (udp >> 52) & 3 == 3) by (bit_vector)
        requires
            udp == (1u64 << 55) | (1u64 << 54) | (3u64 << 52),
    ;
    assert((none >> 55) & 1 == 1 && (none >> 54) & 1 == 0 && (none >> 52) & 3 == 0) by (bit_vector)
        requires
            none == 1u64 << 55,
    ;
}

/// How a transmission goes on by itself: the packets that are in message buffers already join those that are ready, as
/// they are, up to the first that is not. That one needs a message buffer if it fits into one, and ends the
/// transmission if it does not.
pub proof fn law_transmission_stops_at_first_copy(
    max_body_size: usize,
    mbufs: Seq<BufferView>,
    waiting: Seq<BufferView>,
    n: int,
)
    requires
        0 <= n <= waiting.len(),
        forall|i: int| 0 <= i < n ==> (#[trigger] waiting[i]).dpdk,
        n < waiting.len() ==> !waiting[n].dpdk,
    ensures
        spec_advance(max_body_size, mbufs, waiting) == if n == waiting.len() {
            Ok::<TransmitStepView, FailView>(TransmitStepView::Send { mbufs: mbufs + waiting })
        } else if waiting[n].data.len() <= max_body_size {
            Ok(TransmitStepView::Allocate { mbufs: mbufs + waiting.take(n), waiting: waiting.skip(n) })
        } else {
            Err(fail_view(22, "packet too large for DPDK buffer"@))
        },
    decreases n,
{
    if n == 0 {
        assert(mbufs + waiting.take(0) =~= mbufs);
        assert(waiting.skip(0) =~= waiting);
        if waiting.len() == 0 {
            assert(mbufs + waiting =~= mbufs);
        }
    } else {
        let rest = waiting.skip(1);
        law_transmission_stops_at_first_copy(max_body_size, mbufs.push(waiting[0]), rest, n - 1);
        assert(mbufs.push(waiting[0]) + rest.take(n - 1) =~= mbufs + waiting.take(n));
        assert(mbufs.push(waiting[0]) + rest =~= mbufs + waiting);
        assert(rest.skip(n - 1) =~= waiting.skip(n));
    }
}

/// A transmission that is given a message buffer puts the packet that waits into it, in the room of that buffer, and
/// goes on with the packets behind it: none is lost and their order stays.
pub proof fn law_message_buffer_takes_the_packet(transmission: Transmission, given: BufferView, n: int)
    requires
        1 <= n <= transmission.waiting().len(),
        forall|i: int| 1 <= i < n ==> (#[trigger] transmission.waiting()[i]).dpdk,
        n < transmission.waiting().len() ==> !transmission.waiting()[n].dpdk,
    ensures
        ({
            let waiting = transmission.waiting();
            let filled = BufferView { head: given.head, data: waiting[0].data, tail: given.tail, dpdk: given.dpdk };
            let ready = transmission.mbufs().push(filled) + waiting.subrange(1, n);
            transmission.spec_resume(given) == if n == waiting.len() {
                Ok::<TransmitStepView, FailView>(TransmitStepView::Send { mbufs: ready })
            } else if waiting[n].data.len() <= transmission.runtime().max_body_size {
                Ok(TransmitStepView::Allocate { mbufs: ready, waiting: waiting.skip(n) })
            } else {
                Err(fail_view(22, "packet too large for DPDK buffer"@))
            }
        }),
{
    let waiting = transmission.waiting();
    let filled = BufferView { head: given.head, data: waiting[0].data, tail: given.tail, dpdk: given.dpdk };
    let rest = waiting.skip(1);
    let mbufs = transmission.mbufs().push(filled);
    assert forall|i: int| 0 <= i < n - 1 implies (#[trigger] rest[i]).dpdk by {
        assert(rest[i] == waiting[i + 1]);
    }
    law_transmission_stops_at_first_copy(transmission.runtime().max_body_size, mbufs, rest, n - 1);
    assert(rest.take(n - 1) =~= waiting.subrange(1, n));
    assert(rest.skip(n - 1) =~= waiting.skip(n));
    if n == waiting.len() {
        assert(rest =~= waiting.subrange(1, n));
    }
}

} // verus!
