//! The physical layer.

use crate::inetstack::consts::MAX_BATCH_SIZE_NUM_PACKETS;
use crate::inetstack::protocols::layer3::ip::IpProtocol;
use crate::runtime::fail::{result_view, Fail, FailView};
use crate::runtime::memory::{DemiBuffer, DemiMemoryAllocator};
use arrayvec::ArrayVec;
use vstd::prelude::*;

verus! {

/// Declares `arrayvec::ArrayVec`, a vector of bounded capacity.
#[verifier::external_type_specification]
#[verifier::external_body]
#[verifier::reject_recursive_types(T)]
pub struct ExArrayVec<T, const CAP: usize>(arrayvec::ArrayVec<T, CAP>);

/// The packets of a batch, in order.
pub uninterp spec fn batch_packets(batch: ArrayVec<DemiBuffer, MAX_BATCH_SIZE_NUM_PACKETS>) -> Seq<DemiBuffer>;

/// `arrayvec::ArrayVec::new`: makes an empty batch.
#[verifier::external_body]
pub(crate) fn new_packet_batch() -> (batch: ArrayVec<DemiBuffer, MAX_BATCH_SIZE_NUM_PACKETS>)
    ensures
        batch_packets(batch) == Seq::<DemiBuffer>::empty(),
{
    ArrayVec::new()
}

/// `arrayvec::ArrayVec::push`: puts a packet behind the others. It panics on a full batch, so there must be room.
#[verifier::external_body]
pub(crate) fn push_packet(batch: &mut ArrayVec<DemiBuffer, MAX_BATCH_SIZE_NUM_PACKETS>, packet: DemiBuffer)
    requires
        batch_packets(*old(batch)).len() < MAX_BATCH_SIZE_NUM_PACKETS,
    ensures
        batch_packets(*final(batch)) == batch_packets(*old(batch)).push(packet),
{
    batch.push(packet)
}

/// `arrayvec::ArrayVec::into_iter`: takes the packets out of a batch, in order. There are no more of them than the
/// capacity.
#[verifier::external_body]
pub(crate) fn take_packets(batch: ArrayVec<DemiBuffer, MAX_BATCH_SIZE_NUM_PACKETS>) -> (packets: Vec<DemiBuffer>)
    ensures
        packets@ == batch_packets(batch),
        packets@.len() <= MAX_BATCH_SIZE_NUM_PACKETS,
{
    batch.into_iter().collect()
}

/// Makes a batch of one packet.
pub fn single_packet_batch(packet: DemiBuffer) -> (batch: ArrayVec<DemiBuffer, MAX_BATCH_SIZE_NUM_PACKETS>)
    ensures
        batch_packets(batch) == seq![packet],
{
    let mut batch = new_packet_batch();
    push_packet(&mut batch, packet);
    assert(batch_packets(batch) =~= seq![packet]);
    batch
}

/// The local ports that may be picked for outgoing connections.
#[derive(Debug)]
pub struct EphemeralPorts {
    /// The ports to pick from; without a list, any valid ephemeral port.
    pub restricted_to: Option<Vec<u16>>,
}

impl Default for EphemeralPorts {
    /// Any valid ephemeral port.
    fn default() -> (ports: EphemeralPorts)
        ensures
            ports.restricted_to is None,
    {
        EphemeralPorts { restricted_to: None }
    }
}

/// The physical layer: hardware, or anything in its place, that sends and receives raw packets. It says where buffers
/// for its packets come from.
pub trait PhysicalLayer: 'static + Sized + DemiMemoryAllocator {
    /// Whether handing over `packets` may take the layer from `before` to `after` and answer `result`. An
    /// implementation says here what its [`PhysicalLayer::transmit`] does; one that says nothing may do anything.
    open spec fn transmits(before: Self, packets: Seq<DemiBuffer>, after: Self, result: Result<(), FailView>) -> bool {
        true
    }

    /// Transmits a batch of packets.
    fn transmit(&mut self, packets: ArrayVec<DemiBuffer, MAX_BATCH_SIZE_NUM_PACKETS>) -> (result: Result<(), Fail>)
        ensures
            Self::transmits(*old(self), batch_packets(packets), *final(self), result_view(result)),
    ;

    /// Transmits one packet, with what the network card needs to know to compute its checksums. A layer that cannot
    /// do that transmits the packet like any other, and ignores the hints.
    fn transmit_with_offload(
        &mut self,
        packet: DemiBuffer,
        l2_header_len: u8,
        l3_header_len: u8,
        l4_header_len: u8,
        protocol: IpProtocol,
    ) -> (result: Result<(), Fail>)
        default_ensures
            Self::transmits(*old(self), seq![packet], *final(self), result_view(result)),
    {
        self.transmit(single_packet_batch(packet))
    }

    /// Receives a batch of packets.
    fn receive(&mut self) -> (result: Result<ArrayVec<DemiBuffer, MAX_BATCH_SIZE_NUM_PACKETS>, Fail>);

    /// The ephemeral ports on which this layer may operate.
    fn ephemeral_ports(&self) -> (ports: EphemeralPorts)
        default_ensures
            ports.restricted_to is None,
    {
        EphemeralPorts::default()
    }
}

} // verus!
