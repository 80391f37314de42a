use arrayvec::ArrayVec;
use demikernel::inetstack::consts::MAX_BATCH_SIZE_NUM_PACKETS;
use demikernel::inetstack::protocols::layer1::{single_packet_batch, EphemeralPorts, PhysicalLayer};
use demikernel::inetstack::protocols::layer3::IpProtocol;
use demikernel::runtime::fail::Fail;
use demikernel::runtime::memory::{DemiBuffer, DemiMemoryAllocator};

/// A layer that keeps what it is given.
struct Loopback {
    sent: Vec<DemiBuffer>,
}

impl DemiMemoryAllocator for Loopback {
    fn max_buffer_size_bytes(&self) -> usize {
        1500
    }

    fn allocate_demi_buffer(&self, size: usize) -> Result<DemiBuffer, Fail> {
        Ok(DemiBuffer::new_with_headroom(size as u16, 0))
    }
}

impl PhysicalLayer for Loopback {
    fn transmit(&mut self, packets: ArrayVec<DemiBuffer, MAX_BATCH_SIZE_NUM_PACKETS>) -> Result<(), Fail> {
        if self.sent.len() >= 2 {
            return Err(Fail::new(libc::EAGAIN, "full"));
        }
        self.sent.extend(packets);
        Ok(())
    }

    fn receive(&mut self) -> Result<ArrayVec<DemiBuffer, MAX_BATCH_SIZE_NUM_PACKETS>, Fail> {
        Ok(self.sent.drain(..).collect())
    }
}

fn packet(payload: &[u8]) -> DemiBuffer {
    DemiBuffer::from_storage(payload.to_vec(), 0, payload.len(), false)
}

#[test]
fn without_offload_a_packet_is_transmitted_as_it_is() {
    let mut layer = Loopback { sent: vec![] };
    layer.transmit_with_offload(packet(b"one"), 14, 20, 20, IpProtocol::TCP).unwrap();
    layer.transmit_with_offload(packet(b"two"), 14, 20, 8, IpProtocol::UDP).unwrap();
    let fail = layer.transmit_with_offload(packet(b"three"), 14, 20, 8, IpProtocol::UDP).unwrap_err();
    assert_eq!(fail.cause, "full");
    let received = layer.receive().unwrap();
    assert_eq!(received.len(), 2);
    assert_eq!(received[0].as_slice(), b"one");
    assert_eq!(received[1].as_slice(), b"two");
}

#[test]
fn a_batch_of_one() {
    let batch = single_packet_batch(packet(b"one"));
    assert_eq!(batch.len(), 1);
    assert_eq!(batch[0].as_slice(), b"one");
    assert_eq!(MAX_BATCH_SIZE_NUM_PACKETS, 4);
}

#[test]
fn any_ephemeral_port_may_be_used() {
    assert_eq!(Loopback { sent: vec![] }.ephemeral_ports().restricted_to, None);
    assert_eq!(EphemeralPorts::default().restricted_to, None);
}
