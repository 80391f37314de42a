use arrayvec::ArrayVec;
use demikernel::catnip::runtime::transmit::{offload_flags, tx_offload, OffloadEnd, OffloadStep, RxBurst, TransmitStep};
use demikernel::catnip::runtime::{DPDKRuntime, MemoryPool, SharedDPDKRuntime};
use demikernel::inetstack::consts::MAX_BATCH_SIZE_NUM_PACKETS;
use demikernel::inetstack::protocols::layer3::IpProtocol;
use demikernel::runtime::fail::Fail;
use demikernel::runtime::memory::{DemiBuffer, Mbuf};

fn runtime() -> SharedDPDKRuntime {
    SharedDPDKRuntime(DPDKRuntime {
        max_body_size: 8,
        mem_pool: MemoryPool { data_room_size: 8, pool_size: 4, cache_size: 0 },
        port_id: 2,
        tcp_checksum_offload: true,
        udp_checksum_offload: true,
    })
}

fn packet(payload: &[u8], dpdk: bool) -> DemiBuffer {
    DemiBuffer::from_storage(payload.to_vec(), 0, payload.len(), dpdk)
}

fn allocate(size: usize) -> Mbuf {
    DemiBuffer::from_storage(vec![0xee; size], 0, size, true).into_mbuf().unwrap()
}

fn batch(packets: Vec<DemiBuffer>) -> ArrayVec<DemiBuffer, MAX_BATCH_SIZE_NUM_PACKETS> {
    packets.into_iter().collect()
}

/// Transmits a batch, and tells what was allocated and what went out.
fn transmit(packets: Vec<DemiBuffer>) -> Result<(Vec<usize>, Vec<Vec<u8>>), Fail> {
    let mut sizes = vec![];
    let mut step = runtime().transmit(batch(packets))?;
    loop {
        match step {
            TransmitStep::Allocate { size, transmission } => {
                sizes.push(size);
                step = transmission.resume(Ok(allocate(size)))?;
            },
            TransmitStep::Send { port, queue, mbufs } => {
                assert_eq!((port, queue), (2, 0));
                return Ok((sizes, mbufs.iter().map(|m| m.as_slice().to_vec()).collect()));
            },
        }
    }
}

#[test]
fn packets_go_out_unchanged_and_in_order() {
    let packets = vec![packet(b"one", true), packet(b"two22", false), packet(b"a large one", true), packet(b"", false)];
    let (sizes, sent) = transmit(packets).ok().unwrap();
    assert_eq!(sizes, vec![5, 0]);
    assert_eq!(sent, vec![b"one".to_vec(), b"two22".to_vec(), b"a large one".to_vec(), b"".to_vec()]);
    let (sizes, sent) = transmit(vec![]).ok().unwrap();
    assert!(sizes.is_empty() && sent.is_empty());
}

#[test]
fn a_packet_may_fill_a_message_buffer() {
    let (sizes, sent) = transmit(vec![packet(b"12345678", false)]).ok().unwrap();
    assert_eq!((sizes, sent), (vec![8], vec![b"12345678".to_vec()]));
}

#[test]
fn a_large_packet_does_not_go_out() {
    let fail = transmit(vec![packet(b"one", false), packet(b"123456789", false)]).unwrap_err();
    assert_eq!((fail.errno, fail.cause.as_str()), (libc::EINVAL, "packet too large for DPDK buffer"));
}

#[test]
fn an_empty_pool_is_reported() {
    match runtime().transmit(batch(vec![packet(b"one", false)])).ok().unwrap() {
        TransmitStep::Allocate { transmission, .. } => {
            let fail = transmission.resume(Err(Fail::new(libc::ENOMEM, "pool is empty"))).unwrap_err();
            assert_eq!((fail.errno, fail.cause.as_str()), (libc::ENOMEM, "pool is empty"));
        },
        TransmitStep::Send { .. } => panic!("nothing to send"),
    }
}

#[test]
fn flags() {
    let both = runtime().0;
    let none = DPDKRuntime { tcp_checksum_offload: false, udp_checksum_offload: false, ..both };
    assert_eq!(offload_flags(&both, IpProtocol::TCP), (1 << 55) | (1 << 54) | (1 << 52));
    assert_eq!(offload_flags(&both, IpProtocol::UDP), (1 << 55) | (1 << 54) | (3 << 52));
    assert_eq!(offload_flags(&both, IpProtocol::ICMPv4), 1 << 55);
    assert_eq!(offload_flags(&none, IpProtocol::TCP), 1 << 55);
    assert_eq!(offload_flags(&none, IpProtocol::UDP), 1 << 55);
}

#[test]
fn header_lengths() {
    assert_eq!(tx_offload(14, 20, 20), 14 | (20 << 7) | (20 << 16));
    assert_eq!(tx_offload(14, 20, 20), 1_313_294);
    let word = tx_offload(200, 255, 255);
    assert_eq!((word & 0x7f, (word >> 7) & 0x1ff, (word >> 16) & 0xff), (200 & 0x7f, 255, 255));
}

#[test]
fn a_packet_goes_out_with_offload() {
    match runtime().transmit_with_offload(packet(b"data", true), 14, 20, 20, IpProtocol::TCP).ok().unwrap() {
        OffloadStep::Send { port, queue, mbuf, ol_flags, tx_offload } => {
            assert_eq!((port, queue, mbuf.as_slice()), (2, 0, &b"data"[..]));
            assert_eq!((ol_flags, tx_offload), ((1 << 55) | (1 << 54) | (1 << 52), 1_313_294));
        },
        OffloadStep::Allocate { .. } => panic!("is in a message buffer"),
    }
    match runtime().transmit_with_offload(packet(b"data", false), 14, 20, 8, IpProtocol::UDP).ok().unwrap() {
        OffloadStep::Allocate { size, transmission } => {
            assert_eq!(size, 4);
            match transmission.resume(Ok(allocate(size))).ok().unwrap() {
                OffloadStep::Send { port, queue, mbuf, ol_flags, tx_offload } => {
                    assert_eq!((port, queue, mbuf.as_slice()), (2, 0, &b"data"[..]));
                    assert_eq!(ol_flags, (1 << 55) | (1 << 54) | (3 << 52));
                    assert_eq!(tx_offload, 14 | (20 << 7) | (8 << 16));
                },
                OffloadStep::Allocate { .. } => panic!("was allocated"),
            }
        },
        OffloadStep::Send { .. } => panic!("is not in a message buffer"),
    }
}

#[test]
fn offload_can_fail() {
    let fail = runtime().transmit_with_offload(packet(b"123456789", false), 14, 20, 8, IpProtocol::UDP).unwrap_err();
    assert_eq!((fail.errno, fail.cause.as_str()), (libc::EINVAL, "packet too large for DPDK buffer"));
    match runtime().transmit_with_offload(packet(b"x", false), 14, 20, 8, IpProtocol::UDP).ok().unwrap() {
        OffloadStep::Allocate { transmission, .. } => {
            assert_eq!(transmission.resume(Err(Fail::new(libc::ENOMEM, "none"))).unwrap_err().cause, "none");
        },
        OffloadStep::Send { .. } => panic!("is not in a message buffer"),
    }
}

#[test]
fn a_message_buffer_that_is_not_taken_is_freed() {
    let mbuf = || packet(b"data", true).into_mbuf().unwrap();
    match SharedDPDKRuntime::transmitted_with_offload(1, mbuf()) {
        OffloadEnd::Sent { mbuf } => assert_eq!(mbuf.as_slice(), b"data"),
        OffloadEnd::Free { .. } => panic!("the card has it"),
    }
    for sent in [0, 2] {
        match SharedDPDKRuntime::transmitted_with_offload(sent, mbuf()) {
            OffloadEnd::Free { mbuf, fail } => {
                assert_eq!(mbuf.as_slice(), b"data");
                assert_eq!((fail.errno, fail.cause.as_str()), (libc::EAGAIN, "TX queue full"));
            },
            OffloadEnd::Sent { .. } => panic!("the card does not have it"),
        }
    }
}

#[test]
fn packets_are_received_in_order() {
    assert_eq!(runtime().rx_burst(), RxBurst { port: 2, queue: 0, count: 4 });
    let mbufs = [&b"one"[..], &b"two"[..], &b"three"[..], &b""[..]]
        .iter()
        .map(|bytes| packet(bytes, true).into_mbuf().unwrap())
        .collect();
    let received = runtime().receive(mbufs).ok().unwrap();
    let payloads: Vec<&[u8]> = received.iter().map(|p| p.as_slice()).collect();
    assert_eq!(payloads, vec![&b"one"[..], &b"two"[..], &b"three"[..], &b""[..]]);
    assert!(received.iter().all(|p| p.is_dpdk_allocated()));
    assert_eq!(runtime().receive(vec![]).ok().unwrap().len(), 0);
}

#[test]
fn buffers_come_from_the_pool() {
    let buffer = runtime().allocate_demi_buffer(5, Ok(allocate(5))).ok().unwrap();
    assert!(buffer.is_dpdk_allocated());
    assert_eq!(buffer.len(), 5);
    let fail = runtime().allocate_demi_buffer(5, Err(Fail::new(libc::ENOMEM, "none"))).unwrap_err();
    assert_eq!(fail.errno, libc::ENOMEM);
}
