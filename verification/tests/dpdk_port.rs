use demikernel::catnip::runtime::port::{
    port_conf, DpdkPlatform, PortAction, PortEvent, PortInit, PortState, QueueConf, LINK_RETRIES,
};
use demikernel::catnip::runtime::MemoryPool;

fn platform() -> DpdkPlatform {
    DpdkPlatform {
        ether_max_len: 1518,
        ether_max_jumbo_frame_len: 9728,
        pktmbuf_headroom: 128,
        eth_dev_no_owner: 0,
        eth_link_up: 1,
        eth_mq_rx_rss: 1,
        eth_mq_tx_none: 0,
        rx_offload_tcp_cksum: 1 << 3,
        rx_offload_udp_cksum: 1 << 2,
        tx_offload_tcp_cksum: 1 << 3,
        tx_offload_udp_cksum: 1 << 2,
        tx_offload_multi_segs: 1 << 15,
        rss_ip: 0xa38c,
        default_max_body_size: 9000,
        default_body_pool_size: 8191,
        default_cache_size: 250,
    }
}

fn init() -> PortInit {
    PortInit::new(&platform(), &POOL, 3, false, 1500, true, false)
}

const POOL: MemoryPool = MemoryPool { data_room_size: 9000, pool_size: 8191, cache_size: 250 };
const OK: PortEvent = PortEvent::Returned { code: 0 };
const FAILED: PortEvent = PortEvent::Returned { code: -1 };

fn run(init: PortInit, events: &[PortEvent]) -> PortInit {
    events.iter().fold(init, |port, event| port.step(*event).unwrap())
}

fn setup() -> Vec<PortEvent> {
    vec![
        PortEvent::DeviceInfo { flow_type_rss_offloads: 0x30 },
        OK,
        OK,
        PortEvent::Mtu { code: 0, mtu: 1500 },
        OK,
        OK,
        OK,
        PortEvent::Done,
        PortEvent::Returned { code: 1 },
    ]
}

fn fails_after(n: usize, event: PortEvent, cause: &str) {
    let fail = run(init(), &setup()[..n]).step(event).unwrap_err();
    assert_eq!((fail.errno, fail.cause.as_str()), (libc::EIO, cause));
}

#[test]
fn configurations() {
    let none = port_conf(&platform(), false, false, false, 0);
    assert_eq!((none.max_lro_pkt_size, none.rx_offloads, none.tx_offloads), (1518, 0, 0x8000));
    assert_eq!((none.rx_mq_mode, none.tx_mq_mode, none.rss_hf), (1, 0, 0xa38c));
    let tcp = port_conf(&platform(), true, true, false, 0x30);
    assert_eq!((tcp.max_lro_pkt_size, tcp.rx_offloads, tcp.tx_offloads), (9728, 0b1010, 0x800a));
    assert_eq!(tcp.rss_hf, 0xa3bc);
    let udp = port_conf(&platform(), false, false, true, 0);
    assert_eq!((udp.rx_offloads, udp.tx_offloads), (0b0110, 0x8006));
    let both = port_conf(&platform(), false, true, true, 0);
    assert_eq!((both.rx_offloads, both.tx_offloads), (0b1110, 0x800e));
}

#[test]
fn the_calls_come_in_order() {
    let mut port = init();
    let mut actions = vec![port.action()];
    for event in setup() {
        port = port.step(event).unwrap();
        actions.push(port.action());
    }
    let conf = port_conf(&platform(), false, true, false, 0x30);
    let rx = QueueConf { pthresh: 8, hthresh: 8, wthresh: 0, free_thresh: 32 };
    let tx = QueueConf { pthresh: 0, hthresh: 0, wthresh: 0, free_thresh: 32 };
    assert_eq!(
        actions,
        vec![
            PortAction::GetDeviceInfo { port: 3 },
            PortAction::Configure { port: 3, rx_rings: 1, tx_rings: 1, conf },
            PortAction::SetMtu { port: 3, mtu: 1500 },
            PortAction::GetMtu { port: 3 },
            PortAction::SetupRxQueue {
                port: 3,
                ring: 0,
                descriptors: 2048,
                socket_id: 0,
                queue_conf: rx,
                mem_pool: POOL,
            },
            PortAction::SetupTxQueue { port: 3, ring: 0, descriptors: 2048, socket_id: 0, queue_conf: tx },
            PortAction::Start { port: 3 },
            PortAction::EnablePromiscuous { port: 3 },
            PortAction::IsValidPort { port: 3 },
            PortAction::GetLink { port: 3 },
        ]
    );
    port = port.step(PortEvent::Link { status: 0 }).unwrap();
    assert_eq!(port.action(), PortAction::DelayUs { delay: 100_000 });
    port = run(port, &[PortEvent::Done, PortEvent::Link { status: 1 }]);
    assert_eq!(port.state, PortState::Ready);
    assert_eq!(port.action(), PortAction::Nothing);
}

#[test]
fn each_call_can_fail() {
    fails_after(1, FAILED, "failed to configure ethernet device");
    fails_after(2, FAILED, "failed to set mtu 1500");
    fails_after(3, PortEvent::Mtu { code: -1, mtu: 1500 }, "failed to get mtu");
    fails_after(3, PortEvent::Mtu { code: 0, mtu: 9000 }, "failed to set MTU to 1500, got back 9000");
    fails_after(4, FAILED, "failed to set up rx queue");
    fails_after(5, FAILED, "failed to set up tx ring 0");
    fails_after(6, FAILED, "failed to set up ethernet device");
    fails_after(8, OK, "invalid port id");
}

#[test]
fn the_link_has_ninety_one_chances() {
    let waiting = run(init(), &setup());
    assert_eq!(waiting.state, PortState::Link { retries: LINK_RETRIES });
    let mut port = waiting;
    for _ in 0..90 {
        port = run(port, &[PortEvent::Link { status: 0 }, PortEvent::Done]);
    }
    let up = port.step(PortEvent::Link { status: 1 }).unwrap();
    assert_eq!(up.state, PortState::Ready);
    let paused = port.step(PortEvent::Link { status: 0 }).unwrap();
    let fail = paused.step(PortEvent::Done).unwrap_err();
    assert_eq!((fail.errno, fail.cause.as_str()), (libc::EIO, "link never came up"));
}
