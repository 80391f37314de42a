//! What the calls into DPDK do to a network card, and what is asked of it.

use crate::catnip::runtime::port::{
    spec_port_conf, DpdkPlatform, PortAction, PortConf, PortEvent, PortInit, PortState, QueueConf,
};
use crate::catnip::runtime::startup::{DPDKStartup, StartupAction, StartupReply, StartupStage, StartupStep};
use crate::catnip::runtime::transmit::{
    buffer_views, goes_on, mbuf_views, spec_offload_flags, spec_tx_offload, OffloadEnd, TransmitStep, TransmitStepView,
};
use crate::catnip::runtime::{DPDKRuntime, MemoryPool};
use crate::inetstack::protocols::layer3::ip::IpProtocol;
use crate::runtime::fail::{fail_view, Fail, FailView};
use crate::runtime::memory::{DemiBuffer, Mbuf};
use crate::runtime::text::{decimal, signed_decimal};
use vstd::prelude::*;

verus! {

/// A ring, as it was set up.
pub struct RingView {
    pub descriptors: u16,
    pub socket_id: u32,
    pub conf: QueueConf,
}

/// A configuration, with the numbers of rings.
pub struct CardConf {
    pub rx_rings: u16,
    pub tx_rings: u16,
    pub conf: PortConf,
}

/// A network card that does what it is asked, on its own port and in an order that makes sense.
pub struct DeviceView {
    pub port: u16,
    pub flow_type_rss_offloads: u64,
    pub mtu: u16,
    /// The configuration, once there is one.
    pub conf: Option<CardConf>,
    pub rx: Map<u16, (RingView, MemoryPool)>,
    pub tx: Map<u16, RingView>,
    pub started: bool,
    pub promiscuous: bool,
    /// Status of the link once the card is started.
    pub status: u32,
}

/// Return code of a call that succeeded or did not.
pub open spec fn code_of(success: bool) -> PortEvent {
    PortEvent::Returned {
        code: if success {
            0
        } else {
            19
        },
    }
}

impl DeviceView {
    /// Whether a card can be set up further: it is configured, and not yet started.
    pub open spec fn is_open(self, port: u16) -> bool {
        self.port == port && self.conf is Some && !self.started
    }

    /// What a call makes of the card, and what it brings.
    pub open spec fn after(self, call: PortAction) -> (DeviceView, PortEvent) {
        match call {
            PortAction::GetDeviceInfo { port } => (
                self,
                PortEvent::DeviceInfo {
                    flow_type_rss_offloads: if port == self.port {
                        self.flow_type_rss_offloads
                    } else {
                        0
                    },
                },
            ),
            PortAction::Configure { port, rx_rings, tx_rings, conf } => if port == self.port && !self.started {
                (DeviceView { conf: Some(CardConf { rx_rings, tx_rings, conf }), ..self }, code_of(true))
            } else {
                (self, code_of(false))
            },
            PortAction::SetMtu { port, mtu } => if self.is_open(port) {
                (DeviceView { mtu, ..self }, code_of(true))
            } else {
                (self, code_of(false))
            },
            PortAction::GetMtu { port } => (
                self,
                PortEvent::Mtu {
                    code: if port == self.port {
                        0
                    } else {
                        19
                    },
                    mtu: self.mtu,
                },
            ),
            PortAction::SetupRxQueue { port, ring, descriptors, socket_id, queue_conf, mem_pool } => {
                if self.is_open(port) && ring < self.conf->0.rx_rings {
                    let view = RingView { descriptors, socket_id, conf: queue_conf };
                    (DeviceView { rx: self.rx.insert(ring, (view, mem_pool)), ..self }, code_of(true))
                } else {
                    (self, code_of(false))
                }
            },
            PortAction::SetupTxQueue { port, ring, descriptors, socket_id, queue_conf } => {
                if self.is_open(port) && ring < self.conf->0.tx_rings {
                    let view = RingView { descriptors, socket_id, conf: queue_conf };
                    (DeviceView { tx: self.tx.insert(ring, view), ..self }, code_of(true))
                } else {
                    (self, code_of(false))
                }
            },
            PortAction::Start { port } => {
                let ready = self.is_open(port) && (forall|ring: u16|
                    ring < self.conf->0.rx_rings <==> #[trigger] self.rx.contains_key(ring)) && (forall|ring: u16|
                    ring < self.conf->0.tx_rings <==> #[trigger] self.tx.contains_key(ring));
                if ready {
                    (DeviceView { started: true, ..self }, code_of(true))
                } else {
                    (self, code_of(false))
                }
            },
            PortAction::EnablePromiscuous { port } => (
                DeviceView { promiscuous: self.promiscuous || port == self.port, ..self },
                PortEvent::Done,
            ),
            PortAction::IsValidPort { port } => (
                self,
                PortEvent::Returned {
                    code: if port == self.port {
                        1
                    } else {
                        0
                    },
                },
            ),
            PortAction::GetLink { port } => (
                self,
                PortEvent::Link {
                    status: if port == self.port && self.started {
                        self.status
                    } else {
                        0
                    },
                },
            ),
            PortAction::DelayUs { .. } => (self, PortEvent::Done),
            PortAction::Nothing => (self, PortEvent::Done),
        }
    }
}

/// Where port and card stand after `n` calls.
pub open spec fn drive(init: PortInit, device: DeviceView, n: nat) -> (Result<PortInit, FailView>, DeviceView)
    decreases n,
{
    if n == 0 {
        (Ok(init), device)
    } else {
        let (after, event) = device.after(init.spec_action());
        match init.spec_step(event) {
            Ok(next) => drive(next, after, (n - 1) as nat),
            Err(fail) => (Err(fail), after),
        }
    }
}

/// A card that does what it is asked, and whose link is up, comes up after ten calls, whatever the settings are. It is
/// then configured as asked, has the maximum transmission unit that was asked for, one ring for each direction, of
/// which the receiving one takes its message buffers out of the memory pool, and accepts packets for any address.
#[verifier::rlimit(50)]
pub proof fn law_card_is_set_up(init: PortInit, device: DeviceView)
    requires
        init.state is DeviceInfo,
        device.port == init.port,
        device.conf is None,
        device.rx == Map::<u16, (RingView, MemoryPool)>::empty(),
        device.tx == Map::<u16, RingView>::empty(),
        !device.started,
        device.status == init.platform.eth_link_up,
    ensures
        ({
            let (end, card) = drive(init, device, 10);
            let flow = device.flow_type_rss_offloads;
            let (tcp, udp) = (init.tcp_checksum_offload, init.udp_checksum_offload);
            &&& end == Ok::<PortInit, FailView>(init.at(PortState::Ready))
            &&& card.mtu == init.mtu
            &&& card.conf == Some(
                CardConf {
                    rx_rings: 1,
                    tx_rings: 1,
                    conf: spec_port_conf(init.platform, init.jumbo, tcp, udp, flow),
                },
            )
            &&& card.rx.contains_key(0)
            &&& card.rx[0].1 == init.mem_pool
            &&& card.rx[0].0 == (RingView {
                descriptors: 2048,
                socket_id: 0,
                conf: QueueConf { pthresh: 8, hthresh: 8, wthresh: 0, free_thresh: 32 },
            })
            &&& card.tx.contains_key(0)
            &&& card.tx[0] == (RingView {
                descriptors: 2048,
                socket_id: 0,
                conf: QueueConf { pthresh: 0, hthresh: 0, wthresh: 0, free_thresh: 32 },
            })
            &&& card.started
            &&& card.promiscuous
        }),
{
    reveal_with_fuel(drive, 11);
    let (p1, d1) = drive_once(init, device);
    let (p2, d2) = drive_once(p1, d1);
    let (p3, d3) = drive_once(p2, d2);
    let (p4, d4) = drive_once(p3, d3);
    let (p5, d5) = drive_once(p4, d4);
    let (p6, d6) = drive_once(p5, d5);
    assert(d6.rx =~= Map::<u16, (RingView, MemoryPool)>::empty().insert(0, d6.rx[0]));
    assert(d6.tx =~= Map::<u16, RingView>::empty().insert(0, d6.tx[0]));
    assert(forall|ring: u16| ring < 1 <==> #[trigger] d6.rx.contains_key(ring));
    assert(forall|ring: u16| ring < 1 <==> #[trigger] d6.tx.contains_key(ring));
    let (p7, d7) = drive_once(p6, d6);
    assert(d7.started);
    let (p8, d8) = drive_once(p7, d7);
    let (p9, d9) = drive_once(p8, d8);
    let (p10, d10) = drive_once(p9, d9);
    assert(p10 == init.at(PortState::Ready));
}

spec fn drive_once(init: PortInit, device: DeviceView) -> (PortInit, DeviceView) {
    let (after, event) = device.after(init.spec_action());
    (init.spec_step(event)->Ok_0, after)
}

/// The port that a call is about.
pub open spec fn port_of(call: PortAction) -> Option<u16> {
    match call {
        PortAction::GetDeviceInfo { port } => Some(port),
        PortAction::Configure { port, .. } => Some(port),
        PortAction::SetMtu { port, .. } => Some(port),
        PortAction::GetMtu { port } => Some(port),
        PortAction::SetupRxQueue { port, .. } => Some(port),
        PortAction::SetupTxQueue { port, .. } => Some(port),
        PortAction::Start { port } => Some(port),
        PortAction::EnablePromiscuous { port } => Some(port),
        PortAction::IsValidPort { port } => Some(port),
        PortAction::GetLink { port } => Some(port),
        PortAction::DelayUs { .. } => None,
        PortAction::Nothing => None,
    }
}

/// Every call is about the port that is brought up, and brings what the port expects. A pause takes a tenth of a
/// second. Only a port that is up makes no call.
pub proof fn law_calls_are_about_the_port(init: PortInit, device: DeviceView)
    ensures
        ({
            let call = init.spec_action();
            &&& call is Nothing <==> init.state is Ready
            &&& call is DelayUs <==> init.state is Pause
            &&& call matches PortAction::DelayUs { delay } ==> delay == 100 * 1000
            &&& !(call is DelayUs) && !(call is Nothing) ==> port_of(call) == Some(init.port)
            &&& !(init.state is Ready) ==> init.expects(device.after(call).1)
            &&& call matches PortAction::SetMtu { mtu, .. } ==> mtu == init.mtu
            &&& call matches PortAction::Configure { rx_rings, tx_rings, conf, .. } ==> rx_rings == 1 && tx_rings == 1
                && init.state == (PortState::Configure { conf })
            &&& call matches PortAction::SetupRxQueue { ring, mem_pool, .. } ==> mem_pool == init.mem_pool && init.state
                == (PortState::RxQueue { ring })
            &&& call matches PortAction::SetupTxQueue { ring, .. } ==> init.state == (PortState::TxQueue { ring })
        }),
{
}

/// A call that fails ends the attempt, whatever its return code, with the failure that names it; one that succeeds
/// leads on. Nothing but the state of the port changes.
pub proof fn law_failed_calls(init: PortInit, code: i32, mtu: u16, done: PortEvent)
    ensures
        ({
            let end = init.spec_step(PortEvent::Returned { code });
            let read = init.spec_step(PortEvent::Mtu { code, mtu });
            let fails = |cause: Seq<char>| Err::<PortInit, FailView>(fail_view(5, cause));
            &&& init.state is Configure && code != 0 ==> end == fails("failed to configure ethernet device"@)
            &&& init.state is SetMtu && code != 0 ==> end == fails("failed to set mtu "@ + decimal(init.mtu as nat))
            &&& init.state is RxQueue && code != 0 ==> end == fails("failed to set up rx queue"@)
            &&& init.state is TxQueue && code != 0 ==> end == fails(
                "failed to set up tx ring "@ + decimal(init.state->TxQueue_ring as nat),
            )
            &&& init.state is Start && code != 0 ==> end == fails("failed to set up ethernet device"@)
            &&& init.state is Validate && code == 0 ==> end == fails("invalid port id"@)
            &&& init.state is GetMtu && code != 0 ==> read == fails("failed to get mtu"@)
            &&& init.state is GetMtu && code == 0 && mtu != init.mtu ==> read == fails(
                "failed to set MTU to "@ + decimal(init.mtu as nat) + ", got back "@ + decimal(mtu as nat),
            )
            &&& init.state is Configure && code == 0 ==> end is Ok
            &&& init.state is SetMtu && code == 0 ==> end is Ok
            &&& init.state is RxQueue && code == 0 ==> end is Ok
            &&& init.state is TxQueue && code == 0 ==> end is Ok
            &&& init.state is Start && code == 0 ==> end is Ok
            &&& init.state is Validate && code != 0 ==> end is Ok
            &&& init.state is GetMtu && code == 0 && mtu == init.mtu ==> read is Ok
            &&& init.spec_step(done) matches Ok(next) ==> next == init.at(next.state)
        }),
{
}

proof fn lemma_bits_of_union(a: u64, b: u64, c: u64, d: u64, k: u64)
    requires
        k < 64,
    ensures
        ((a | b | c | d) >> k) & 1 == 1 <==> (a >> k) & 1 == 1 || (b >> k) & 1 == 1 || (c >> k) & 1 == 1 || (d >> k) & 1
            == 1,
        a | b | c | 0 == a | b | c,
        a | b | 0 | 0 == a | b,
        (0u64 >> k) & 1 == 0,
        (2u64 >> k) & 1 == 1 <==> k == 1,
{
    assert(k < 64 ==> (((a | b | c | d) >> k) & 1 == 1 <==> (a >> k) & 1 == 1 || (b >> k) & 1 == 1 || (c >> k) & 1 == 1
        || (d >> k) & 1 == 1) && a | b | c | 0 == a | b | c && a | b | 0 | 0 == a | b && (0u64 >> k) & 1 == 0 && ((2u64
        >> k) & 1 == 1 <==> k == 1)) by (bit_vector);
}

/// Which bits are set in the configuration of a port: those of the offloads that are on, bit 1 for the checksums of
/// IPv4 headers where either is on, and on the way out those of packets in several segments; nothing else is asked for.
/// Receive side scaling is over IP addresses and whatever else the card can do.
pub proof fn law_bits_of_port_configuration(
    platform: DpdkPlatform,
    jumbo: bool,
    tcp: bool,
    udp: bool,
    flow: u64,
    k: u64,
)
    requires
        k < 64,
    ensures
        ({
            let conf = spec_port_conf(platform, jumbo, tcp, udp, flow);
            &&& (conf.rx_offloads >> k) & 1 == 1 <==> {
                ||| tcp && (platform.rx_offload_tcp_cksum >> k) & 1 == 1
                ||| udp && (platform.rx_offload_udp_cksum >> k) & 1 == 1
                ||| (tcp || udp) && k == 1
            }
            &&& (conf.tx_offloads >> k) & 1 == 1 <==> {
                ||| tcp && (platform.tx_offload_tcp_cksum >> k) & 1 == 1
                ||| udp && (platform.tx_offload_udp_cksum >> k) & 1 == 1
                ||| (platform.tx_offload_multi_segs >> k) & 1 == 1
                ||| (tcp || udp) && k == 1
            }
            &&& (conf.rss_hf >> k) & 1 == 1 <==> (platform.rss_ip >> k) & 1 == 1 || (flow >> k) & 1 == 1
            &&& jumbo ==> conf.max_lro_pkt_size == platform.ether_max_jumbo_frame_len
            &&& !jumbo ==> conf.max_lro_pkt_size == platform.ether_max_len
            &&& conf.rx_mq_mode == platform.eth_mq_rx_rss
            &&& conf.tx_mq_mode == platform.eth_mq_tx_none
        }),
{
    let rx_tcp = if tcp { platform.rx_offload_tcp_cksum } else { 0 };
    let rx_udp = if udp { platform.rx_offload_udp_cksum } else { 0 };
    let tx_tcp = if tcp { platform.tx_offload_tcp_cksum } else { 0 };
    let tx_udp = if udp { platform.tx_offload_udp_cksum } else { 0 };
    let ip: u64 = if tcp || udp { 2 } else { 0 };
    lemma_bits_of_union(rx_tcp, rx_udp, ip, 0, k);
    lemma_bits_of_union(tx_tcp, tx_udp, platform.tx_offload_multi_segs, ip, k);
    lemma_bits_of_union(platform.rss_ip, flow, 0, 0, k);
}

/// The steps of a start: what is asked for at each, and how it goes on.
#[verifier::rlimit(50)]
pub proof fn law_steps_of_start(
    startup: DPDKStartup,
    code: i32,
    rte_errno: i32,
    count: u16,
    found: u64,
    created: Result<(), Fail>,
)
    requires
        startup.wf(),
    ensures
        ({
            let config = *startup.config;
            let platform = startup.platform;
            let goes_to = |reply: StartupReply, call: StartupAction|
                (startup.spec_resume(reply) matches Ok(StartupStep::Continue(next)) && next.spec_action() == call);
            let fails = |reply: StartupReply, fail: FailView|
                startup.spec_resume(reply) == Err::<StartupStep, FailView>(fail);
            let set = StartupReply::EnvironmentSet;
            let eal = StartupReply::Eal { code, rte_errno };
            let counted = StartupReply::PortCount(count);
            let port = StartupReply::PortFound(found);
            let pool = StartupReply::Mempool(created);
            &&& startup.stage is Environment ==> startup.spec_action() is SetEnvironment
            &&& startup.stage is Environment && config.eal_init_args is Err ==> fails(
                set,
                config.eal_init_args->Err_0@,
            )
            &&& startup.stage is Environment && config.eal_init_args is Ok ==> goes_to(
                set,
                StartupAction::EalInit { args: &config.eal_init_args->Ok_0 },
            )
            &&& startup.stage is EalInit && code >= 0 ==> goes_to(eal, StartupAction::CountPorts)
            &&& startup.stage is EalInit && code < 0 ==> fails(
                eal,
                fail_view(5, "EAL init failed (rte_errno="@ + signed_decimal(rte_errno as int) + ")"@),
            )
            &&& startup.stage is CountPorts && count > 0 ==> goes_to(
                counted,
                StartupAction::FindPort { from: 0, owner: platform.eth_dev_no_owner },
            )
            &&& startup.stage is CountPorts && count == 0 ==> fails(
                counted,
                fail_view(5, "no ethernet ports available"@),
            )
            &&& startup.stage is FindPort && config.enable_jumbo_frames is Err ==> fails(
                port,
                config.enable_jumbo_frames->Err_0@,
            )
            &&& startup.stage is FindPort && config.enable_jumbo_frames is Ok ==> goes_to(
                port,
                StartupAction::CreateMempool {
                    name: "body_pool",
                    mem_pool: MemoryPool {
                        data_room_size: (if config.enable_jumbo_frames->Ok_0 {
                            platform.ether_max_jumbo_frame_len + platform.pktmbuf_headroom
                        } else {
                            platform.default_max_body_size as int
                        }) as usize,
                        pool_size: platform.default_body_pool_size,
                        cache_size: platform.default_cache_size,
                    },
                },
            )
            &&& startup.stage is Mempool && created is Err ==> fails(pool, created->Err_0@)
            &&& startup.stage is Mempool && created is Ok && config.mtu is Err ==> fails(pool, config.mtu->Err_0@)
            &&& startup.stage is Mempool && created is Ok && config.mtu is Ok ==> goes_to(
                pool,
                StartupAction::Port(PortAction::GetDeviceInfo { port: startup.stage->Mempool_port }),
            )
        }),
{
}

/// While the port comes up, a start makes the port's calls, and fails as the port does.
pub proof fn law_start_follows_port(startup: DPDKStartup, event: PortEvent)
    requires
        startup.stage is Port,
    ensures
        ({
            let init = startup.stage->init;
            let end = startup.spec_resume(StartupReply::Port(event));
            &&& startup.spec_action() == StartupAction::Port(init.spec_action())
            &&& match init.spec_step(event) {
                Err(fail) => end == Err::<StartupStep, FailView>(fail),
                Ok(next) => if next.state is Ready {
                    end matches Ok(StartupStep::Ready(_))
                } else {
                    &&& end matches Ok(StartupStep::Continue(later))
                    &&& later.stage matches StartupStage::Port { init: followed, .. }
                    &&& followed == next
                },
            }
        }),
{
}

/// The word of header lengths holds nothing else, and neither do the offload flags.
pub proof fn law_offload_words_hold_nothing_else(
    runtime: DPDKRuntime,
    protocol: IpProtocol,
    l2_header_len: u8,
    l3_header_len: u8,
    l4_header_len: u8,
)
    ensures
        spec_tx_offload(l2_header_len, l3_header_len, l4_header_len) / 0x100_0000 == 0,
        spec_tx_offload(l2_header_len, l3_header_len, l4_header_len) / 0x1_0000 == l4_header_len,
        spec_tx_offload(l2_header_len, l3_header_len, l4_header_len) / 128 % 512 == l3_header_len,
        spec_tx_offload(l2_header_len, l3_header_len, l4_header_len) % 128 == l2_header_len % 128,
        ({
            let flags = spec_offload_flags(runtime, protocol);
            let tcp = runtime.tcp_checksum_offload && protocol == IpProtocol::TCP;
            let udp = runtime.udp_checksum_offload && protocol == IpProtocol::UDP;
            &&& tcp ==> flags == 0xd0_0000_0000_0000
            &&& udp ==> flags == 0xf0_0000_0000_0000
            &&& !tcp && !udp ==> flags == 0x80_0000_0000_0000
        }),
{
    assert((1u64 << 55) | (1u64 << 54) | (1u64 << 52) == 0xd0_0000_0000_0000 && (1u64 << 55) | (1u64 << 54) | (3u64
        << 52) == 0xf0_0000_0000_0000 && 1u64 << 55 == 0x80_0000_0000_0000) by (bit_vector);
}

/// A step of a transmission names the port and the first queue, and is about the packets that it stands for, in order.
pub proof fn law_steps_of_transmission(
    runtime: DPDKRuntime,
    result: Result<TransmitStep, Fail>,
    spec: Result<TransmitStepView, FailView>,
)
    requires
        goes_on(runtime, result, spec),
    ensures
        result is Ok <==> spec is Ok,
        result matches Err(fail) ==> spec == Err::<TransmitStepView, FailView>(fail@),
        result matches Ok(TransmitStep::Send { port, queue, mbufs }) ==> {
            &&& port == runtime.port_id
            &&& queue == 0
            &&& spec matches Ok(TransmitStepView::Send { mbufs: sent })
            &&& mbufs@.len() == sent.len()
            &&& forall|i: int| 0 <= i < sent.len() ==> (#[trigger] mbufs@[i])@ == sent[i]
        },
        result matches Ok(TransmitStep::Allocate { size, transmission }) ==> {
            &&& spec matches Ok(TransmitStepView::Allocate { mbufs, waiting })
            &&& size == waiting[0].data.len()
            &&& transmission.runtime() == runtime
            &&& transmission.mbufs() == mbufs
            &&& transmission.waiting() == waiting
        },
{
    if let Ok(TransmitStep::Send { mbufs, .. }) = result {
        assert forall|i: int| 0 <= i < mbufs@.len() implies (#[trigger] mbufs@[i])@ == mbuf_views(mbufs@)[i] by {}
    }
}

/// The contents of several buffers are those of each, in order.
pub proof fn law_views_of_buffers(buffers: Seq<DemiBuffer>, mbufs: Seq<Mbuf>)
    ensures
        buffer_views(buffers).len() == buffers.len(),
        forall|i: int| 0 <= i < buffers.len() ==> #[trigger] buffer_views(buffers)[i] == buffers[i]@,
        mbuf_views(mbufs).len() == mbufs.len(),
        forall|i: int| 0 <= i < mbufs.len() ==> #[trigger] mbuf_views(mbufs)[i] == mbufs[i]@,
{
}

/// A transmission either succeeded, and frees nothing, or failed, and frees its message buffer.
pub proof fn law_failed_transmission_frees(end: OffloadEnd)
    ensures
        end.report() is Ok <==> end.to_free() is None,
        end matches OffloadEnd::Free { mbuf, fail } ==> end.to_free() == Some(mbuf@) && end.report() == Err::<
            (),
            FailView,
        >(fail@),
        end is Sent ==> end.report() is Ok,
{
}

} // verus!
