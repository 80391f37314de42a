//! Bringing up an Ethernet port.
//!
//! A port comes up through a series of calls into DPDK. [`PortInit`] decides which call is next, from what the calls
//! before it returned.

use crate::catnip::runtime::MemoryPool;
use crate::runtime::errno::{eio, EIO};
use crate::runtime::fail::{fail_view, result_view, Fail, FailView};
use crate::runtime::text::{decimal, to_decimal};
use vstd::prelude::*;

verus! {

/// Receive offload: the network card checks IPv4 header checksums.
pub const RTE_ETH_RX_OFFLOAD_IPV4_CKSUM: u64 = 2;

/// Transmit offload: the network card computes IPv4 header checksums.
pub const RTE_ETH_TX_OFFLOAD_IPV4_CKSUM: u64 = 2;

/// Number of receive rings, and of transmit rings.
pub const NUM_RINGS: u16 = 1;

/// Number of descriptors in a ring.
pub const RING_SIZE: u16 = 2048;

/// Memory socket of the rings.
pub const SOCKET_ID: u32 = 0;

/// How many times the link is looked at again after it was found down.
pub const LINK_RETRIES: u32 = 90;

/// Pause between two looks at the link (in microseconds).
pub const LINK_DELAY_US: u32 = 100_000;

/// Numbers that the installed DPDK defines, and the sizes of the memory pool.
#[derive(Clone, Copy, Debug, PartialEq, Eq, Structural)]
pub struct DpdkPlatform {
    /// Largest Ethernet frame.
    pub ether_max_len: u32,
    /// Largest jumbo frame.
    pub ether_max_jumbo_frame_len: u32,
    /// Room in front of the data of a message buffer.
    pub pktmbuf_headroom: u32,
    /// Owner number of ports that have no owner.
    pub eth_dev_no_owner: u64,
    /// Link status of a link that is up.
    pub eth_link_up: u32,
    /// Receive mode: receive side scaling.
    pub eth_mq_rx_rss: u32,
    /// Transmit mode: plain.
    pub eth_mq_tx_none: u32,
    /// Receive offload flag for TCP checksums.
    pub rx_offload_tcp_cksum: u64,
    /// Receive offload flag for UDP checksums.
    pub rx_offload_udp_cksum: u64,
    /// Transmit offload flag for TCP checksums.
    pub tx_offload_tcp_cksum: u64,
    /// Transmit offload flag for UDP checksums.
    pub tx_offload_udp_cksum: u64,
    /// Transmit offload flag for packets in several segments.
    pub tx_offload_multi_segs: u64,
    /// Receive side scaling over IP addresses.
    pub rss_ip: u64,
    /// Largest packet body, unless jumbo frames are in use.
    pub default_max_body_size: usize,
    /// Number of message buffers in the memory pool.
    pub default_body_pool_size: usize,
    /// Number of message buffers that are cached.
    pub default_cache_size: usize,
}

/// How a port is configured.
#[derive(Clone, Copy, Debug, PartialEq, Eq, Structural)]
pub struct PortConf {
    pub max_lro_pkt_size: u32,
    pub rx_mq_mode: u32,
    pub rx_offloads: u64,
    pub rss_hf: u64,
    pub tx_mq_mode: u32,
    pub tx_offloads: u64,
}

/// How a ring is configured.
#[derive(Clone, Copy, Debug, PartialEq, Eq, Structural)]
pub struct QueueConf {
    pub pthresh: u8,
    pub hthresh: u8,
    pub wthresh: u8,
    pub free_thresh: u16,
}

/// `flag` if it is wanted, else no flag.
pub open spec fn flag_if(wanted: bool, flag: u64) -> u64 {
    if wanted {
        flag
    } else {
        0
    }
}

/// The configuration of a port. Checksums are offloaded as the two settings say, and those of IPv4 headers if either
/// does.
pub open spec fn spec_port_conf(
    platform: DpdkPlatform,
    jumbo: bool,
    tcp: bool,
    udp: bool,
    flow_type_rss_offloads: u64,
) -> PortConf {
    PortConf {
        max_lro_pkt_size: if jumbo {
            platform.ether_max_jumbo_frame_len
        } else {
            platform.ether_max_len
        },
        rx_mq_mode: platform.eth_mq_rx_rss,
        rx_offloads: flag_if(tcp, platform.rx_offload_tcp_cksum) | flag_if(udp, platform.rx_offload_udp_cksum)
            | flag_if(tcp || udp, RTE_ETH_RX_OFFLOAD_IPV4_CKSUM),
        rss_hf: platform.rss_ip | flow_type_rss_offloads,
        tx_mq_mode: platform.eth_mq_tx_none,
        tx_offloads: flag_if(tcp, platform.tx_offload_tcp_cksum) | flag_if(udp, platform.tx_offload_udp_cksum)
            | platform.tx_offload_multi_segs | flag_if(tcp || udp, RTE_ETH_TX_OFFLOAD_IPV4_CKSUM),
    }
}

/// The configuration of a port.
pub fn port_conf(
    platform: &DpdkPlatform,
    jumbo: bool,
    tcp: bool,
    udp: bool,
    flow_type_rss_offloads: u64,
) -> (conf: PortConf)
    ensures
        conf == spec_port_conf(*platform, jumbo, tcp, udp, flow_type_rss_offloads),
{
    let mut rx_offloads: u64 = 0;
    if tcp {
        rx_offloads = rx_offloads | platform.rx_offload_tcp_cksum;
    }
    let ghost rx_tcp = rx_offloads;
    if udp {
        rx_offloads = rx_offloads | platform.rx_offload_udp_cksum;
    }
    let ghost rx_udp = rx_offloads;
    if tcp || udp {
        rx_offloads = rx_offloads | RTE_ETH_RX_OFFLOAD_IPV4_CKSUM;
    }
    let mut tx_offloads: u64 = 0;
    if tcp {
        tx_offloads = tx_offloads | platform.tx_offload_tcp_cksum;
    }
    let ghost tx_tcp = tx_offloads;
    if udp {
        tx_offloads = tx_offloads | platform.tx_offload_udp_cksum;
    }
    tx_offloads = tx_offloads | platform.tx_offload_multi_segs;
    let ghost tx_segs = tx_offloads;
    if tcp || udp {
        tx_offloads = tx_offloads | RTE_ETH_TX_OFFLOAD_IPV4_CKSUM;
    }
    proof {
        lemma_or_zero(platform.rx_offload_tcp_cksum);
        lemma_or_zero(platform.tx_offload_tcp_cksum);
        lemma_or_zero(rx_tcp);
        lemma_or_zero(rx_udp);
        lemma_or_zero(tx_tcp);
        lemma_or_zero(tx_segs);
    }
    PortConf {
        max_lro_pkt_size: if jumbo {
            platform.ether_max_jumbo_frame_len
        } else {
            platform.ether_max_len
        },
        rx_mq_mode: platform.eth_mq_rx_rss,
        rx_offloads,
        rss_hf: platform.rss_ip | flow_type_rss_offloads,
        tx_mq_mode: platform.eth_mq_tx_none,
        tx_offloads,
    }
}

proof fn lemma_or_zero(flags: u64)
    ensures
        0u64 | flags == flags,
        flags | 0u64 == flags,
{
    assert(0u64 | flags == flags) by (bit_vector);
    assert(flags | 0u64 == flags) by (bit_vector);
}

/// How far a port has come.
#[derive(Clone, Copy, Debug, PartialEq, Eq, Structural)]
pub enum PortState {
    /// Its features are to be read.
    DeviceInfo,
    /// It is to be configured.
    Configure { conf: PortConf },
    /// Its maximum transmission unit is to be set.
    SetMtu,
    /// Its maximum transmission unit is to be read back.
    GetMtu,
    /// A receive ring is to be set up.
    RxQueue { ring: u16 },
    /// A transmit ring is to be set up.
    TxQueue { ring: u16 },
    /// It is to be started.
    Start,
    /// It is to accept packets for any address.
    Promiscuous,
    /// It is to be looked up once more.
    Validate,
    /// The link is to be looked at.
    Link { retries: u32 },
    /// The link was down: there is to be a pause.
    Pause { retries: u32 },
    /// It is up.
    Ready,
}

/// A call into DPDK.
#[derive(Clone, Copy, Debug, PartialEq, Eq, Structural)]
pub enum PortAction {
    /// `rte_eth_dev_info_get`
    GetDeviceInfo { port: u16 },
    /// `rte_eth_dev_configure`
    Configure { port: u16, rx_rings: u16, tx_rings: u16, conf: PortConf },
    /// `rte_eth_dev_set_mtu`
    SetMtu { port: u16, mtu: u16 },
    /// `rte_eth_dev_get_mtu`
    GetMtu { port: u16 },
    /// `rte_eth_rx_queue_setup`
    SetupRxQueue {
        port: u16,
        ring: u16,
        descriptors: u16,
        socket_id: u32,
        queue_conf: QueueConf,
        mem_pool: MemoryPool,
    },
    /// `rte_eth_tx_queue_setup`
    SetupTxQueue { port: u16, ring: u16, descriptors: u16, socket_id: u32, queue_conf: QueueConf },
    /// `rte_eth_dev_start`
    Start { port: u16 },
    /// `rte_eth_promiscuous_enable`
    EnablePromiscuous { port: u16 },
    /// `rte_eth_dev_is_valid_port`
    IsValidPort { port: u16 },
    /// `rte_eth_link_get_nowait`
    GetLink { port: u16 },
    /// `rte_delay_us_block`
    DelayUs { delay: u32 },
    /// No call: the port is up.
    Nothing,
}

/// What a call brought.
#[derive(Clone, Copy, Debug, PartialEq, Eq, Structural)]
pub enum PortEvent {
    /// The features of the port, of which the receive side scaling matters.
    DeviceInfo { flow_type_rss_offloads: u64 },
    /// A return code.
    Returned { code: i32 },
    /// A return code and the maximum transmission unit.
    Mtu { code: i32, mtu: u16 },
    /// The call returned.
    Done,
    /// The status of the link.
    Link { status: u32 },
}

/// An Ethernet port on its way up.
#[derive(Clone, Copy, Debug, PartialEq, Eq, Structural)]
pub struct PortInit {
    pub platform: DpdkPlatform,
    /// The pool that the message buffers of received packets come from.
    pub mem_pool: MemoryPool,
    pub port: u16,
    pub jumbo: bool,
    pub mtu: u16,
    pub tcp_checksum_offload: bool,
    pub udp_checksum_offload: bool,
    pub state: PortState,
}

impl PortInit {
    /// Whether `event` is what the next call can bring.
    pub open spec fn expects(self, event: PortEvent) -> bool {
        match self.state {
            PortState::DeviceInfo => event is DeviceInfo,
            PortState::Configure { .. } => event is Returned,
            PortState::SetMtu => event is Returned,
            PortState::GetMtu => event is Mtu,
            PortState::RxQueue { .. } => event is Returned,
            PortState::TxQueue { .. } => event is Returned,
            PortState::Start => event is Returned,
            PortState::Promiscuous => event is Done,
            PortState::Validate => event is Returned,
            PortState::Link { .. } => event is Link,
            PortState::Pause { .. } => event is Done,
            PortState::Ready => false,
        }
    }

    /// The port, come so far.
    pub open spec fn at(self, state: PortState) -> PortInit {
        PortInit { state, ..self }
    }

    /// The next call.
    pub open spec fn spec_action(self) -> PortAction {
        let port = self.port;
        match self.state {
            PortState::DeviceInfo => PortAction::GetDeviceInfo { port },
            PortState::Configure { conf } => PortAction::Configure {
                port,
                rx_rings: NUM_RINGS,
                tx_rings: NUM_RINGS,
                conf,
            },
            PortState::SetMtu => PortAction::SetMtu { port, mtu: self.mtu },
            PortState::GetMtu => PortAction::GetMtu { port },
            PortState::RxQueue { ring } => PortAction::SetupRxQueue {
                port,
                ring,
                descriptors: RING_SIZE,
                socket_id: SOCKET_ID,
                queue_conf: QueueConf { pthresh: 8, hthresh: 8, wthresh: 0, free_thresh: 32 },
                mem_pool: self.mem_pool,
            },
            PortState::TxQueue { ring } => PortAction::SetupTxQueue {
                port,
                ring,
                descriptors: RING_SIZE,
                socket_id: SOCKET_ID,
                queue_conf: QueueConf { pthresh: 0, hthresh: 0, wthresh: 0, free_thresh: 32 },
            },
            PortState::Start => PortAction::Start { port },
            PortState::Promiscuous => PortAction::EnablePromiscuous { port },
            PortState::Validate => PortAction::IsValidPort { port },
            PortState::Link { .. } => PortAction::GetLink { port },
            PortState::Pause { .. } => PortAction::DelayUs { delay: LINK_DELAY_US },
            PortState::Ready => PortAction::Nothing,
        }
    }

    /// How the port goes on after `event`: to the next state, or not at all.
    pub open spec fn spec_step(self, event: PortEvent) -> Result<PortInit, FailView> {
        match (self.state, event) {
            (PortState::DeviceInfo, PortEvent::DeviceInfo { flow_type_rss_offloads }) => Ok(
                self.at(
                    PortState::Configure {
                        conf: spec_port_conf(
                            self.platform,
                            self.jumbo,
                            self.tcp_checksum_offload,
                            self.udp_checksum_offload,
                            flow_type_rss_offloads,
                        ),
                    },
                ),
            ),
            (PortState::Configure { .. }, PortEvent::Returned { code }) => if code != 0 {
                Err(fail_view(EIO, "failed to configure ethernet device"@))
            } else {
                Ok(self.at(PortState::SetMtu))
            },
            (PortState::SetMtu, PortEvent::Returned { code }) => if code != 0 {
                Err(fail_view(EIO, "failed to set mtu "@ + decimal(self.mtu as nat)))
            } else {
                Ok(self.at(PortState::GetMtu))
            },
            (PortState::GetMtu, PortEvent::Mtu { code, mtu }) => if code != 0 {
                Err(fail_view(EIO, "failed to get mtu"@))
            } else if mtu != self.mtu {
                Err(
                    fail_view(
                        EIO,
                        "failed to set MTU to "@ + decimal(self.mtu as nat) + ", got back "@ + decimal(mtu as nat),
                    ),
                )
            } else {
                Ok(self.at(PortState::RxQueue { ring: 0 }))
            },
            (PortState::RxQueue { ring }, PortEvent::Returned { code }) => if code != 0 {
                Err(fail_view(EIO, "failed to set up rx queue"@))
            } else if ring + 1 < NUM_RINGS {
                Ok(self.at(PortState::RxQueue { ring: (ring + 1) as u16 }))
            } else {
                Ok(self.at(PortState::TxQueue { ring: 0 }))
            },
            (PortState::TxQueue { ring }, PortEvent::Returned { code }) => if code != 0 {
                Err(fail_view(EIO, "failed to set up tx ring "@ + decimal(ring as nat)))
            } else if ring + 1 < NUM_RINGS {
                Ok(self.at(PortState::TxQueue { ring: (ring + 1) as u16 }))
            } else {
                Ok(self.at(PortState::Start))
            },
            (PortState::Start, PortEvent::Returned { code }) => if code != 0 {
                Err(fail_view(EIO, "failed to set up ethernet device"@))
            } else {
                Ok(self.at(PortState::Promiscuous))
            },
            (PortState::Promiscuous, PortEvent::Done) => Ok(self.at(PortState::Validate)),
            (PortState::Validate, PortEvent::Returned { code }) => if code == 0 {
                Err(fail_view(EIO, "invalid port id"@))
            } else {
                Ok(self.at(PortState::Link { retries: LINK_RETRIES }))
            },
            (PortState::Link { retries }, PortEvent::Link { status }) => if status == self.platform.eth_link_up {
                Ok(self.at(PortState::Ready))
            } else {
                Ok(self.at(PortState::Pause { retries }))
            },
            (PortState::Pause { retries }, PortEvent::Done) => if retries == 0 {
                Err(fail_view(EIO, "link never came up"@))
            } else {
                Ok(self.at(PortState::Link { retries: (retries - 1) as u32 }))
            },
            _ => Ok(self),
        }
    }

    /// Starts to bring up a port.
    pub fn new(
        platform: &DpdkPlatform,
        mem_pool: &MemoryPool,
        port: u16,
        jumbo: bool,
        mtu: u16,
        tcp_checksum_offload: bool,
        udp_checksum_offload: bool,
    ) -> (init: PortInit)
        ensures
            init == (PortInit {
                platform: *platform,
                mem_pool: *mem_pool,
                port,
                jumbo,
                mtu,
                tcp_checksum_offload,
                udp_checksum_offload,
                state: PortState::DeviceInfo,
            }),
    {
        PortInit {
            platform: *platform,
            mem_pool: *mem_pool,
            port,
            jumbo,
            mtu,
            tcp_checksum_offload,
            udp_checksum_offload,
            state: PortState::DeviceInfo,
        }
    }

    /// The next call.
    pub fn action(&self) -> (action: PortAction)
        ensures
            action == self.spec_action(),
    {
        let port: u16 = self.port;
        match self.state {
            PortState::DeviceInfo => PortAction::GetDeviceInfo { port },
            PortState::Configure { conf } => PortAction::Configure {
                port,
                rx_rings: NUM_RINGS,
                tx_rings: NUM_RINGS,
                conf,
            },
            PortState::SetMtu => PortAction::SetMtu { port, mtu: self.mtu },
            PortState::GetMtu => PortAction::GetMtu { port },
            PortState::RxQueue { ring } => PortAction::SetupRxQueue {
                port,
                ring,
                descriptors: RING_SIZE,
                socket_id: SOCKET_ID,
                queue_conf: QueueConf { pthresh: 8, hthresh: 8, wthresh: 0, free_thresh: 32 },
                mem_pool: self.mem_pool,
            },
            PortState::TxQueue { ring } => PortAction::SetupTxQueue {
                port,
                ring,
                descriptors: RING_SIZE,
                socket_id: SOCKET_ID,
                queue_conf: QueueConf { pthresh: 0, hthresh: 0, wthresh: 0, free_thresh: 32 },
            },
            PortState::Start => PortAction::Start { port },
            PortState::Promiscuous => PortAction::EnablePromiscuous { port },
            PortState::Validate => PortAction::IsValidPort { port },
            PortState::Link { .. } => PortAction::GetLink { port },
            PortState::Pause { .. } => PortAction::DelayUs { delay: LINK_DELAY_US },
            PortState::Ready => PortAction::Nothing,
        }
    }

    /// Goes on after the call that [`PortInit::action`] named brought `event`.
    pub fn step(&self, event: PortEvent) -> (next: Result<PortInit, Fail>)
        requires
            self.expects(event),
        ensures
            result_view(next) == self.spec_step(event),
    {
        let state = match (self.state, event) {
            (PortState::DeviceInfo, PortEvent::DeviceInfo { flow_type_rss_offloads }) => {
                let conf = port_conf(
                    &self.platform,
                    self.jumbo,
                    self.tcp_checksum_offload,
                    self.udp_checksum_offload,
                    flow_type_rss_offloads,
                );
                PortState::Configure { conf }
            },
            (PortState::Configure { .. }, PortEvent::Returned { code }) => {
                if code != 0 {
                    return Err(Fail::new(eio(), "failed to configure ethernet device"));
                }
                PortState::SetMtu
            },
            (PortState::SetMtu, PortEvent::Returned { code }) => {
                if code != 0 {
                    let cause = "failed to set mtu ".to_owned().concat(to_decimal(self.mtu as u32).as_str());
                    return Err(Fail { errno: eio(), cause });
                }
                PortState::GetMtu
            },
            (PortState::GetMtu, PortEvent::Mtu { code, mtu }) => {
                if code != 0 {
                    return Err(Fail::new(eio(), "failed to get mtu"));
                }
                if mtu != self.mtu {
                    let wanted = "failed to set MTU to ".to_owned().concat(to_decimal(self.mtu as u32).as_str());
                    let cause = wanted.concat(", got back ").concat(to_decimal(mtu as u32).as_str());
                    return Err(Fail { errno: eio(), cause });
                }
                PortState::RxQueue { ring: 0 }
            },
            (PortState::RxQueue { ring }, PortEvent::Returned { code }) => {
                if code != 0 {
                    return Err(Fail::new(eio(), "failed to set up rx queue"));
                }
                if ring < NUM_RINGS - 1 {
                    PortState::RxQueue { ring: ring + 1 }
                } else {
                    PortState::TxQueue { ring: 0 }
                }
            },
            (PortState::TxQueue { ring }, PortEvent::Returned { code }) => {
                if code != 0 {
                    let cause = "failed to set up tx ring ".to_owned().concat(to_decimal(ring as u32).as_str());
                    return Err(Fail { errno: eio(), cause });
                }
                if ring < NUM_RINGS - 1 {
                    PortState::TxQueue { ring: ring + 1 }
                } else {
                    PortState::Start
                }
            },
            (PortState::Start, PortEvent::Returned { code }) => {
                if code != 0 {
                    return Err(Fail::new(eio(), "failed to set up ethernet device"));
                }
                PortState::Promiscuous
            },
            (PortState::Promiscuous, PortEvent::Done) => PortState::Validate,
            (PortState::Validate, PortEvent::Returned { code }) => {
                if code == 0 {
                    return Err(Fail::new(eio(), "invalid port id"));
                }
                PortState::Link { retries: LINK_RETRIES }
            },
            (PortState::Link { retries }, PortEvent::Link { status }) => {
                if status == self.platform.eth_link_up {
                    PortState::Ready
                } else {
                    PortState::Pause { retries }
                }
            },
            (PortState::Pause { retries }, PortEvent::Done) => {
                if retries == 0 {
                    return Err(Fail::new(eio(), "link never came up"));
                }
                PortState::Link { retries: retries - 1 }
            },
            (state, _) => state,
        };
        let mut next = *self;
        next.state = state;
        Ok(next)
    }
}

/// Where a port stands after `events`, one for each call.
pub open spec fn port_after(init: PortInit, events: Seq<PortEvent>) -> Result<PortInit, FailView>
    decreases events.len(),
{
    if events.len() == 0 {
        Ok(init)
    } else {
        match init.spec_step(events[0]) {
            Ok(next) => port_after(next, events.skip(1)),
            Err(fail) => Err(fail),
        }
    }
}

/// Whether each of `events` is what the call before it can bring.
pub open spec fn port_events_fit(init: PortInit, events: Seq<PortEvent>) -> bool
    decreases events.len(),
{
    events.len() > 0 ==> init.expects(events[0]) && match init.spec_step(events[0]) {
        Ok(next) => port_events_fit(next, events.skip(1)),
        Err(_) => events.len() == 1,
    }
}

/// The link is found down `n` times, with a pause each time.
pub open spec fn link_down_events(status: u32, n: nat) -> Seq<PortEvent>
    decreases n,
{
    if n == 0 {
        seq![]
    } else {
        seq![PortEvent::Link { status }, PortEvent::Done] + link_down_events(status, (n - 1) as nat)
    }
}

/// The calls that set up a port succeed.
pub open spec fn setup_events(mtu: u16, flow_type_rss_offloads: u64, valid: i32) -> Seq<PortEvent> {
    seq![
        PortEvent::DeviceInfo { flow_type_rss_offloads },
        PortEvent::Returned { code: 0 },
        PortEvent::Returned { code: 0 },
        PortEvent::Mtu { code: 0, mtu },
        PortEvent::Returned { code: 0 },
        PortEvent::Returned { code: 0 },
        PortEvent::Returned { code: 0 },
        PortEvent::Done,
        PortEvent::Returned { code: valid },
    ]
}

proof fn lemma_port_after_one(init: PortInit, event: PortEvent, rest: Seq<PortEvent>)
    ensures
        port_after(init, seq![event] + rest) == match init.spec_step(event) {
            Ok(next) => port_after(next, rest),
            Err(fail) => Err(fail),
        },
{
    let events = seq![event] + rest;
    assert(events[0] == event);
    assert(events.skip(1) =~= rest);
}

/// A link that is down is looked at again, once for each try that is left, and then no more.
pub proof fn law_link_is_awaited(init: PortInit, status: u32, n: nat, rest: Seq<PortEvent>)
    requires
        init.state matches PortState::Link { retries } && n <= retries + 1,
        status != init.platform.eth_link_up,
    ensures
        n <= init.state->Link_retries ==> port_after(init, link_down_events(status, n) + rest) == port_after(
            init.at(PortState::Link { retries: (init.state->Link_retries - n) as u32 }),
            rest,
        ),
        n == init.state->Link_retries + 1 ==> port_after(init, link_down_events(status, n) + rest) == Err::<
            PortInit,
            FailView,
        >(fail_view(EIO, "link never came up"@)),
    decreases n,
{
    let retries = init.state->Link_retries;
    if n == 0 {
        assert(link_down_events(status, n) + rest =~= rest);
        assert(init.at(PortState::Link { retries }) == init);
    } else {
        let more = link_down_events(status, (n - 1) as nat) + rest;
        assert(link_down_events(status, n) + rest =~= seq![PortEvent::Link { status }] + (seq![PortEvent::Done]
            + more));
        lemma_port_after_one(init, PortEvent::Link { status }, seq![PortEvent::Done] + more);
        let paused = init.at(PortState::Pause { retries });
        lemma_port_after_one(paused, PortEvent::Done, more);
        if retries > 0 {
            let again = init.at(PortState::Link { retries: (retries - 1) as u32 });
            law_link_is_awaited(again, status, (n - 1) as nat, rest);
        }
    }
}

/// Where every call succeeds, a port is up as soon as its link is, be it at the last of the tries.
pub proof fn law_port_comes_up(
    init: PortInit,
    flow_type_rss_offloads: u64,
    valid: i32,
    down: u32,
    n: nat,
)
    requires
        init.state is DeviceInfo,
        valid != 0,
        down != init.platform.eth_link_up,
        n <= LINK_RETRIES,
    ensures
        port_after(
            init,
            setup_events(init.mtu, flow_type_rss_offloads, valid) + (link_down_events(down, n) + seq![
                PortEvent::Link { status: init.platform.eth_link_up },
            ]),
        ) == Ok::<PortInit, FailView>(init.at(PortState::Ready)),
{
    let up = PortEvent::Link { status: init.platform.eth_link_up };
    let rest = link_down_events(down, n) + seq![up];
    lemma_port_is_set_up(init, flow_type_rss_offloads, valid, rest);
    let waiting = init.at(PortState::Link { retries: LINK_RETRIES });
    law_link_is_awaited(waiting, down, n, seq![up]);
    let left = init.at(PortState::Link { retries: (LINK_RETRIES - n) as u32 });
    lemma_port_after_one(left, up, seq![]);
    assert(seq![up] + Seq::<PortEvent>::empty() =~= seq![up]);
}

/// Where the link stays down for as long as it is looked at, a port does not come up.
pub proof fn law_port_without_link_fails(init: PortInit, flow_type_rss_offloads: u64, valid: i32, down: u32)
    requires
        init.state is DeviceInfo,
        valid != 0,
        down != init.platform.eth_link_up,
    ensures
        port_after(
            init,
            setup_events(init.mtu, flow_type_rss_offloads, valid) + link_down_events(down, (LINK_RETRIES + 1) as nat),
        ) == Err::<PortInit, FailView>(fail_view(EIO, "link never came up"@)),
{
    let n = (LINK_RETRIES + 1) as nat;
    let waiting = init.at(PortState::Link { retries: LINK_RETRIES });
    lemma_port_is_set_up(init, flow_type_rss_offloads, valid, link_down_events(down, n));
    law_link_is_awaited(waiting, down, n, seq![]);
    assert(link_down_events(down, n) + Seq::<PortEvent>::empty() =~= link_down_events(down, n));
}

proof fn lemma_port_is_set_up(init: PortInit, flow_type_rss_offloads: u64, valid: i32, rest: Seq<PortEvent>)
    requires
        init.state is DeviceInfo,
        valid != 0,
    ensures
        port_after(init, setup_events(init.mtu, flow_type_rss_offloads, valid) + rest) == port_after(
            init.at(PortState::Link { retries: LINK_RETRIES }),
            rest,
        ),
{
    let ok = PortEvent::Returned { code: 0 };
    let conf = spec_port_conf(
        init.platform,
        init.jumbo,
        init.tcp_checksum_offload,
        init.udp_checksum_offload,
        flow_type_rss_offloads,
    );
    let r9 = seq![PortEvent::Returned { code: valid }] + rest;
    let r8 = seq![PortEvent::Done] + r9;
    let r7 = seq![ok] + r8;
    let r6 = seq![ok] + r7;
    let r5 = seq![ok] + r6;
    let r4 = seq![PortEvent::Mtu { code: 0, mtu: init.mtu }] + r5;
    let r3 = seq![ok] + r4;
    let r2 = seq![ok] + r3;
    let first = PortEvent::DeviceInfo { flow_type_rss_offloads };
    assert(setup_events(init.mtu, flow_type_rss_offloads, valid) + rest =~= seq![first] + r2);
    lemma_port_after_one(init, first, r2);
    lemma_port_after_one(init.at(PortState::Configure { conf }), ok, r3);
    lemma_port_after_one(init.at(PortState::SetMtu), ok, r4);
    lemma_port_after_one(init.at(PortState::GetMtu), PortEvent::Mtu { code: 0, mtu: init.mtu }, r5);
    lemma_port_after_one(init.at(PortState::RxQueue { ring: 0 }), ok, r6);
    lemma_port_after_one(init.at(PortState::TxQueue { ring: 0 }), ok, r7);
    lemma_port_after_one(init.at(PortState::Start), ok, r8);
    lemma_port_after_one(init.at(PortState::Promiscuous), PortEvent::Done, r9);
    lemma_port_after_one(init.at(PortState::Validate), PortEvent::Returned { code: valid }, rest);
}

/// Number of events that a port can still see before it is up or has failed.
pub open spec fn port_events_left(init: PortInit) -> int {
    match init.state {
        PortState::DeviceInfo => 9 + 2 * (LINK_RETRIES + 1),
        PortState::Configure { .. } => 8 + 2 * (LINK_RETRIES + 1),
        PortState::SetMtu => 7 + 2 * (LINK_RETRIES + 1),
        PortState::GetMtu => 6 + 2 * (LINK_RETRIES + 1),
        PortState::RxQueue { .. } => 5 + 2 * (LINK_RETRIES + 1),
        PortState::TxQueue { .. } => 4 + 2 * (LINK_RETRIES + 1),
        PortState::Start => 3 + 2 * (LINK_RETRIES + 1),
        PortState::Promiscuous => 2 + 2 * (LINK_RETRIES + 1),
        PortState::Validate => 1 + 2 * (LINK_RETRIES + 1),
        PortState::Link { retries } => 2 * (retries + 1),
        PortState::Pause { retries } => 2 * retries + 1,
        PortState::Ready => 0,
    }
}

/// Bringing up a port ends: no port makes more calls than these.
pub proof fn law_port_init_ends(init: PortInit, events: Seq<PortEvent>)
    requires
        port_events_fit(init, events),
    ensures
        events.len() <= port_events_left(init),
    decreases events.len(),
{
    if events.len() > 0 {
        match init.spec_step(events[0]) {
            Ok(next) => {
                law_port_init_ends(next, events.skip(1));
            },
            Err(_) => {},
        }
    }
}

/// A port that is up was set up without a failure: its configuration was accepted, its maximum transmission unit is
/// the one asked for, its rings stand, it was started and is known, and the last look found the link up.
pub proof fn law_ready_port_was_set_up(init: PortInit, events: Seq<PortEvent>)
    requires
        init.state is DeviceInfo,
        port_events_fit(init, events),
        port_after(init, events) == Ok::<PortInit, FailView>(init.at(PortState::Ready)),
    ensures
        events.len() >= 10,
        events[0] is DeviceInfo,
        events[1] == (PortEvent::Returned { code: 0 }),
        events[2] == (PortEvent::Returned { code: 0 }),
        events[3] == (PortEvent::Mtu { code: 0, mtu: init.mtu }),
        events[4] == (PortEvent::Returned { code: 0 }),
        events[5] == (PortEvent::Returned { code: 0 }),
        events[6] == (PortEvent::Returned { code: 0 }),
        events[8] matches PortEvent::Returned { code } && code != 0,
        events.last() == (PortEvent::Link { status: init.platform.eth_link_up }),
{
    let conf = spec_port_conf(
        init.platform,
        init.jumbo,
        init.tcp_checksum_offload,
        init.udp_checksum_offload,
        events[0]->flow_type_rss_offloads,
    );
    let e1 = events.skip(1);
    let e2 = e1.skip(1);
    let e3 = e2.skip(1);
    let e4 = e3.skip(1);
    let e5 = e4.skip(1);
    let e6 = e5.skip(1);
    let e7 = e6.skip(1);
    let e8 = e7.skip(1);
    let e9 = e8.skip(1);
    lemma_ready_needs_event(init, events);
    lemma_ready_needs_event(init.at(PortState::Configure { conf }), e1);
    lemma_ready_needs_event(init.at(PortState::SetMtu), e2);
    lemma_ready_needs_event(init.at(PortState::GetMtu), e3);
    lemma_ready_needs_event(init.at(PortState::RxQueue { ring: 0 }), e4);
    lemma_ready_needs_event(init.at(PortState::TxQueue { ring: 0 }), e5);
    lemma_ready_needs_event(init.at(PortState::Start), e6);
    lemma_ready_needs_event(init.at(PortState::Promiscuous), e7);
    lemma_ready_needs_event(init.at(PortState::Validate), e8);
    lemma_ready_link_is_up(init.at(PortState::Link { retries: LINK_RETRIES }), e9);
}

/// A port that is not up yet and comes up sees one more event, after which it goes on.
proof fn lemma_ready_needs_event(init: PortInit, events: Seq<PortEvent>)
    requires
        !(init.state is Ready),
        port_events_fit(init, events),
        port_after(init, events) == Ok::<PortInit, FailView>(init.at(PortState::Ready)),
    ensures
        events.len() > 0,
        init.expects(events[0]),
        init.spec_step(events[0]) matches Ok(next) && port_events_fit(next, events.skip(1)) && port_after(
            next,
            events.skip(1),
        ) == Ok::<PortInit, FailView>(init.at(PortState::Ready)),
{
}

proof fn lemma_ready_link_is_up(init: PortInit, events: Seq<PortEvent>)
    requires
        init.state is Link || init.state is Pause,
        port_events_fit(init, events),
        port_after(init, events) == Ok::<PortInit, FailView>(init.at(PortState::Ready)),
    ensures
        events.len() > 0,
        events.last() == (PortEvent::Link { status: init.platform.eth_link_up }),
    decreases events.len(),
{
    lemma_ready_needs_event(init, events);
    let next = init.spec_step(events[0])->Ok_0;
    if next.state is Ready {
        assert(port_events_fit(next, events.skip(1)));
        assert(events.skip(1).len() == 0);
    } else {
        lemma_ready_link_is_up(next, events.skip(1));
    }
}

/// Where either checksum is offloaded, so is that of IPv4 headers; packets in several segments always are.
pub proof fn law_offloads_are_requested(platform: DpdkPlatform, jumbo: bool, tcp: bool, udp: bool, flow: u64)
    ensures
        ({
            let conf = spec_port_conf(platform, jumbo, tcp, udp, flow);
            &&& conf.tx_offloads & platform.tx_offload_multi_segs == platform.tx_offload_multi_segs
            &&& tcp ==> conf.rx_offloads & platform.rx_offload_tcp_cksum == platform.rx_offload_tcp_cksum
            &&& tcp ==> conf.tx_offloads & platform.tx_offload_tcp_cksum == platform.tx_offload_tcp_cksum
            &&& udp ==> conf.rx_offloads & platform.rx_offload_udp_cksum == platform.rx_offload_udp_cksum
            &&& udp ==> conf.tx_offloads & platform.tx_offload_udp_cksum == platform.tx_offload_udp_cksum
            &&& (tcp || udp) ==> conf.rx_offloads & RTE_ETH_RX_OFFLOAD_IPV4_CKSUM == RTE_ETH_RX_OFFLOAD_IPV4_CKSUM
            &&& (tcp || udp) ==> conf.tx_offloads & RTE_ETH_TX_OFFLOAD_IPV4_CKSUM == RTE_ETH_TX_OFFLOAD_IPV4_CKSUM
            &&& !tcp && !udp ==> conf.rx_offloads == 0 && conf.tx_offloads == platform.tx_offload_multi_segs
        }),
{
    let rx_tcp = flag_if(tcp, platform.rx_offload_tcp_cksum);
    let rx_udp = flag_if(udp, platform.rx_offload_udp_cksum);
    let rx_ip = flag_if(tcp || udp, RTE_ETH_RX_OFFLOAD_IPV4_CKSUM);
    lemma_union_holds(rx_tcp, rx_udp, rx_ip, 0);
    let tx_tcp = flag_if(tcp, platform.tx_offload_tcp_cksum);
    let tx_udp = flag_if(udp, platform.tx_offload_udp_cksum);
    let tx_ip = flag_if(tcp || udp, RTE_ETH_TX_OFFLOAD_IPV4_CKSUM);
    lemma_union_holds(tx_tcp, tx_udp, platform.tx_offload_multi_segs, tx_ip);
    lemma_or_zero(rx_tcp | rx_udp | rx_ip);
    lemma_or_zero(0);
    lemma_or_zero(platform.tx_offload_multi_segs);
}

proof fn lemma_union_holds(a: u64, b: u64, c: u64, d: u64)
    ensures
        (a | b | c | d) & a == a,
        (a | b | c | d) & b == b,
        (a | b | c | d) & c == c,
        (a | b | c | d) & d == d,
{
    assert((a | b | c | d) & a == a) by (bit_vector);
    assert((a | b | c | d) & b == b) by (bit_vector);
    assert((a | b | c | d) & c == c) by (bit_vector);
    assert((a | b | c | d) & d == d) by (bit_vector);
}

} // verus!
