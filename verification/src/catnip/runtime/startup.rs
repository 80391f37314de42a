//! Starting DPDK.
//!
//! The environment comes up first, then a port is found, then a memory pool is made, and at last the port is brought
//! up. [`DPDKStartup`] decides what is next, from what came of the steps before it.

use crate::catnip::runtime::port::{
    port_after, port_events_fit, DpdkPlatform, PortAction, PortEvent, PortInit, PortState,
};
use crate::catnip::runtime::{DPDKRuntime, MemoryPool, SharedDPDKRuntime};
use crate::demikernel::config::Config;
use crate::runtime::errno::{eio, EIO};
use crate::runtime::fail::{fail_view, result_view, Fail, FailView};
use crate::runtime::text::{signed_decimal, to_signed_decimal};
use vstd::prelude::*;

verus! {

/// The environment variables that the network card's driver reads, each with its value.
pub fn environment_variables() -> (variables: Vec<(&'static str, &'static str)>)
    ensures
        variables@ =~= seq![
            ("MLX5_SHUT_UP_BF", "1"),
            ("MLX5_SINGLE_THREADED", "1"),
            ("MLX4_SINGLE_THREADED", "1"),
        ],
{
    vec![("MLX5_SHUT_UP_BF", "1"), ("MLX5_SINGLE_THREADED", "1"), ("MLX4_SINGLE_THREADED", "1")]
}

/// The memory pool for packet bodies of this size.
pub fn initialize_mempool(platform: &DpdkPlatform, max_body_size: usize) -> (mem_pool: MemoryPool)
    ensures
        mem_pool == spec_body_pool(*platform, max_body_size),
{
    MemoryPool {
        data_room_size: max_body_size,
        pool_size: platform.default_body_pool_size,
        cache_size: platform.default_cache_size,
    }
}

/// How far the start has come.
#[derive(Debug)]
pub enum StartupStage<'a> {
    /// The environment variables are to be set.
    Environment,
    /// The environment abstraction layer is to be brought up.
    EalInit { args: &'a Vec<String> },
    /// The available ports are to be counted.
    CountPorts,
    /// A port is to be picked.
    FindPort,
    /// The memory pool is to be made.
    Mempool { port: u16, jumbo: bool, max_body_size: usize },
    /// The port is to be brought up.
    Port { max_body_size: usize, init: PortInit },
}

/// What is to be done next.
#[derive(Debug)]
pub enum StartupAction<'a> {
    /// Set the variables of [`environment_variables`].
    SetEnvironment,
    /// `rte_eal_init`, and `rte_errno` if that fails.
    EalInit { args: &'a Vec<String> },
    /// `rte_eth_dev_count_avail`
    CountPorts,
    /// `rte_eth_find_next_owned_by`
    FindPort { from: u16, owner: u64 },
    /// Make a memory pool.
    CreateMempool { name: &'static str, mem_pool: MemoryPool },
    /// A call that brings up the port.
    Port(PortAction),
}

/// What came of it.
#[derive(Debug)]
pub enum StartupReply {
    /// The variables are set.
    EnvironmentSet,
    /// Return code and error number.
    Eal { code: i32, rte_errno: i32 },
    /// Number of available ports.
    PortCount(u16),
    /// Number of the port that was found.
    PortFound(u64),
    /// Whether there is a memory pool.
    Mempool(Result<(), Fail>),
    /// What a call on the port brought.
    Port(PortEvent),
}

/// DPDK on its way up.
#[derive(Debug)]
pub struct DPDKStartup<'a> {
    pub config: &'a Config,
    pub platform: DpdkPlatform,
    pub stage: StartupStage<'a>,
}

/// Where the start stands after a step.
#[derive(Debug)]
pub enum StartupStep<'a> {
    /// There is more to be done.
    Continue(DPDKStartup<'a>),
    /// The runtime is up.
    Ready(SharedDPDKRuntime),
}

/// The size of the largest packet body.
pub open spec fn spec_max_body_size(platform: DpdkPlatform, jumbo: bool) -> int {
    if jumbo {
        platform.ether_max_jumbo_frame_len + platform.pktmbuf_headroom
    } else {
        platform.default_max_body_size as int
    }
}

/// A memory pool for packet bodies of this size.
pub open spec fn spec_body_pool(platform: DpdkPlatform, max_body_size: usize) -> MemoryPool {
    MemoryPool {
        data_room_size: max_body_size,
        pool_size: platform.default_body_pool_size,
        cache_size: platform.default_cache_size,
    }
}

/// Whether a setting was read and is on.
pub open spec fn is_on(setting: Result<bool, Fail>) -> bool {
    setting matches Ok(on) && on
}

impl<'a> DPDKStartup<'a> {
    /// Whether the numbers of the platform are within bounds.
    pub open spec fn wf(self) -> bool {
        self.platform.ether_max_jumbo_frame_len + self.platform.pktmbuf_headroom <= u32::MAX
    }

    /// The start, come so far.
    pub open spec fn at(self, stage: StartupStage<'a>) -> DPDKStartup<'a> {
        DPDKStartup { config: self.config, platform: self.platform, stage }
    }

    /// Whether `reply` can come of the next step.
    pub open spec fn expects(self, reply: StartupReply) -> bool {
        match self.stage {
            StartupStage::Environment => reply is EnvironmentSet,
            StartupStage::EalInit { .. } => reply is Eal,
            StartupStage::CountPorts => reply is PortCount,
            StartupStage::FindPort => reply is PortFound,
            StartupStage::Mempool { .. } => reply is Mempool,
            StartupStage::Port { init, .. } => reply matches StartupReply::Port(event) && init.expects(event),
        }
    }

    /// What is to be done next.
    pub open spec fn spec_action(self) -> StartupAction<'a> {
        match self.stage {
            StartupStage::Environment => StartupAction::SetEnvironment,
            StartupStage::EalInit { args } => StartupAction::EalInit { args },
            StartupStage::CountPorts => StartupAction::CountPorts,
            StartupStage::FindPort => StartupAction::FindPort { from: 0, owner: self.platform.eth_dev_no_owner },
            StartupStage::Mempool { max_body_size, .. } => StartupAction::CreateMempool {
                name: "body_pool",
                mem_pool: spec_body_pool(self.platform, max_body_size),
            },
            StartupStage::Port { init, .. } => StartupAction::Port(init.spec_action()),
        }
    }

    /// Where the start stands after `reply`, or why it failed.
    pub open spec fn spec_resume(self, reply: StartupReply) -> Result<StartupStep<'a>, FailView> {
        match (self.stage, reply) {
            (StartupStage::Environment, StartupReply::EnvironmentSet) => match self.config.eal_init_args {
                Ok(args) => Ok(StartupStep::Continue(self.at(StartupStage::EalInit { args: &args }))),
                Err(fail) => Err(fail@),
            },
            (StartupStage::EalInit { .. }, StartupReply::Eal { code, rte_errno }) => if code < 0 {
                Err(
                    fail_view(
                        EIO,
                        "EAL init failed (rte_errno="@ + signed_decimal(rte_errno as int) + ")"@,
                    ),
                )
            } else {
                Ok(StartupStep::Continue(self.at(StartupStage::CountPorts)))
            },
            (StartupStage::CountPorts, StartupReply::PortCount(n)) => if n == 0 {
                Err(fail_view(EIO, "no ethernet ports available"@))
            } else {
                Ok(StartupStep::Continue(self.at(StartupStage::FindPort)))
            },
            (StartupStage::FindPort, StartupReply::PortFound(port)) => match self.config.enable_jumbo_frames {
                Ok(jumbo) => Ok(
                    StartupStep::Continue(
                        self.at(
                            StartupStage::Mempool {
                                port: (port % 65536) as u16,
                                jumbo,
                                max_body_size: spec_max_body_size(self.platform, jumbo) as usize,
                            },
                        ),
                    ),
                ),
                Err(fail) => Err(fail@),
            },
            (
                StartupStage::Mempool { port, jumbo, max_body_size },
                StartupReply::Mempool(created),
            ) => match (created, self.config.mtu) {
                (Err(fail), _) => Err(fail@),
                (Ok(_), Err(fail)) => Err(fail@),
                (Ok(_), Ok(mtu)) => Ok(
                    StartupStep::Continue(
                        self.at(
                            StartupStage::Port {
                                max_body_size,
                                init: PortInit {
                                    platform: self.platform,
                                    mem_pool: spec_body_pool(self.platform, max_body_size),
                                    port,
                                    jumbo,
                                    mtu,
                                    tcp_checksum_offload: is_on(self.config.tcp_checksum_offload),
                                    udp_checksum_offload: is_on(self.config.udp_checksum_offload),
                                    state: PortState::DeviceInfo,
                                },
                            },
                        ),
                    ),
                ),
            },
            (
                StartupStage::Port { max_body_size, init },
                StartupReply::Port(event),
            ) => match init.spec_step(event) {
                Err(fail) => Err(fail),
                Ok(next) => if next.state is Ready {
                    Ok(
                        StartupStep::Ready(
                            SharedDPDKRuntime(
                                DPDKRuntime {
                                    max_body_size,
                                    mem_pool: next.mem_pool,
                                    port_id: next.port,
                                    tcp_checksum_offload: next.tcp_checksum_offload,
                                    udp_checksum_offload: next.udp_checksum_offload,
                                },
                            ),
                        ),
                    )
                } else {
                    Ok(
                        StartupStep::Continue(
                            self.at(StartupStage::Port { max_body_size, init: next }),
                        ),
                    )
                },
            },
            _ => Ok(StartupStep::Continue(self)),
        }
    }

    /// What is to be done next.
    pub fn action(&self) -> (action: StartupAction<'a>)
        ensures
            action == self.spec_action(),
    {
        match &self.stage {
            StartupStage::Environment => StartupAction::SetEnvironment,
            StartupStage::EalInit { args } => StartupAction::EalInit { args: *args },
            StartupStage::CountPorts => StartupAction::CountPorts,
            StartupStage::FindPort => StartupAction::FindPort { from: 0, owner: self.platform.eth_dev_no_owner },
            StartupStage::Mempool { max_body_size, .. } => StartupAction::CreateMempool {
                name: "body_pool",
                mem_pool: initialize_mempool(&self.platform, *max_body_size),
            },
            StartupStage::Port { init, .. } => StartupAction::Port(init.action()),
        }
    }

    /// Goes on after what [`DPDKStartup::action`] named was done and brought `reply`.
    pub fn resume(self, reply: StartupReply) -> (step: Result<StartupStep<'a>, Fail>)
        requires
            self.wf(),
            self.expects(reply),
        ensures
            result_view(step) == self.spec_resume(reply),
            step matches Ok(StartupStep::Continue(next)) ==> next.wf(),
    {
        let config = self.config;
        let platform = self.platform;
        let stage = match (self.stage, reply) {
            (StartupStage::Environment, _) => match &config.eal_init_args {
                Ok(args) => StartupStage::EalInit { args },
                Err(fail) => return Err(fail.clone()),
            },
            (StartupStage::EalInit { .. }, StartupReply::Eal { code, rte_errno }) => {
                if code < 0 {
                    let number = to_signed_decimal(rte_errno);
                    let cause = "EAL init failed (rte_errno=".to_owned().concat(number.as_str()).concat(")");
                    return Err(Fail { errno: eio(), cause });
                }
                StartupStage::CountPorts
            },
            (StartupStage::CountPorts, StartupReply::PortCount(n)) => {
                if n == 0 {
                    return Err(Fail::new(eio(), "no ethernet ports available"));
                }
                StartupStage::FindPort
            },
            (StartupStage::FindPort, StartupReply::PortFound(port)) => {
                let jumbo = match config.enable_jumbo_frames() {
                    Ok(jumbo) => jumbo,
                    Err(fail) => return Err(fail),
                };
                let max_body_size: usize = if jumbo {
                    (platform.ether_max_jumbo_frame_len + platform.pktmbuf_headroom) as usize
                } else {
                    platform.default_max_body_size
                };
                StartupStage::Mempool { port: (port % 65536) as u16, jumbo, max_body_size }
            },
            (StartupStage::Mempool { port, jumbo, max_body_size }, StartupReply::Mempool(created)) => {
                if let Err(fail) = created {
                    return Err(fail);
                }
                let tcp_offload = match config.tcp_checksum_offload() {
                    Ok(on) => on,
                    Err(_) => false,
                };
                let udp_offload = match config.udp_checksum_offload() {
                    Ok(on) => on,
                    Err(_) => false,
                };
                let mtu: u16 = match config.mtu() {
                    Ok(mtu) => mtu,
                    Err(fail) => return Err(fail),
                };
                let mem_pool = initialize_mempool(&platform, max_body_size);
                let init = PortInit::new(&platform, &mem_pool, port, jumbo, mtu, tcp_offload, udp_offload);
                StartupStage::Port { max_body_size, init }
            },
            (StartupStage::Port { max_body_size, init }, StartupReply::Port(event)) => {
                let next = match init.step(event) {
                    Ok(next) => next,
                    Err(fail) => return Err(fail),
                };
                if let PortState::Ready = next.state {
                    let runtime = DPDKRuntime {
                        max_body_size,
                        mem_pool: next.mem_pool,
                        port_id: next.port,
                        tcp_checksum_offload: next.tcp_checksum_offload,
                        udp_checksum_offload: next.udp_checksum_offload,
                    };
                    return Ok(StartupStep::Ready(SharedDPDKRuntime(runtime)));
                }
                StartupStage::Port { max_body_size, init: next }
            },
            (stage, _) => stage,
        };
        Ok(StartupStep::Continue(DPDKStartup { config, platform, stage }))
    }
}

/// Where the start stands after `replies`, one for each step.
pub open spec fn startup_after<'a>(
    startup: DPDKStartup<'a>,
    replies: Seq<StartupReply>,
) -> Result<StartupStep<'a>, FailView>
    decreases replies.len(),
{
    if replies.len() == 0 {
        Ok(StartupStep::Continue(startup))
    } else {
        match startup.spec_resume(replies[0]) {
            Ok(StartupStep::Continue(next)) => startup_after(next, replies.skip(1)),
            end => end,
        }
    }
}

/// Whether each of `replies` can come of the step before it.
pub open spec fn startup_replies_fit(startup: DPDKStartup, replies: Seq<StartupReply>) -> bool
    decreases replies.len(),
{
    replies.len() > 0 ==> startup.expects(replies[0]) && match startup.spec_resume(replies[0]) {
        Ok(StartupStep::Continue(next)) => startup_replies_fit(next, replies.skip(1)),
        _ => replies.len() == 1,
    }
}

/// What the calls on the port brought, according to replies that came of these calls.
pub open spec fn port_events(replies: Seq<StartupReply>) -> Seq<PortEvent> {
    replies.map_values(|reply: StartupReply| reply->Port_0)
}

/// The port `port`, as the settings want it brought up, with a memory pool for bodies of `max_body_size` bytes.
pub open spec fn configured_port(config: Config, platform: DpdkPlatform, port: u16, max_body_size: usize) -> PortInit {
    PortInit {
        platform,
        mem_pool: MemoryPool {
            data_room_size: max_body_size,
            pool_size: platform.default_body_pool_size,
            cache_size: platform.default_cache_size,
        },
        port,
        jumbo: config.enable_jumbo_frames->Ok_0,
        mtu: config.mtu->Ok_0,
        tcp_checksum_offload: config.tcp_checksum_offload is Ok && config.tcp_checksum_offload->Ok_0,
        udp_checksum_offload: config.udp_checksum_offload is Ok && config.udp_checksum_offload->Ok_0,
        state: PortState::DeviceInfo,
    }
}

/// A runtime that is up has the port that was found, and the packet size, the memory pool and the offloads that the
/// settings ask for. The port came up with the maximum transmission unit, the kind of frames and the offloads of the
/// settings, and receives into that memory pool.
#[verifier::rlimit(50)]
pub proof fn law_runtime_follows_settings(startup: DPDKStartup, replies: Seq<StartupReply>)
    requires
        startup.wf(),
        startup.stage is Environment,
        startup_replies_fit(startup, replies),
    ensures
        startup_after(startup, replies) matches Ok(StartupStep::Ready(runtime)) ==> {
            let config = *startup.config;
            let platform = startup.platform;
            let port = configured_port(config, platform, runtime.0.port_id, runtime.0.max_body_size);
            &&& replies.len() > 5
            &&& replies[3] matches StartupReply::PortFound(found)
            &&& runtime.0.port_id == found % 65536
            &&& config.enable_jumbo_frames matches Ok(jumbo)
            &&& config.mtu is Ok
            &&& jumbo ==> runtime.0.max_body_size == platform.ether_max_jumbo_frame_len + platform.pktmbuf_headroom
            &&& !jumbo ==> runtime.0.max_body_size == platform.default_max_body_size
            &&& runtime.0.mem_pool == port.mem_pool
            &&& runtime.0.tcp_checksum_offload == port.tcp_checksum_offload
            &&& runtime.0.udp_checksum_offload == port.udp_checksum_offload
            &&& port_events_fit(port, port_events(replies.skip(5)))
            &&& port_after(port, port_events(replies.skip(5))) == Ok::<PortInit, FailView>(port.at(PortState::Ready))
        },
{
    if startup_after(startup, replies) matches Ok(StartupStep::Ready(_)) {
        let r1 = replies.skip(1);
        let r2 = r1.skip(1);
        let r3 = r2.skip(1);
        let r4 = r3.skip(1);
        let r5 = r4.skip(1);
        let s1 = lemma_ready_needs_reply(startup, replies);
        let s2 = lemma_ready_needs_reply(s1, r1);
        let s3 = lemma_ready_needs_reply(s2, r2);
        let s4 = lemma_ready_needs_reply(s3, r3);
        let s5 = lemma_ready_needs_reply(s4, r4);
        assert(u32::MAX <= usize::MAX);
        lemma_port_comes_up_in_startup(s5, r5);
        assert(r5 =~= replies.skip(5));
    }
}

/// A start that leads to a runtime, and has not come to the port yet, sees one more reply, after which it goes on.
proof fn lemma_ready_needs_reply<'a>(startup: DPDKStartup<'a>, replies: Seq<StartupReply>) -> (next: DPDKStartup<'a>)
    requires
        !(startup.stage is Port),
        startup_replies_fit(startup, replies),
        startup_after(startup, replies) matches Ok(StartupStep::Ready(_)),
    ensures
        replies.len() > 0,
        startup.expects(replies[0]),
        startup.spec_resume(replies[0]) == Ok::<StartupStep<'a>, FailView>(StartupStep::Continue(next)),
        startup_replies_fit(next, replies.skip(1)),
        startup_after(next, replies.skip(1)) == startup_after(startup, replies),
{
    match startup.spec_resume(replies[0]) {
        Ok(StartupStep::Continue(next)) => next,
        _ => startup,
    }
}

/// A start that has come to the port leads to a runtime as the calls on the port lead to a port that is up.
proof fn lemma_port_comes_up_in_startup(startup: DPDKStartup, replies: Seq<StartupReply>)
    requires
        startup.stage is Port,
        !(startup.stage->init.state is Ready),
        startup_replies_fit(startup, replies),
        startup_after(startup, replies) matches Ok(StartupStep::Ready(_)),
    ensures
        ({
            let init = startup.stage->init;
            let runtime = startup_after(startup, replies)->Ok_0->Ready_0.0;
            &&& replies.len() > 0
            &&& runtime.max_body_size == startup.stage->Port_max_body_size
            &&& runtime.mem_pool == init.mem_pool
            &&& runtime.port_id == init.port
            &&& runtime.tcp_checksum_offload == init.tcp_checksum_offload
            &&& runtime.udp_checksum_offload == init.udp_checksum_offload
            &&& port_events_fit(init, port_events(replies))
            &&& port_after(init, port_events(replies)) == Ok::<PortInit, FailView>(init.at(PortState::Ready))
        }),
    decreases replies.len(),
{
    let init = startup.stage->init;
    let event = replies[0]->Port_0;
    let events = port_events(replies);
    let next = init.spec_step(event)->Ok_0;
    assert(events[0] == event);
    assert(events.skip(1) =~= port_events(replies.skip(1)));
    assert(next == init.at(next.state));
    if next.state is Ready {
        assert(events.skip(1) =~= Seq::<PortEvent>::empty());
        assert(port_after(next, events.skip(1)) == Ok::<PortInit, FailView>(next));
        assert(port_events_fit(next, events.skip(1)));
    } else {
        let later = startup.spec_resume(replies[0])->Ok_0->Continue_0;
        lemma_port_comes_up_in_startup(later, replies.skip(1));
    }
}

/// Where the settings are there, the steps succeed and the port comes up, so does the runtime.
#[verifier::rlimit(50)]
pub proof fn law_start_succeeds(
    startup: DPDKStartup,
    code: i32,
    rte_errno: i32,
    count: u16,
    found: u64,
    calls: Seq<StartupReply>,
    max_body_size: usize,
)
    requires
        startup.wf(),
        startup.stage is Environment,
        startup.config.eal_init_args is Ok,
        startup.config.enable_jumbo_frames is Ok,
        startup.config.mtu is Ok,
        code >= 0,
        count > 0,
        max_body_size == if startup.config.enable_jumbo_frames->Ok_0 {
            startup.platform.ether_max_jumbo_frame_len + startup.platform.pktmbuf_headroom
        } else {
            startup.platform.default_max_body_size as int
        },
        forall|i: int| 0 <= i < calls.len() ==> (#[trigger] calls[i]) is Port,
        ({
            let port = configured_port(*startup.config, startup.platform, (found % 65536) as u16, max_body_size);
            &&& port_events_fit(port, port_events(calls))
            &&& port_after(port, port_events(calls)) == Ok::<PortInit, FailView>(port.at(PortState::Ready))
        }),
    ensures
        startup_after(
            startup,
            seq![
                StartupReply::EnvironmentSet,
                StartupReply::Eal { code, rte_errno },
                StartupReply::PortCount(count),
                StartupReply::PortFound(found),
                StartupReply::Mempool(Ok(())),
            ] + calls,
        ) matches Ok(StartupStep::Ready(runtime)) && runtime.0.port_id == found % 65536,
{
    let port = configured_port(*startup.config, startup.platform, (found % 65536) as u16, max_body_size);
    let r1 = seq![
        StartupReply::Eal { code, rte_errno },
        StartupReply::PortCount(count),
        StartupReply::PortFound(found),
        StartupReply::Mempool(Ok(())),
    ] + calls;
    let r2 = seq![
        StartupReply::PortCount(count),
        StartupReply::PortFound(found),
        StartupReply::Mempool(Ok(())),
    ] + calls;
    let r3 = seq![StartupReply::PortFound(found), StartupReply::Mempool(Ok(()))] + calls;
    let r4 = seq![StartupReply::Mempool(Ok(()))] + calls;
    let r0 = seq![StartupReply::EnvironmentSet] + r1;
    assert(r0 =~= seq![
        StartupReply::EnvironmentSet,
        StartupReply::Eal { code, rte_errno },
        StartupReply::PortCount(count),
        StartupReply::PortFound(found),
        StartupReply::Mempool(Ok(())),
    ] + calls);
    assert(r0.skip(1) =~= r1);
    assert(r1.skip(1) =~= r2);
    assert(r2.skip(1) =~= r3);
    assert(r3.skip(1) =~= r4);
    assert(r4.skip(1) =~= calls);
    assert(u32::MAX <= usize::MAX);
    let s1 = startup.spec_resume(r0[0])->Ok_0->Continue_0;
    let s2 = s1.spec_resume(r1[0])->Ok_0->Continue_0;
    let s3 = s2.spec_resume(r2[0])->Ok_0->Continue_0;
    let s4 = s3.spec_resume(r3[0])->Ok_0->Continue_0;
    let s5 = s4.spec_resume(r4[0])->Ok_0->Continue_0;
    assert(s5.stage matches StartupStage::Port { init, .. } && init == port);
    lemma_start_ends_with_port(s5, calls);
    assert(startup_after(s4, r4) == startup_after(s5, calls));
    assert(startup_after(s3, r3) == startup_after(s4, r4));
    assert(startup_after(s2, r2) == startup_after(s3, r3));
    assert(startup_after(s1, r1) == startup_after(s2, r2));
}

/// A start whose port comes up leads to a runtime on that port.
proof fn lemma_start_ends_with_port(startup: DPDKStartup, calls: Seq<StartupReply>)
    requires
        startup.stage is Port,
        !(startup.stage->init.state is Ready),
        forall|i: int| 0 <= i < calls.len() ==> (#[trigger] calls[i]) is Port,
        port_events_fit(startup.stage->init, port_events(calls)),
        port_after(startup.stage->init, port_events(calls)) == Ok::<PortInit, FailView>(
            startup.stage->init.at(PortState::Ready),
        ),
    ensures
        startup_after(startup, calls) matches Ok(StartupStep::Ready(runtime)) && runtime.0.port_id
            == startup.stage->init.port,
    decreases calls.len(),
{
    let init = startup.stage->init;
    let events = port_events(calls);
    assert(events.len() > 0);
    assert(calls[0] is Port);
    assert(events[0] == calls[0]->Port_0);
    assert(events.skip(1) =~= port_events(calls.skip(1)));
    let next = init.spec_step(events[0])->Ok_0;
    assert(next == init.at(next.state));
    if !(next.state is Ready) {
        let later = startup.spec_resume(calls[0])->Ok_0->Continue_0;
        assert forall|i: int| 0 <= i < calls.skip(1).len() implies (#[trigger] calls.skip(1)[i]) is Port by {
            assert(calls[i + 1] is Port);
        }
        lemma_start_ends_with_port(later, calls.skip(1));
    }
}

} // verus!
