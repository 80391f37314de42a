use demikernel::catnip::runtime::port::{DpdkPlatform, PortAction, PortEvent};
use demikernel::catnip::runtime::startup::{
    environment_variables, DPDKStartup, StartupAction, StartupReply, StartupStep,
};
use demikernel::catnip::runtime::{DPDKRuntime, MemoryPool, SharedDPDKRuntime};
use demikernel::demikernel::config::Config;
use demikernel::runtime::fail::Fail;
use demikernel::runtime::network::Ipv4Addr;

fn platform() -> DpdkPlatform {
    DpdkPlatform {
        ether_max_len: 1518,
        ether_max_jumbo_frame_len: 9728,
        pktmbuf_headroom: 128,
        eth_dev_no_owner: 77,
        eth_link_up: 1,
        eth_mq_rx_rss: 1,
        eth_mq_tx_none: 0,
        rx_offload_tcp_cksum: 8,
        rx_offload_udp_cksum: 4,
        tx_offload_tcp_cksum: 8,
        tx_offload_udp_cksum: 4,
        tx_offload_multi_segs: 0x8000,
        rss_ip: 0xa38c,
        default_max_body_size: 9000,
        default_body_pool_size: 8191,
        default_cache_size: 250,
    }
}

fn config() -> Config {
    Config {
        eal_init_args: Ok(vec!["prog".to_string(), "-n".to_string()]),
        enable_jumbo_frames: Ok(true),
        tcp_checksum_offload: Ok(true),
        udp_checksum_offload: Err(Fail::new(libc::EINVAL, "missing")),
        mtu: Ok(9000),
        mss: None,
        local_ipv4_addr: Ok(Ipv4Addr::new(10, 0, 0, 1)),
        gateway_ipv4_addr: None,
        local_netmask: None,
    }
}

/// What a well-behaved system answers.
fn answer(action: &StartupAction) -> StartupReply {
    match action {
        StartupAction::SetEnvironment => StartupReply::EnvironmentSet,
        StartupAction::EalInit { .. } => StartupReply::Eal { code: 2, rte_errno: 0 },
        StartupAction::CountPorts => StartupReply::PortCount(1),
        StartupAction::FindPort { .. } => StartupReply::PortFound(0x1_0005),
        StartupAction::CreateMempool { .. } => StartupReply::Mempool(Ok(())),
        StartupAction::Port(call) => StartupReply::Port(match call {
            PortAction::GetDeviceInfo { .. } => PortEvent::DeviceInfo { flow_type_rss_offloads: 0 },
            PortAction::GetMtu { .. } => PortEvent::Mtu { code: 0, mtu: 9000 },
            PortAction::EnablePromiscuous { .. } | PortAction::DelayUs { .. } => PortEvent::Done,
            PortAction::IsValidPort { .. } => PortEvent::Returned { code: 1 },
            PortAction::GetLink { .. } => PortEvent::Link { status: 1 },
            _ => PortEvent::Returned { code: 0 },
        }),
    }
}

/// Starts up, except that the answer at step `at` is `odd`.
fn start(config: &Config, at: usize, odd: Option<StartupReply>) -> Result<SharedDPDKRuntime, Fail> {
    let mut odd = odd;
    let mut startup: DPDKStartup = SharedDPDKRuntime::new(config, &platform());
    let mut i = 0;
    loop {
        let reply = if i == at && odd.is_some() { odd.take().unwrap() } else { answer(&startup.action()) };
        i += 1;
        match startup.resume(reply)? {
            StartupStep::Continue(next) => startup = next,
            StartupStep::Ready(runtime) => return Ok(runtime),
        }
    }
}

fn fails(config: &Config, at: usize, odd: Option<StartupReply>, cause: &str) {
    assert_eq!(start(config, at, odd).unwrap_err().cause, cause);
}

#[test]
fn the_runtime_follows_the_settings() {
    let runtime = start(&config(), 0, None).unwrap();
    assert_eq!(
        runtime.0,
        DPDKRuntime {
            max_body_size: 9856,
            mem_pool: MemoryPool { data_room_size: 9856, pool_size: 8191, cache_size: 250 },
            port_id: 5,
            tcp_checksum_offload: true,
            udp_checksum_offload: false,
        }
    );
    assert_eq!(runtime.max_buffer_size_bytes(), 9856);
    let mut plain = config();
    plain.enable_jumbo_frames = Ok(false);
    plain.tcp_checksum_offload = Ok(false);
    plain.udp_checksum_offload = Ok(true);
    let runtime = start(&plain, 0, None).unwrap();
    assert_eq!(runtime.0.max_body_size, 9000);
    assert!(!runtime.0.tcp_checksum_offload);
    assert!(runtime.0.udp_checksum_offload);
}

#[test]
fn the_steps_name_what_is_to_be_done() {
    let c = config();
    let startup = SharedDPDKRuntime::new(&c, &platform());
    assert!(matches!(startup.action(), StartupAction::SetEnvironment));
    let startup = match startup.resume(StartupReply::EnvironmentSet).unwrap() {
        StartupStep::Continue(next) => next,
        StartupStep::Ready(_) => panic!("too early"),
    };
    match startup.action() {
        StartupAction::EalInit { args } => assert_eq!(args, &vec!["prog".to_string(), "-n".to_string()]),
        _ => panic!("wrong step"),
    }
    let mut startup = startup;
    let mut found = false;
    let mut pool = false;
    for _ in 0..4 {
        let action = startup.action();
        if let StartupAction::FindPort { from, owner } = action {
            assert_eq!((from, owner), (0, 77));
            found = true;
        }
        if let StartupAction::CreateMempool { name, mem_pool } = action {
            assert_eq!(name, "body_pool");
            assert_eq!(mem_pool, MemoryPool { data_room_size: 9856, pool_size: 8191, cache_size: 250 });
            pool = true;
        }
        let reply = answer(&action);
        startup = match startup.resume(reply).unwrap() {
            StartupStep::Continue(next) => next,
            StartupStep::Ready(_) => panic!("too early"),
        };
    }
    assert!(found && pool);
    assert!(matches!(startup.action(), StartupAction::Port(PortAction::GetDeviceInfo { port: 5 })));
}

#[test]
fn environment() {
    assert_eq!(
        environment_variables(),
        vec![("MLX5_SHUT_UP_BF", "1"), ("MLX5_SINGLE_THREADED", "1"), ("MLX4_SINGLE_THREADED", "1")]
    );
}

#[test]
fn each_step_can_fail() {
    let c = config();
    fails(
        &c,
        1,
        Some(StartupReply::Eal { code: -1, rte_errno: 13 }),
        "EAL init failed (rte_errno=13)",
    );
    fails(&c, 2, Some(StartupReply::PortCount(0)), "no ethernet ports available");
    fails(&c, 4, Some(StartupReply::Mempool(Err(Fail::new(libc::ENOMEM, "no pool")))), "no pool");
    fails(
        &c,
        6,
        Some(StartupReply::Port(PortEvent::Returned { code: 1 })),
        "failed to configure ethernet device",
    );
    assert_eq!(start(&c, 2, Some(StartupReply::PortCount(0))).unwrap_err().errno, libc::EIO);
}

#[test]
fn each_setting_can_be_missing() {
    let missing = |text: &str| Fail::new(libc::EINVAL, text);
    let mut c = config();
    c.mtu = Err(missing("no mtu"));
    fails(&c, 0, None, "no mtu");
    c.enable_jumbo_frames = Err(missing("no jumbo"));
    fails(&c, 0, None, "no jumbo");
    c.eal_init_args = Err(missing("no arguments"));
    fails(&c, 0, None, "no arguments");
}

#[test]
fn the_port_comes_up_as_the_settings_say() {
    let c = config();
    let mut startup = SharedDPDKRuntime::new(&c, &platform());
    let mut mtu = None;
    let mut frames = None;
    let mut pool = None;
    loop {
        let action = startup.action();
        match &action {
            StartupAction::Port(PortAction::SetMtu { port, mtu: wanted }) => mtu = Some((*port, *wanted)),
            StartupAction::Port(PortAction::Configure { conf, .. }) => frames = Some(conf.max_lro_pkt_size),
            StartupAction::Port(PortAction::SetupRxQueue { mem_pool, .. }) => pool = Some(*mem_pool),
            _ => {},
        }
        let reply = answer(&action);
        match startup.resume(reply).unwrap() {
            StartupStep::Continue(next) => startup = next,
            StartupStep::Ready(runtime) => {
                assert_eq!(mtu, Some((runtime.0.port_id, 9000)));
                assert_eq!(frames, Some(9728));
                assert_eq!(pool, Some(runtime.0.mem_pool));
                return;
            },
        }
    }
}
