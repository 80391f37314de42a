use demikernel::demikernel::config::Config;
use demikernel::inetstack::config::Ipv4Config;
use demikernel::runtime::fail::Fail;
use demikernel::runtime::network::Ipv4Addr;
use demikernel::runtime::text::{to_decimal, to_signed_decimal};

fn config() -> Config {
    Config {
        eal_init_args: Ok(vec!["-c".to_string(), "0xff".to_string()]),
        enable_jumbo_frames: Ok(false),
        tcp_checksum_offload: Ok(true),
        udp_checksum_offload: Err(Fail::new(libc::EINVAL, "no such setting")),
        mtu: Ok(1500),
        mss: Some(1450),
        local_ipv4_addr: Ok(Ipv4Addr::new(10, 0, 0, 1)),
        gateway_ipv4_addr: Some(Ipv4Addr::new(10, 0, 0, 254)),
        local_netmask: Some(Ipv4Addr::new(255, 255, 0, 0)),
    }
}

#[test]
fn settings_are_read_back() {
    let c = config();
    assert_eq!(c.enable_jumbo_frames().ok(), Some(false));
    assert_eq!(c.tcp_checksum_offload().ok(), Some(true));
    assert_eq!(c.mtu().ok(), Some(1500));
    assert_eq!(c.mss(), Some(1450));
    assert_eq!(c.local_ipv4_addr().ok(), Some(Ipv4Addr::new(10, 0, 0, 1)));
    let fail = c.udp_checksum_offload().unwrap_err();
    assert_eq!(fail.errno, libc::EINVAL);
    assert_eq!(fail.cause, "no such setting");
}

#[test]
fn ipv4_config_takes_the_settings() {
    let ipv4 = Ipv4Config::new(&config());
    assert!(ipv4.is_gateway_setup());
    assert_eq!(ipv4.gateway_ipv4_addr(), Ipv4Addr::new(10, 0, 0, 254));
    assert_eq!(ipv4.local_netmask(), Ipv4Addr::new(255, 255, 0, 0));
}

#[test]
fn ipv4_config_fills_in_defaults() {
    let mut c = config();
    c.gateway_ipv4_addr = None;
    c.local_netmask = None;
    for ipv4 in [Ipv4Config::new(&c), Ipv4Config::default()] {
        assert!(!ipv4.is_gateway_setup());
        assert_eq!(ipv4.gateway_ipv4_addr(), Ipv4Addr::new(0, 0, 0, 0));
        assert_eq!(ipv4.local_netmask(), Ipv4Addr::new(255, 255, 255, 0));
    }
}

#[test]
fn an_unspecified_gateway_is_none() {
    let mut c = config();
    c.gateway_ipv4_addr = Some(Ipv4Addr::new(0, 0, 0, 0));
    assert!(!Ipv4Config::new(&c).is_gateway_setup());
}

#[test]
fn numbers_as_text() {
    assert_eq!(to_decimal(0), "0");
    assert_eq!(to_decimal(9), "9");
    assert_eq!(to_decimal(10), "10");
    assert_eq!(to_decimal(1500), "1500");
    assert_eq!(to_decimal(u32::MAX), "4294967295");
    assert_eq!(to_signed_decimal(0), "0");
    assert_eq!(to_signed_decimal(-1), "-1");
    assert_eq!(to_signed_decimal(22), "22");
    assert_eq!(to_signed_decimal(i32::MIN), "-2147483648");
    assert_eq!(to_signed_decimal(i32::MAX), "2147483647");
}

#[test]
fn failures_as_text() {
    assert_eq!(Fail::new(libc::EIO, "no link").describe(), "Error 5: no link");
    assert_eq!(Fail::new(-1, "").describe(), "Error -1: ");
}
