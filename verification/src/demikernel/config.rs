//! The settings of the stack.

use crate::runtime::fail::{clone_result, result_view, Fail};
use crate::runtime::network::Ipv4Addr;
use vstd::prelude::*;

verus! {

/// The settings, as they were read. A setting that must be present, and is not or cannot be read, holds the failure
/// that reports this.
#[derive(Debug)]
pub struct Config {
    /// Arguments for the environment abstraction layer of DPDK.
    pub eal_init_args: Result<Vec<String>, Fail>,
    /// Whether frames larger than the Ethernet standard are in use.
    pub enable_jumbo_frames: Result<bool, Fail>,
    /// Whether the network card computes TCP checksums.
    pub tcp_checksum_offload: Result<bool, Fail>,
    /// Whether the network card computes UDP checksums.
    pub udp_checksum_offload: Result<bool, Fail>,
    /// Maximum transmission unit of the link.
    pub mtu: Result<u16, Fail>,
    /// Maximum segment size for TCP.
    pub mss: Option<u16>,
    /// Address of this host.
    pub local_ipv4_addr: Result<Ipv4Addr, Fail>,
    /// Address of the gateway.
    pub gateway_ipv4_addr: Option<Ipv4Addr>,
    /// Mask of the local network.
    pub local_netmask: Option<Ipv4Addr>,
}

impl Config {
    /// Whether frames larger than the Ethernet standard are in use.
    pub fn enable_jumbo_frames(&self) -> (setting: Result<bool, Fail>)
        ensures
            result_view(setting) == result_view(self.enable_jumbo_frames),
    {
        clone_result(&self.enable_jumbo_frames)
    }

    /// Whether the network card computes TCP checksums.
    pub fn tcp_checksum_offload(&self) -> (setting: Result<bool, Fail>)
        ensures
            result_view(setting) == result_view(self.tcp_checksum_offload),
    {
        clone_result(&self.tcp_checksum_offload)
    }

    /// Whether the network card computes UDP checksums.
    pub fn udp_checksum_offload(&self) -> (setting: Result<bool, Fail>)
        ensures
            result_view(setting) == result_view(self.udp_checksum_offload),
    {
        clone_result(&self.udp_checksum_offload)
    }

    /// Maximum transmission unit of the link.
    pub fn mtu(&self) -> (setting: Result<u16, Fail>)
        ensures
            result_view(setting) == result_view(self.mtu),
    {
        clone_result(&self.mtu)
    }

    /// Maximum segment size for TCP.
    pub fn mss(&self) -> (setting: Option<u16>)
        ensures
            setting == self.mss,
    {
        self.mss
    }

    /// Address of this host.
    pub fn local_ipv4_addr(&self) -> (setting: Result<Ipv4Addr, Fail>)
        ensures
            result_view(setting) == result_view(self.local_ipv4_addr),
    {
        clone_result(&self.local_ipv4_addr)
    }

    /// Address of the gateway.
    pub fn gateway_ipv4_addr(&self) -> (setting: Option<Ipv4Addr>)
        ensures
            setting == self.gateway_ipv4_addr,
    {
        self.gateway_ipv4_addr
    }

    /// Mask of the local network.
    pub fn local_netmask(&self) -> (setting: Option<Ipv4Addr>)
        ensures
            setting == self.local_netmask,
    {
        self.local_netmask
    }
}

} // verus!
