//! IPv4 settings.

use crate::demikernel::config::Config;
use crate::runtime::network::Ipv4Addr;
use vstd::prelude::*;

verus! {

/// Gateway and mask of the local network.
#[derive(Clone, Copy, Debug)]
pub struct Ipv4Config {
    gateway_ipv4_addr: Ipv4Addr,
    local_netmask: Ipv4Addr,
}

/// The mask 255.255.255.0.
pub open spec fn default_netmask() -> Ipv4Addr {
    Ipv4Addr { a: 255, b: 255, c: 255, d: 0 }
}

impl Ipv4Config {
    /// Address of the gateway; 0.0.0.0 stands for none.
    pub closed spec fn gateway(self) -> Ipv4Addr {
        self.gateway_ipv4_addr
    }

    /// Mask of the local network.
    pub closed spec fn netmask(self) -> Ipv4Addr {
        self.local_netmask
    }

    /// Takes over the settings. Without a gateway the gateway is 0.0.0.0, and without a mask the mask is
    /// 255.255.255.0.
    pub fn new(config: &Config) -> (ipv4_config: Ipv4Config)
        ensures
            ipv4_config.gateway() == config.gateway_ipv4_addr.unwrap_or(Ipv4Addr::spec_unspecified()),
            ipv4_config.netmask() == config.local_netmask.unwrap_or(default_netmask()),
    {
        Ipv4Config {
            gateway_ipv4_addr: config.gateway_ipv4_addr().unwrap_or(Ipv4Addr::unspecified()),
            local_netmask: config.local_netmask().unwrap_or(Ipv4Addr::new(255, 255, 255, 0)),
        }
    }

    /// Whether there is a gateway.
    pub fn is_gateway_setup(&self) -> (yes: bool)
        ensures
            yes == (self.gateway() != Ipv4Addr::spec_unspecified()),
    {
        !self.gateway_ipv4_addr.is_unspecified()
    }

    /// Address of the gateway.
    pub fn gateway_ipv4_addr(&self) -> (addr: Ipv4Addr)
        ensures
            addr == self.gateway(),
    {
        self.gateway_ipv4_addr
    }

    /// Mask of the local network.
    pub fn local_netmask(&self) -> (mask: Ipv4Addr)
        ensures
            mask == self.netmask(),
    {
        self.local_netmask
    }
}

impl Default for Ipv4Config {
    /// No gateway, and the mask 255.255.255.0.
    fn default() -> (ipv4_config: Ipv4Config)
        ensures
            ipv4_config.gateway() == Ipv4Addr::spec_unspecified(),
            ipv4_config.netmask() == default_netmask(),
    {
        Ipv4Config {
            gateway_ipv4_addr: Ipv4Addr::unspecified(),
            local_netmask: Ipv4Addr::new(255, 255, 255, 0),
        }
    }
}

/// Without a mask the first three octets tell networks apart.
pub proof fn law_default_netmask()
    ensures
        default_netmask().number() == 0xffff_ff00,
{
}

} // verus!
