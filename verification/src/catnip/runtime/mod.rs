//! The DPDK runtime: a network card that is driven from user space.

use crate::catnip::runtime::port::DpdkPlatform;
use crate::catnip::runtime::startup::{DPDKStartup, StartupStage};
use crate::demikernel::config::Config;
use vstd::prelude::*;

pub mod laws;
pub mod port;
pub mod startup;
pub mod transmit;

verus! {

/// A pool of message buffers.
#[derive(Clone, Copy, Debug, PartialEq, Eq, Structural)]
pub struct MemoryPool {
    /// Number of bytes that a message buffer holds.
    pub data_room_size: usize,
    /// Number of message buffers.
    pub pool_size: usize,
    /// Number of message buffers that are cached.
    pub cache_size: usize,
}

/// A port that is up, with the memory pool that its packets come from.
#[derive(Clone, Copy, Debug, PartialEq, Eq, Structural)]
pub struct DPDKRuntime {
    /// The largest packet that fits into a message buffer.
    pub max_body_size: usize,
    pub mem_pool: MemoryPool,
    pub port_id: u16,
    /// Whether the network card computes TCP checksums.
    pub tcp_checksum_offload: bool,
    /// Whether the network card computes UDP checksums.
    pub udp_checksum_offload: bool,
}

/// The runtime, as the network stack holds it.
#[derive(Clone, Copy, Debug, PartialEq, Eq, Structural)]
pub struct SharedDPDKRuntime(pub DPDKRuntime);

impl SharedDPDKRuntime {
    /// Starts DPDK on the settings of `config`.
    pub fn new<'a>(config: &'a Config, platform: &DpdkPlatform) -> (startup: DPDKStartup<'a>)
        requires
            platform.ether_max_jumbo_frame_len + platform.pktmbuf_headroom <= u32::MAX,
        ensures
            startup.wf(),
            startup == (DPDKStartup { config, platform: *platform, stage: StartupStage::Environment }),
    {
        DPDKStartup { config, platform: *platform, stage: StartupStage::Environment }
    }
}

} // verus!
