//! Planning and configuration logic of a UDP BitTorrent tracker benchmark:
//! which tracker setups are measured, how each tracker and load-test process
//! is configured and launched, how the tracker names its worker threads, and
//! how synthetic scrape requests are assembled.
pub mod decimal;
pub mod load_test;
pub mod paths;
pub mod runner;
pub mod scrape;
pub mod server;
pub mod sets;
pub mod table;
pub mod tracker;

pub use runner::{
    AquaticUdpLoadTestRunner, AquaticUdpRunner, OpenTrackerUdpRunner, ProcessArg, ProcessInvocation,
    RunnerError, UdpRunner,
};
pub use sets::{CpuMode, LoadTestRun, UdpCommand, UdpSetConfig, UdpSetRun};
pub use tracker::UdpTracker;
