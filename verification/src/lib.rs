//! Decision core of a TCP port scanner with service identification.
//!
//! The crate plans connection attempts, orders and deduplicates what they
//! report, loads a port-indexed registry of service probes, extracts banners
//! from probe responses and resolves the banner of each open port. It opens
//! no socket and reads no file: a caller performs the attempts the crate
//! asks for and hands their outcomes back as plain values.

pub mod document;
pub mod identify;
pub mod input;
pub mod pattern;
pub mod ports;
pub mod prober;
pub mod registry;
pub mod scan_config;
pub mod scanner;
pub mod table;
pub mod tcp_scanner;
pub mod text;

pub use input::Args;
pub use ports::PortKind;
pub use prober::{GenericServiceProbe, Prober};
pub use registry::ProbeRegistry;
pub use scan_config::ScanConfig;
pub use scanner::{ScanResult, Scanner};
pub use tcp_scanner::TcpScanner;
