//! The scanner that finds open ports by connecting to them.

use crate::ports::{open_ports, PortKind, PortKindView};
use crate::registry::ProbeRegistry;
use crate::scanner::{bare, result_views, scan_results, ScanResult, Scanner, Target};
use std::sync::Arc;
use vstd::prelude::*;
use vstd::string::*;

verus! {

/// The message with which an address that is no IP address is turned down.
pub open spec fn invalid_address_error(address: Seq<char>) -> Seq<char> {
    "Invalid Ip Address: "@ + address
}

/// A scan of one host by TCP connections: the host, the ports to try,
/// whether open ports are identified, and the registry of probes that
/// identification consults.
#[derive(Debug)]
pub struct TcpScanner {
    address: Target,
    ports: PortKind,
    banner_grab: bool,
    probe_registry: Arc<ProbeRegistry>,
}

impl TcpScanner {
    /// The ports of the scan as they were given.
    pub closed spec fn ports_spec(&self) -> PortKindView {
        self.ports@
    }

    /// Makes the scanner of the host that `address` names. `resolved` is
    /// the IP address that `address` spells, or `None` where it spells
    /// none; then there is no scanner, and the message names the address.
    pub fn new(
        address: &String,
        resolved: Option<Target>,
        ports: PortKind,
        banner_grab: bool,
        probe_registry: Arc<ProbeRegistry>,
    ) -> (r: Result<Self, String>)
        ensures
            match resolved {
                Some(target) => r matches Ok(scanner) && scanner.target() == target
                    && scanner.ports_spec() == ports@ && scanner.banner_grab() == banner_grab
                    && scanner.probers() == *probe_registry,
                None => r matches Err(message) && message@ == invalid_address_error(address@),
            },
    {
        match resolved {
            Some(target) => Ok(TcpScanner { address: target, ports, banner_grab, probe_registry }),
            None => {
                let mut message = String::from_str("Invalid Ip Address: ");
                message.append(address.as_str());
                Err(message)
            },
        }
    }
}

impl Scanner for TcpScanner {
    closed spec fn target(&self) -> Target {
        self.address
    }

    closed spec fn probers(&self) -> ProbeRegistry {
        *self.probe_registry
    }

    closed spec fn banner_grab(&self) -> bool {
        self.banner_grab
    }

    open spec fn port_plan(&self) -> Seq<u16> {
        self.ports_spec().ports()
    }

    fn get_target(&self) -> (target: Target) {
        self.address
    }

    fn get_probers(&self) -> (registry: Arc<ProbeRegistry>) {
        self.probe_registry.clone()
    }

    fn is_banner_grab(&self) -> (on: bool) {
        self.banner_grab
    }

    fn get_ports(&self) -> (ports: Vec<u16>) {
        self.ports.expand()
    }

    fn scan(&self, connected: &Vec<u16>) -> (results: Vec<ScanResult>) {
        let ports = open_ports(connected);
        let mut results: Vec<ScanResult> = Vec::new();
        let mut i: usize = 0;
        while i < ports.len()
            invariant
                i <= ports@.len(),
                results@.len() == i,
                forall|k: int| 0 <= k < i ==> (#[trigger] results@[k])@ == bare(ports@[k]),
            decreases ports@.len() - i,
        {
            results.push(ScanResult::TcpOpen(ports[i], None));
            i = i + 1;
        }
        assert(result_views(results@) =~= scan_results(connected@));
        results
    }
}

} // verus!
