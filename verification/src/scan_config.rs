//! A plain scan of several hosts: which connections it tries, and the
//! lines in which it reports.

use crate::ports::PortKind;
use crate::text::{append_decimal, decimal_text};
use vstd::prelude::*;
use vstd::string::*;

verus! {

/// The hosts of a plain scan and the ports that are tried on each.
#[derive(Debug)]
pub struct ScanConfig {
    pub addresses: Vec<String>,
    pub ports: PortKind,
}

/// The connections to try on one host.
#[derive(Debug, PartialEq, Eq)]
pub struct ScanJob {
    pub address: String,
    pub ports: Vec<u16>,
}

/// The line that announces the scan of a host.
pub open spec fn start_line(address: Seq<char>) -> Seq<char> {
    "Start scanning for host: "@ + address
}

/// Ports written in base ten with a comma and a blank between each two.
pub open spec fn port_series(ports: Seq<u16>) -> Seq<char>
    decreases ports.len(),
{
    if ports.len() == 0 {
        Seq::empty()
    } else if ports.len() == 1 {
        decimal_text(ports[0] as nat)
    } else {
        port_series(ports.drop_last()) + ", "@ + decimal_text(ports.last() as nat)
    }
}

/// The line that reports the open ports of a host, in the order in which
/// they were found.
pub open spec fn open_ports_line(open: Seq<u16>) -> Seq<char> {
    "Open ports: ["@ + port_series(open) + "]"@
}

impl ScanConfig {
    /// Plans the scan: one job for each host, in the order of the hosts,
    /// each with the ports of the scan in the order in which they are
    /// tried.
    pub fn scan(&self) -> (jobs: Vec<ScanJob>)
        ensures
            jobs@.len() == self.addresses@.len(),
            forall|i: int|
                0 <= i < jobs@.len() ==> (#[trigger] jobs@[i]).address@ == self.addresses@[i]@
                    && jobs@[i].ports@ == self.ports@.ports(),
    {
        let mut jobs: Vec<ScanJob> = Vec::new();
        let mut i: usize = 0;
        while i < self.addresses.len()
            invariant
                i <= self.addresses@.len(),
                jobs@.len() == i,
                forall|k: int|
                    0 <= k < i ==> (#[trigger] jobs@[k]).address@ == self.addresses@[k]@
                        && jobs@[k].ports@ == self.ports@.ports(),
            decreases self.addresses@.len() - i,
        {
            jobs.push(tcp_scan(self.addresses[i].clone(), &self.ports));
            i = i + 1;
        }
        jobs
    }
}

/// Plans the scan of one host.
pub fn tcp_scan(address: String, ports: &PortKind) -> (job: ScanJob)
    ensures
        job.address@ == address@,
        job.ports@ == ports@.ports(),
{
    ScanJob { address, ports: ports.expand() }
}

/// Writes the line that announces the scan of a host.
pub fn write_start_line(address: &str) -> (line: String)
    ensures
        line@ == start_line(address@),
{
    let mut line = String::from_str("Start scanning for host: ");
    line.append(address);
    line
}

/// Writes the line that reports the open ports of a host.
pub fn write_open_ports_line(open: &Vec<u16>) -> (line: String)
    ensures
        line@ == open_ports_line(open@),
{
    let mut line = String::from_str("Open ports: [");
    let mut i: usize = 0;
    assert(open@.take(0) =~= Seq::<u16>::empty());
    while i < open.len()
        invariant
            i <= open@.len(),
            line@ == "Open ports: ["@ + port_series(open@.take(i as int)),
        decreases open@.len() - i,
    {
        proof {
            let whole = open@.take(i + 1);
            assert(whole.drop_last() =~= open@.take(i as int));
            assert(whole.last() == open@[i as int]);
            if i == 0 {
                assert(whole[0] == open@[0]);
            }
        }
        if i > 0 {
            line.append(", ");
        }
        append_decimal(&mut line, open[i]);
        assert(line@ =~= "Open ports: ["@ + port_series(open@.take(i + 1)));
        i = i + 1;
    }
    assert(open@.take(open@.len() as int) =~= open@);
    line.append("]");
    line
}

} // verus!
