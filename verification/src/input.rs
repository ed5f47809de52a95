//! What a run is asked to do, and the scanners that it takes.

use crate::ports::{
    default_ports_error, parse_port_list, port_list_of, PortKind, PortKindView,
};
use crate::registry::ProbeRegistry;
use crate::scanner::{Scanner, Target};
use crate::tcp_scanner::{invalid_address_error, TcpScanner};
use std::sync::Arc;
use vstd::prelude::*;
use vstd::string::*;

verus! {

/// The arguments of a run: the hosts to scan, the ports as a list or as a
/// range, of which at most one is given, and whether banners are grabbed.
#[derive(Debug)]
pub struct Args {
    pub addresses: Vec<String>,
    pub ports: Option<Vec<u16>>,
    pub range: Option<PortKind>,
    pub banner: bool,
}

/// The message of a run without a host.
pub open spec fn no_target_error() -> Seq<char> {
    "Error: Please provide a host target. Example: 10.6.2.211"@
}

/// The message of a run that is given both a list and a range of ports.
pub open spec fn two_port_sets_error() -> Seq<char> {
    "Error: Please provide either a list of ports or a range, not both"@
}

/// The default port list as its reader found it: the text, or the message
/// of the failure to read it.
pub open spec fn source_view(source: Result<String, String>) -> Result<Seq<char>, Seq<char>> {
    match source {
        Ok(text) => Ok(text@),
        Err(message) => Err(message@),
    }
}

/// The ports of a run: the list or the range, whichever is given, and not
/// both; where neither is given, the default port list, which has to be
/// readable and well formed.
pub open spec fn chosen_ports(
    ports: Option<Vec<u16>>,
    range: Option<PortKind>,
    default_ports: Result<Seq<char>, Seq<char>>,
) -> Result<PortKindView, Seq<char>> {
    match (ports, range, default_ports) {
        (Some(_), Some(_), _) => Err(two_port_sets_error()),
        (Some(list), None, _) => Ok(PortKindView::List(list@)),
        (None, Some(kind), _) => Ok(kind@),
        (None, None, Err(message)) => Err(message),
        (None, None, Ok(text)) => match port_list_of(text) {
            Some(list) => Ok(PortKindView::List(list)),
            None => Err(default_ports_error()),
        },
    }
}

/// The address at `index` spells an IP address.
pub open spec fn resolves(resolved: Seq<Option<Target>>, index: int) -> bool {
    0 <= index < resolved.len() && resolved[index] is Some
}

/// The first index from `from` on whose address spells no IP address, or
/// `count` where every address from there on spells one.
pub open spec fn first_unresolved(resolved: Seq<Option<Target>>, count: int, from: int) -> int
    decreases count - from,
{
    if from >= count {
        count
    } else if !resolves(resolved, from) {
        from
    } else {
        first_unresolved(resolved, count, from + 1)
    }
}

/// What becomes of a run's arguments: the ports that every scanner of the
/// run tries, or the message of the first thing that is wrong. A run needs
/// a host; then its ports are chosen; then every address has to spell an IP
/// address, and the first that spells none is named.
pub open spec fn scanners_outcome(
    args: Args,
    resolved: Seq<Option<Target>>,
    default_ports: Result<Seq<char>, Seq<char>>,
) -> Result<PortKindView, Seq<char>> {
    if args.addresses@.len() == 0 {
        Err(no_target_error())
    } else {
        match chosen_ports(args.ports, args.range, default_ports) {
            Err(message) => Err(message),
            Ok(kind) => {
                let bad = first_unresolved(resolved, args.addresses@.len() as int, 0);
                if bad < args.addresses@.len() {
                    Err(invalid_address_error(args.addresses@[bad]@))
                } else {
                    Ok(kind)
                }
            },
        }
    }
}

impl Args {
    /// Whether the run takes its ports from the default port list: it has a
    /// host, and neither a list nor a range of ports.
    pub fn needs_default_ports(&self) -> (needed: bool)
        ensures
            needed == (self.addresses@.len() > 0 && self.ports is None && self.range is None),
    {
        self.addresses.len() > 0 && self.ports.is_none() && self.range.is_none()
    }

    /// Makes one scanner for each address.
    ///
    /// `resolved` holds, for each address in turn, the IP address that it
    /// spells, or `None`; an address for which it holds nothing counts as
    /// spelling none. `default_ports` is the default port list as it was
    /// read, or the message of the failure to read it; it is looked at only
    /// where `needs_default_ports` holds.
    pub fn to_scanners(
        self,
        resolved: Vec<Option<Target>>,
        default_ports: Result<String, String>,
        probe_registry: Arc<ProbeRegistry>,
    ) -> (r: Result<Vec<TcpScanner>, String>)
        ensures
            match scanners_outcome(self, resolved@, source_view(default_ports)) {
                Ok(kind) => r matches Ok(scanners) && scanners@.len() == self.addresses@.len()
                    && scanners@.len() <= resolved@.len() && forall|i: int|
                    0 <= i < scanners@.len() ==> {
                        &&& resolved@[i] == Some((#[trigger] scanners@[i]).target())
                        &&& scanners@[i].ports_spec() == kind
                        &&& scanners@[i].banner_grab() == self.banner
                        &&& scanners@[i].probers() == *probe_registry
                    },
                Err(message) => r matches Err(text) && text@ == message,
            },
    {
        let ghost source = source_view(default_ports);
        let Args { addresses, ports, range, banner } = self;
        if addresses.len() == 0 {
            return Err(String::from_str("Error: Please provide a host target. Example: 10.6.2.211"));
        }
        let kind: PortKind = match ports {
            Some(list) => {
                if range.is_some() {
                    return Err(
                        String::from_str(
                            "Error: Please provide either a list of ports or a range, not both",
                        ),
                    );
                }
                PortKind::List(list)
            },
            None => match range {
                Some(kind) => kind,
                None => match default_ports {
                    Ok(text) => match parse_port_list(text.as_str()) {
                        Ok(kind) => kind,
                        Err(message) => {
                            return Err(message);
                        },
                    },
                    Err(message) => {
                        return Err(message);
                    },
                },
            },
        };
        let count: usize = addresses.len();
        let mut scanners: Vec<TcpScanner> = Vec::new();
        let mut i: usize = 0;
        while i < count
            invariant
                i <= count,
                count == addresses@.len(),
                addresses == self.addresses,
                source == source_view(default_ports),
                banner == self.banner,
                chosen_ports(self.ports, self.range, source) == Ok::<PortKindView, Seq<char>>(
                    kind@,
                ),
                scanners@.len() == i,
                i <= resolved@.len(),
                first_unresolved(resolved@, count as int, 0) == first_unresolved(
                    resolved@,
                    count as int,
                    i as int,
                ),
                forall|k: int|
                    0 <= k < i ==> {
                        &&& resolved@[k] == Some((#[trigger] scanners@[k]).target())
                        &&& scanners@[k].ports_spec() == kind@
                        &&& scanners@[k].banner_grab() == banner
                        &&& scanners@[k].probers() == *probe_registry
                    },
            decreases count - i,
        {
            let target: Option<Target> = if i < resolved.len() {
                resolved[i]
            } else {
                None
            };
            match TcpScanner::new(
                &addresses[i],
                target,
                kind.clone(),
                banner,
                probe_registry.clone(),
            ) {
                Ok(scanner) => {
                    assert(resolves(resolved@, i as int));
                    scanners.push(scanner);
                },
                Err(message) => {
                    assert(!resolves(resolved@, i as int));
                    return Err(message);
                },
            }
            i = i + 1;
        }
        Ok(scanners)
    }
}

} // verus!
