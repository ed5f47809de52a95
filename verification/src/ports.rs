//! Which ports a scan tries, and in what order the open ones are returned.

use crate::text::{chars_of, fields, parse_ports, port_number, port_numbers, split_fields};
use vstd::prelude::*;
use vstd::string::*;

verus! {

/// The ports of a scan: an explicit list, tried as written, or an inclusive
/// range `start..=end`. A range whose start lies above its end holds no port.
#[derive(Debug, PartialEq, Eq)]
pub enum PortKind {
    List(Vec<u16>),
    Range(u16, u16),
}

/// `PortKind` as a mathematical value.
pub enum PortKindView {
    List(Seq<u16>),
    Range(u16, u16),
}

impl View for PortKind {
    type V = PortKindView;

    open spec fn view(&self) -> PortKindView {
        match self {
            PortKind::List(ports) => PortKindView::List(ports@),
            PortKind::Range(start, end) => PortKindView::Range(*start, *end),
        }
    }
}

impl PortKindView {
    /// The ports in the order in which they are tried.
    pub open spec fn ports(self) -> Seq<u16> {
        match self {
            PortKindView::List(ports) => ports,
            PortKindView::Range(start, end) => if start <= end {
                Seq::new((end - start + 1) as nat, |i: int| (start + i) as u16)
            } else {
                Seq::empty()
            },
        }
    }
}

impl Clone for PortKind {
    fn clone(&self) -> (copy: Self)
        ensures
            copy@ == self@,
    {
        match self {
            PortKind::List(ports) => PortKind::List(ports.clone()),
            PortKind::Range(start, end) => PortKind::Range(*start, *end),
        }
    }
}

impl PortKind {
    /// The ports in the order in which they are tried: a list as it stands,
    /// duplicates included; a range enumerated upwards.
    pub fn expand(&self) -> (out: Vec<u16>)
        ensures
            out@ == self@.ports(),
    {
        match self {
            PortKind::List(ports) => ports.clone(),
            PortKind::Range(start, end) => {
                let mut out: Vec<u16> = Vec::new();
                if *start > *end {
                    return out;
                }
                let mut port: u16 = *start;
                while port < *end
                    invariant
                        *start <= port <= *end,
                        out@.len() == port - *start,
                        forall|i: int| 0 <= i < out@.len() ==> out@[i] == *start + i,
                    decreases *end - port,
                {
                    out.push(port);
                    port = port + 1;
                }
                out.push(port);
                assert(out@ =~= self@.ports());
                out
            },
        }
    }
}

/// The message with which a malformed range is turned down.
pub open spec fn range_error() -> Seq<char> {
    "the range must be 'start-end'. Example: 1-100"@
}

/// The message with which a malformed list of default ports is turned down.
pub open spec fn default_ports_error() -> Seq<char> {
    "Error: Failed parsing default ports"@
}

/// The range that `text` spells: two port numbers with one hyphen between.
pub open spec fn range_of(text: Seq<char>) -> Option<(u16, u16)> {
    let parts = fields(text, '-');
    if parts.len() == 2 && port_number(parts[0]) is Some && port_number(parts[1]) is Some {
        Some((port_number(parts[0])->Some_0, port_number(parts[1])->Some_0))
    } else {
        None
    }
}

/// The ports that `text` lists: port numbers with one comma between each
/// two, and nothing else, neither blanks nor a line end.
pub open spec fn port_list_of(text: Seq<char>) -> Option<Seq<u16>> {
    port_numbers(fields(text, ','))
}

/// Reads a range written as `start-end`.
///
/// Whether the start lies below the end is not looked at: `9-1` is read as
/// the range from 9 to 1, which holds no port.
pub fn range_parser(input: &str) -> (r: Result<PortKind, String>)
    ensures
        match range_of(input@) {
            Some((start, end)) => r matches Ok(kind) && kind@ == PortKindView::Range(start, end),
            None => r matches Err(message) && message@ == range_error(),
        },
{
    let chars = chars_of(input);
    let parts = split_fields(&chars, '-');
    let numbers = parse_ports(&parts);
    proof {
        let f = fields(input@, '-');
        if numbers is Some {
            assert(forall|i: int| 0 <= i < f.len() ==> port_number(#[trigger] f[i]) is Some);
        }
    }
    match numbers {
        Some(ports) => {
            if ports.len() == 2 {
                Ok(PortKind::Range(ports[0], ports[1]))
            } else {
                Err(String::from_str("the range must be 'start-end'. Example: 1-100"))
            }
        },
        None => Err(String::from_str("the range must be 'start-end'. Example: 1-100")),
    }
}

/// Reads a list of ports separated by commas, as the default port list is
/// written.
pub fn parse_port_list(text: &str) -> (r: Result<PortKind, String>)
    ensures
        match port_list_of(text@) {
            Some(ports) => r matches Ok(kind) && kind@ == PortKindView::List(ports),
            None => r matches Err(message) && message@ == default_ports_error(),
        },
{
    let chars = chars_of(text);
    let parts = split_fields(&chars, ',');
    match parse_ports(&parts) {
        Some(ports) => Ok(PortKind::List(ports)),
        None => Err(String::from_str("Error: Failed parsing default ports")),
    }
}

/// Each port stands below the next.
pub open spec fn strictly_ascending(ports: Seq<u16>) -> bool {
    forall|i: int, j: int| 0 <= i < j < ports.len() ==> ports[i] < ports[j]
}

/// The ports below `bound` that stand in `ports`, each once, in ascending
/// order.
pub open spec fn distinct_below(ports: Seq<u16>, bound: int) -> Seq<u16>
    decreases bound,
{
    if bound <= 0 {
        Seq::empty()
    } else if ports.contains((bound - 1) as u16) {
        distinct_below(ports, bound - 1).push((bound - 1) as u16)
    } else {
        distinct_below(ports, bound - 1)
    }
}

/// The ports that stand in `ports`, each once, in ascending order.
pub open spec fn ascending(ports: Seq<u16>) -> Seq<u16> {
    distinct_below(ports, 65536)
}

/// `distinct_below` is strictly ascending and holds the ports below the
/// bound that stand in `ports`, and no others.
pub proof fn lemma_distinct_below(ports: Seq<u16>, bound: int)
    requires
        0 <= bound <= 65536,
    ensures
        strictly_ascending(distinct_below(ports, bound)),
        forall|at: int|
            0 <= at < distinct_below(ports, bound).len() ==> distinct_below(ports, bound)[at]
                < bound,
        forall|port: u16|
            distinct_below(ports, bound).contains(port) <==> port < bound && ports.contains(port),
    decreases bound,
{
    if bound > 0 {
        lemma_distinct_below(ports, bound - 1);
        let rest = distinct_below(ports, bound - 1);
        let all = distinct_below(ports, bound);
        let top = (bound - 1) as u16;
        assert forall|port: u16| all.contains(port) <==> port < bound && ports.contains(port) by {
            if all.contains(port) {
                let at = choose|at: int| 0 <= at < all.len() && all[at] == port;
                if at < rest.len() {
                    assert(rest[at] == port);
                    assert(rest.contains(port));
                }
            }
            if port < bound && ports.contains(port) {
                if port == top {
                    assert(all[rest.len() as int] == port);
                } else {
                    assert(rest.contains(port));
                    let at = choose|at: int| 0 <= at < rest.len() && rest[at] == port;
                    assert(all[at] == port);
                }
            }
        }
    }
}

/// A scan returns every port that connected, once, in ascending order, and
/// no port that did not connect.
pub proof fn lemma_ascending(ports: Seq<u16>)
    ensures
        strictly_ascending(ascending(ports)),
        forall|port: u16| ascending(ports).contains(port) <==> ports.contains(port),
        ascending(ports).no_duplicates(),
{
    lemma_distinct_below(ports, 65536);
}

/// The ports that connected, each once and in ascending order, whatever the
/// order and number of the reports.
pub fn open_ports(connected: &Vec<u16>) -> (out: Vec<u16>)
    ensures
        out@ == ascending(connected@),
        strictly_ascending(out@),
        forall|port: u16| out@.contains(port) <==> connected@.contains(port),
{
    let mut seen: Vec<bool> = Vec::new();
    let mut k: usize = 0;
    while k < 65536
        invariant
            k <= 65536,
            seen@.len() == k,
            forall|p: int| 0 <= p < k ==> !seen@[p],
        decreases 65536 - k,
    {
        seen.push(false);
        k = k + 1;
    }
    let mut i: usize = 0;
    while i < connected.len()
        invariant
            i <= connected@.len(),
            seen@.len() == 65536,
            forall|p: u16| seen@[p as int] <==> connected@.take(i as int).contains(p),
        decreases connected@.len() - i,
    {
        let port: u16 = connected[i];
        let ghost before = connected@.take(i as int);
        let ghost after = connected@.take(i + 1);
        seen.set(port as usize, true);
        assert(after =~= before.push(port));
        assert forall|p: u16| seen@[p as int] <==> after.contains(p) by {
            if after.contains(p) {
                let at = choose|at: int| 0 <= at < after.len() && after[at] == p;
                if at < before.len() {
                    assert(before[at] == p);
                }
            } else if p == port {
                assert(after[before.len() as int] == port);
            } else if before.contains(p) {
                let at = choose|at: int| 0 <= at < before.len() && before[at] == p;
                assert(after[at] == p);
            }
        }
        i = i + 1;
    }
    assert(connected@.take(connected@.len() as int) =~= connected@);
    let mut out: Vec<u16> = Vec::new();
    let mut next: usize = 0;
    while next < 65536
        invariant
            next <= 65536,
            seen@.len() == 65536,
            forall|p: u16| seen@[p as int] <==> connected@.contains(p),
            out@ == distinct_below(connected@, next as int),
        decreases 65536 - next,
    {
        if seen[next] {
            out.push(next as u16);
        }
        next = next + 1;
    }
    proof {
        lemma_ascending(connected@);
    }
    out
}

/// Two strictly ascending sequences that hold the same ports are one and the
/// same: ascending order and the ports themselves leave no choice.
pub proof fn lemma_ascending_is_unique(a: Seq<u16>, b: Seq<u16>)
    requires
        strictly_ascending(a),
        strictly_ascending(b),
        forall|port: u16| a.contains(port) <==> b.contains(port),
    ensures
        a == b,
    decreases a.len(),
{
    if a.len() == 0 {
        if b.len() > 0 {
            assert(b.contains(b[0]));
        }
    } else if b.len() == 0 {
        assert(a.contains(a[0]));
    } else {
        let top = a.last();
        assert(a.contains(top));
        let at = choose|at: int| 0 <= at < b.len() && b[at] == top;
        assert(b.contains(b.last()));
        let back = choose|back: int| 0 <= back < a.len() && a[back] == b.last();
        assert(b.last() == top);
        let a0 = a.drop_last();
        let b0 = b.drop_last();
        assert forall|port: u16| a0.contains(port) <==> b0.contains(port) by {
            if a0.contains(port) {
                let i = choose|i: int| 0 <= i < a0.len() && a0[i] == port;
                assert(a[i] == port && port < top);
                assert(a.contains(port));
                let j = choose|j: int| 0 <= j < b.len() && b[j] == port;
                assert(b0[j] == port);
            }
            if b0.contains(port) {
                let j = choose|j: int| 0 <= j < b0.len() && b0[j] == port;
                assert(b[j] == port && port < top);
                assert(b.contains(port));
                let i = choose|i: int| 0 <= i < a.len() && a[i] == port;
                assert(a0[i] == port);
            }
        }
        lemma_ascending_is_unique(a0, b0);
        assert(a =~= a0.push(top));
        assert(b =~= b0.push(top));
    }
}

/// The order in which ports are reported, and how often each is reported,
/// make no difference to what a scan returns.
pub proof fn lemma_ascending_ignores_order(a: Seq<u16>, b: Seq<u16>)
    requires
        forall|port: u16| a.contains(port) <==> b.contains(port),
    ensures
        ascending(a) == ascending(b),
{
    lemma_ascending(a);
    lemma_ascending(b);
    assert forall|port: u16| ascending(a).contains(port) <==> ascending(b).contains(port) by {
        assert(ascending(a).contains(port) <==> a.contains(port));
        assert(ascending(b).contains(port) <==> b.contains(port));
    }
    lemma_ascending_is_unique(ascending(a), ascending(b));
}

} // verus!
