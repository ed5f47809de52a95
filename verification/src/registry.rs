//! The registry of probes: loading it from a probe-definition document,
//! and finding the probes that apply to a port.

use crate::document::{parse_document, ConfigValue};
use crate::pattern::pattern_compiles;
use crate::prober::{GenericServiceProbe, ProbeView};
use std::collections::HashMap;
use vstd::prelude::*;
use vstd::string::*;

verus! {

/// The views of a list of probes, element by element.
pub open spec fn probe_views(probes: Seq<GenericServiceProbe>) -> Seq<ProbeView> {
    probes.map_values(|p: GenericServiceProbe| p@)
}

/// `index` once for every time that `port` stands in `ports`.
pub open spec fn hits(ports: Seq<u16>, port: u16, index: usize) -> Seq<usize>
    decreases ports.len(),
{
    if ports.len() == 0 {
        Seq::empty()
    } else if ports.last() == port {
        hits(ports.drop_last(), port, index).push(index)
    } else {
        hits(ports.drop_last(), port, index)
    }
}

/// The indices of the probes that apply to `port`, in the order in which
/// the probes were loaded. A probe that lists the port twice stands twice.
pub open spec fn candidates_of(probes: Seq<ProbeView>, port: u16) -> Seq<usize>
    decreases probes.len(),
{
    if probes.len() == 0 {
        Seq::empty()
    } else {
        candidates_of(probes.drop_last(), port) + hits(
            probes.last().ports,
            port,
            (probes.len() - 1) as usize,
        )
    }
}

/// The message of every failure to load a registry.
pub open spec fn load_error() -> Seq<char> {
    "Cannot read probe registry file"@
}

/// The port that an integer of a document stands for: its lowest sixteen
/// bits.
pub open spec fn truncated_port(number: i64) -> u16 {
    (number as int % 65536) as u16
}

/// The ports that an array of a document lists: it holds integers only, and
/// at least one.
pub open spec fn ports_of(items: Seq<ConfigValue>) -> Option<Seq<u16>> {
    if items.len() > 0 && (forall|i: int| 0 <= i < items.len() ==> #[trigger] items[i] is Integer) {
        Some(Seq::new(items.len(), |i: int| truncated_port(items[i]->Integer_0)))
    } else {
        None
    }
}

/// The payload of a probe entry: none where the entry has no `payload`, the
/// text under it where it is a text. The outer `None` says that something
/// else stands under `payload`.
pub open spec fn payload_of(entry: ConfigValue) -> Option<Option<Seq<char>>> {
    match entry.field("payload"@) {
        None => Some(None),
        Some(ConfigValue::Text(text)) => Some(Some(text@)),
        Some(_) => None,
    }
}

/// The probe that an entry of a document defines. It is a table with a text
/// `name`, an array `ports` of at least one integer, a text `match_regex`
/// that compiles as a regular expression and, if it has a `payload`, a text
/// under it. Any other entry defines no probe.
pub open spec fn probe_of(entry: ConfigValue) -> Option<ProbeView> {
    match (
        entry.text_field("name"@),
        entry.field("ports"@),
        payload_of(entry),
        entry.text_field("match_regex"@),
    ) {
        (Some(name), Some(ConfigValue::Array(items)), Some(payload), Some(pattern)) => {
            match ports_of(items@) {
                Some(ports) => if pattern_compiles(pattern) {
                    Some(ProbeView { name, ports, payload, pattern })
                } else {
                    None
                },
                None => None,
            }
        },
        _ => None,
    }
}

/// The probes that a list of entries defines, if every entry defines one.
pub open spec fn probes_in(entries: Seq<ConfigValue>) -> Option<Seq<ProbeView>> {
    if forall|i: int| 0 <= i < entries.len() ==> probe_of(#[trigger] entries[i]) is Some {
        Some(Seq::new(entries.len(), |i: int| probe_of(entries[i])->Some_0))
    } else {
        None
    }
}

/// The probes that a document defines: those of the array under `probe`,
/// all or none.
pub open spec fn probes_of(doc: ConfigValue) -> Option<Seq<ProbeView>> {
    match doc.field("probe"@) {
        Some(ConfigValue::Array(entries)) => probes_in(entries@),
        _ => None,
    }
}

/// The probes that a probe-definition source defines: those of the document
/// that it holds, if it could be read and holds one.
pub open spec fn probes_from(source: Option<Seq<char>>) -> Option<Seq<ProbeView>> {
    match source {
        Some(text) => match crate::document::toml_document(text) {
            Some(doc) => probes_of(doc),
            None => None,
        },
        None => None,
    }
}

/// The list that `index` keeps for `port`; none is an empty one.
pub open spec fn listed(index: Map<u16, Vec<usize>>, port: u16) -> Seq<usize> {
    if index.contains_key(port) {
        index[port]@
    } else {
        Seq::empty()
    }
}

/// One more listed port adds the index where it is the port looked for,
/// and nothing otherwise.
pub proof fn lemma_hits_take(ports: Seq<u16>, port: u16, index: usize, n: int)
    requires
        0 <= n < ports.len(),
    ensures
        hits(ports.take(n + 1), port, index) == if ports[n] == port {
            hits(ports.take(n), port, index).push(index)
        } else {
            hits(ports.take(n), port, index)
        },
{
    assert(ports.take(n + 1).drop_last() =~= ports.take(n));
}

fn port_from(number: i64) -> (port: u16)
    ensures
        port == truncated_port(number),
{
    if number >= 0 {
        let low: u64 = (number as u64) % 65536;
        low as u16
    } else {
        let below: u64 = (-(number + 1)) as u64;
        let low: u64 = 65535 - below % 65536;
        assert(low == number as int % 65536) by {
            let b: int = below as int;
            assert(number as int == -b - 1);
            assert(b == 65536 * (b / 65536) + b % 65536) by (nonlinear_arith);
            assert((-b - 1) == 65536 * (-(b / 65536) - 1) + (65535 - b % 65536));
            vstd::arithmetic::div_mod::lemma_fundamental_div_mod_converse(
                -b - 1,
                65536,
                -(b / 65536) - 1,
                65535 - b % 65536,
            );
        }
        low as u16
    }
}

fn read_ports(items: &Vec<ConfigValue>) -> (r: Option<Vec<u16>>)
    ensures
        match ports_of(items@) {
            Some(ports) => r matches Some(v) && v@ == ports,
            None => r is None,
        },
{
    if items.len() == 0 {
        return None;
    }
    let mut ports: Vec<u16> = Vec::new();
    let mut i: usize = 0;
    while i < items.len()
        invariant
            i <= items@.len(),
            ports@.len() == i,
            forall|k: int| 0 <= k < i ==> #[trigger] items@[k] is Integer,
            forall|k: int| 0 <= k < i ==> ports@[k] == truncated_port(items@[k]->Integer_0),
        decreases items@.len() - i,
    {
        match &items[i] {
            ConfigValue::Integer(number) => {
                ports.push(port_from(*number));
            },
            _ => {
                assert(!(items@[i as int] is Integer));
                return None;
            },
        }
        i = i + 1;
    }
    assert(ports@ =~= ports_of(items@)->Some_0);
    Some(ports)
}

fn text_at(entry: &ConfigValue, key: &str) -> (r: Option<String>)
    ensures
        match entry.text_field(key@) {
            Some(text) => r matches Some(s) && s@ == text,
            None => r is None,
        },
{
    match entry.get(key) {
        Some(value) => match value {
            ConfigValue::Text(text) => Some(text.clone()),
            _ => None,
        },
        None => None,
    }
}

fn read_probe(entry: &ConfigValue) -> (r: Option<GenericServiceProbe>)
    ensures
        match probe_of(*entry) {
            Some(view) => r matches Some(probe) && probe@ == view,
            None => r is None,
        },
{
    let name = match text_at(entry, "name") {
        Some(name) => name,
        None => {
            return None;
        },
    };
    let ports = match entry.get("ports") {
        Some(value) => match value {
            ConfigValue::Array(items) => match read_ports(items) {
                Some(ports) => ports,
                None => {
                    return None;
                },
            },
            _ => {
                return None;
            },
        },
        None => {
            return None;
        },
    };
    let payload = match entry.get("payload") {
        Some(value) => match value {
            ConfigValue::Text(text) => Some(text.clone()),
            _ => {
                return None;
            },
        },
        None => None,
    };
    let pattern = match text_at(entry, "match_regex") {
        Some(pattern) => pattern,
        None => {
            return None;
        },
    };
    GenericServiceProbe::new(name, ports, payload, pattern)
}

fn read_probes(entries: &Vec<ConfigValue>) -> (r: Option<Vec<GenericServiceProbe>>)
    ensures
        match probes_in(entries@) {
            Some(views) => r matches Some(probes) && probe_views(probes@) == views,
            None => r is None,
        },
{
    let mut probes: Vec<GenericServiceProbe> = Vec::new();
    let mut i: usize = 0;
    while i < entries.len()
        invariant
            i <= entries@.len(),
            probes@.len() == i,
            forall|k: int| 0 <= k < i ==> probe_of(#[trigger] entries@[k]) == Some(probes@[k]@),
        decreases entries@.len() - i,
    {
        match read_probe(&entries[i]) {
            Some(probe) => {
                probes.push(probe);
            },
            None => {
                return None;
            },
        }
        i = i + 1;
    }
    assert(probe_views(probes@) =~= probes_in(entries@)->Some_0);
    Some(probes)
}

fn index_probes(probes: &Vec<GenericServiceProbe>) -> (index: HashMap<u16, Vec<usize>>)
    ensures
        forall|port: u16| listed(index@, port) == candidates_of(probe_views(probes@), port),
        forall|port: u16| index@.contains_key(port) ==> index@[port]@.len() > 0,
{
    let ghost views = probe_views(probes@);
    let mut index: HashMap<u16, Vec<usize>> = HashMap::new();
    let mut i: usize = 0;
    assert(views.take(0) =~= Seq::<ProbeView>::empty());
    while i < probes.len()
        invariant
            i <= probes@.len(),
            views == probe_views(probes@),
            forall|port: u16| listed(index@, port) == candidates_of(views.take(i as int), port),
            forall|port: u16| index@.contains_key(port) ==> index@[port]@.len() > 0,
        decreases probes@.len() - i,
    {
        let ports: &[u16] = crate::prober::Prober::default_ports(&probes[i]);
        let ghost listing = views[i as int].ports;
        assert(ports@ == listing);
        let mut j: usize = 0;
        assert(listing.take(0) =~= Seq::<u16>::empty());
        while j < ports.len()
            invariant
                i < probes@.len(),
                j <= ports@.len(),
                ports@ == listing,
                forall|port: u16|
                    listed(index@, port) == candidates_of(views.take(i as int), port) + hits(
                        listing.take(j as int),
                        port,
                        i,
                    ),
                forall|port: u16| index@.contains_key(port) ==> index@[port]@.len() > 0,
            decreases ports@.len() - j,
        {
            let port: u16 = ports[j];
            let ghost before = index@;
            let mut list: Vec<usize> = match index.remove(&port) {
                Some(list) => list,
                None => Vec::new(),
            };
            assert(list@ == listed(before, port));
            list.push(i);
            index.insert(port, list);
            proof {
                assert forall|p: u16|
                    listed(index@, p) == candidates_of(views.take(i as int), p) + hits(
                        listing.take(j + 1),
                        p,
                        i,
                    ) by {
                    lemma_hits_take(listing, p, i, j as int);
                    if p == port {
                        assert(listed(index@, p) =~= listed(before, p).push(i));
                        assert(listed(index@, p) =~= candidates_of(views.take(i as int), p) + hits(
                            listing.take(j + 1),
                            p,
                            i,
                        ));
                    } else {
                        assert(listed(index@, p) == listed(before, p));
                    }
                }
            }
            j = j + 1;
        }
        proof {
            assert(listing.take(ports@.len() as int) =~= listing);
            assert(views.take(i + 1).drop_last() =~= views.take(i as int));
            assert(views.take(i + 1).last() == views[i as int]);
        }
        i = i + 1;
    }
    assert(views.take(probes@.len() as int) =~= views);
    index
}

/// The probes of one run and, for each port, the indices of the probes that
/// apply to it. A registry is made once and never changes.
#[derive(Debug)]
pub struct ProbeRegistry {
    port_map: HashMap<u16, Vec<usize>>,
    owned_probes: Vec<GenericServiceProbe>,
}

impl ProbeRegistry {
    /// The probes in the order in which they were loaded.
    pub closed spec fn probes(&self) -> Seq<ProbeView> {
        probe_views(self.owned_probes@)
    }

    /// The index from port to probe indices as it is kept.
    pub closed spec fn index(&self) -> Map<u16, Seq<usize>> {
        Map::new(|port: u16| self.port_map@.contains_key(port), |port: u16| self.port_map@[port]@)
    }

    /// The index holds, for each port that some probe lists, the candidates
    /// of that port and nothing else; every pattern compiles and every probe
    /// lists a port.
    pub open spec fn wf(&self) -> bool {
        &&& forall|port: u16| #[trigger]
            self.index().contains_key(port) <==> candidates_of(self.probes(), port).len() > 0
        &&& forall|port: u16| #[trigger]
            self.index().contains_key(port) ==> self.index()[port] == candidates_of(
                self.probes(),
                port,
            )
        &&& forall|i: int| 0 <= i < self.probes().len() ==> (#[trigger] self.probes()[i]).wf()
    }

    #[verifier::type_invariant]
    spec fn inv(&self) -> bool {
        self.wf()
    }

    /// The indices of the probes that apply to `port`.
    pub open spec fn candidates_spec(&self, port: u16) -> Seq<usize> {
        candidates_of(self.probes(), port)
    }

    /// Loads the registry from a probe-definition source, given as its text
    /// or as `None` where the source could not be read. Loading yields the
    /// probes that the source defines, all of them, or fails with one and
    /// the same message, whatever was wrong.
    pub fn new(source: Option<&str>) -> (r: Result<Self, String>)
        ensures
            match probes_from(
                match source {
                    Some(text) => Some(text@),
                    None => None,
                },
            ) {
                Some(views) => r matches Ok(registry) && registry.probes() == views
                    && registry.wf(),
                None => r matches Err(message) && message@ == load_error(),
            },
    {
        match source {
            Some(text) => match parse_document(text) {
                Some(doc) => Self::from_document(&doc),
                None => Err(String::from_str("Cannot read probe registry file")),
            },
            None => Err(String::from_str("Cannot read probe registry file")),
        }
    }

    /// Loads the registry from a document that was read already.
    pub fn from_document(doc: &ConfigValue) -> (r: Result<Self, String>)
        ensures
            match probes_of(*doc) {
                Some(views) => r matches Ok(registry) && registry.probes() == views
                    && registry.wf(),
                None => r matches Err(message) && message@ == load_error(),
            },
    {
        let entries = match doc.get("probe") {
            Some(value) => match value {
                ConfigValue::Array(entries) => entries,
                _ => {
                    return Err(String::from_str("Cannot read probe registry file"));
                },
            },
            None => {
                return Err(String::from_str("Cannot read probe registry file"));
            },
        };
        match read_probes(entries) {
            Some(owned_probes) => {
                let port_map = index_probes(&owned_probes);
                proof {
                    let views = probe_views(owned_probes@);
                    assert forall|i: int| 0 <= i < views.len() implies (#[trigger] views[i]).wf() by {
                        assert(probe_of(entries@[i]) == Some(views[i]));
                    }
                    assert forall|port: u16|
                        port_map@.contains_key(port) <==> candidates_of(views, port).len()
                            > 0 by {
                        assert(listed(port_map@, port) == candidates_of(views, port));
                    }
                    assert forall|port: u16| port_map@.contains_key(port) implies port_map@[port]@
                        == candidates_of(views, port) by {
                        assert(listed(port_map@, port) == candidates_of(views, port));
                    }
                }
                Ok(ProbeRegistry { port_map, owned_probes })
            },
            None => Err(String::from_str("Cannot read probe registry file")),
        }
    }

    /// The number of probes.
    pub fn len(&self) -> (n: usize)
        ensures
            n == self.probes().len(),
    {
        self.owned_probes.len()
    }

    /// The probe at `index`, if there is one.
    pub fn get(&self, index: usize) -> (r: Option<&GenericServiceProbe>)
        ensures
            match r {
                Some(probe) => index < self.probes().len() && probe@ == self.probes()[index as int],
                None => index >= self.probes().len(),
            },
    {
        if index < self.owned_probes.len() {
            Some(&self.owned_probes[index])
        } else {
            None
        }
    }

    pub(crate) fn probe_at(&self, index: usize) -> (probe: &GenericServiceProbe)
        requires
            index < self.probes().len(),
        ensures
            probe@ == self.probes()[index as int],
    {
        &self.owned_probes[index]
    }

    /// Looks up the probes that apply to `port`: their indices, in the
    /// order in which the probes were loaded.
    pub fn candidates(&self, port: u16) -> (found: Vec<usize>)
        ensures
            found@ == self.candidates_spec(port),
            forall|k: int| 0 <= k < found@.len() ==> found@[k] < self.probes().len(),
            self.wf(),
    {
        let count: usize = self.owned_probes.len();
        proof {
            use_type_invariant(self);
            assert(self.probes().len() == count);
            lemma_candidates_in_range(self.probes(), port);
        }
        match self.port_map.get(&port) {
            Some(list) => {
                assert(self.index().contains_key(port));
                list.clone()
            },
            None => {
                assert(!self.index().contains_key(port));
                Vec::new()
            },
        }
    }
}

/// Every candidate is the index of a probe, and that probe lists the port.
pub proof fn lemma_candidates_in_range(probes: Seq<ProbeView>, port: u16)
    requires
        probes.len() <= usize::MAX,
    ensures
        forall|k: int|
            0 <= k < candidates_of(probes, port).len() ==> {
                &&& (#[trigger] candidates_of(probes, port)[k]) < probes.len()
                &&& probes[candidates_of(probes, port)[k] as int].ports.contains(port)
            },
    decreases probes.len(),
{
    if probes.len() > 0 {
        let head = candidates_of(probes.drop_last(), port);
        let index = (probes.len() - 1) as usize;
        lemma_candidates_in_range(probes.drop_last(), port);
        lemma_hits_are_index(probes.last().ports, port, index);
        assert forall|k: int| 0 <= k < candidates_of(probes, port).len() implies {
            &&& (#[trigger] candidates_of(probes, port)[k]) < probes.len()
            &&& probes[candidates_of(probes, port)[k] as int].ports.contains(port)
        } by {
            if k < head.len() {
                assert(candidates_of(probes, port)[k] == head[k]);
                assert(probes.drop_last()[head[k] as int] == probes[head[k] as int]);
            } else {
                assert(candidates_of(probes, port)[k] == index);
            }
        }
    }
}

/// `hits` holds nothing but the index, and holds it only where the port is
/// listed.
pub proof fn lemma_hits_are_index(ports: Seq<u16>, port: u16, index: usize)
    ensures
        forall|k: int| 0 <= k < hits(ports, port, index).len() ==> hits(ports, port, index)[k] == index,
        hits(ports, port, index).len() > 0 <==> ports.contains(port),
    decreases ports.len(),
{
    if ports.len() > 0 {
        lemma_hits_are_index(ports.drop_last(), port, index);
        if ports.last() == port {
            assert(ports[ports.len() - 1] == port);
        } else if ports.contains(port) {
            let at = choose|at: int| 0 <= at < ports.len() && ports[at] == port;
            assert(ports.drop_last()[at] == port);
        }
        if ports.drop_last().contains(port) {
            let at = choose|at: int| 0 <= at < ports.drop_last().len() && ports.drop_last()[at] == port;
            assert(ports[at] == port);
        }
    }
}

/// Loading is deterministic: two registries that were loaded from the same
/// source hold the same probes and keep the same index from port to probe
/// indices.
pub proof fn lemma_load_is_deterministic(
    source: Option<Seq<char>>,
    first: ProbeRegistry,
    second: ProbeRegistry,
)
    requires
        first.wf(),
        second.wf(),
        probes_from(source) == Some(first.probes()),
        probes_from(source) == Some(second.probes()),
    ensures
        first.probes() == second.probes(),
        first.index() == second.index(),
        forall|port: u16| first.candidates_spec(port) == second.candidates_spec(port),
{
    assert forall|port: u16| first.index().contains_key(port) implies first.index()[port]
        == second.index()[port] by {
        assert(second.index().contains_key(port));
    }
    assert(first.index() =~= second.index());
}

/// A source in which one probe entry has no `match_regex` defines no
/// probes at all, whatever its other entries hold, so that loading it
/// fails.
pub proof fn lemma_entry_without_pattern_fails(
    source: Seq<char>,
    doc: ConfigValue,
    entries: Vec<ConfigValue>,
    at: int,
)
    requires
        crate::document::toml_document(source) == Some(doc),
        doc.field("probe"@) == Some(ConfigValue::Array(entries)),
        0 <= at < entries@.len(),
        entries@[at].field("match_regex"@) is None,
    ensures
        probes_of(doc) is None,
        probes_from(Some(source)) is None,
{
    assert(probe_of(entries@[at]) is None);
}

} // verus!
