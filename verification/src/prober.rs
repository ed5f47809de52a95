//! Service probes: what one probe makes of an exchange with a service.

use crate::pattern::{banner_of, extract_banner, is_valid_pattern, pattern_compiles};
use crate::scanner::{bare, ScanResult, ScanResultView};
use vstd::prelude::*;
use vstd::string::*;

verus! {

/// How the exchange of one probe attempt with a port went.
#[derive(Debug, PartialEq, Eq)]
pub enum Exchange {
    /// No connection came about within the time allowed.
    Unreachable,
    /// The connection stood, and writing the payload failed.
    WriteFailed,
    /// The payload, if any, was written, and reading failed.
    ReadFailed,
    /// The bytes that were read until the stream ended or the time ran out.
    Response(Vec<u8>),
}

/// `Exchange` as a mathematical value.
pub enum ExchangeView {
    Unreachable,
    WriteFailed,
    ReadFailed,
    Response(Seq<u8>),
}

impl View for Exchange {
    type V = ExchangeView;

    open spec fn view(&self) -> ExchangeView {
        match self {
            Exchange::Unreachable => ExchangeView::Unreachable,
            Exchange::WriteFailed => ExchangeView::WriteFailed,
            Exchange::ReadFailed => ExchangeView::ReadFailed,
            Exchange::Response(bytes) => ExchangeView::Response(bytes@),
        }
    }
}

/// A probe as a mathematical value.
pub struct ProbeView {
    pub name: Seq<char>,
    pub ports: Seq<u16>,
    pub payload: Option<Seq<char>>,
    pub pattern: Seq<char>,
}

/// What a probe that extracts banners with `pattern` makes of an exchange
/// on `port`: nothing where no connection came about; an open port without
/// a banner where writing or reading failed; otherwise an open port with
/// the banner that the pattern draws from the response.
pub open spec fn probe_outcome(pattern: Seq<char>, port: u16, exchange: ExchangeView)
    -> ScanResultView {
    match exchange {
        ExchangeView::Unreachable => ScanResultView::Closed,
        ExchangeView::WriteFailed => bare(port),
        ExchangeView::ReadFailed => bare(port),
        ExchangeView::Response(bytes) => ScanResultView::TcpOpen(port, banner_of(pattern, bytes)),
    }
}

/// The payload that is written once the connection stands: the probe's
/// payload, unless it has none or an empty one.
pub open spec fn payload_to_write(payload: Option<Seq<char>>) -> Option<Seq<char>> {
    match payload {
        Some(text) => if text.len() > 0 {
            Some(text)
        } else {
            None
        },
        None => None,
    }
}

/// A test that identifies the service behind an open port.
pub trait Prober {
    /// The name of the service.
    spec fn name_spec(&self) -> Seq<char>;

    /// The ports on which the probe is tried.
    spec fn ports_spec(&self) -> Seq<u16>;

    /// What the probe writes once the connection stands.
    spec fn opening(&self) -> Option<Seq<char>>;

    /// What the probe makes of an exchange on `port`.
    spec fn outcome(&self, port: u16, exchange: ExchangeView) -> ScanResultView;

    /// The name of the service that the probe identifies.
    fn service_name(&self) -> (name: &str)
        ensures
            name@ == self.name_spec(),
    ;

    /// The ports on which the probe is tried, as they were listed.
    fn default_ports(&self) -> (ports: &[u16])
        ensures
            ports@ == self.ports_spec(),
    ;

    /// The payload to write once the connection stands, if any.
    fn payload_to_send(&self) -> (payload: Option<String>)
        ensures
            match self.opening() {
                Some(text) => payload matches Some(p) && p@ == text,
                None => payload is None,
            },
    ;

    /// Judges the exchange that an attempt on `port` had.
    fn probe(&self, port: u16, exchange: &Exchange) -> (result: ScanResult)
        ensures
            result@ == self.outcome(port, exchange@),
    ;
}

/// A probe that writes a fixed payload and extracts the banner from the
/// response with a regular expression.
#[derive(Debug)]
pub struct GenericServiceProbe {
    name: String,
    ports: Vec<u16>,
    payload: Option<String>,
    match_regex: String,
}

impl View for GenericServiceProbe {
    type V = ProbeView;

    closed spec fn view(&self) -> ProbeView {
        ProbeView {
            name: self.name@,
            ports: self.ports@,
            payload: match self.payload {
                Some(text) => Some(text@),
                None => None,
            },
            pattern: self.match_regex@,
        }
    }
}

impl ProbeView {
    /// The probe applies to a port at least, and its pattern is a regular
    /// expression that compiles.
    pub open spec fn wf(self) -> bool {
        self.ports.len() > 0 && pattern_compiles(self.pattern)
    }
}

impl GenericServiceProbe {
    /// Makes a probe, unless it would apply to no port or its pattern does
    /// not compile.
    pub fn new(name: String, ports: Vec<u16>, payload: Option<String>, match_regex: String) -> (made:
        Option<Self>)
        ensures
            match made {
                Some(probe) => probe@.wf() && probe@ == (ProbeView {
                    name: name@,
                    ports: ports@,
                    payload: match payload {
                        Some(text) => Some(text@),
                        None => None,
                    },
                    pattern: match_regex@,
                }),
                None => ports@.len() == 0 || !pattern_compiles(match_regex@),
            },
    {
        if ports.len() == 0 || !is_valid_pattern(match_regex.as_str()) {
            None
        } else {
            Some(GenericServiceProbe { name, ports, payload, match_regex })
        }
    }

    /// The regular expression that extracts the banner.
    pub fn match_regex(&self) -> (pattern: &str)
        ensures
            pattern@ == self@.pattern,
    {
        self.match_regex.as_str()
    }
}

impl Prober for GenericServiceProbe {
    open spec fn name_spec(&self) -> Seq<char> {
        self@.name
    }

    open spec fn ports_spec(&self) -> Seq<u16> {
        self@.ports
    }

    open spec fn opening(&self) -> Option<Seq<char>> {
        payload_to_write(self@.payload)
    }

    open spec fn outcome(&self, port: u16, exchange: ExchangeView) -> ScanResultView {
        probe_outcome(self@.pattern, port, exchange)
    }

    fn service_name(&self) -> (name: &str) {
        self.name.as_str()
    }

    fn default_ports(&self) -> (ports: &[u16]) {
        self.ports.as_slice()
    }

    fn payload_to_send(&self) -> (payload: Option<String>) {
        match &self.payload {
            Some(text) => if text.as_str().is_empty() {
                None
            } else {
                Some(text.clone())
            },
            None => None,
        }
    }

    fn probe(&self, port: u16, exchange: &Exchange) -> (result: ScanResult) {
        assert(self.outcome(port, exchange@) == probe_outcome(self@.pattern, port, exchange@));
        match exchange {
            Exchange::Unreachable => ScanResult::Closed,
            Exchange::WriteFailed => ScanResult::TcpOpen(port, None),
            Exchange::ReadFailed => ScanResult::TcpOpen(port, None),
            Exchange::Response(bytes) => {
                ScanResult::TcpOpen(port, extract_banner(self.match_regex.as_str(), bytes))
            },
        }
    }
}

} // verus!
