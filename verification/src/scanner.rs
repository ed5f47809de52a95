//! Scan results and the course of one scan.
//!
//! A scan is run by its caller and decided here: the caller hands in what
//! happened, and `Scanner::execute` answers with what to do next.

use crate::identify::{
    attempt_views, attempts_of, identified, lemma_identified_is_open, reply_views, ProbeAttempt,
    ProbeAttemptView, ProbeReply, ProbeReplyView,
};
use crate::ports::{ascending, lemma_ascending};
use crate::prober::ProbeView;
use crate::registry::{candidates_of, ProbeRegistry};
use crate::table::{table_of, write_table};
use std::sync::Arc;
use vstd::prelude::*;

verus! {

/// How long a connection attempt may take, in milliseconds.
pub const CONNECTION_TIMEOUT_MS: u64 = 1000;

/// How long writing a payload or reading a response may take, in
/// milliseconds.
pub const EXCHANGE_TIMEOUT_MS: u64 = 500;

/// The address of the host that is scanned, as the bits of an IPv4 or an
/// IPv6 address.
#[derive(Debug, Clone, Copy, PartialEq, Eq)]
pub enum Target {
    V4(u32),
    V6(u128),
}

/// What is known of one port: it is open, with the banner of the service
/// behind it where one was found, or there is nothing to say of it.
/// `Closed` never reaches a result list.
#[derive(Debug, PartialEq, Eq)]
pub enum ScanResult {
    TcpOpen(u16, Option<String>),
    Closed,
}

/// `ScanResult` as a mathematical value.
pub enum ScanResultView {
    TcpOpen(u16, Option<Seq<char>>),
    Closed,
}

impl View for ScanResult {
    type V = ScanResultView;

    open spec fn view(&self) -> ScanResultView {
        match self {
            ScanResult::TcpOpen(port, Some(banner)) => ScanResultView::TcpOpen(
                *port,
                Some(banner@),
            ),
            ScanResult::TcpOpen(port, None) => ScanResultView::TcpOpen(*port, None),
            ScanResult::Closed => ScanResultView::Closed,
        }
    }
}

impl Clone for ScanResult {
    fn clone(&self) -> (copy: Self)
        ensures
            copy@ == self@,
    {
        match self {
            ScanResult::TcpOpen(port, Some(banner)) => ScanResult::TcpOpen(
                *port,
                Some(banner.clone()),
            ),
            ScanResult::TcpOpen(port, None) => ScanResult::TcpOpen(*port, None),
            ScanResult::Closed => ScanResult::Closed,
        }
    }
}

/// The views of a list of results, element by element.
pub open spec fn result_views(results: Seq<ScanResult>) -> Seq<ScanResultView> {
    results.map_values(|r: ScanResult| r@)
}

/// An open port of which no banner is known.
pub open spec fn bare(port: u16) -> ScanResultView {
    ScanResultView::TcpOpen(port, None)
}

/// The port that a result speaks of.
pub open spec fn port_of(result: ScanResultView) -> u16 {
    match result {
        ScanResultView::TcpOpen(port, _) => port,
        ScanResultView::Closed => 0,
    }
}

/// What a scan returns when the ports in `connected` accepted a connection,
/// in whatever order and however often they were reported: each of them
/// once, in ascending order, open and without a banner.
pub open spec fn scan_results(connected: Seq<u16>) -> Seq<ScanResultView> {
    Seq::new(ascending(connected).len(), |i: int| bare(ascending(connected)[i]))
}

/// Where a scan stands.
#[derive(Debug, Clone, Copy, PartialEq, Eq)]
pub enum Stage {
    /// Nothing was asked for yet.
    Ready,
    /// The connection attempts are under way.
    Connecting,
    /// The race against one open port is under way.
    Probing,
    /// The results were returned.
    Finished,
}

/// The state of one scan.
#[derive(Debug)]
pub struct ScanRun {
    stage: Stage,
    open: Vec<ScanResult>,
    resolved: Vec<ScanResult>,
}

/// `ScanRun` as a mathematical value: the stage, the open ports that the
/// scan found, and the results that are settled so far, one for each of the
/// first open ports.
pub struct ScanRunView {
    pub stage: Stage,
    pub open: Seq<ScanResultView>,
    pub resolved: Seq<ScanResultView>,
}

impl ScanRunView {
    /// The state in which every scan begins.
    pub open spec fn initial() -> ScanRunView {
        ScanRunView { stage: Stage::Ready, open: Seq::empty(), resolved: Seq::empty() }
    }

    /// The open ports are bare and ascend strictly; each settled result
    /// speaks of the open port in its place; while a race is under way a
    /// port is left to settle, and at the end none is.
    pub open spec fn wf(self) -> bool {
        &&& forall|i: int| 0 <= i < self.open.len() ==> #[trigger] self.open[i] == bare(port_of(self.open[i]))
        &&& forall|i: int, j: int|
            0 <= i < j < self.open.len() ==> port_of(#[trigger] self.open[i]) < port_of(
                #[trigger] self.open[j],
            )
        &&& self.resolved.len() <= self.open.len()
        &&& forall|i: int|
            0 <= i < self.resolved.len() ==> (#[trigger] self.resolved[i]) is TcpOpen && port_of(
                self.resolved[i],
            ) == port_of(self.open[i])
        &&& match self.stage {
            Stage::Ready => self.open.len() == 0,
            Stage::Connecting => self.open.len() == 0,
            Stage::Probing => self.resolved.len() < self.open.len(),
            Stage::Finished => self.resolved.len() == self.open.len(),
        }
    }
}

impl View for ScanRun {
    type V = ScanRunView;

    closed spec fn view(&self) -> ScanRunView {
        ScanRunView {
            stage: self.stage,
            open: result_views(self.open@),
            resolved: result_views(self.resolved@),
        }
    }
}

impl ScanRun {
    #[verifier::type_invariant]
    spec fn inv(&self) -> bool {
        self@.wf()
    }

    /// A scan that has not begun.
    pub fn new() -> (run: ScanRun)
        ensures
            run@ == ScanRunView::initial(),
    {
        let run = ScanRun { stage: Stage::Ready, open: Vec::new(), resolved: Vec::new() };
        assert(run@.open =~= Seq::empty());
        assert(run@.resolved =~= Seq::empty());
        run
    }

    /// Where the scan stands.
    pub fn stage(&self) -> (stage: Stage)
        ensures
            stage == self@.stage,
            self@.wf(),
    {
        proof {
            use_type_invariant(self);
        }
        self.stage
    }
}

/// What happened since the last step of a scan.
#[derive(Debug, PartialEq, Eq)]
pub enum ScanEvent {
    /// The scan is to begin.
    Start,
    /// Every connection attempt has ended; these ports accepted, in the
    /// order in which they reported.
    Connected(Vec<u16>),
    /// Every attempt of the race has ended; these are their replies, in the
    /// order in which they arrived.
    Probed(Vec<ProbeReply>),
}

/// `ScanEvent` as a mathematical value.
pub enum ScanEventView {
    Start,
    Connected(Seq<u16>),
    Probed(Seq<ProbeReplyView>),
}

impl View for ScanEvent {
    type V = ScanEventView;

    open spec fn view(&self) -> ScanEventView {
        match self {
            ScanEvent::Start => ScanEventView::Start,
            ScanEvent::Connected(ports) => ScanEventView::Connected(ports@),
            ScanEvent::Probed(replies) => ScanEventView::Probed(reply_views(replies@)),
        }
    }
}

/// What the caller of a scan is to do next.
#[derive(Debug, PartialEq, Eq)]
pub enum ScanAction {
    /// Try to connect to each of these ports, all at once, and hand in
    /// `ScanEvent::Connected`.
    Connect(Vec<u16>),
    /// Race these attempts against the port and hand in
    /// `ScanEvent::Probed`.
    Probe(u16, Vec<ProbeAttempt>),
    /// The scan is over, and these are its results.
    Return(Vec<ScanResult>),
    /// The event does not belong to the stage of the scan: nothing changed
    /// and nothing is to be done.
    Ignore,
}

/// `ScanAction` as a mathematical value.
pub enum ScanActionView {
    Connect(Seq<u16>),
    Probe(u16, Seq<ProbeAttemptView>),
    Return(Seq<ScanResultView>),
    Ignore,
}

impl View for ScanAction {
    type V = ScanActionView;

    open spec fn view(&self) -> ScanActionView {
        match self {
            ScanAction::Connect(ports) => ScanActionView::Connect(ports@),
            ScanAction::Probe(port, attempts) => ScanActionView::Probe(
                *port,
                attempt_views(attempts@),
            ),
            ScanAction::Return(results) => ScanActionView::Return(result_views(results@)),
            ScanAction::Ignore => ScanActionView::Ignore,
        }
    }
}

/// Goes on with identification once the first `resolved.len()` open ports
/// are settled: an open port to which no probe applies is settled as it
/// stands, the first one to which a probe applies is raced, and when no
/// port is left the settled results are returned.
pub open spec fn settle(
    probes: Seq<ProbeView>,
    open: Seq<ScanResultView>,
    resolved: Seq<ScanResultView>,
) -> (ScanRunView, ScanActionView)
    decreases open.len() - resolved.len(),
{
    if resolved.len() >= open.len() {
        (ScanRunView { stage: Stage::Finished, open, resolved }, ScanActionView::Return(resolved))
    } else {
        let next = open[resolved.len() as int];
        if candidates_of(probes, port_of(next)).len() == 0 {
            settle(probes, open, resolved.push(next))
        } else {
            (
                ScanRunView { stage: Stage::Probing, open, resolved },
                ScanActionView::Probe(port_of(next), attempts_of(probes, port_of(next))),
            )
        }
    }
}

/// The step of the probing stage: the port whose race has ended is
/// identified from the replies, and identification goes on behind it. In
/// any other stage nothing happens.
pub open spec fn probe_step(probes: Seq<ProbeView>, run: ScanRunView, replies: Seq<ProbeReplyView>)
    -> (ScanRunView, ScanActionView) {
    if run.stage is Probing {
        let port = port_of(run.open[run.resolved.len() as int]);
        settle(probes, run.open, run.resolved.push(identified(probes, port, replies)))
    } else {
        (run, ScanActionView::Ignore)
    }
}

/// One step of a scan of the ports `plan`.
///
/// A scan that is ready begins by connecting to the ports of the plan.
/// When the connections have ended, the scan's results are the ports that
/// connected; without banner grabbing they are returned, with it each is
/// identified in turn. An event that does not belong to the stage changes
/// nothing.
pub open spec fn step(
    probes: Seq<ProbeView>,
    plan: Seq<u16>,
    banner_grab: bool,
    run: ScanRunView,
    event: ScanEventView,
) -> (ScanRunView, ScanActionView) {
    match (run.stage, event) {
        (Stage::Ready, ScanEventView::Start) => (
            ScanRunView { stage: Stage::Connecting, open: Seq::empty(), resolved: Seq::empty() },
            ScanActionView::Connect(plan),
        ),
        (Stage::Connecting, ScanEventView::Connected(connected)) => {
            let open = scan_results(connected);
            if banner_grab {
                settle(probes, open, Seq::empty())
            } else {
                (
                    ScanRunView { stage: Stage::Finished, open, resolved: open },
                    ScanActionView::Return(open),
                )
            }
        },
        (Stage::Probing, ScanEventView::Probed(replies)) => probe_step(probes, run, replies),
        _ => (run, ScanActionView::Ignore),
    }
}

fn port_number_of(result: &ScanResult) -> (port: u16)
    ensures
        port == port_of(result@),
{
    match result {
        ScanResult::TcpOpen(port, _) => *port,
        ScanResult::Closed => 0,
    }
}

fn settle_rest(registry: &ProbeRegistry, open: Vec<ScanResult>, settled: Vec<ScanResult>) -> (next: (
    ScanRun,
    ScanAction,
))
    requires
        (ScanRunView {
            stage: Stage::Finished,
            open: result_views(open@),
            resolved: result_views(settled@),
        }).wf() || (ScanRunView {
            stage: Stage::Probing,
            open: result_views(open@),
            resolved: result_views(settled@),
        }).wf(),
    ensures
        (next.0@, next.1@) == settle(
            registry.probes(),
            result_views(open@),
            result_views(settled@),
        ),
{
    let ghost probes = registry.probes();
    let ghost opened = result_views(open@);
    let ghost start = result_views(settled@);
    let mut resolved = settled;
    while resolved.len() < open.len()
        invariant
            opened == result_views(open@),
            start == result_views(settled@),
            probes == registry.probes(),
            resolved@.len() <= open@.len(),
            forall|i: int| 0 <= i < opened.len() ==> #[trigger] opened[i] == bare(port_of(opened[i])),
            forall|i: int, j: int|
                0 <= i < j < opened.len() ==> port_of(#[trigger] opened[i]) < port_of(
                    #[trigger] opened[j],
                ),
            forall|i: int|
                0 <= i < resolved@.len() ==> (#[trigger] result_views(resolved@)[i]) is TcpOpen
                    && port_of(result_views(resolved@)[i]) == port_of(opened[i]),
            settle(probes, opened, result_views(resolved@)) == settle(probes, opened, start),
        decreases open@.len() - resolved@.len(),
    {
        let at: usize = resolved.len();
        let port: u16 = port_number_of(&open[at]);
        let attempts = registry.attempts(port);
        assert(attempt_views(attempts@).len() == candidates_of(probes, port).len());
        assert(opened[at as int] == open@[at as int]@);
        if attempts.len() > 0 {
            assert(settle(probes, opened, result_views(resolved@)) == (
                ScanRunView { stage: Stage::Probing, open: opened, resolved: result_views(resolved@) },
                ScanActionView::Probe(port, attempts_of(probes, port)),
            ));
            let run = ScanRun { stage: Stage::Probing, open, resolved };
            return (run, ScanAction::Probe(port, attempts));
        }
        let ghost before = result_views(resolved@);
        resolved.push(open[at].clone());
        assert(result_views(resolved@) =~= before.push(opened[at as int]));
    }
    let results = copy_results(&resolved);
    let run = ScanRun { stage: Stage::Finished, open, resolved };
    (run, ScanAction::Return(results))
}

fn copy_results(results: &Vec<ScanResult>) -> (copy: Vec<ScanResult>)
    ensures
        result_views(copy@) == result_views(results@),
{
    let mut copy: Vec<ScanResult> = Vec::new();
    let mut i: usize = 0;
    while i < results.len()
        invariant
            i <= results@.len(),
            copy@.len() == i,
            forall|k: int| 0 <= k < i ==> (#[trigger] copy@[k])@ == results@[k]@,
        decreases results@.len() - i,
    {
        copy.push(results[i].clone());
        i = i + 1;
    }
    assert(result_views(copy@) =~= result_views(results@));
    copy
}

/// One way of scanning a host. The scanner says which ports it tries and
/// what its scan returns; identification, the course of a scan and the
/// table of results are the same for every scanner.
pub trait Scanner {
    /// The host that is scanned.
    spec fn target(&self) -> Target;

    /// The registry of probes that identification consults.
    spec fn probers(&self) -> ProbeRegistry;

    /// Whether open ports are identified.
    spec fn banner_grab(&self) -> bool;

    /// The ports that are tried, in the order in which they are tried.
    spec fn port_plan(&self) -> Seq<u16>;

    /// The host that is scanned.
    fn get_target(&self) -> (target: Target)
        ensures
            target == self.target(),
    ;

    /// The registry of probes, shared with every other scanner of the run.
    fn get_probers(&self) -> (registry: Arc<ProbeRegistry>)
        ensures
            *registry == self.probers(),
    ;

    /// Whether open ports are identified.
    fn is_banner_grab(&self) -> (on: bool)
        ensures
            on == self.banner_grab(),
    ;

    /// The ports to try, in the order in which they are tried: a list as it
    /// stands, a range enumerated upwards.
    fn get_ports(&self) -> (ports: Vec<u16>)
        ensures
            ports@ == self.port_plan(),
    ;

    /// What the scan returns when the connection attempts have ended and
    /// the ports in `connected` accepted.
    fn scan(&self, connected: &Vec<u16>) -> (results: Vec<ScanResult>)
        ensures
            result_views(results@) == scan_results(connected@),
    ;

    /// The lines of the table of results: the column heads and one row for
    /// each open port.
    fn print_result(&self, results: &Vec<ScanResult>) -> (lines: Vec<String>)
        ensures
            crate::text::texts(lines@) == table_of(self.banner_grab(), result_views(results@)),
    {
        write_table(self.is_banner_grab(), results)
    }

    /// Takes the replies of the race that is under way and goes on with
    /// identification.
    fn probe(&self, run: ScanRun, replies: &Vec<ProbeReply>) -> (next: (ScanRun, ScanAction))
        ensures
            (next.0@, next.1@) == probe_step(self.probers().probes(), run@, reply_views(replies@)),
            next.0@.wf(),
    {
        proof {
            use_type_invariant(&run);
        }
        let registry = self.get_probers();
        let next = match run.stage {
            Stage::Probing => {
                let ScanRun { stage: _, open, resolved } = run;
                let mut resolved = resolved;
                let at: usize = resolved.len();
                let port: u16 = port_number_of(&open[at]);
                let ghost before = result_views(resolved@);
                let result = registry.identify(port, replies);
                proof {
                    lemma_identified_is_open(registry.probes(), port, reply_views(replies@));
                }
                resolved.push(result);
                assert(result_views(resolved@) =~= before.push(result@));
                settle_rest(&registry, open, resolved)
            },
            _ => (run, ScanAction::Ignore),
        };
        proof {
            use_type_invariant(&next.0);
        }
        next
    }

    /// Takes one step of the scan: `run` is where the scan stands and
    /// `event` what happened since; the answer is where the scan stands now
    /// and what is to be done next.
    fn execute(&self, run: ScanRun, event: ScanEvent) -> (next: (ScanRun, ScanAction))
        ensures
            (next.0@, next.1@) == step(
                self.probers().probes(),
                self.port_plan(),
                self.banner_grab(),
                run@,
                event@,
            ),
            next.0@.wf(),
    {
        proof {
            use_type_invariant(&run);
        }
        let next = match (run.stage, event) {
            (Stage::Ready, ScanEvent::Start) => {
                let next = ScanRun {
                    stage: Stage::Connecting,
                    open: Vec::new(),
                    resolved: Vec::new(),
                };
                assert(next@.open =~= Seq::empty());
                assert(next@.resolved =~= Seq::empty());
                (next, ScanAction::Connect(self.get_ports()))
            },
            (Stage::Connecting, ScanEvent::Connected(connected)) => {
                let open = self.scan(&connected);
                proof {
                    lemma_ascending(connected@);
                }
                if self.is_banner_grab() {
                    let registry = self.get_probers();
                    let resolved: Vec<ScanResult> = Vec::new();
                    assert(result_views(resolved@) =~= Seq::empty());
                    settle_rest(&registry, open, resolved)
                } else {
                    let resolved = copy_results(&open);
                    let results = copy_results(&open);
                    let next = ScanRun { stage: Stage::Finished, open, resolved };
                    (next, ScanAction::Return(results))
                }
            },
            (Stage::Probing, ScanEvent::Probed(replies)) => self.probe(run, &replies),
            (_, _) => (run, ScanAction::Ignore),
        };
        proof {
            use_type_invariant(&next.0);
        }
        next
    }
}

/// A step keeps the state of a scan well formed.
pub proof fn lemma_step_keeps_wf(
    probes: Seq<ProbeView>,
    plan: Seq<u16>,
    banner_grab: bool,
    run: ScanRunView,
    event: ScanEventView,
)
    requires
        run.wf(),
    ensures
        step(probes, plan, banner_grab, run, event).0.wf(),
{
    match (run.stage, event) {
        (Stage::Connecting, ScanEventView::Connected(connected)) => {
            lemma_ascending(connected);
            let open = scan_results(connected);
            if banner_grab {
                lemma_settle(probes, open, Seq::empty());
            }
        },
        (Stage::Probing, ScanEventView::Probed(replies)) => {
            let port = port_of(run.open[run.resolved.len() as int]);
            lemma_identified_is_open(probes, port, replies);
            lemma_settle(probes, run.open, run.resolved.push(identified(probes, port, replies)));
        },
        _ => {},
    }
}

/// Identification ends in a well-formed state, and what it returns at the
/// end is one result for each open port, in the order of the open ports.
pub proof fn lemma_settle(
    probes: Seq<ProbeView>,
    open: Seq<ScanResultView>,
    resolved: Seq<ScanResultView>,
)
    requires
        (ScanRunView { stage: Stage::Probing, open, resolved }).wf() || (ScanRunView {
            stage: Stage::Finished,
            open,
            resolved,
        }).wf(),
    ensures
        settle(probes, open, resolved).0.wf(),
        settle(probes, open, resolved).0.open == open,
        settle(probes, open, resolved).0.resolved.len() >= resolved.len(),
        settle(probes, open, resolved).1 matches ScanActionView::Return(results) ==> results
            == settle(probes, open, resolved).0.resolved && settle(probes, open, resolved).0.stage
            is Finished,
        settle(probes, open, resolved).1 matches ScanActionView::Probe(port, attempts) ==> port
            == port_of(open[settle(probes, open, resolved).0.resolved.len() as int]) && settle(
            probes,
            open,
            resolved,
        ).0.stage is Probing && attempts.len() > 0,
        !(settle(probes, open, resolved).1 is Connect),
        !(settle(probes, open, resolved).1 is Ignore),
    decreases open.len() - resolved.len(),
{
    if resolved.len() < open.len() {
        let next = open[resolved.len() as int];
        if candidates_of(probes, port_of(next)).len() == 0 {
            lemma_settle(probes, open, resolved.push(next));
        }
    }
}

/// Without banner grabbing, a scan returns the ports that connected as soon
/// as the connections have ended: each once, in ascending order, open and
/// without a banner.
pub proof fn lemma_plain_scan_returns_open_ports(
    probes: Seq<ProbeView>,
    plan: Seq<u16>,
    run: ScanRunView,
    connected: Seq<u16>,
)
    requires
        run.stage is Connecting,
    ensures
        step(probes, plan, false, run, ScanEventView::Connected(connected)).1
            == ScanActionView::Return(scan_results(connected)),
        step(probes, plan, false, run, ScanEventView::Connected(connected)).0.stage is Finished,
{
}

/// When a scan returns, it returns one result for each port that
/// connected, in ascending order of the ports, and every result is an open
/// port.
pub proof fn lemma_results_follow_open_ports(
    probes: Seq<ProbeView>,
    plan: Seq<u16>,
    banner_grab: bool,
    run: ScanRunView,
    event: ScanEventView,
)
    requires
        run.wf(),
    ensures
        step(probes, plan, banner_grab, run, event).1 matches ScanActionView::Return(results) ==> {
            let open = step(probes, plan, banner_grab, run, event).0.open;
            &&& results.len() == open.len()
            &&& forall|i: int|
                0 <= i < results.len() ==> (#[trigger] results[i]) is TcpOpen && port_of(results[i])
                    == port_of(open[i])
            &&& forall|i: int, j: int|
                0 <= i < j < results.len() ==> port_of(#[trigger] results[i]) < port_of(
                    #[trigger] results[j],
                )
        },
{
    lemma_step_keeps_wf(probes, plan, banner_grab, run, event);
    let after = step(probes, plan, banner_grab, run, event).0;
    if step(probes, plan, banner_grab, run, event).1 is Return {
        assert forall|i: int, j: int| 0 <= i < j < after.resolved.len() implies port_of(
            #[trigger] after.resolved[i],
        ) < port_of(#[trigger] after.resolved[j]) by {
            assert(port_of(after.open[i]) < port_of(after.open[j]));
        }
    }
    match (run.stage, event) {
        (Stage::Connecting, ScanEventView::Connected(connected)) => {
            lemma_ascending(connected);
            if banner_grab {
                lemma_settle(probes, scan_results(connected), Seq::empty());
            }
        },
        (Stage::Probing, ScanEventView::Probed(replies)) => {
            let port = port_of(run.open[run.resolved.len() as int]);
            lemma_identified_is_open(probes, port, replies);
            lemma_settle(probes, run.open, run.resolved.push(identified(probes, port, replies)));
        },
        _ => {},
    }
}

/// The results to which identification comes from where it stands, when
/// the race against each port is answered with the replies that `replies`
/// holds for that port.
pub open spec fn outcome_of(
    probes: Seq<ProbeView>,
    open: Seq<ScanResultView>,
    resolved: Seq<ScanResultView>,
    replies: spec_fn(u16) -> Seq<ProbeReplyView>,
) -> Seq<ScanResultView>
    decreases open.len() - resolved.len(),
{
    let (run, action) = settle(probes, open, resolved);
    match action {
        ScanActionView::Probe(port, _) => {
            if resolved.len() <= run.resolved.len() < open.len() {
                outcome_of(
                    probes,
                    open,
                    run.resolved.push(identified(probes, port, replies(port))),
                    replies,
                )
            } else {
                run.resolved
            }
        },
        _ => run.resolved,
    }
}

/// Identification settles the open ports in their order, each as the
/// result of identifying it from the replies of its own race; what was
/// settled before stays as it was.
pub proof fn lemma_each_open_port_is_identified(
    probes: Seq<ProbeView>,
    open: Seq<ScanResultView>,
    resolved: Seq<ScanResultView>,
    replies: spec_fn(u16) -> Seq<ProbeReplyView>,
)
    requires
        (ScanRunView { stage: Stage::Probing, open, resolved }).wf() || (ScanRunView {
            stage: Stage::Finished,
            open,
            resolved,
        }).wf(),
    ensures
        outcome_of(probes, open, resolved, replies) == Seq::new(
            open.len(),
            |i: int|
                if i < resolved.len() {
                    resolved[i]
                } else {
                    identified(probes, port_of(open[i]), replies(port_of(open[i])))
                },
        ),
    decreases open.len() - resolved.len(),
{
    let expected = Seq::new(
        open.len(),
        |i: int|
            if i < resolved.len() {
                resolved[i]
            } else {
                identified(probes, port_of(open[i]), replies(port_of(open[i])))
            },
    );
    if resolved.len() >= open.len() {
        assert(outcome_of(probes, open, resolved, replies) =~= expected);
    } else {
        let next = open[resolved.len() as int];
        let port = port_of(next);
        let settled = if candidates_of(probes, port).len() == 0 {
            next
        } else {
            identified(probes, port, replies(port))
        };
        lemma_identified_is_open(probes, port, replies(port));
        if candidates_of(probes, port).len() == 0 {
            crate::identify::lemma_unprobed_port_is_bare(probes, port, replies(port));
            lemma_settle(probes, open, resolved.push(next));
            assert(outcome_of(probes, open, resolved, replies) == outcome_of(
                probes,
                open,
                resolved.push(next),
                replies,
            ));
        }
        lemma_each_open_port_is_identified(probes, open, resolved.push(settled), replies);
        assert(outcome_of(probes, open, resolved, replies) =~= expected);
    }
}

/// The results of a scan are the ports that connected, each once and in
/// strictly ascending order; a port that did not connect is not among
/// them.
pub proof fn lemma_scan_results(connected: Seq<u16>)
    ensures
        forall|i: int, j: int|
            0 <= i < j < scan_results(connected).len() ==> port_of(
                #[trigger] scan_results(connected)[i],
            ) < port_of(#[trigger] scan_results(connected)[j]),
        forall|port: u16| scan_results(connected).contains(bare(port)) <==> connected.contains(port),
        forall|i: int|
            0 <= i < scan_results(connected).len() ==> connected.contains(
                port_of(#[trigger] scan_results(connected)[i]),
            ),
{
    lemma_ascending(connected);
    let sorted = ascending(connected);
    let results = scan_results(connected);
    assert forall|port: u16| results.contains(bare(port)) <==> connected.contains(port) by {
        if results.contains(bare(port)) {
            let at = choose|at: int| 0 <= at < results.len() && results[at] == bare(port);
            assert(sorted[at] == port);
            assert(sorted.contains(port));
        }
        if connected.contains(port) {
            assert(sorted.contains(port));
            let at = choose|at: int| 0 <= at < sorted.len() && sorted[at] == port;
            assert(results[at] == bare(port));
        }
    }
    assert forall|i: int| 0 <= i < results.len() implies connected.contains(
        port_of(#[trigger] results[i]),
    ) by {
        assert(sorted.contains(sorted[i]));
    }
}

} // verus!
