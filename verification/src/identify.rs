//! Identification of the service behind an open port: which probe attempts
//! are raced against it, what each attempt reports, and which report wins.

use crate::pattern::{banner_of, pattern_compiles, pattern_matches, utf8_lossy};
use crate::prober::{
    payload_to_write, probe_outcome, Exchange, ExchangeView, ProbeView, Prober,
};
use crate::registry::{candidates_of, ProbeRegistry};
use crate::scanner::{bare, ScanResult, ScanResultView};
use crate::text::concat;
use vstd::prelude::*;

verus! {

/// One attempt of a race: the probe to try and the payload to write once
/// the connection stands, if any.
#[derive(Debug, PartialEq, Eq)]
pub struct ProbeAttempt {
    pub probe: usize,
    pub payload: Option<String>,
}

/// `ProbeAttempt` as a mathematical value.
pub struct ProbeAttemptView {
    pub probe: usize,
    pub payload: Option<Seq<char>>,
}

impl View for ProbeAttempt {
    type V = ProbeAttemptView;

    open spec fn view(&self) -> ProbeAttemptView {
        ProbeAttemptView {
            probe: self.probe,
            payload: match self.payload {
                Some(text) => Some(text@),
                None => None,
            },
        }
    }
}

/// How one attempt of a race ended: the position of the attempt in the
/// list of attempts that was raced, and the exchange it had.
#[derive(Debug, PartialEq, Eq)]
pub struct ProbeReply {
    pub attempt: usize,
    pub exchange: Exchange,
}

/// `ProbeReply` as a mathematical value.
pub struct ProbeReplyView {
    pub attempt: usize,
    pub exchange: ExchangeView,
}

impl View for ProbeReply {
    type V = ProbeReplyView;

    open spec fn view(&self) -> ProbeReplyView {
        ProbeReplyView { attempt: self.attempt, exchange: self.exchange@ }
    }
}

/// The views of a list of attempts, element by element.
pub open spec fn attempt_views(attempts: Seq<ProbeAttempt>) -> Seq<ProbeAttemptView> {
    attempts.map_values(|a: ProbeAttempt| a@)
}

/// The views of a list of replies, element by element.
pub open spec fn reply_views(replies: Seq<ProbeReply>) -> Seq<ProbeReplyView> {
    replies.map_values(|r: ProbeReply| r@)
}

/// The attempts that are raced against `port`: one for each candidate, in
/// the candidates' order.
pub open spec fn attempts_of(probes: Seq<ProbeView>, port: u16) -> Seq<ProbeAttemptView> {
    let candidates = candidates_of(probes, port);
    Seq::new(
        candidates.len(),
        |k: int|
            ProbeAttemptView {
                probe: candidates[k],
                payload: payload_to_write(probes[candidates[k] as int].payload),
            },
    )
}

/// What an attempt reports of its result: the result itself where it
/// carries a banner that is not empty, and nothing otherwise.
pub open spec fn report_of(result: ScanResultView) -> Option<ScanResultView> {
    match result {
        ScanResultView::TcpOpen(_, Some(banner)) => if banner.len() > 0 {
            Some(result)
        } else {
            None
        },
        _ => None,
    }
}

/// What the attempt behind `reply` reports. A reply that names no attempt
/// of the race reports nothing.
pub open spec fn reply_report(probes: Seq<ProbeView>, port: u16, reply: ProbeReplyView) -> Option<
    ScanResultView,
> {
    let candidates = candidates_of(probes, port);
    if reply.attempt < candidates.len() {
        report_of(
            probe_outcome(
                probes[candidates[reply.attempt as int] as int].pattern,
                port,
                reply.exchange,
            ),
        )
    } else {
        None
    }
}

/// The reports of a race, in the order in which the replies arrived.
pub open spec fn reports_of(probes: Seq<ProbeView>, port: u16, replies: Seq<ProbeReplyView>) -> Seq<
    ScanResultView,
>
    decreases replies.len(),
{
    if replies.len() == 0 {
        Seq::empty()
    } else {
        match reply_report(probes, port, replies.last()) {
            Some(report) => reports_of(probes, port, replies.drop_last()).push(report),
            None => reports_of(probes, port, replies.drop_last()),
        }
    }
}

/// The result of identifying `port` from the replies of its race: the
/// report that arrived last, or the open port without a banner where
/// nothing was reported.
pub open spec fn identified(probes: Seq<ProbeView>, port: u16, replies: Seq<ProbeReplyView>)
    -> ScanResultView {
    let reports = reports_of(probes, port, replies);
    if reports.len() > 0 {
        reports.last()
    } else {
        bare(port)
    }
}

/// Decides whether an attempt reports its result.
pub fn report(result: ScanResult) -> (sent: Option<ScanResult>)
    ensures
        match report_of(result@) {
            Some(view) => sent matches Some(r) && r@ == view,
            None => sent is None,
        },
{
    match result {
        ScanResult::TcpOpen(port, Some(banner)) => {
            if banner.as_str().is_empty() {
                None
            } else {
                Some(ScanResult::TcpOpen(port, Some(banner)))
            }
        },
        _ => None,
    }
}

impl ProbeRegistry {
    /// Plans the race against `port`.
    pub fn attempts(&self, port: u16) -> (plan: Vec<ProbeAttempt>)
        ensures
            attempt_views(plan@) == attempts_of(self.probes(), port),
    {
        let candidates = self.candidates(port);
        let mut plan: Vec<ProbeAttempt> = Vec::new();
        let mut k: usize = 0;
        while k < candidates.len()
            invariant
                k <= candidates@.len(),
                candidates@ == candidates_of(self.probes(), port),
                forall|i: int| 0 <= i < candidates@.len() ==> candidates@[i] < self.probes().len(),
                plan@.len() == k,
                forall|i: int| 0 <= i < k ==> (#[trigger] plan@[i])@ == attempts_of(self.probes(), port)[i],
            decreases candidates@.len() - k,
        {
            let index: usize = candidates[k];
            let payload = self.probe_at(index).payload_to_send();
            plan.push(ProbeAttempt { probe: index, payload });
            k = k + 1;
        }
        assert(attempt_views(plan@) =~= attempts_of(self.probes(), port));
        plan
    }

    /// Resolves the race against `port` from the replies in the order in
    /// which they arrived.
    pub fn identify(&self, port: u16, replies: &Vec<ProbeReply>) -> (result: ScanResult)
        ensures
            result@ == identified(self.probes(), port, reply_views(replies@)),
            candidates_of(self.probes(), port).len() == 0 ==> result@ == bare(port),
    {
        let candidates = self.candidates(port);
        let ghost views = reply_views(replies@);
        let mut arrived: Vec<ScanResult> = Vec::new();
        let mut i: usize = 0;
        while i < replies.len()
            invariant
                i <= replies@.len(),
                views == reply_views(replies@),
                candidates@ == candidates_of(self.probes(), port),
                forall|k: int| 0 <= k < candidates@.len() ==> candidates@[k] < self.probes().len(),
                crate::scanner::result_views(arrived@) == reports_of(
                    self.probes(),
                    port,
                    views.take(i as int),
                ),
            decreases replies@.len() - i,
        {
            let reply = &replies[i];
            proof {
                assert(views.take(i + 1).drop_last() =~= views.take(i as int));
                assert(views.take(i + 1).last() == reply@);
            }
            if reply.attempt < candidates.len() {
                let probe = self.probe_at(candidates[reply.attempt]);
                match report(probe.probe(port, &reply.exchange)) {
                    Some(sent) => {
                        let ghost before = arrived@;
                        arrived.push(sent);
                        assert(crate::scanner::result_views(arrived@)
                            =~= crate::scanner::result_views(before).push(sent@));
                    },
                    None => {},
                }
            }
            i = i + 1;
        }
        proof {
            assert(views.take(replies@.len() as int) =~= views);
            if candidates_of(self.probes(), port).len() == 0 {
                lemma_unprobed_port_is_bare(self.probes(), port, views);
            }
        }
        match arrived.pop() {
            Some(last) => last,
            None => ScanResult::TcpOpen(port, None),
        }
    }
}

/// A port to which no probe applies is identified as open without a
/// banner, whatever replies are handed in.
pub proof fn lemma_unprobed_port_is_bare(
    probes: Seq<ProbeView>,
    port: u16,
    replies: Seq<ProbeReplyView>,
)
    requires
        candidates_of(probes, port).len() == 0,
    ensures
        identified(probes, port, replies) == bare(port),
        reports_of(probes, port, replies).len() == 0,
    decreases replies.len(),
{
    if replies.len() > 0 {
        lemma_unprobed_port_is_bare(probes, port, replies.drop_last());
    }
}

/// Where one probe applies to a port and its attempt read a response from
/// which the pattern draws a banner that is not empty, the port is
/// identified with that banner: every match of the pattern in the decoded
/// response, joined in order.
pub proof fn lemma_sole_probe_banner(
    probes: Seq<ProbeView>,
    port: u16,
    index: usize,
    response: Seq<u8>,
)
    requires
        candidates_of(probes, port) == seq![index],
        pattern_compiles(probes[index as int].pattern),
        concat(pattern_matches(probes[index as int].pattern, utf8_lossy(response))).len() > 0,
    ensures
        identified(
            probes,
            port,
            seq![ProbeReplyView { attempt: 0, exchange: ExchangeView::Response(response) }],
        ) == ScanResultView::TcpOpen(
            port,
            Some(concat(pattern_matches(probes[index as int].pattern, utf8_lossy(response)))),
        ),
{
    let reply = ProbeReplyView { attempt: 0, exchange: ExchangeView::Response(response) };
    let replies = seq![reply];
    assert(replies.drop_last() =~= Seq::<ProbeReplyView>::empty());
    assert(replies.last() == reply);
    assert(reports_of(probes, port, replies.drop_last()) =~= Seq::<ScanResultView>::empty());
    assert(banner_of(probes[index as int].pattern, response) is Some);
    assert(reply_report(probes, port, reply) is Some);
}

/// The result of identifying a port is that port, open: with the banner of
/// some reply's report, or with none.
pub proof fn lemma_identified_is_open(
    probes: Seq<ProbeView>,
    port: u16,
    replies: Seq<ProbeReplyView>,
)
    ensures
        identified(probes, port, replies) matches ScanResultView::TcpOpen(p, _) && p == port,
        forall|k: int|
            0 <= k < reports_of(probes, port, replies).len() ==> ((#[trigger] reports_of(
                probes,
                port,
                replies,
            )[k]) matches ScanResultView::TcpOpen(p, Some(_)) && p == port),
    decreases replies.len(),
{
    if replies.len() > 0 {
        lemma_identified_is_open(probes, port, replies.drop_last());
    }
}

} // verus!
