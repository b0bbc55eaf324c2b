//! One certificate: order it, answer the challenges through the challenge zone, clean
//! up, and write the key and the chain.
//!
//! The course of an order is a state that says what to do next, and a step to the
//! next state once that is done.

use vstd::prelude::*;
use vstd::string::*;

use crate::config::CertConfig;
use crate::dns::{challenge_txt_name, lemma_name_in_zone, txt_name, ChallengeDns};
use crate::failure::Failure;
use crate::files::{plain_name, steps_view, write_file, write_steps, FilePath, FileStep};
use crate::lines::{done_view, line_opt, Line};
use crate::text::{
    cat2, cat3, cat4, copy_texts, decimal, decimal_text, ends, join, joined,
    lemma_less_irreflexive, lemma_sorted_set, sort_dedup, sorted_set, text_less, texts,
};

verus! {

/// The states of an authorization.
#[derive(Clone, Copy, PartialEq, Eq, Structural, Debug)]
pub enum AuthorizationStatus {
    Pending,
    Valid,
    Invalid,
    Revoked,
    Expired,
    Deactivated,
}

/// The states of an order.
#[derive(Clone, Copy, PartialEq, Eq, Structural, Debug)]
pub enum OrderStatus {
    Pending,
    Ready,
    Processing,
    Valid,
    Invalid,
}

/// The name of an authorization's state.
pub open spec fn authorization_word(s: AuthorizationStatus) -> Seq<char> {
    match s {
        AuthorizationStatus::Pending => "Pending"@,
        AuthorizationStatus::Valid => "Valid"@,
        AuthorizationStatus::Invalid => "Invalid"@,
        AuthorizationStatus::Revoked => "Revoked"@,
        AuthorizationStatus::Expired => "Expired"@,
        AuthorizationStatus::Deactivated => "Deactivated"@,
    }
}

/// The name of an authorization's state.
fn authorization_name(s: AuthorizationStatus) -> (r: &'static str)
    ensures
        r@ == authorization_word(s),
{
    match s {
        AuthorizationStatus::Pending => "Pending",
        AuthorizationStatus::Valid => "Valid",
        AuthorizationStatus::Invalid => "Invalid",
        AuthorizationStatus::Revoked => "Revoked",
        AuthorizationStatus::Expired => "Expired",
        AuthorizationStatus::Deactivated => "Deactivated",
    }
}

/// The name of an order's state.
pub open spec fn order_word(s: OrderStatus) -> Seq<char> {
    match s {
        OrderStatus::Pending => "Pending"@,
        OrderStatus::Ready => "Ready"@,
        OrderStatus::Processing => "Processing"@,
        OrderStatus::Valid => "Valid"@,
        OrderStatus::Invalid => "Invalid"@,
    }
}

/// The name of an order's state.
fn order_name(s: OrderStatus) -> (r: &'static str)
    ensures
        r@ == order_word(s),
{
    match s {
        OrderStatus::Pending => "Pending",
        OrderStatus::Ready => "Ready",
        OrderStatus::Processing => "Processing",
        OrderStatus::Valid => "Valid",
        OrderStatus::Invalid => "Invalid",
    }
}

/// How far an order has come: each phase but the last asks for something. `S` stands
/// for a text, `F` for a failure and `I` for a place in a row.
#[derive(Debug)]
pub enum Phase<S, F, I> {
    /// The order is to be placed.
    Placing,
    /// The next authorization is to be fetched.
    Authorizing,
    /// This TXT record is to be added.
    Adding { name: S, value: S },
    /// The update server is to confirm this TXT record.
    Confirming { name: S, value: S },
    /// The wait for propagation is to pass.
    Sleeping,
    /// The resolver is to be watched for the record at this place.
    Watching(I),
    /// The next authorization is to be fetched, from the first again.
    Readying,
    /// The certificate authority is to be told that this challenge is ready.
    SettingReady,
    /// The order is to be polled until it is ready.
    Polling,
    /// The order is to be finalized.
    Finalizing,
    /// The certificate is to be downloaded.
    Downloading { key: S },
    /// The TXT record at this place is to be removed; the order came to this.
    Clearing { at: I, outcome: Result<(S, S), F> },
    /// The output directory is to be made.
    MakingDir { key: S, chain: S },
    /// The key is to be written.
    WritingKey { key: S, chain: S },
    /// The chain is to be written.
    WritingChain { chain: S },
    /// Nothing is left to do.
    Done(Result<(), F>),
}

/// A key and a chain, or why there are none, as the contracts speak of it.
pub open spec fn outcome_view(r: Result<(String, String), Failure>) -> Result<
    (Seq<char>, Seq<char>),
    Seq<Seq<char>>,
> {
    match r {
        Ok((key, chain)) => Ok((key@, chain@)),
        Err(f) => Err(f@),
    }
}

/// How far an order has come, as the contracts speak of it.
pub type PhaseView = Phase<Seq<char>, Seq<Seq<char>>, nat>;

impl View for Phase<String, Failure, usize> {
    type V = PhaseView;

    open spec fn view(&self) -> PhaseView {
        match *self {
            Phase::Placing => Phase::Placing,
            Phase::Authorizing => Phase::Authorizing,
            Phase::Adding { name, value } => Phase::Adding { name: name@, value: value@ },
            Phase::Confirming { name, value } => Phase::Confirming { name: name@, value: value@ },
            Phase::Sleeping => Phase::Sleeping,
            Phase::Watching(i) => Phase::Watching(i as nat),
            Phase::Readying => Phase::Readying,
            Phase::SettingReady => Phase::SettingReady,
            Phase::Polling => Phase::Polling,
            Phase::Finalizing => Phase::Finalizing,
            Phase::Downloading { key } => Phase::Downloading { key: key@ },
            Phase::Clearing { at, outcome } => Phase::Clearing {
                at: at as nat,
                outcome: outcome_view(outcome),
            },
            Phase::MakingDir { key, chain } => Phase::MakingDir { key: key@, chain: chain@ },
            Phase::WritingKey { key, chain } => Phase::WritingKey { key: key@, chain: chain@ },
            Phase::WritingChain { chain } => Phase::WritingChain { chain: chain@ },
            Phase::Done(r) => Phase::Done(done_view(r)),
        }
    }
}

/// What came of what was asked for. `S` stands for a text, `F` for a failure.
#[derive(Debug)]
pub enum Event<S, F> {
    /// It was done, or it failed.
    Did(Result<(), F>),
    /// Time has passed.
    Slept,
    /// There are no more authorizations.
    Ended,
    /// An authorization could not be fetched.
    Unfetched(F),
    /// An authorization: its state, and the identifier and the TXT value of its DNS
    /// challenge where it offers one.
    Authorization { status: AuthorizationStatus, challenge: Option<(S, S)> },
    /// Whether the resolver showed the record.
    Seen(bool),
    /// The state in which the order was found.
    Status(Result<OrderStatus, F>),
    /// The key or the chain.
    Text(Result<S, F>),
}

impl View for Event<String, Failure> {
    type V = Event<Seq<char>, Seq<Seq<char>>>;

    open spec fn view(&self) -> Event<Seq<char>, Seq<Seq<char>>> {
        match *self {
            Event::Did(r) => Event::Did(done_view(r)),
            Event::Slept => Event::Slept,
            Event::Ended => Event::Ended,
            Event::Unfetched(f) => Event::Unfetched(f@),
            Event::Authorization { status, challenge } => Event::Authorization {
                status,
                challenge: match challenge {
                    Some((identifier, value)) => Some((identifier@, value@)),
                    None => None,
                },
            },
            Event::Seen(b) => Event::Seen(b),
            Event::Status(Ok(s)) => Event::Status(Ok(s)),
            Event::Status(Err(f)) => Event::Status(Err(f@)),
            Event::Text(Ok(t)) => Event::Text(Ok(t@)),
            Event::Text(Err(f)) => Event::Text(Err(f@)),
        }
    }
}

/// The order of one certificate.
#[derive(Debug)]
pub struct Issue {
    pub domains: Vec<String>,
    pub output_dir: String,
    pub zone: String,
    pub wait_secs: u64,
    /// The names of the TXT records that were added, in their order.
    pub txt_names: Vec<String>,
    /// The names and values of the TXT records that the update server serves.
    pub pending: Vec<(String, String)>,
    /// The names that are to be cleared, each once.
    pub cleanup: Vec<String>,
    pub phase: Phase<String, Failure, usize>,
}

/// The order of one certificate, as the contracts speak of it.
pub struct IssueView {
    pub domains: Seq<Seq<char>>,
    pub output_dir: Seq<char>,
    pub zone: Seq<char>,
    pub wait_secs: u64,
    pub txt_names: Seq<Seq<char>>,
    pub pending: Seq<(Seq<char>, Seq<char>)>,
    pub cleanup: Seq<Seq<char>>,
    pub phase: PhaseView,
}

/// The views of a row of pairs.
pub open spec fn pairs(v: Seq<(String, String)>) -> Seq<(Seq<char>, Seq<char>)> {
    v.map_values(|p: (String, String)| (p.0@, p.1@))
}

impl View for Issue {
    type V = IssueView;

    open spec fn view(&self) -> IssueView {
        IssueView {
            domains: texts(self.domains@),
            output_dir: self.output_dir@,
            zone: self.zone@,
            wait_secs: self.wait_secs,
            txt_names: texts(self.txt_names@),
            pending: pairs(self.pending@),
            cleanup: texts(self.cleanup@),
            phase: self.phase@,
        }
    }
}

// ---- what the reader is told ---------------------------------------------

/// Where a record is that the resolver does not show yet.
pub open spec fn unseen_note(name: Seq<char>) -> Seq<char> {
    "note: "@ + name
        + " is not visible via your configured resolver yet (negative caching); proceeding — the CA queries the authoritative servers itself. Lower the challenge zone's SOA minimum (60s) if this keeps happening."@
}

/// That a certificate was issued.
pub open spec fn issued_note(domains: Seq<Seq<char>>, output_dir: Seq<char>) -> Seq<char> {
    "issued certificate for ["@ + joined(domains, ", "@) + "] into "@ + output_dir
}

// ---- the course of an order ----------------------------------------------

impl IssueView {
    /// The same order in another phase.
    pub open spec fn in_phase(self, phase: PhaseView) -> IssueView {
        IssueView { phase, ..self }
    }

    /// The order has come to an end: what was written is to be cleaned up, success or
    /// failure.
    pub open spec fn ending(self, outcome: Result<(Seq<char>, Seq<char>), Seq<Seq<char>>>) -> IssueView {
        let cleanup = sorted_set(self.txt_names);
        IssueView {
            cleanup,
            phase: if cleanup.len() == 0 {
                settled(outcome)
            } else {
                Phase::Clearing { at: 0, outcome }
            },
            ..self
        }
    }

    /// All challenge records are in place: the resolver is watched for each of them.
    pub open spec fn watching(self, i: nat) -> IssueView {
        if i < self.pending.len() {
            self.in_phase(Phase::Watching(i))
        } else {
            self.in_phase(Phase::Readying)
        }
    }
}

/// The phase after the clean-up.
pub open spec fn settled(outcome: Result<(Seq<char>, Seq<char>), Seq<Seq<char>>>) -> PhaseView {
    match outcome {
        Ok((key, chain)) => Phase::MakingDir { key, chain },
        Err(e) => Phase::Done(Err(e)),
    }
}

/// An order once the authorization that it asked for on its first pass is there.
pub open spec fn first_pass(
    s: IssueView,
    event: Event<Seq<char>, Seq<Seq<char>>>,
) -> (IssueView, Option<Line<Seq<char>>>) {
    match event {
        Event::Ended => if s.txt_names.len() > 0 && s.wait_secs > 0 {
            (
                s.in_phase(Phase::Sleeping),
                Some(
                    Line::Out(
                        "waiting "@ + decimal(s.wait_secs as nat) + "s for propagation"@,
                    ),
                ),
            )
        } else {
            (s.watching(0), None)
        },
        Event::Unfetched(e) => (s.ending(Err(e)), None),
        Event::Authorization { status, challenge } => match status {
            AuthorizationStatus::Pending => match challenge {
                Some((identifier, value)) => (
                    s.in_phase(Phase::Adding { name: txt_name(identifier, s.zone), value }),
                    None,
                ),
                None => (s.ending(Err(seq!["server offered no dns-01 challenge"@])), None),
            },
            AuthorizationStatus::Valid => (s, None),
            _ => (
                s.ending(
                    Err(seq!["unexpected authorization status: "@ + authorization_word(status)]),
                ),
                None,
            ),
        },
        _ => (s, None),
    }
}

/// An order once the authorization that it asked for on its second pass is there.
pub open spec fn second_pass(
    s: IssueView,
    event: Event<Seq<char>, Seq<Seq<char>>>,
) -> IssueView {
    match event {
        Event::Ended => s.in_phase(Phase::Polling),
        Event::Unfetched(e) => s.ending(Err(e)),
        Event::Authorization { status, challenge } => if status is Pending {
            match challenge {
                Some(_) => s.in_phase(Phase::SettingReady),
                None => s.ending(Err(seq!["server offered no dns-01 challenge"@])),
            }
        } else {
            s
        },
        _ => s,
    }
}

/// An order and what the reader is told, once what it asked for came to `event`. An
/// event that answers nothing changes nothing.
pub open spec fn issue_step(
    s: IssueView,
    event: Event<Seq<char>, Seq<Seq<char>>>,
) -> (IssueView, Option<Line<Seq<char>>>) {
    match (s.phase, event) {
        (Phase::Placing, Event::Did(Ok(_))) => (s.in_phase(Phase::Authorizing), None),
        (Phase::Placing, Event::Did(Err(e))) => (
            s.in_phase(Phase::Done(Err(seq!["cannot create ACME order"@] + e))),
            None,
        ),
        (Phase::Authorizing, _) => first_pass(s, event),
        (Phase::Adding { name, value }, Event::Did(Ok(_))) => (
            IssueView {
                txt_names: s.txt_names.push(name),
                phase: Phase::Confirming { name, value },
                ..s
            },
            None,
        ),
        (Phase::Adding { .. }, Event::Did(Err(e))) => (s.ending(Err(e)), None),
        (Phase::Confirming { name, value }, Event::Did(Ok(_))) => (
            IssueView {
                pending: s.pending.push((name, value)),
                phase: Phase::Authorizing,
                ..s
            },
            Some(Line::Out("TXT "@ + name + " in place"@)),
        ),
        (Phase::Confirming { .. }, Event::Did(Err(e))) => (s.ending(Err(e)), None),
        (Phase::Sleeping, Event::Slept) => (s.watching(0), None),
        (Phase::Watching(i), Event::Seen(seen)) => if i < s.pending.len() {
            (
                s.watching(i + 1),
                if seen {
                    None
                } else {
                    Some(Line::Out(unseen_note(s.pending[i as int].0)))
                },
            )
        } else {
            (s, None)
        },
        (Phase::Readying, _) => (second_pass(s, event), None),
        (Phase::SettingReady, Event::Did(Ok(_))) => (s.in_phase(Phase::Readying), None),
        (Phase::SettingReady, Event::Did(Err(e))) => (s.ending(Err(e)), None),
        (Phase::Polling, Event::Status(Ok(status))) => if status is Ready {
            (s.in_phase(Phase::Finalizing), None)
        } else {
            (
                s.ending(Err(seq!["order failed validation, status: "@ + order_word(status)])),
                None,
            )
        },
        (Phase::Polling, Event::Status(Err(e))) => (s.ending(Err(e)), None),
        (Phase::Finalizing, Event::Text(Ok(key))) => (
            s.in_phase(Phase::Downloading { key }),
            None,
        ),
        (Phase::Finalizing, Event::Text(Err(e))) => (
            s.ending(Err(seq!["finalize failed"@] + e)),
            None,
        ),
        (Phase::Downloading { key }, Event::Text(Ok(chain))) => (s.ending(Ok((key, chain))), None),
        (Phase::Downloading { .. }, Event::Text(Err(e))) => (
            s.ending(Err(seq!["certificate download failed"@] + e)),
            None,
        ),
        (Phase::Clearing { at, outcome }, Event::Did(result)) => if at < s.cleanup.len() {
            (
                s.in_phase(
                    if at + 1 < s.cleanup.len() {
                        Phase::Clearing { at: at + 1, outcome }
                    } else {
                        settled(outcome)
                    },
                ),
                match result {
                    Ok(_) => None,
                    Err(e) => Some(
                        Line::Warn(
                            "warning: could not clean up TXT "@ + s.cleanup[at as int] + ": "@
                                + e[0],
                        ),
                    ),
                },
            )
        } else {
            (s, None)
        },
        (Phase::MakingDir { key, chain }, Event::Did(Ok(_))) => (
            s.in_phase(Phase::WritingKey { key, chain }),
            None,
        ),
        (Phase::MakingDir { .. }, Event::Did(Err(e))) => (
            s.in_phase(Phase::Done(Err(seq!["cannot create output_dir "@ + s.output_dir] + e))),
            None,
        ),
        (Phase::WritingKey { chain, .. }, Event::Did(Ok(_))) => (
            s.in_phase(Phase::WritingChain { chain }),
            None,
        ),
        (Phase::WritingKey { .. }, Event::Did(Err(e))) => (s.in_phase(Phase::Done(Err(e))), None),
        (Phase::WritingChain { .. }, Event::Did(Ok(_))) => (
            s.in_phase(Phase::Done(Ok(()))),
            Some(Line::Out(issued_note(s.domains, s.output_dir))),
        ),
        (Phase::WritingChain { .. }, Event::Did(Err(e))) => (
            s.in_phase(Phase::Done(Err(e))),
            None,
        ),
        _ => (s, None),
    }
}

impl Issue {
    /// The same order in another phase.
    fn in_phase(self, phase: Phase<String, Failure, usize>) -> (r: Issue)
        ensures
            r@ == self@.in_phase(phase@),
    {
        Issue { phase, ..self }
    }

    /// The order has come to an end.
    fn ending(self, outcome: Result<(String, String), Failure>) -> (r: Issue)
        ensures
            r@ == self@.ending(outcome_view(outcome)),
    {
        let cleanup = sort_dedup(&self.txt_names);
        let phase = if cleanup.len() == 0 {
            settle(outcome)
        } else {
            Phase::Clearing { at: 0, outcome }
        };
        Issue { cleanup, phase, ..self }
    }

    /// All challenge records are in place.
    fn watching(self, i: usize) -> (r: Issue)
        ensures
            r@ == self@.watching(i as nat),
    {
        if i < self.pending.len() {
            self.in_phase(Phase::Watching(i))
        } else {
            self.in_phase(Phase::Readying)
        }
    }

    /// The order once the authorization that it asked for on its first pass is there.
    fn first_pass(self, event: Event<String, Failure>) -> (r: (Issue, Option<Line<String>>))
        requires
            self.phase is Authorizing,
        ensures
            (r.0@, line_opt(r.1)) == first_pass(self@, event@),
    {
        match event {
            Event::Ended => if self.txt_names.len() > 0 && self.wait_secs > 0 {
                let line = cat3(
                    "waiting ",
                    decimal_text(self.wait_secs).as_str(),
                    "s for propagation",
                );
                (self.in_phase(Phase::Sleeping), Some(Line::Out(line)))
            } else {
                (self.watching(0), None)
            },
            Event::Unfetched(f) => (self.ending(Err(f)), None),
            Event::Authorization { status, challenge } => match status {
                AuthorizationStatus::Pending => match challenge {
                    Some((identifier, value)) => {
                        let name = challenge_txt_name(identifier.as_str(), self.zone.as_str());
                        (self.in_phase(Phase::Adding { name, value }), None)
                    },
                    None => (
                        self.ending(
                            Err(Failure::new("server offered no dns-01 challenge".to_owned())),
                        ),
                        None,
                    ),
                },
                AuthorizationStatus::Valid => (self, None),
                _ => (
                    self.ending(
                        Err(
                            Failure::new(
                                cat2(
                                    "unexpected authorization status: ",
                                    authorization_name(status),
                                ),
                            ),
                        ),
                    ),
                    None,
                ),
            },
            _ => (self, None),
        }
    }

    /// The order once the authorization that it asked for on its second pass is there.
    fn second_pass(self, event: Event<String, Failure>) -> (r: Issue)
        requires
            self.phase is Readying,
        ensures
            r@ == second_pass(self@, event@),
    {
        match event {
            Event::Ended => self.in_phase(Phase::Polling),
            Event::Unfetched(f) => self.ending(Err(f)),
            Event::Authorization { status, challenge } => match status {
                AuthorizationStatus::Pending => match challenge {
                    Some(_) => self.in_phase(Phase::SettingReady),
                    None => self.ending(
                        Err(Failure::new("server offered no dns-01 challenge".to_owned())),
                    ),
                },
                _ => self,
            },
            _ => self,
        }
    }

    /// The TXT record was added.
    fn added(self, name: String, value: String) -> (r: Issue)
        ensures
            r@ == (IssueView {
                txt_names: self@.txt_names.push(name@),
                phase: Phase::Confirming { name: name@, value: value@ },
                ..self@
            }),
    {
        let mut txt_names = self.txt_names;
        let ghost before = txt_names@;
        txt_names.push(name.clone());
        assert(texts(txt_names@) =~= texts(before).push(name@));
        Issue { txt_names, phase: Phase::Confirming { name, value }, ..self }
    }

    /// The update server serves the TXT record.
    fn confirmed(self, name: String, value: String) -> (r: Issue)
        ensures
            r@ == (IssueView {
                pending: self@.pending.push((name@, value@)),
                phase: Phase::Authorizing,
                ..self@
            }),
    {
        let mut pending = self.pending;
        let ghost before = pending@;
        pending.push((name, value));
        assert(pairs(pending@) =~= pairs(before).push((name@, value@)));
        Issue { pending, phase: Phase::Authorizing, ..self }
    }

    /// The resolver was watched for one record.
    fn watched(self, i: usize, seen: bool) -> (r: (Issue, Option<Line<String>>))
        requires
            self.phase == Phase::<String, Failure, usize>::Watching(i),
        ensures
            (r.0@, line_opt(r.1)) == issue_step(self@, Event::Seen(seen)),
    {
        if i < self.pending.len() {
            let line = if seen {
                None
            } else {
                Some(
                    Line::Out(
                        cat3(
                            "note: ",
                            self.pending[i].0.as_str(),
                            " is not visible via your configured resolver yet (negative caching); proceeding — the CA queries the authoritative servers itself. Lower the challenge zone's SOA minimum (60s) if this keeps happening.",
                        ),
                    ),
                )
            };
            (self.watching(i + 1), line)
        } else {
            (self, None)
        }
    }

    /// One TXT record was removed, or could not be.
    fn cleared(
        self,
        at: usize,
        outcome: Result<(String, String), Failure>,
        result: Result<(), Failure>,
    ) -> (r: (Issue, Option<Line<String>>))
        ensures
            (r.0@, line_opt(r.1)) == issue_step(
                self@.in_phase(
                    Phase::Clearing { at: at as nat, outcome: outcome_view(outcome) },
                ),
                Event::Did(done_view(result)),
            ),
    {
        if at < self.cleanup.len() {
            let line = match result {
                Ok(_) => None,
                Err(f) => Some(
                    Line::Warn(
                        cat4(
                            "warning: could not clean up TXT ",
                            self.cleanup[at].as_str(),
                            ": ",
                            f.message().as_str(),
                        ),
                    ),
                ),
            };
            let phase = if at + 1 < self.cleanup.len() {
                Phase::Clearing { at: at + 1, outcome }
            } else {
                settle(outcome)
            };
            (self.in_phase(phase), line)
        } else {
            (self.in_phase(Phase::Clearing { at, outcome }), None)
        }
    }

    /// The order and what the reader is told, once what it asked for came to `event`.
    /// An event that answers nothing changes nothing.
    pub fn step(self, event: Event<String, Failure>) -> (r: (Issue, Option<Line<String>>))
        ensures
            (r.0@, line_opt(r.1)) == issue_step(self@, event@),
    {
        let Issue { domains, output_dir, zone, wait_secs, txt_names, pending, cleanup, phase } =
            self;
        let s = Issue {
            domains,
            output_dir,
            zone,
            wait_secs,
            txt_names,
            pending,
            cleanup,
            phase: Phase::Placing,
        };
        match (phase, event) {
            (Phase::Placing, Event::Did(Ok(_))) => (s.in_phase(Phase::Authorizing), None),
            (Phase::Placing, Event::Did(Err(f))) => (
                s.in_phase(Phase::Done(Err(f.context("cannot create ACME order".to_owned())))),
                None,
            ),
            (Phase::Authorizing, event) => s.in_phase(Phase::Authorizing).first_pass(event),
            (Phase::Adding { name, value }, Event::Did(Ok(_))) => (s.added(name, value), None),
            (Phase::Adding { .. }, Event::Did(Err(f))) => (s.ending(Err(f)), None),
            (Phase::Confirming { name, value }, Event::Did(Ok(_))) => {
                let line = cat3("TXT ", name.as_str(), " in place");
                (s.confirmed(name, value), Some(Line::Out(line)))
            },
            (Phase::Confirming { .. }, Event::Did(Err(f))) => (s.ending(Err(f)), None),
            (Phase::Sleeping, Event::Slept) => (s.watching(0), None),
            (Phase::Watching(i), Event::Seen(seen)) => s.in_phase(Phase::Watching(i)).watched(
                i,
                seen,
            ),
            (Phase::Readying, event) => (s.in_phase(Phase::Readying).second_pass(event), None),
            (Phase::SettingReady, Event::Did(Ok(_))) => (s.in_phase(Phase::Readying), None),
            (Phase::SettingReady, Event::Did(Err(f))) => (s.ending(Err(f)), None),
            (Phase::Polling, Event::Status(Ok(status))) => match status {
                OrderStatus::Ready => (s.in_phase(Phase::Finalizing), None),
                _ => (
                    s.ending(
                        Err(
                            Failure::new(
                                cat2("order failed validation, status: ", order_name(status)),
                            ),
                        ),
                    ),
                    None,
                ),
            },
            (Phase::Polling, Event::Status(Err(f))) => (s.ending(Err(f)), None),
            (Phase::Finalizing, Event::Text(Ok(key))) => (
                s.in_phase(Phase::Downloading { key }),
                None,
            ),
            (Phase::Finalizing, Event::Text(Err(f))) => (
                s.ending(Err(f.context("finalize failed".to_owned()))),
                None,
            ),
            (Phase::Downloading { key }, Event::Text(Ok(chain))) => (
                s.ending(Ok((key, chain))),
                None,
            ),
            (Phase::Downloading { .. }, Event::Text(Err(f))) => (
                s.ending(Err(f.context("certificate download failed".to_owned()))),
                None,
            ),
            (Phase::Clearing { at, outcome }, Event::Did(result)) => s.cleared(
                at,
                outcome,
                result,
            ),
            (Phase::MakingDir { key, chain }, Event::Did(Ok(_))) => (
                s.in_phase(Phase::WritingKey { key, chain }),
                None,
            ),
            (Phase::MakingDir { .. }, Event::Did(Err(f))) => {
                let f = f.context(cat2("cannot create output_dir ", s.output_dir.as_str()));
                (s.in_phase(Phase::Done(Err(f))), None)
            },
            (Phase::WritingKey { chain, .. }, Event::Did(Ok(_))) => (
                s.in_phase(Phase::WritingChain { chain }),
                None,
            ),
            (Phase::WritingKey { .. }, Event::Did(Err(f))) => (
                s.in_phase(Phase::Done(Err(f))),
                None,
            ),
            (Phase::WritingChain { .. }, Event::Did(Ok(_))) => {
                let line = cat4(
                    "issued certificate for [",
                    join(&s.domains, ", ").as_str(),
                    "] into ",
                    s.output_dir.as_str(),
                );
                (s.in_phase(Phase::Done(Ok(()))), Some(Line::Out(line)))
            },
            (Phase::WritingChain { .. }, Event::Did(Err(f))) => (
                s.in_phase(Phase::Done(Err(f))),
                None,
            ),
            (phase, _) => (s.in_phase(phase), None),
        }
    }
}

/// The phase after the clean-up.
fn settle(outcome: Result<(String, String), Failure>) -> (r: Phase<String, Failure, usize>)
    ensures
        r@ == settled(outcome_view(outcome)),
{
    match outcome {
        Ok((key, chain)) => Phase::MakingDir { key, chain },
        Err(f) => Phase::Done(Err(f)),
    }
}

/// Starts the order of a certificate: place it, validate via DNS-01 through the
/// challenge zone, and write privkey.pem and fullchain.pem into its output directory.
pub fn issue(cert: &CertConfig, dns: &ChallengeDns) -> (r: Issue)
    ensures
        r@ == issue_start(
            texts(cert.domains@),
            cert.output_dir@,
            dns.zone@,
            dns.propagation_wait_secs,
        ),
{
    let r = Issue {
        domains: copy_texts(&cert.domains),
        output_dir: cert.output_dir.clone(),
        zone: dns.zone.clone(),
        wait_secs: dns.propagation_wait_secs,
        txt_names: Vec::new(),
        pending: Vec::new(),
        cleanup: Vec::new(),
        phase: Phase::Placing,
    };
    assert(texts(r.txt_names@) =~= Seq::empty());
    assert(texts(r.cleanup@) =~= Seq::empty());
    assert(pairs(r.pending@) =~= Seq::empty());
    r
}

/// An order that is yet to be placed.
pub open spec fn issue_start(
    domains: Seq<Seq<char>>,
    output_dir: Seq<char>,
    zone: Seq<char>,
    wait_secs: u64,
) -> IssueView {
    IssueView {
        domains,
        output_dir,
        zone,
        wait_secs,
        txt_names: Seq::empty(),
        pending: Seq::empty(),
        cleanup: Seq::empty(),
        phase: Phase::Placing,
    }
}

// ---- what is to be done --------------------------------------------------

/// What an order asks for. `S` stands for a text, `N` for a row of texts and `W` for
/// the steps of writing a file.
#[derive(Debug)]
pub enum Action<S, N, W> {
    /// Place an order for these identifiers.
    PlaceOrder(N),
    /// Fetch the next authorization of the first pass.
    NextAuthorization,
    /// Add a TXT record to the challenge zone.
    AddTxt { name: S, value: S },
    /// Have the update server confirm a TXT record.
    ConfirmTxt { name: S, value: S },
    /// Let so many seconds pass.
    Sleep(u64),
    /// Watch the resolver for a TXT record, for about so many seconds.
    AwaitPublicTxt { name: S, value: S, budget_secs: u64 },
    /// Fetch the next authorization of the second pass.
    NextAuthorizationAgain,
    /// Tell the certificate authority that the DNS challenge of the authorization that
    /// was fetched last is ready.
    SetReady,
    /// Poll the order until it is ready, patiently.
    PollReady,
    /// Finalize the order, which makes the key.
    Finalize,
    /// Poll the order until the chain is there, patiently.
    PollCertificate,
    /// Remove the TXT records at a name in the challenge zone.
    ClearTxt(S),
    /// Make a directory and those above it.
    MakeDir(S),
    /// Write a file.
    Write(W),
    /// There is nothing to do.
    Rest,
}

impl View for Action<String, Vec<String>, Vec<FileStep<String>>> {
    type V = Action<Seq<char>, Seq<Seq<char>>, Seq<FileStep<Seq<char>>>>;

    open spec fn view(&self) -> Action<Seq<char>, Seq<Seq<char>>, Seq<FileStep<Seq<char>>>> {
        match *self {
            Action::PlaceOrder(names) => Action::PlaceOrder(texts(names@)),
            Action::NextAuthorization => Action::NextAuthorization,
            Action::AddTxt { name, value } => Action::AddTxt { name: name@, value: value@ },
            Action::ConfirmTxt { name, value } => Action::ConfirmTxt { name: name@, value: value@ },
            Action::Sleep(secs) => Action::Sleep(secs),
            Action::AwaitPublicTxt { name, value, budget_secs } => Action::AwaitPublicTxt {
                name: name@,
                value: value@,
                budget_secs,
            },
            Action::NextAuthorizationAgain => Action::NextAuthorizationAgain,
            Action::SetReady => Action::SetReady,
            Action::PollReady => Action::PollReady,
            Action::Finalize => Action::Finalize,
            Action::PollCertificate => Action::PollCertificate,
            Action::ClearTxt(name) => Action::ClearTxt(name@),
            Action::MakeDir(dir) => Action::MakeDir(dir@),
            Action::Write(steps) => Action::Write(steps_view(steps@)),
            Action::Rest => Action::Rest,
        }
    }
}

/// What an order asks for in its phase.
pub open spec fn issue_action(s: IssueView) -> Action<
    Seq<char>,
    Seq<Seq<char>>,
    Seq<FileStep<Seq<char>>>,
> {
    match s.phase {
        Phase::Placing => Action::PlaceOrder(s.domains),
        Phase::Authorizing => Action::NextAuthorization,
        Phase::Adding { name, value } => Action::AddTxt { name, value },
        Phase::Confirming { name, value } => Action::ConfirmTxt { name, value },
        Phase::Sleeping => Action::Sleep(s.wait_secs),
        Phase::Watching(i) => if i < s.pending.len() {
            Action::AwaitPublicTxt {
                name: s.pending[i as int].0,
                value: s.pending[i as int].1,
                budget_secs: if s.wait_secs >= 60 {
                    s.wait_secs
                } else {
                    60
                },
            }
        } else {
            Action::Rest
        },
        Phase::Readying => Action::NextAuthorizationAgain,
        Phase::SettingReady => Action::SetReady,
        Phase::Polling => Action::PollReady,
        Phase::Finalizing => Action::Finalize,
        Phase::Downloading { .. } => Action::PollCertificate,
        Phase::Clearing { at, .. } => if at < s.cleanup.len() {
            Action::ClearTxt(s.cleanup[at as int])
        } else {
            Action::Rest
        },
        Phase::MakingDir { .. } => Action::MakeDir(s.output_dir),
        Phase::WritingKey { key, .. } => Action::Write(
            write_steps(FilePath { dir: s.output_dir, file: "privkey.pem"@ }, key, 0o600),
        ),
        Phase::WritingChain { chain } => Action::Write(
            write_steps(FilePath { dir: s.output_dir, file: "fullchain.pem"@ }, chain, 0o644),
        ),
        Phase::Done(_) => Action::Rest,
    }
}

/// The file with the chain in an output directory.
pub fn chain_path(output_dir: &str) -> (r: FilePath<String>)
    ensures
        r@ == (FilePath { dir: output_dir@, file: "fullchain.pem"@ }),
        plain_name(r.file@),
{
    proof {
        reveal_strlit("fullchain.pem");
        reveal_strlit(".");
        reveal_strlit("..");
    }
    FilePath { dir: output_dir.to_owned(), file: "fullchain.pem".to_owned() }
}

/// The file with the key in an output directory.
pub fn key_path(output_dir: &str) -> (r: FilePath<String>)
    ensures
        r@ == (FilePath { dir: output_dir@, file: "privkey.pem"@ }),
        plain_name(r.file@),
{
    proof {
        reveal_strlit("privkey.pem");
        reveal_strlit(".");
        reveal_strlit("..");
    }
    FilePath { dir: output_dir.to_owned(), file: "privkey.pem".to_owned() }
}

impl Issue {
    /// What the order asks for in its phase.
    pub fn action(&self) -> (r: Action<String, Vec<String>, Vec<FileStep<String>>>)
        ensures
            r@ == issue_action(self@),
    {
        match &self.phase {
            Phase::Placing => Action::PlaceOrder(copy_texts(&self.domains)),
            Phase::Authorizing => Action::NextAuthorization,
            Phase::Adding { name, value } => Action::AddTxt {
                name: name.clone(),
                value: value.clone(),
            },
            Phase::Confirming { name, value } => Action::ConfirmTxt {
                name: name.clone(),
                value: value.clone(),
            },
            Phase::Sleeping => Action::Sleep(self.wait_secs),
            Phase::Watching(i) => if *i < self.pending.len() {
                let (name, value) = &self.pending[*i];
                Action::AwaitPublicTxt {
                    name: name.clone(),
                    value: value.clone(),
                    budget_secs: if self.wait_secs >= 60 {
                        self.wait_secs
                    } else {
                        60
                    },
                }
            } else {
                Action::Rest
            },
            Phase::Readying => Action::NextAuthorizationAgain,
            Phase::SettingReady => Action::SetReady,
            Phase::Polling => Action::PollReady,
            Phase::Finalizing => Action::Finalize,
            Phase::Downloading { .. } => Action::PollCertificate,
            Phase::Clearing { at, .. } => if *at < self.cleanup.len() {
                Action::ClearTxt(self.cleanup[*at].clone())
            } else {
                Action::Rest
            },
            Phase::MakingDir { .. } => Action::MakeDir(self.output_dir.clone()),
            Phase::WritingKey { key, .. } => Action::Write(
                write_file(key_path(self.output_dir.as_str()), key.clone(), 0o600),
            ),
            Phase::WritingChain { chain } => Action::Write(
                write_file(chain_path(self.output_dir.as_str()), chain.clone(), 0o644),
            ),
            Phase::Done(_) => Action::Rest,
        }
    }
}

/// How an order is polled: the first pause, the factor by which pauses grow, in
/// tenths, and when to give up. Production Let's Encrypt validates from multiple
/// network perspectives and can take well over a minute.
#[derive(Clone, Copy, Debug)]
pub struct Patience {
    pub initial_delay_secs: u64,
    pub backoff_tenths: u32,
    pub timeout_secs: u64,
}

/// How an order is polled.
pub fn patience() -> (r: Patience)
    ensures
        r.initial_delay_secs == 1 && r.backoff_tenths == 15 && r.timeout_secs == 300,
{
    Patience { initial_delay_secs: 1, backoff_tenths: 15, timeout_secs: 300 }
}

// ---- laws ----------------------------------------------------------------

/// An order after a row of events.
pub open spec fn issue_run(
    start: IssueView,
    events: Seq<Event<Seq<char>, Seq<Seq<char>>>>,
) -> IssueView
    decreases events.len(),
{
    if events.len() == 0 {
        start
    } else {
        issue_step(issue_run(start, events.drop_last()), events.last()).0
    }
}

/// The names of the TXT records that were added in the course of a row of events.
pub open spec fn names_added(
    start: IssueView,
    events: Seq<Event<Seq<char>, Seq<Seq<char>>>>,
) -> Seq<Seq<char>>
    decreases events.len(),
{
    if events.len() == 0 {
        Seq::empty()
    } else {
        let before = names_added(start, events.drop_last());
        match (issue_action(issue_run(start, events.drop_last())), events.last()) {
            (Action::AddTxt { name, .. }, Event::Did(Ok(_))) => before.push(name),
            _ => before,
        }
    }
}

/// The names of the TXT records that the update server confirmed.
pub open spec fn names_confirmed(
    start: IssueView,
    events: Seq<Event<Seq<char>, Seq<Seq<char>>>>,
) -> Seq<Seq<char>>
    decreases events.len(),
{
    if events.len() == 0 {
        Seq::empty()
    } else {
        let before = names_confirmed(start, events.drop_last());
        match (issue_action(issue_run(start, events.drop_last())), events.last()) {
            (Action::ConfirmTxt { name, .. }, Event::Did(Ok(_))) => before.push(name),
            _ => before,
        }
    }
}

/// The names whose TXT records were asked to be removed.
pub open spec fn names_cleared(
    start: IssueView,
    events: Seq<Event<Seq<char>, Seq<Seq<char>>>>,
) -> Seq<Seq<char>>
    decreases events.len(),
{
    if events.len() == 0 {
        Seq::empty()
    } else {
        let before = names_cleared(start, events.drop_last());
        match (issue_action(issue_run(start, events.drop_last())), events.last()) {
            (Action::ClearTxt(name), Event::Did(_)) => before.push(name),
            _ => before,
        }
    }
}

/// Whether the order was found ready in the course of a row of events.
pub open spec fn found_ready(
    start: IssueView,
    events: Seq<Event<Seq<char>, Seq<Seq<char>>>>,
) -> bool
    decreases events.len(),
{
    if events.len() == 0 {
        false
    } else {
        found_ready(start, events.drop_last()) || (issue_action(
            issue_run(start, events.drop_last()),
        ) is PollReady && events.last() == Event::<Seq<char>, Seq<Seq<char>>>::Status(
            Ok(OrderStatus::Ready),
        ))
    }
}

/// Whether the wait for propagation passed in the course of a row of events.
pub open spec fn has_waited(
    start: IssueView,
    events: Seq<Event<Seq<char>, Seq<Seq<char>>>>,
) -> bool
    decreases events.len(),
{
    if events.len() == 0 {
        false
    } else {
        has_waited(start, events.drop_last()) || (issue_action(
            issue_run(start, events.drop_last()),
        ) == Action::<Seq<char>, Seq<Seq<char>>, Seq<FileStep<Seq<char>>>>::Sleep(start.wait_secs)
            && events.last() is Slept)
    }
}

/// Whether a phase lies after the clean-up and on the way to success.
pub open spec fn succeeding(phase: PhaseView) -> bool {
    match phase {
        Phase::MakingDir { .. } => true,
        Phase::WritingKey { .. } => true,
        Phase::WritingChain { .. } => true,
        Phase::Done(Ok(_)) => true,
        _ => false,
    }
}

/// Whether a phase lies after the first pass, with nothing gone wrong.
pub open spec fn challenges_placed(phase: PhaseView) -> bool {
    match phase {
        Phase::Sleeping => true,
        Phase::Watching(_) => true,
        Phase::Readying => true,
        Phase::SettingReady => true,
        Phase::Polling => true,
        Phase::Finalizing => true,
        Phase::Downloading { .. } => true,
        Phase::Clearing { outcome: Ok(_), .. } => true,
        _ => succeeding(phase),
    }
}

/// What holds of an order in every phase, over what was added, confirmed and cleared.
spec fn coherent(
    s: IssueView,
    added: Seq<Seq<char>>,
    confirmed: Seq<Seq<char>>,
    cleared: Seq<Seq<char>>,
    ready: bool,
    waited: bool,
) -> bool {
    &&& s.txt_names == added
    &&& challenges_placed(s.phase) && !(s.phase is Sleeping) && added.len() > 0 && s.wait_secs > 0
        ==> waited
    &&& match s.phase {
        Phase::Confirming { name, .. } => added == confirmed.push(name),
        Phase::Placing => added.len() == 0 && confirmed.len() == 0,
        Phase::Authorizing => added == confirmed,
        Phase::Adding { .. } => added == confirmed,
        phase => challenges_placed(phase) ==> added == confirmed,
    }
    &&& match s.phase {
        Phase::Clearing { at, .. } => s.cleanup == sorted_set(added) && at < s.cleanup.len()
            && cleared == s.cleanup.take(at as int),
        Phase::MakingDir { .. } => cleared == sorted_set(added),
        Phase::WritingKey { .. } => cleared == sorted_set(added),
        Phase::WritingChain { .. } => cleared == sorted_set(added),
        Phase::Done(_) => cleared == sorted_set(added),
        _ => cleared.len() == 0,
    }
    &&& match s.phase {
        Phase::Finalizing => ready,
        Phase::Downloading { .. } => ready,
        Phase::Clearing { outcome: Ok(_), .. } => ready,
        phase => succeeding(phase) ==> ready,
    }
}

proof fn lemma_coherent(
    start: IssueView,
    events: Seq<Event<Seq<char>, Seq<Seq<char>>>>,
)
    requires
        start == issue_start(start.domains, start.output_dir, start.zone, start.wait_secs),
    ensures
        coherent(
            issue_run(start, events),
            names_added(start, events),
            names_confirmed(start, events),
            names_cleared(start, events),
            found_ready(start, events),
            has_waited(start, events),
        ),
        issue_run(start, events).zone == start.zone,
        issue_run(start, events).wait_secs == start.wait_secs,
    decreases events.len(),
{
    if events.len() > 0 {
        let front = events.drop_last();
        lemma_coherent(start, front);
        let s = issue_run(start, front);
        let added = names_added(start, front);
        let cleared = names_cleared(start, front);
        assert(sorted_set(added).len() == 0 ==> sorted_set(added) =~= Seq::empty());
        assert(sorted_set(added).take(0) =~= Seq::empty());
        assert(added.len() == 0 ==> added =~= Seq::empty());
        assert(cleared.len() == 0 ==> cleared =~= Seq::empty());
        assert(names_confirmed(start, front).len() == 0 ==> names_confirmed(start, front)
            =~= Seq::empty());
        match s.phase {
            Phase::Clearing { at, .. } => {
                assert(s.cleanup.take(at as int).push(s.cleanup[at as int]) =~= s.cleanup.take(
                    at as int + 1,
                ));
                assert(s.cleanup.take(s.cleanup.len() as int) =~= s.cleanup);
            },
            _ => {},
        }
    }
}

/// When an order has come to its end, in success or in failure, each TXT record that
/// it added was asked to be removed exactly once, and no other was.
pub proof fn lemma_cleaned_up(
    start: IssueView,
    events: Seq<Event<Seq<char>, Seq<Seq<char>>>>,
)
    requires
        start == issue_start(start.domains, start.output_dir, start.zone, start.wait_secs),
        issue_run(start, events).phase is Done,
    ensures
        names_cleared(start, events) == sorted_set(names_added(start, events)),
        names_cleared(start, events).no_duplicates(),
        forall|name: Seq<char>|
            names_cleared(start, events).contains(name) <==> names_added(start, events).contains(
                name,
            ),
{
    lemma_coherent(start, events);
    let added = names_added(start, events);
    let cleared = names_cleared(start, events);
    lemma_sorted_set(added);
    assert forall|i: int, j: int| 0 <= i < cleared.len() && 0 <= j < cleared.len() && i
        != j implies cleared[i] != cleared[j] by {
        lemma_less_irreflexive(cleared[i]);
        if i < j {
            assert(text_less(cleared[i], cleared[j]));
        } else {
            assert(text_less(cleared[j], cleared[i]));
        }
    }
}

/// The certificate authority is told that a challenge is ready only once the update
/// server has confirmed every TXT record that was added, and the wait for propagation
/// has passed where there is one.
pub proof fn lemma_ready_after_confirmation(
    start: IssueView,
    events: Seq<Event<Seq<char>, Seq<Seq<char>>>>,
)
    requires
        start == issue_start(start.domains, start.output_dir, start.zone, start.wait_secs),
        issue_action(issue_run(start, events)) is SetReady,
    ensures
        names_confirmed(start, events) == names_added(start, events),
        names_added(start, events).len() > 0 && start.wait_secs > 0 ==> has_waited(start, events),
{
    lemma_coherent(start, events);
}

/// Files are written, and success is reported, only for an order that was found ready
/// and whose TXT records were cleaned up.
pub proof fn lemma_files_only_on_success(
    start: IssueView,
    events: Seq<Event<Seq<char>, Seq<Seq<char>>>>,
)
    requires
        start == issue_start(start.domains, start.output_dir, start.zone, start.wait_secs),
        issue_action(issue_run(start, events)) is Write || issue_action(issue_run(start, events))
            is MakeDir || issue_run(start, events).phase matches Phase::Done(Ok(_)),
    ensures
        found_ready(start, events),
        names_cleared(start, events) == sorted_set(names_added(start, events)),
{
    lemma_coherent(start, events);
}

/// Every TXT record that an order adds or removes lies in the challenge zone.
pub proof fn lemma_writes_in_zone(
    start: IssueView,
    events: Seq<Event<Seq<char>, Seq<Seq<char>>>>,
)
    requires
        start == issue_start(start.domains, start.output_dir, start.zone, start.wait_secs),
    ensures
        forall|i: int|
            0 <= i < names_added(start, events).len() ==> ends(
                #[trigger] names_added(start, events)[i],
                "."@ + start.zone,
            ),
        match issue_action(issue_run(start, events)) {
            Action::AddTxt { name, .. } => ends(name, "."@ + start.zone),
            Action::ClearTxt(name) => ends(name, "."@ + start.zone),
            _ => true,
        },
    decreases events.len(),
{
    lemma_coherent(start, events);
    let s = issue_run(start, events);
    if events.len() > 0 {
        let front = events.drop_last();
        lemma_coherent(start, front);
        lemma_writes_in_zone(start, front);
        match events.last() {
            Event::Authorization { challenge: Some((identifier, _)), .. } => {
                lemma_name_in_zone(identifier, start.zone);
            },
            _ => {},
        }
    }
    match s.phase {
        Phase::Clearing { at, .. } => {
            let added = names_added(start, events);
            lemma_sorted_set(added);
            let name = s.cleanup[at as int];
            assert(sorted_set(added).contains(name));
            assert(added.contains(name));
        },
        _ => {},
    }
}

} // verus!
