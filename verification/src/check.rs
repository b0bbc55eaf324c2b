//! The second and the third step of `dnsvcert setup`: live DNS checks that can be
//! repeated once something was fixed, and the first certificate.
//!
//! The course of it is a state that says what to do next or which question to put, and
//! a step to the next state.

use vstd::prelude::*;
use vstd::string::*;

use crate::config::Config;
use crate::dns::{
    base_name, challenge_txt_name, delegation_name, strip_wildcard, target_view, txt_name,
};
use crate::dns_laws::lemma_challenge_name;
use crate::doctor::{all_domains, delegated, domains_of, same_target};
use crate::failure::Failure;
use crate::lines::{and_line, done_view, line, line_and, silent};
use crate::prompt::{confirm, confirm_text, consent, says_yes};
use crate::text::{
    cat2, cat3, cat4, cat5, cat6, joined, lemma_less_irreflexive, lemma_sorted_set, sort_dedup,
    sorted_set, text_less, text_opt, texts,
};

verus! {

/// How far the checks have come. `F` stands for a failure and `I` for a place in a row.
#[derive(Debug)]
pub enum CheckPhase<F, I> {
    /// The challenge zone is to be opened.
    Opening,
    /// Write access is to be probed.
    Probing,
    /// Whether write access is probed again.
    RetryProbe,
    /// The CNAME of the name at this place is to be looked up.
    Looking(I),
    /// Whether it is looked up again.
    RetryLook(I),
    /// Whether the certificate is requested.
    Consenting,
    /// All certificates are to be issued.
    Issuing,
    /// Nothing is left to do.
    Done(Result<(), F>),
}

/// How far the checks have come, as the contracts speak of it.
pub type CheckPhaseView = CheckPhase<Seq<Seq<char>>, nat>;

impl View for CheckPhase<Failure, usize> {
    type V = CheckPhaseView;

    open spec fn view(&self) -> CheckPhaseView {
        match *self {
            CheckPhase::Opening => CheckPhase::Opening,
            CheckPhase::Probing => CheckPhase::Probing,
            CheckPhase::RetryProbe => CheckPhase::RetryProbe,
            CheckPhase::Looking(i) => CheckPhase::Looking(i as nat),
            CheckPhase::RetryLook(i) => CheckPhase::RetryLook(i as nat),
            CheckPhase::Consenting => CheckPhase::Consenting,
            CheckPhase::Issuing => CheckPhase::Issuing,
            CheckPhase::Done(r) => CheckPhase::Done(done_view(r)),
        }
    }
}

/// The checks and the first certificate.
#[derive(Debug)]
pub struct Check {
    pub config_path: String,
    pub zone: String,
    /// The names whose delegation is checked, each once.
    pub bases: Vec<String>,
    /// Whether there is a secret to write with.
    pub can_write: bool,
    pub phase: CheckPhase<Failure, usize>,
}

/// The checks and the first certificate, as the contracts speak of them.
pub struct CheckView {
    pub config_path: Seq<char>,
    pub zone: Seq<char>,
    pub bases: Seq<Seq<char>>,
    pub can_write: bool,
    pub phase: CheckPhaseView,
}

impl View for Check {
    type V = CheckView;

    open spec fn view(&self) -> CheckView {
        CheckView {
            config_path: self.config_path@,
            zone: self.zone@,
            bases: texts(self.bases@),
            can_write: self.can_write,
            phase: self.phase@,
        }
    }
}

/// What came of what was asked for. `S` stands for a text, `F` for a failure.
#[derive(Debug)]
pub enum CheckEvent<S, F> {
    /// The challenge zone is open, and whether it can be written to; or it is not.
    Opened(Result<bool, F>),
    /// It was done, or it failed.
    Did(Result<(), F>),
    /// The CNAME target that was found, if any.
    Target(Result<Option<S>, F>),
    /// A line was typed in reply to a question, or none could be read.
    Typed(Option<S>),
}

/// What came of what was asked for, as the contracts speak of it.
pub type CheckEventView = CheckEvent<Seq<char>, Seq<Seq<char>>>;

impl View for CheckEvent<String, Failure> {
    type V = CheckEventView;

    open spec fn view(&self) -> CheckEventView {
        match *self {
            CheckEvent::Opened(Ok(can_write)) => CheckEvent::Opened(Ok(can_write)),
            CheckEvent::Opened(Err(f)) => CheckEvent::Opened(Err(f@)),
            CheckEvent::Did(r) => CheckEvent::Did(done_view(r)),
            CheckEvent::Target(r) => CheckEvent::Target(target_view(r)),
            CheckEvent::Typed(l) => CheckEvent::Typed(text_opt(l)),
        }
    }
}

// ---- what the reader is told ---------------------------------------------

/// That the records are in place and the secret is missing.
pub open spec fn secret_missing(path: Seq<char>) -> Seq<Seq<char>> {
    seq![
        "\nDNS records are in place. Add your TSIG secret to "@ + path,
        "(dns.tsig_secret), then run `dnsvcert setup` again to issue."@,
    ]
}

/// That the challenge zone cannot be written to.
pub open spec fn write_failure(zone: Seq<char>, path: Seq<char>, e: Seq<Seq<char>>) -> Seq<
    Seq<char>,
> {
    seq![
        "FAIL  cannot write to "@ + zone + ": "@ + joined(e, ": "@),
        "      check dns.server / tsig_key / tsig_secret in "@ + path,
    ]
}

/// That a delegation is not in place, and the record to add.
pub open spec fn look_failure(
    base: Seq<char>,
    zone: Seq<char>,
    target: Result<Option<Seq<char>>, Seq<Seq<char>>>,
) -> Seq<Seq<char>> {
    let cname = delegation_name(base);
    let expected = txt_name(base, zone);
    seq![
        match target {
            Ok(Some(t)) => "FAIL  "@ + cname + " points at "@ + t + ", expected "@ + expected,
            _ => "MISSING  "@ + cname + " has no CNAME yet"@,
        },
        "      Add this record in the DNS that hosts "@ + base + ":"@,
        "        "@ + cname + "  CNAME  "@ + expected + "."@,
    ]
}

/// How the first certificate came out.
pub open spec fn issue_report(path: Seq<char>, result: Result<(), Seq<Seq<char>>>) -> Seq<Seq<char>> {
    match result {
        Ok(_) => seq![
            "\nDone. Renewal is automatic once you schedule it, e.g. cron:"@,
            "  17 3 * * *  root  dnsvcert -c "@ + path + " renew"@,
        ],
        Err(e) => seq![
            "\nIssuance failed: "@ + joined(e, ": "@),
            "Fix the cause and run: dnsvcert -c "@ + path + " issue"@,
        ],
    }
}

// ---- the course of the checks --------------------------------------------

impl CheckView {
    /// The same checks in another phase.
    pub open spec fn in_phase(self, phase: CheckPhaseView) -> CheckView {
        CheckView { phase, ..self }
    }

    /// The checks come to the name at a place, or to their end, with what the reader is
    /// told of that.
    pub open spec fn turn(self, i: nat) -> (CheckView, Seq<Seq<char>>) {
        if i < self.bases.len() {
            (self.in_phase(CheckPhase::Looking(i)), Seq::empty())
        } else if !self.can_write {
            (self.in_phase(CheckPhase::Done(Ok(()))), secret_missing(self.config_path))
        } else {
            (
                self.in_phase(CheckPhase::Consenting),
                seq!["\nStep 3/3 — issue the certificate"@],
            )
        }
    }

    /// The checks come to the name at a place, after one line was told.
    pub open spec fn told(self, first: Seq<char>, i: nat) -> (CheckView, Seq<Seq<char>>) {
        let (t, lines) = self.turn(i);
        (t, seq![first] + lines)
    }

    /// The question to put; nothing where there is none.
    pub open spec fn prompt(self) -> Option<Seq<char>> {
        match self.phase {
            CheckPhase::RetryProbe => Some(confirm_text("Fixed something? Check again?"@, true)),
            CheckPhase::RetryLook(_) => Some(
                confirm_text("Added it? Check again? (DNS changes can take a minute)"@, true),
            ),
            CheckPhase::Consenting => Some(
                confirm_text("Request the certificate from Let's Encrypt now?"@, true),
            ),
            _ => None,
        }
    }
}

/// The checks and what the reader is told, once what they asked for came to `event`.
/// An event that answers nothing changes nothing.
pub open spec fn check_step(s: CheckView, event: CheckEventView) -> (CheckView, Seq<Seq<char>>) {
    match (s.phase, event) {
        (CheckPhase::Opening, CheckEvent::Opened(Err(e))) => (
            s.in_phase(CheckPhase::Done(Err(e))),
            Seq::empty(),
        ),
        (CheckPhase::Opening, CheckEvent::Opened(Ok(can_write))) => if can_write {
            (CheckView { can_write, phase: CheckPhase::Probing, ..s }, Seq::empty())
        } else {
            (CheckView { can_write, ..s }).told("SKIP  write check — no TSIG secret set yet"@, 0)
        },
        (CheckPhase::Probing, CheckEvent::Did(Ok(_))) => s.told(
            "PASS  write access to "@ + s.zone + " confirmed"@,
            0,
        ),
        (CheckPhase::Probing, CheckEvent::Did(Err(e))) => (
            s.in_phase(CheckPhase::RetryProbe),
            write_failure(s.zone, s.config_path, e),
        ),
        (CheckPhase::RetryProbe, CheckEvent::Typed(l)) => if consent(true, l) {
            (s.in_phase(CheckPhase::Probing), Seq::empty())
        } else {
            (
                s.in_phase(CheckPhase::Done(Ok(()))),
                seq!["Stopping here. Re-run `dnsvcert setup` when ready."@],
            )
        },
        (CheckPhase::Looking(i), CheckEvent::Target(target)) => if i < s.bases.len() {
            let base = s.bases[i as int];
            if delegated(base, s.zone, target) {
                s.told(
                    "PASS  "@ + delegation_name(base) + " -> "@ + txt_name(base, s.zone),
                    i + 1,
                )
            } else {
                (s.in_phase(CheckPhase::RetryLook(i)), look_failure(base, s.zone, target))
            }
        } else {
            (s, Seq::empty())
        },
        (CheckPhase::RetryLook(i), CheckEvent::Typed(l)) => if consent(true, l) {
            (s.in_phase(CheckPhase::Looking(i)), Seq::empty())
        } else {
            (
                s.in_phase(CheckPhase::Done(Ok(()))),
                seq!["Stopping here. Re-run `dnsvcert setup` once the record exists."@],
            )
        },
        (CheckPhase::Consenting, CheckEvent::Typed(l)) => if consent(true, l) {
            (s.in_phase(CheckPhase::Issuing), Seq::empty())
        } else {
            (
                s.in_phase(CheckPhase::Done(Ok(()))),
                seq![
                    "Setup complete. Issue any time with: dnsvcert -c "@ + s.config_path
                        + " issue"@,
                ],
            )
        },
        (CheckPhase::Issuing, CheckEvent::Did(result)) => (
            s.in_phase(CheckPhase::Done(Ok(()))),
            issue_report(s.config_path, result),
        ),
        _ => (s, Seq::empty()),
    }
}

/// The names whose delegation is checked: the bases of all domains, each once.
pub open spec fn check_bases(domains: Seq<Seq<char>>) -> Seq<Seq<char>> {
    sorted_set(domains.map_values(|d: Seq<char>| base_name(d)))
}

/// The checks before any is made.
pub open spec fn check_start(
    config_path: Seq<char>,
    zone: Seq<char>,
    domains: Seq<Seq<char>>,
) -> CheckView {
    CheckView {
        config_path,
        zone,
        bases: check_bases(domains),
        can_write: false,
        phase: CheckPhase::Opening,
    }
}

/// Starts the checks of a configuration, with what the reader is told.
pub fn check_and_issue(config_path: &str, cfg: &Config) -> (r: (Check, Vec<String>))
    ensures
        r.0@ == check_start(
            config_path@,
            cfg.dns.challenge_zone@,
            all_domains(cfg.certificates@),
        ),
        texts(r.1@) == seq!["\nStep 2/3 — checking your DNS setup"@],
{
    let domains = domains_of(&cfg.certificates);
    let ghost all = texts(domains@).map_values(|d: Seq<char>| base_name(d));
    let mut bases: Vec<String> = Vec::new();
    let mut i: usize = 0;
    assert(texts(bases@) =~= all.take(0));
    while i < domains.len()
        invariant
            i <= domains@.len(),
            all == texts(domains@).map_values(|d: Seq<char>| base_name(d)),
            texts(bases@) == all.take(i as int),
        decreases domains@.len() - i,
    {
        let ghost before = bases@;
        bases.push(strip_wildcard(domains[i].as_str()));
        assert(texts(bases@) =~= texts(before).push(all[i as int]));
        assert(all.take(i + 1) =~= all.take(i as int).push(all[i as int]));
        i = i + 1;
    }
    assert(all.take(i as int) =~= all);
    (
        Check {
            config_path: config_path.to_owned(),
            zone: cfg.dns.challenge_zone.clone(),
            bases: sort_dedup(&bases),
            can_write: false,
            phase: CheckPhase::Opening,
        },
        line("\nStep 2/3 — checking your DNS setup".to_owned()),
    )
}

impl Check {
    /// The same checks in another phase.
    fn in_phase(self, phase: CheckPhase<Failure, usize>) -> (r: Check)
        ensures
            r@ == self@.in_phase(phase@),
    {
        Check { phase, ..self }
    }

    /// The checks come to the name at a place, after one line was told.
    fn told(self, first: String, i: usize) -> (r: (Check, Vec<String>))
        ensures
            (r.0@, texts(r.1@)) == self@.told(first@, i as nat),
    {
        if i < self.bases.len() {
            let lines = line_and(first, silent());
            (self.in_phase(CheckPhase::Looking(i)), lines)
        } else if !self.can_write {
            let more = and_line(
                line(
                    cat2(
                        "\nDNS records are in place. Add your TSIG secret to ",
                        self.config_path.as_str(),
                    ),
                ),
                "(dns.tsig_secret), then run `dnsvcert setup` again to issue.".to_owned(),
            );
            assert(texts(more@) =~= secret_missing(self.config_path@));
            (self.in_phase(CheckPhase::Done(Ok(()))), line_and(first, more))
        } else {
            let lines = line_and(first, line("\nStep 3/3 — issue the certificate".to_owned()));
            (self.in_phase(CheckPhase::Consenting), lines)
        }
    }

    /// The question to put; nothing where there is none.
    pub fn prompt(&self) -> (r: Option<String>)
        ensures
            text_opt(r) == self@.prompt(),
    {
        match &self.phase {
            CheckPhase::RetryProbe => Some(confirm("Fixed something? Check again?", true)),
            CheckPhase::RetryLook(_) => Some(
                confirm("Added it? Check again? (DNS changes can take a minute)", true),
            ),
            CheckPhase::Consenting => Some(
                confirm("Request the certificate from Let's Encrypt now?", true),
            ),
            _ => None,
        }
    }

    /// The name whose CNAME is to be looked up, in a phase that asks for one.
    pub fn question(&self) -> (r: Option<String>)
        ensures
            match r {
                Some(name) => self@.phase is Looking && self@.phase->Looking_0
                    < self@.bases.len() && name@ == delegation_name(
                    self@.bases[self@.phase->Looking_0 as int],
                ),
                None => !(self@.phase is Looking && self@.phase->Looking_0 < self@.bases.len()),
            },
    {
        match &self.phase {
            CheckPhase::Looking(i) => if *i < self.bases.len() {
                Some(cat2("_acme-challenge.", self.bases[*i].as_str()))
            } else {
                None
            },
            _ => None,
        }
    }

    /// A CNAME was looked up.
    fn looked(self, i: usize, target: Result<Option<String>, Failure>) -> (r: (Check, Vec<String>))
        ensures
            (r.0@, texts(r.1@)) == check_step(
                self@.in_phase(CheckPhase::Looking(i as nat)),
                CheckEvent::Target(target_view(target)),
            ),
    {
        if i >= self.bases.len() {
            return (self.in_phase(CheckPhase::Looking(i)), silent());
        }
        let base = self.bases[i].as_str();
        let expected = challenge_txt_name(base, self.zone.as_str());
        let cname = cat2("_acme-challenge.", base);
        let first = match &target {
            Ok(Some(t)) => if same_target(t.as_str(), expected.as_str()) {
                let pass = cat4("PASS  ", cname.as_str(), " -> ", expected.as_str());
                return self.told(pass, i + 1);
            } else {
                cat6(
                    "FAIL  ",
                    cname.as_str(),
                    " points at ",
                    t.as_str(),
                    ", expected ",
                    expected.as_str(),
                )
            },
            _ => cat3("MISSING  ", cname.as_str(), " has no CNAME yet"),
        };
        let lines = line(first);
        let lines = and_line(
            lines,
            cat3("      Add this record in the DNS that hosts ", base, ":"),
        );
        let lines = and_line(
            lines,
            cat5("        ", cname.as_str(), "  CNAME  ", expected.as_str(), "."),
        );
        assert(texts(lines@) =~= look_failure(base@, self.zone@, target_view(target)));
        (self.in_phase(CheckPhase::RetryLook(i)), lines)
    }

    /// The certificates were issued, or were not.
    fn issued(self, result: Result<(), Failure>) -> (r: (Check, Vec<String>))
        ensures
            r.0@ == self@.in_phase(CheckPhase::Done(Ok(()))),
            texts(r.1@) == issue_report(self@.config_path, done_view(result)),
    {
        let lines = match result {
            Ok(_) => {
                let lines = and_line(
                    line("\nDone. Renewal is automatic once you schedule it, e.g. cron:".to_owned()),
                    cat3("  17 3 * * *  root  dnsvcert -c ", self.config_path.as_str(), " renew"),
                );
                assert(texts(lines@) =~= issue_report(self@.config_path, Ok(())));
                lines
            },
            Err(f) => {
                let lines = and_line(
                    line(cat2("\nIssuance failed: ", f.report().as_str())),
                    cat3(
                        "Fix the cause and run: dnsvcert -c ",
                        self.config_path.as_str(),
                        " issue",
                    ),
                );
                assert(texts(lines@) =~= issue_report(self@.config_path, Err(f@)));
                lines
            },
        };
        (self.in_phase(CheckPhase::Done(Ok(()))), lines)
    }

    /// The checks and what the reader is told, once what they asked for came to
    /// `event`. An event that answers nothing changes nothing.
    pub fn step(self, event: CheckEvent<String, Failure>) -> (r: (Check, Vec<String>))
        ensures
            (r.0@, texts(r.1@)) == check_step(self@, event@),
    {
        let Check { config_path, zone, bases, can_write, phase } = self;
        let s = Check { config_path, zone, bases, can_write, phase: CheckPhase::Opening };
        match (phase, event) {
            (CheckPhase::Opening, CheckEvent::Opened(Err(f))) => (
                s.in_phase(CheckPhase::Done(Err(f))),
                silent(),
            ),
            (CheckPhase::Opening, CheckEvent::Opened(Ok(can_write))) => if can_write {
                (Check { can_write, phase: CheckPhase::Probing, ..s }, silent())
            } else {
                (Check { can_write, ..s }).told(
                    "SKIP  write check — no TSIG secret set yet".to_owned(),
                    0,
                )
            },
            (CheckPhase::Probing, CheckEvent::Did(Ok(_))) => {
                let pass = cat3("PASS  write access to ", s.zone.as_str(), " confirmed");
                s.in_phase(CheckPhase::Probing).told(pass, 0)
            },
            (CheckPhase::Probing, CheckEvent::Did(Err(f))) => {
                let lines = and_line(
                    line(
                        cat4(
                            "FAIL  cannot write to ",
                            s.zone.as_str(),
                            ": ",
                            f.report().as_str(),
                        ),
                    ),
                    cat2(
                        "      check dns.server / tsig_key / tsig_secret in ",
                        s.config_path.as_str(),
                    ),
                );
                assert(texts(lines@) =~= write_failure(s.zone@, s.config_path@, f@));
                (s.in_phase(CheckPhase::RetryProbe), lines)
            },
            (CheckPhase::RetryProbe, CheckEvent::Typed(l)) => if says_yes(true, l) {
                (s.in_phase(CheckPhase::Probing), silent())
            } else {
                (
                    s.in_phase(CheckPhase::Done(Ok(()))),
                    line("Stopping here. Re-run `dnsvcert setup` when ready.".to_owned()),
                )
            },
            (CheckPhase::Looking(i), CheckEvent::Target(target)) => s.looked(i, target),
            (CheckPhase::RetryLook(i), CheckEvent::Typed(l)) => if says_yes(true, l) {
                (s.in_phase(CheckPhase::Looking(i)), silent())
            } else {
                (
                    s.in_phase(CheckPhase::Done(Ok(()))),
                    line(
                        "Stopping here. Re-run `dnsvcert setup` once the record exists.".to_owned(),
                    ),
                )
            },
            (CheckPhase::Consenting, CheckEvent::Typed(l)) => if says_yes(true, l) {
                (s.in_phase(CheckPhase::Issuing), silent())
            } else {
                let last = cat3(
                    "Setup complete. Issue any time with: dnsvcert -c ",
                    s.config_path.as_str(),
                    " issue",
                );
                (s.in_phase(CheckPhase::Done(Ok(()))), line(last))
            },
            (CheckPhase::Issuing, CheckEvent::Did(result)) => s.issued(result),
            (phase, _) => (s.in_phase(phase), silent()),
        }
    }
}

// ---- laws ----------------------------------------------------------------

/// The checks after a row of events.
pub open spec fn check_run(s: CheckView, events: Seq<CheckEventView>) -> CheckView
    decreases events.len(),
{
    if events.len() == 0 {
        s
    } else {
        check_step(check_run(s, events.drop_last()), events.last()).0
    }
}

/// The names whose delegation was found in place, in the order of the checks.
pub open spec fn names_verified(s: CheckView, events: Seq<CheckEventView>) -> Seq<Seq<char>>
    decreases events.len(),
{
    if events.len() == 0 {
        Seq::empty()
    } else {
        let before = names_verified(s, events.drop_last());
        let t = check_run(s, events.drop_last());
        match (t.phase, events.last()) {
            (CheckPhase::Looking(i), CheckEvent::Target(target)) => if i < t.bases.len()
                && delegated(t.bases[i as int], t.zone, target) {
                before.push(t.bases[i as int])
            } else {
                before
            },
            _ => before,
        }
    }
}

/// Whether write access was confirmed.
pub open spec fn write_confirmed(s: CheckView, events: Seq<CheckEventView>) -> bool
    decreases events.len(),
{
    if events.len() == 0 {
        false
    } else {
        write_confirmed(s, events.drop_last()) || (check_run(s, events.drop_last()).phase
            is Probing && (events.last() matches CheckEvent::Did(Ok(_))))
    }
}

/// What holds of the checks in every phase.
spec fn in_order(s: CheckView, verified: Seq<Seq<char>>, written: bool) -> bool {
    match s.phase {
        CheckPhase::Opening => verified.len() == 0,
        CheckPhase::Probing => s.can_write && verified.len() == 0,
        CheckPhase::RetryProbe => s.can_write && verified.len() == 0,
        CheckPhase::Looking(i) => i < s.bases.len() && verified == s.bases.take(i as int) && (
        s.can_write ==> written),
        CheckPhase::RetryLook(i) => i < s.bases.len() && verified == s.bases.take(i as int) && (
        s.can_write ==> written),
        CheckPhase::Consenting => s.can_write && written && verified == s.bases,
        CheckPhase::Issuing => s.can_write && written && verified == s.bases,
        CheckPhase::Done(_) => true,
    }
}

proof fn lemma_in_order(start: CheckView, events: Seq<CheckEventView>)
    requires
        start.phase is Opening,
    ensures
        in_order(
            check_run(start, events),
            names_verified(start, events),
            write_confirmed(start, events),
        ),
        check_run(start, events).bases == start.bases,
        check_run(start, events).zone == start.zone,
    decreases events.len(),
{
    if events.len() > 0 {
        let front = events.drop_last();
        lemma_in_order(start, front);
        let s = check_run(start, front);
        let verified = names_verified(start, front);
        assert(verified.len() == 0 ==> verified =~= Seq::empty());
        assert(s.bases.take(0) =~= Seq::empty());
        assert(s.bases.take(s.bases.len() as int) =~= s.bases);
        match s.phase {
            CheckPhase::Looking(i) => {
                assert(s.bases.take(i as int).push(s.bases[i as int]) =~= s.bases.take(
                    i as int + 1,
                ));
            },
            _ => {},
        }
    }
}

/// Nothing is requested from the certificate authority before the third step: only
/// where write access was confirmed, the delegation of every name was found in place
/// and the reader then agreed.
pub proof fn lemma_request_needs_checks(
    start: CheckView,
    events: Seq<CheckEventView>,
    reply: CheckEventView,
)
    requires
        start.phase is Opening,
        !(check_run(start, events).phase is Issuing),
        check_run(start, events.push(reply)).phase is Issuing,
    ensures
        write_confirmed(start, events),
        names_verified(start, events) == start.bases,
        check_run(start, events).phase is Consenting,
        reply is Typed && consent(true, reply->Typed_0),
{
    lemma_in_order(start, events);
    assert(events.push(reply).drop_last() =~= events);
}

/// Without a secret the checks of the delegations are made all the same, and nothing is
/// requested from the certificate authority.
pub proof fn lemma_no_request_without_secret(start: CheckView, events: Seq<CheckEventView>)
    requires
        start.phase is Opening,
        !check_run(start, events).can_write,
    ensures
        !(check_run(start, events).phase is Issuing),
        check_step(start, CheckEvent::Opened(Ok(false))).0.phase is Looking <==> start.bases.len()
            > 0,
{
    lemma_in_order(start, events);
}

/// The names that are checked are those of all domains without their wildcard labels,
/// each once.
pub proof fn lemma_check_bases(domains: Seq<Seq<char>>, name: Seq<char>)
    ensures
        check_bases(domains).contains(name) <==> exists|i: int|
            0 <= i < domains.len() && (#[trigger] domains[i] == seq!['*', '.'] + name || (domains[i]
                == name && !(name.len() >= 2 && name[0] == '*' && name[1] == '.'))),
        check_bases(domains).no_duplicates(),
{
    let bases = domains.map_values(|d: Seq<char>| base_name(d));
    let all = check_bases(domains);
    lemma_sorted_set(bases);
    assert forall|i: int, j: int| 0 <= i < all.len() && 0 <= j < all.len() && i != j implies all[i]
        != all[j] by {
        lemma_less_irreflexive(all[i]);
        if i < j {
            assert(text_less(all[i], all[j]));
        } else {
            assert(text_less(all[j], all[i]));
        }
    }
    if bases.contains(name) {
        let i = choose|i: int| 0 <= i < bases.len() && bases[i] == name;
        assert(base_name(domains[i]) == name);
        lemma_base(domains[i]);
        assert(domains[i] == domains[i]);
    }
    if exists|i: int|
        0 <= i < domains.len() && (#[trigger] domains[i] == seq!['*', '.'] + name || (domains[i]
            == name && !(name.len() >= 2 && name[0] == '*' && name[1] == '.'))) {
        let i = choose|i: int|
            0 <= i < domains.len() && (#[trigger] domains[i] == seq!['*', '.'] + name || (domains[i]
                == name && !(name.len() >= 2 && name[0] == '*' && name[1] == '.')));
        lemma_base(domains[i]);
        assert((seq!['*', '.'] + name).skip(2) =~= name);
        assert(bases[i] == name);
    }
}

proof fn lemma_base(d: Seq<char>)
    ensures
        d.len() >= 2 && d[0] == '*' && d[1] == '.' ==> base_name(d) == d.skip(2) && d == seq![
            '*',
            '.',
        ] + d.skip(2),
        !(d.len() >= 2 && d[0] == '*' && d[1] == '.') ==> base_name(d) == d,
{
    reveal_strlit("*.");
    if d.len() >= 2 {
        let two = d.subrange(0, 2);
        assert(two[0] == d[0] && two[1] == d[1]);
        if d[0] == '*' && d[1] == '.' {
            assert(two =~= "*."@);
            assert(d =~= seq!['*', '.'] + d.skip(2));
        }
    }
}

/// A check that failed is made again where the reader wants it, of the same thing; else
/// the setup ends, and nothing is requested.
pub proof fn lemma_retry(s: CheckView, l: Option<Seq<char>>)
    ensures
        ({
            let t = check_step(s, CheckEvent::Typed(l)).0;
            &&& s.phase is RetryProbe && consent(true, l) ==> t.phase is Probing
            &&& s.phase is RetryLook && consent(true, l) ==> t.phase is Looking
                && t.phase->Looking_0 == s.phase->RetryLook_0
            &&& (s.phase is RetryProbe || s.phase is RetryLook || s.phase is Consenting) && !consent(
                true,
                l,
            ) ==> t.phase is Done && t.phase->Done_0 is Ok
        }),
{
}

/// A delegation that is not in place is shown with the record to add: the CNAME at
/// `_acme-challenge` and the name, which points at the name, a dot and the zone.
pub proof fn lemma_record_shown(
    name: Seq<char>,
    zone: Seq<char>,
    target: Result<Option<Seq<char>>, Seq<Seq<char>>>,
)
    requires
        !(name.len() >= 2 && name[0] == '*' && name[1] == '.'),
    ensures
        look_failure(name, zone, target).last() == "        "@ + ("_acme-challenge."@ + name)
            + "  CNAME  "@ + (name + seq!['.'] + zone) + "."@,
{
    lemma_challenge_name(name, Seq::empty(), zone);
}

/// A name whose delegation is in place is done with, and one whose delegation is not is
/// asked about; the challenge zone is probed first where it can be written to.
pub proof fn lemma_look(
    s: CheckView,
    target: Result<Option<Seq<char>>, Seq<Seq<char>>>,
    can_write: bool,
    probe: Result<(), Seq<Seq<char>>>,
)
    ensures
        s.phase is Looking && s.phase->Looking_0 < s.bases.len() ==> ({
            let i = s.phase->Looking_0;
            let t = check_step(s, CheckEvent::Target(target)).0;
            let good = delegated(s.bases[i as int], s.zone, target);
            &&& !good ==> t.phase == CheckPhaseView::RetryLook(i)
            &&& good && i + 1 < s.bases.len() ==> t.phase == CheckPhaseView::Looking(i + 1)
            &&& good && i + 1 == s.bases.len() && s.can_write ==> t.phase is Consenting
            &&& good && i + 1 == s.bases.len() && !s.can_write ==> t.phase is Done
        }),
        s.phase is Opening ==> ({
            let t = check_step(s, CheckEvent::Opened(Ok(can_write))).0;
            t.can_write == can_write && (t.phase is Probing <==> can_write)
        }),
        s.phase is Probing ==> (check_step(s, CheckEvent::Did(probe)).0.phase is RetryProbe
            <==> probe is Err),
{
}

} // verus!
