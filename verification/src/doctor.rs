//! The checks that a setup works: write access to the challenge zone, and a CNAME
//! into it for every name.

use vstd::prelude::*;
use vstd::string::*;

use crate::config::{CertConfig, Config};
use crate::confirm::{Probe, Probing};
use crate::dns::{
    base_name, challenge_txt_name, delegation_name, normal_name, normalize, strip_wildcard,
    target_view, txt_name, ChallengeDns,
};
use crate::dns_laws::lemma_challenge_name;
use crate::failure::Failure;
use crate::lines::done_view;
use crate::text::{
    begins, cat2, cat4, cat5, ends, joined, same, strip_back, texts,
};
use crate::text_laws::{lemma_lower_same, lemma_strip_back, same_letter};

verus! {

/// Whether a CNAME target is the name in the challenge zone.
pub open spec fn points_to(target: Seq<char>, expected: Seq<char>) -> bool {
    normal_name(target) == normal_name(expected)
}

/// Whether a CNAME target is the name in the challenge zone.
pub fn same_target(target: &str, expected: &str) -> (r: bool)
    ensures
        r == points_to(target@, expected@),
{
    same(normalize(target).as_str(), normalize(expected).as_str())
}

/// The record that delegates the challenges for a domain.
pub open spec fn record_to_add(domain: Seq<char>, zone: Seq<char>) -> Seq<char> {
    " — add: "@ + delegation_name(base_name(domain)) + " CNAME "@ + txt_name(domain, zone) + "."@
}

/// Whether the delegation of a domain is in place.
pub open spec fn delegated(
    domain: Seq<char>,
    zone: Seq<char>,
    target: Result<Option<Seq<char>>, Seq<Seq<char>>>,
) -> bool {
    target is Ok && target->Ok_0 is Some && points_to(target->Ok_0->0, txt_name(domain, zone))
}

/// What the reader is told about the delegation of a domain.
pub open spec fn check_line(
    domain: Seq<char>,
    zone: Seq<char>,
    target: Result<Option<Seq<char>>, Seq<Seq<char>>>,
) -> Seq<char> {
    let cname = delegation_name(base_name(domain));
    let expected = txt_name(domain, zone);
    match target {
        Ok(Some(t)) => if points_to(t, expected) {
            "PASS  "@ + cname + " -> "@ + expected
        } else {
            "FAIL  "@ + cname + " points at "@ + t + ", expected "@ + expected + record_to_add(
                domain,
                zone,
            )
        },
        Ok(None) => "FAIL  "@ + cname + " has no CNAME"@ + record_to_add(domain, zone),
        Err(e) => "FAIL  "@ + cname + ": "@ + joined(e, ": "@) + record_to_add(domain, zone),
    }
}

/// The record that delegates the challenges for a domain.
fn record_text(domain: &str, zone: &str) -> (r: String)
    ensures
        r@ == record_to_add(domain@, zone@),
{
    cat5(
        " — add: ",
        cat2("_acme-challenge.", strip_wildcard(domain).as_str()).as_str(),
        " CNAME ",
        challenge_txt_name(domain, zone).as_str(),
        ".",
    )
}

/// Whether the delegation of a domain is in place, and what the reader is told.
pub fn check_delegation(
    domain: &str,
    zone: &str,
    target: Result<Option<String>, Failure>,
) -> (r: (bool, String))
    ensures
        r.0 == delegated(domain@, zone@, target_view(target)),
        r.1@ == check_line(domain@, zone@, target_view(target)),
{
    let cname = cat2("_acme-challenge.", strip_wildcard(domain).as_str());
    let expected = challenge_txt_name(domain, zone);
    match target {
        Ok(Some(t)) => if same_target(t.as_str(), expected.as_str()) {
            (true, cat4("PASS  ", cname.as_str(), " -> ", expected.as_str()))
        } else {
            let mut line = cat5("FAIL  ", cname.as_str(), " points at ", t.as_str(), ", expected ");
            line.append(expected.as_str());
            line.append(record_text(domain, zone).as_str());
            (false, line)
        },
        Ok(None) => (
            false,
            cat4("FAIL  ", cname.as_str(), " has no CNAME", record_text(domain, zone).as_str()),
        ),
        Err(f) => (
            false,
            cat5(
                "FAIL  ",
                cname.as_str(),
                ": ",
                f.report().as_str(),
                record_text(domain, zone).as_str(),
            ),
        ),
    }
}

/// How far the checks have come. `F` stands for a failure and `I` for a place in a row.
#[derive(Debug)]
pub enum DoctorPhase<F, I> {
    /// Write access is to be probed.
    Probing,
    /// The CNAME of the domain at this place is to be looked up.
    Checking(I),
    /// Nothing is left to do.
    Done(Result<(), F>),
}

/// How far the checks have come, as the contracts speak of it.
pub type DoctorPhaseView = DoctorPhase<Seq<Seq<char>>, nat>;

impl View for DoctorPhase<Failure, usize> {
    type V = DoctorPhaseView;

    open spec fn view(&self) -> DoctorPhaseView {
        match *self {
            DoctorPhase::Probing => DoctorPhase::Probing,
            DoctorPhase::Checking(i) => DoctorPhase::Checking(i as nat),
            DoctorPhase::Done(r) => DoctorPhase::Done(done_view(r)),
        }
    }
}

/// The checks of a configuration.
#[derive(Debug)]
pub struct Doctor {
    pub zone: String,
    pub domains: Vec<String>,
    pub failed: bool,
    pub phase: DoctorPhase<Failure, usize>,
}

/// The checks of a configuration, as the contracts speak of them.
pub struct DoctorView {
    pub zone: Seq<char>,
    pub domains: Seq<Seq<char>>,
    pub failed: bool,
    pub phase: DoctorPhaseView,
}

impl View for Doctor {
    type V = DoctorView;

    open spec fn view(&self) -> DoctorView {
        DoctorView {
            zone: self.zone@,
            domains: texts(self.domains@),
            failed: self.failed,
            phase: self.phase@,
        }
    }
}

/// The domains of all certificates, in their order.
pub open spec fn all_domains(certs: Seq<CertConfig>) -> Seq<Seq<char>>
    decreases certs.len(),
{
    if certs.len() == 0 {
        Seq::empty()
    } else {
        all_domains(certs.drop_last()) + texts(certs.last().domains@)
    }
}

/// The domains of all certificates, in their order.
pub fn domains_of(certs: &Vec<CertConfig>) -> (r: Vec<String>)
    ensures
        texts(r@) == all_domains(certs@),
{
    let mut out: Vec<String> = Vec::new();
    let mut i: usize = 0;
    assert(certs@.take(0) =~= Seq::empty());
    assert(texts(out@) =~= Seq::empty());
    while i < certs.len()
        invariant
            i <= certs@.len(),
            texts(out@) == all_domains(certs@.take(i as int)),
        decreases certs@.len() - i,
    {
        assert(certs@.take(i + 1).drop_last() =~= certs@.take(i as int));
        let domains = &certs[i].domains;
        let ghost before = texts(out@);
        let ghost more = texts(domains@);
        let mut j: usize = 0;
        assert(before + more.take(0) =~= before);
        while j < domains.len()
            invariant
                j <= domains@.len(),
                more == texts(domains@),
                texts(out@) == before + more.take(j as int),
            decreases domains@.len() - j,
        {
            let ghost had = out@;
            out.push(domains[j].clone());
            assert(texts(out@) =~= texts(had).push(more[j as int]));
            assert(before + more.take(j + 1) =~= (before + more.take(j as int)).push(
                more[j as int],
            ));
            j = j + 1;
        }
        assert(more.take(j as int) =~= more);
        i = i + 1;
    }
    assert(certs@.take(i as int) =~= certs@);
    out
}

/// What came of a check. `S` stands for a text, `F` for a failure.
#[derive(Debug)]
pub enum DoctorEvent<S, F> {
    /// The probe succeeded, or failed.
    Probed(Result<(), F>),
    /// The CNAME target that was found, if any.
    Target(Result<Option<S>, F>),
}

impl View for DoctorEvent<String, Failure> {
    type V = DoctorEvent<Seq<char>, Seq<Seq<char>>>;

    open spec fn view(&self) -> DoctorEvent<Seq<char>, Seq<Seq<char>>> {
        match *self {
            DoctorEvent::Probed(r) => DoctorEvent::Probed(done_view(r)),
            DoctorEvent::Target(r) => DoctorEvent::Target(target_view(r)),
        }
    }
}

impl DoctorView {
    /// The checks come to the domain at a place, or to their end, with what the reader
    /// is told of that.
    pub open spec fn turn(self, i: nat) -> (DoctorView, Seq<Seq<char>>) {
        if i < self.domains.len() {
            (DoctorView { phase: DoctorPhase::Checking(i), ..self }, Seq::empty())
        } else if self.failed {
            (
                DoctorView {
                    phase: DoctorPhase::Done(Err(seq!["doctor found problems"@])),
                    ..self
                },
                Seq::empty(),
            )
        } else {
            (
                DoctorView { phase: DoctorPhase::Done(Ok(())), ..self },
                seq!["all checks passed"@],
            )
        }
    }

    /// The same checks, with one more that passed or failed.
    pub open spec fn with(self, passed: bool) -> DoctorView {
        DoctorView { failed: self.failed || !passed, ..self }
    }
}

/// What the reader is told about write access to a zone.
pub open spec fn probe_line(zone: Seq<char>, result: Result<(), Seq<Seq<char>>>) -> Seq<char> {
    match result {
        Ok(_) => "PASS  TSIG write access to "@ + zone,
        Err(e) => "FAIL  TSIG write access to "@ + zone + ": "@ + joined(e, ": "@),
    }
}

/// The checks and what the reader is told, once a check came to `event`. An event that
/// answers nothing changes nothing.
pub open spec fn doctor_step(
    s: DoctorView,
    event: DoctorEvent<Seq<char>, Seq<Seq<char>>>,
) -> (DoctorView, Seq<Seq<char>>) {
    match (s.phase, event) {
        (DoctorPhase::Probing, DoctorEvent::Probed(result)) => {
            let (t, lines) = s.with(result is Ok).turn(0);
            (t, seq![probe_line(s.zone, result)] + lines)
        },
        (DoctorPhase::Checking(i), DoctorEvent::Target(target)) => if i < s.domains.len() {
            let domain = s.domains[i as int];
            let (t, lines) = s.with(delegated(domain, s.zone, target)).turn(i + 1);
            (t, seq![check_line(domain, s.zone, target)] + lines)
        } else {
            (s, Seq::empty())
        },
        _ => (s, Seq::empty()),
    }
}

/// Starts the checks of a configuration.
pub fn run_doctor(cfg: &Config, dns: &ChallengeDns) -> (r: Doctor)
    ensures
        r@ == doctor_start(dns.zone@, all_domains(cfg.certificates@)),
{
    Doctor {
        zone: dns.zone.clone(),
        domains: domains_of(&cfg.certificates),
        failed: false,
        phase: DoctorPhase::Probing,
    }
}

/// The checks of some domains, before any is made.
pub open spec fn doctor_start(zone: Seq<char>, domains: Seq<Seq<char>>) -> DoctorView {
    DoctorView { zone, domains, failed: false, phase: DoctorPhase::Probing }
}

/// Starts the probe with the given record.
pub fn probe_tsig(name: &str, value: &str) -> (r: Probe)
    ensures
        r.name@ == name@ && r.value@ == value@,
        r.state == Probing::<Failure>::Add,
{
    Probe { name: name.to_owned(), value: value.to_owned(), state: Probing::Add }
}

impl Doctor {
    /// The checks come to the domain at a place, or to their end. `line` was told.
    fn turn(self, i: usize, line: String) -> (r: (Doctor, Vec<String>))
        ensures
            (r.0@, texts(r.1@)) == (self@.turn(i as nat).0, seq![line@] + self@.turn(i as nat).1),
    {
        let mut lines: Vec<String> = Vec::new();
        lines.push(line);
        let phase = if i < self.domains.len() {
            DoctorPhase::Checking(i)
        } else if self.failed {
            DoctorPhase::Done(Err(Failure::new("doctor found problems".to_owned())))
        } else {
            lines.push("all checks passed".to_owned());
            DoctorPhase::Done(Ok(()))
        };
        assert(texts(lines@) =~= seq![line@] + self@.turn(i as nat).1);
        (Doctor { phase, ..self }, lines)
    }

    /// The name whose CNAME is to be looked up, in a phase that asks for one.
    pub fn question(&self) -> (r: Option<String>)
        ensures
            match r {
                Some(name) => self@.phase is Checking && self@.phase->Checking_0
                    < self@.domains.len() && name@ == delegation_name(
                    base_name(self@.domains[self@.phase->Checking_0 as int]),
                ),
                None => !(self@.phase is Checking && self@.phase->Checking_0 < self@.domains.len()),
            },
    {
        match &self.phase {
            DoctorPhase::Checking(i) => if *i < self.domains.len() {
                Some(cat2("_acme-challenge.", strip_wildcard(self.domains[*i].as_str()).as_str()))
            } else {
                None
            },
            _ => None,
        }
    }

    /// The checks and what the reader is told, once a check came to `event`. An event
    /// that answers nothing changes nothing.
    pub fn step(self, event: DoctorEvent<String, Failure>) -> (r: (Doctor, Vec<String>))
        ensures
            (r.0@, texts(r.1@)) == doctor_step(self@, event@),
    {
        let Doctor { zone, domains, failed, phase } = self;
        match (phase, event) {
            (DoctorPhase::Probing, DoctorEvent::Probed(result)) => {
                let (passed, line) = match result {
                    Ok(_) => (true, cat2("PASS  TSIG write access to ", zone.as_str())),
                    Err(f) => (
                        false,
                        cat4(
                            "FAIL  TSIG write access to ",
                            zone.as_str(),
                            ": ",
                            f.report().as_str(),
                        ),
                    ),
                };
                let s = Doctor {
                    zone,
                    domains,
                    failed: failed || !passed,
                    phase: DoctorPhase::Probing,
                };
                s.turn(0, line)
            },
            (DoctorPhase::Checking(i), DoctorEvent::Target(target)) => if i < domains.len() {
                let (passed, line) = check_delegation(domains[i].as_str(), zone.as_str(), target);
                let s = Doctor {
                    zone,
                    domains,
                    failed: failed || !passed,
                    phase: DoctorPhase::Probing,
                };
                s.turn(i + 1, line)
            } else {
                let lines: Vec<String> = Vec::new();
                assert(texts(lines@) =~= Seq::empty());
                (Doctor { zone, domains, failed, phase: DoctorPhase::Checking(i) }, lines)
            },
            (phase, _) => {
                let lines: Vec<String> = Vec::new();
                assert(texts(lines@) =~= Seq::empty());
                (Doctor { zone, domains, failed, phase }, lines)
            },
        }
    }
}

// ---- laws ----------------------------------------------------------------

/// The checks and everything the reader is told, after the probe and the look-ups.
pub open spec fn doctor_run(
    s: DoctorView,
    targets: Seq<Result<Option<Seq<char>>, Seq<Seq<char>>>>,
) -> (DoctorView, Seq<Seq<char>>)
    decreases targets.len(),
{
    if targets.len() == 0 {
        (s, Seq::empty())
    } else {
        let (t, lines) = doctor_run(s, targets.drop_last());
        let (u, more) = doctor_step(t, DoctorEvent::Target(targets.last()));
        (u, lines + more)
    }
}

/// A line about a delegation that is not in place ends with the record to add.
pub proof fn lemma_failure_shows_record(
    domain: Seq<char>,
    zone: Seq<char>,
    target: Result<Option<Seq<char>>, Seq<Seq<char>>>,
)
    requires
        !delegated(domain, zone, target),
    ensures
        ends(check_line(domain, zone, target), record_to_add(domain, zone)),
{
    let line = check_line(domain, zone, target);
    let tail = record_to_add(domain, zone);
    assert(line.subrange(line.len() - tail.len(), line.len() as int) =~= tail);
}

proof fn lemma_doctor_from(
    s: DoctorView,
    targets: Seq<Result<Option<Seq<char>>, Seq<Seq<char>>>>,
)
    requires
        s.phase == s.turn(0).0.phase,
        targets.len() <= s.domains.len(),
    ensures
        ({
            let end = doctor_run(s, targets).0;
            &&& end.zone == s.zone && end.domains == s.domains
            &&& end.failed <==> s.failed || exists|i: int|
                0 <= i < targets.len() && !delegated(s.domains[i], s.zone, #[trigger] targets[i])
            &&& end.phase == end.turn(targets.len()).0.phase
        }),
    decreases targets.len(),
{
    if targets.len() > 0 {
        let front = targets.drop_last();
        lemma_doctor_from(s, front);
        let n = front.len() as int;
        let end = doctor_run(s, targets).0;
        if doctor_run(s, front).0.failed && !s.failed {
            let i = choose|i: int|
                0 <= i < front.len() && !delegated(s.domains[i], s.zone, #[trigger] front[i]);
            assert(targets[i] == front[i]);
        }
        if end.failed && !doctor_run(s, front).0.failed {
            assert(!delegated(s.domains[n], s.zone, targets[n]));
        }
        if !end.failed {
            assert forall|i: int| 0 <= i < targets.len() implies delegated(
                s.domains[i],
                s.zone,
                #[trigger] targets[i],
            ) by {
                if i < n {
                    assert(targets[i] == front[i]);
                }
            }
        }
    }
}

/// The CNAME of every domain is checked whatever the probe came to, so also without a
/// secret, and the checks pass exactly where the probe and every delegation do.
pub proof fn lemma_doctor(
    zone: Seq<char>,
    domains: Seq<Seq<char>>,
    probe: Result<(), Seq<Seq<char>>>,
    targets: Seq<Result<Option<Seq<char>>, Seq<Seq<char>>>>,
)
    requires
        targets.len() == domains.len(),
    ensures
        ({
            let probed = doctor_step(doctor_start(zone, domains), DoctorEvent::Probed(probe)).0;
            let end = doctor_run(probed, targets).0;
            &&& forall|k: int|
                0 <= k < domains.len() ==> doctor_run(probed, #[trigger] targets.take(k)).0.phase
                    == DoctorPhase::<Seq<Seq<char>>, nat>::Checking(k as nat)
            &&& end.phase is Done
            &&& end.phase->Done_0 is Ok <==> probe is Ok && forall|i: int|
                0 <= i < domains.len() ==> delegated(domains[i], zone, #[trigger] targets[i])
        }),
{
    let start = doctor_start(zone, domains);
    let probed = doctor_step(start, DoctorEvent::Probed(probe)).0;
    assert forall|k: int| 0 <= k < domains.len() implies doctor_run(
        probed,
        #[trigger] targets.take(k),
    ).0.phase == DoctorPhase::<Seq<Seq<char>>, nat>::Checking(k as nat) by {
        lemma_doctor_from(probed, targets.take(k));
    }
    lemma_doctor_from(probed, targets);
}

/// A target is the expected name exactly where both, without the dots at their ends, have
/// as many characters and agree in each of them, up to the case of ASCII letters. So a
/// target with another label in front of the expected name, or without one of its labels,
/// is not.
pub proof fn lemma_points_to(a: Seq<char>, b: Seq<char>, m: nat, n: nat)
    requires
        a.len() > 0 ==> a.last() != '.',
        b.len() > 0 ==> b.last() != '.',
    ensures
        points_to(a + Seq::new(m, |i: int| '.'), b + Seq::new(n, |i: int| '.')) <==> a.len()
            == b.len() && forall|i: int| 0 <= i < a.len() ==> same_letter(#[trigger] a[i], b[i]),
{
    lemma_without_dots(a, m);
    lemma_without_dots(b, n);
    lemma_lower_same(a, b);
}

proof fn lemma_without_dots(a: Seq<char>, n: nat)
    requires
        a.len() > 0 ==> a.last() != '.',
    ensures
        strip_back(a + Seq::new(n, |i: int| '.'), '.') == a,
{
    let s = a + Seq::new(n, |i: int| '.');
    let k = lemma_strip_back(s, '.');
    if k > a.len() {
        assert(s[k - 1] == '.');
    }
    if k < a.len() {
        assert(s[a.len() - 1] == '.');
        assert(s[a.len() - 1] == a.last());
    }
    assert(s.take(k) =~= a);
}

/// A delegation is in place exactly where there is a target and it is the domain without
/// its wildcard label, a dot and the zone; a look-up that failed or found nothing is none.
pub proof fn lemma_delegated(
    domain: Seq<char>,
    rest: Seq<char>,
    zone: Seq<char>,
    target: Result<Option<Seq<char>>, Seq<Seq<char>>>,
)
    ensures
        target is Err ==> !delegated(domain, zone, target),
        target is Ok && target->Ok_0 is None ==> !delegated(domain, zone, target),
        target is Ok && target->Ok_0 is Some && !(domain.len() >= 2 && domain[0] == '*' && domain[1]
            == '.') ==> (delegated(domain, zone, target) <==> points_to(
            target->Ok_0->0,
            domain + seq!['.'] + zone,
        )),
        target is Ok && target->Ok_0 is Some ==> (delegated(seq!['*', '.'] + rest, zone, target)
            <==> points_to(target->Ok_0->0, rest + seq!['.'] + zone)),
{
    lemma_challenge_name(domain, rest, zone);
}

/// The line about a domain says PASS exactly where its delegation is in place.
pub proof fn lemma_line_says(
    domain: Seq<char>,
    zone: Seq<char>,
    target: Result<Option<Seq<char>>, Seq<Seq<char>>>,
)
    ensures
        begins(check_line(domain, zone, target), "PASS"@) <==> delegated(domain, zone, target),
        begins(check_line(domain, zone, target), "FAIL"@) <==> !delegated(domain, zone, target),
{
    reveal_strlit("PASS");
    reveal_strlit("FAIL");
    reveal_strlit("PASS  ");
    reveal_strlit("FAIL  ");
    let line = check_line(domain, zone, target);
    assert(line.len() >= 6);
    let four = line.subrange(0, 4);
    assert(four[0] == line[0]);
    if delegated(domain, zone, target) {
        assert(line[0] == 'P');
        assert(four =~= "PASS"@);
    } else {
        assert(line[0] == 'F');
        assert(four =~= "FAIL"@);
    }
}

/// The record to add is the CNAME at `_acme-challenge` and the name that points at that
/// name, a dot and the zone.
pub proof fn lemma_record(domain: Seq<char>, rest: Seq<char>, zone: Seq<char>)
    ensures
        record_to_add(seq!['*', '.'] + rest, zone) == " — add: "@ + ("_acme-challenge."@ + rest)
            + " CNAME "@ + (rest + seq!['.'] + zone) + "."@,
        !(domain.len() >= 2 && domain[0] == '*' && domain[1] == '.') ==> record_to_add(domain, zone)
            == " — add: "@ + ("_acme-challenge."@ + domain) + " CNAME "@ + (domain + seq!['.']
            + zone) + "."@,
{
    lemma_challenge_name(domain, rest, zone);
}

/// The domains that are checked are those of every certificate, in their order.
pub proof fn lemma_all_domains(a: Seq<CertConfig>, b: Seq<CertConfig>)
    ensures
        all_domains(a + b) == all_domains(a) + all_domains(b),
        a.len() == 1 ==> all_domains(a) == texts(a[0].domains@),
    decreases b.len(),
{
    if b.len() == 0 {
        assert(a + b =~= a);
        assert(all_domains(a) + all_domains(b) =~= all_domains(a));
    } else {
        lemma_all_domains(a, b.drop_last());
        assert((a + b).drop_last() =~= a + b.drop_last());
        assert((a + b).last() == b.last());
        assert(all_domains(a) + all_domains(b.drop_last()) + texts(b.last().domains@)
            =~= all_domains(a) + (all_domains(b.drop_last()) + texts(b.last().domains@)));
    }
    if a.len() == 1 {
        reveal_with_fuel(all_domains, 2);
        assert(a.drop_last() =~= Seq::empty());
        assert(all_domains(a) =~= texts(a[0].domains@));
    }
}

/// What the reader is told of a check says PASS exactly where it passed, about the domain
/// that was looked up, and what fails once is not forgotten.
pub proof fn lemma_told(
    s: DoctorView,
    target: Result<Option<Seq<char>>, Seq<Seq<char>>>,
    probe: Result<(), Seq<Seq<char>>>,
)
    ensures
        s.phase is Checking && s.phase->Checking_0 < s.domains.len() ==> ({
            let (t, lines) = doctor_step(s, DoctorEvent::Target(target));
            let domain = s.domains[s.phase->Checking_0 as int];
            &&& lines.len() > 0
            &&& begins(lines[0], "PASS"@) <==> delegated(domain, s.zone, target)
            &&& !delegated(domain, s.zone, target) ==> ends(lines[0], record_to_add(domain, s.zone))
            &&& t.failed <==> s.failed || !delegated(domain, s.zone, target)
        }),
        s.phase is Probing ==> ({
            let (t, lines) = doctor_step(s, DoctorEvent::Probed(probe));
            &&& lines.len() > 0
            &&& begins(lines[0], "PASS"@) <==> probe is Ok
            &&& t.failed <==> s.failed || probe is Err
        }),
{
    if s.phase is Checking && s.phase->Checking_0 < s.domains.len() {
        let domain = s.domains[s.phase->Checking_0 as int];
        lemma_line_says(domain, s.zone, target);
        if !delegated(domain, s.zone, target) {
            lemma_failure_shows_record(domain, s.zone, target);
        }
    }
    if s.phase is Probing {
        reveal_strlit("PASS");
        reveal_strlit("PASS  TSIG write access to ");
        reveal_strlit("FAIL  TSIG write access to ");
        let line = probe_line(s.zone, probe);
        let four = line.subrange(0, 4);
        assert(four[0] == line[0]);
        if probe is Ok {
            assert(four =~= "PASS"@);
        } else {
            assert(line[0] == 'F');
        }
    }
}

} // verus!
