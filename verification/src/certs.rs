//! All certificates of a configuration, one after the other: which are due, which
//! fail, and what is run afterwards.

use vstd::prelude::*;
use vstd::string::*;

use crate::acme::days_view;
use crate::config::{CertConfig, Config};
use crate::failure::Failure;
use crate::lines::{done_view, line_opt, Line};
use crate::text::{
    cat2, cat4, cat6, decimal, decimal_text, join, joined, signed_decimal, signed_text,
    text_opt, texts,
};

verus! {

/// One certificate that may be due. `S` stands for a text.
#[derive(Debug)]
pub struct Job<S> {
    /// Its names, as the reader is told them.
    pub names: S,
    pub output_dir: S,
    pub reload_hook: Option<S>,
}

impl View for Job<String> {
    type V = Job<Seq<char>>;

    open spec fn view(&self) -> Job<Seq<char>> {
        Job {
            names: self.names@,
            output_dir: self.output_dir@,
            reload_hook: text_opt(self.reload_hook),
        }
    }
}

/// A certificate of a configuration as one that may be due.
pub open spec fn job_of(cert: CertConfig) -> Job<Seq<char>> {
    Job {
        names: joined(texts(cert.domains@), ", "@),
        output_dir: cert.output_dir@,
        reload_hook: text_opt(cert.reload_hook),
    }
}

/// How far a run has come. `F` stands for a failure and `I` for a place in a row.
#[derive(Debug)]
pub enum CertsPhase<F, I> {
    /// The challenge zone is to be opened.
    Opening,
    /// The account is to be loaded or created.
    Account,
    /// It is to be found out when this certificate ends.
    Checking(I),
    /// This certificate is to be issued.
    Issuing(I),
    /// The reload hook of this certificate is to be run.
    Hooking(I),
    /// Nothing is left to do.
    Done(Result<(), F>),
}

/// How far a run has come, as the contracts speak of it.
pub type CertsPhaseView = CertsPhase<Seq<Seq<char>>, nat>;

impl View for CertsPhase<Failure, usize> {
    type V = CertsPhaseView;

    open spec fn view(&self) -> CertsPhaseView {
        match *self {
            CertsPhase::Opening => CertsPhase::Opening,
            CertsPhase::Account => CertsPhase::Account,
            CertsPhase::Checking(i) => CertsPhase::Checking(i as nat),
            CertsPhase::Issuing(i) => CertsPhase::Issuing(i as nat),
            CertsPhase::Hooking(i) => CertsPhase::Hooking(i as nat),
            CertsPhase::Done(r) => CertsPhase::Done(done_view(r)),
        }
    }
}

/// How a reload hook came out. `S` stands for a text.
#[derive(Debug)]
pub enum HookEnd<S> {
    Success,
    /// It ended with this status.
    Exited(S),
    /// It was not started, and why.
    NotStarted(S),
}

/// What came of what was asked for. `S` stands for a text, `F` for a failure and `D`
/// for a number of days.
#[derive(Debug)]
pub enum CertsEvent<S, F, D> {
    /// It was done, or it failed.
    Did(Result<(), F>),
    /// The days until the certificate ends, where there is one.
    Days(Result<Option<D>, F>),
    /// How the reload hook came out.
    Hook(HookEnd<S>),
}

/// What came of what was asked for, as the contracts speak of it.
pub type CertsEventView = CertsEvent<Seq<char>, Seq<Seq<char>>, int>;

impl View for CertsEvent<String, Failure, i64> {
    type V = CertsEventView;

    open spec fn view(&self) -> CertsEventView {
        match *self {
            CertsEvent::Did(r) => CertsEvent::Did(done_view(r)),
            CertsEvent::Days(r) => CertsEvent::Days(days_view(r)),
            CertsEvent::Hook(HookEnd::Success) => CertsEvent::Hook(HookEnd::Success),
            CertsEvent::Hook(HookEnd::Exited(s)) => CertsEvent::Hook(HookEnd::Exited(s@)),
            CertsEvent::Hook(HookEnd::NotStarted(s)) => CertsEvent::Hook(HookEnd::NotStarted(s@)),
        }
    }
}

/// A run over all certificates.
#[derive(Debug)]
pub struct Certs {
    pub jobs: Vec<Job<String>>,
    /// Whether certificates that are not due are skipped.
    pub renew_only: bool,
    pub renew_before_days: i64,
    /// The places of the certificates that failed.
    pub failed: Vec<usize>,
    pub phase: CertsPhase<Failure, usize>,
}

/// A run over all certificates, as the contracts speak of it.
pub struct CertsView {
    pub jobs: Seq<Job<Seq<char>>>,
    pub renew_only: bool,
    pub renew_before_days: int,
    pub failed: Seq<nat>,
    pub phase: CertsPhaseView,
}

/// The views of a row of places.
pub open spec fn places(v: Seq<usize>) -> Seq<nat> {
    v.map_values(|i: usize| i as nat)
}

/// The views of a row of certificates that may be due.
pub open spec fn jobs_view(v: Seq<Job<String>>) -> Seq<Job<Seq<char>>> {
    v.map_values(|j: Job<String>| j@)
}

impl View for Certs {
    type V = CertsView;

    open spec fn view(&self) -> CertsView {
        CertsView {
            jobs: jobs_view(self.jobs@),
            renew_only: self.renew_only,
            renew_before_days: self.renew_before_days as int,
            failed: places(self.failed@),
            phase: self.phase@,
        }
    }
}

// ---- the course of a run -------------------------------------------------

impl CertsView {
    /// The same run in another phase.
    pub open spec fn in_phase(self, phase: CertsPhaseView) -> CertsView {
        CertsView { phase, ..self }
    }

    /// The run comes to the certificate at a place, or to its end.
    pub open spec fn turn(self, i: nat) -> CertsView {
        self.in_phase(
            if i < self.jobs.len() {
                if self.renew_only {
                    CertsPhase::Checking(i)
                } else {
                    CertsPhase::Issuing(i)
                }
            } else {
                CertsPhase::Done(self.result())
            },
        )
    }

    /// What the run comes to: success where nothing failed.
    pub open spec fn result(self) -> Result<(), Seq<Seq<char>>> {
        if self.failed.len() > 0 {
            Err(seq![decimal(self.failed.len()) + " certificate(s) failed"@])
        } else {
            Ok(())
        }
    }

    /// The certificate at a place failed.
    pub open spec fn failing(self, i: nat) -> CertsView {
        CertsView { failed: self.failed.push(i), ..self }
    }
}

/// The run of a configuration, before anything is done.
pub open spec fn certs_start(cfg: Config, renew_only: bool) -> CertsView {
    CertsView {
        jobs: cfg.certificates@.map_values(|c: CertConfig| job_of(c)),
        renew_only,
        renew_before_days: cfg.renew_before_days as int,
        failed: Seq::empty(),
        phase: if cfg.certificates@.len() == 0 {
            CertsPhase::Done(Err(seq!["no certificates configured"@]))
        } else {
            CertsPhase::Opening
        },
    }
}

/// A run and what the reader is told, once what it asked for came to `event`. An
/// event that answers nothing changes nothing.
pub open spec fn certs_step(s: CertsView, event: CertsEventView) -> (
    CertsView,
    Option<Line<Seq<char>>>,
) {
    match (s.phase, event) {
        (CertsPhase::Opening, CertsEvent::Did(Ok(_))) => (s.in_phase(CertsPhase::Account), None),
        (CertsPhase::Opening, CertsEvent::Did(Err(e))) => (
            s.in_phase(CertsPhase::Done(Err(e))),
            None,
        ),
        (CertsPhase::Account, CertsEvent::Did(Ok(_))) => (s.turn(0), None),
        (CertsPhase::Account, CertsEvent::Did(Err(e))) => (
            s.in_phase(CertsPhase::Done(Err(e))),
            None,
        ),
        (CertsPhase::Checking(i), CertsEvent::Days(days)) => if i < s.jobs.len() {
            match days {
                Ok(Some(left)) if left >= s.renew_before_days => (
                    s.turn(i + 1),
                    Some(
                        Line::Out(
                            "skip ["@ + s.jobs[i as int].names + "]: "@ + signed_decimal(left)
                                + " days left (renews at "@ + signed_decimal(s.renew_before_days)
                                + ")"@,
                        ),
                    ),
                ),
                Ok(_) => (s.in_phase(CertsPhase::Issuing(i)), None),
                Err(e) => (
                    s.in_phase(CertsPhase::Issuing(i)),
                    Some(Line::Warn("warning: cannot read existing cert, re-issuing: "@ + e[0])),
                ),
            }
        } else {
            (s, None)
        },
        (CertsPhase::Issuing(i), CertsEvent::Did(result)) => if i < s.jobs.len() {
            match result {
                Err(e) => (
                    s.failing(i).turn(i + 1),
                    Some(
                        Line::Warn(
                            "FAILED ["@ + s.jobs[i as int].names + "]: "@ + joined(e, ": "@),
                        ),
                    ),
                ),
                Ok(_) => match s.jobs[i as int].reload_hook {
                    Some(_) => (s.in_phase(CertsPhase::Hooking(i)), None),
                    None => (s.turn(i + 1), None),
                },
            }
        } else {
            (s, None)
        },
        (CertsPhase::Hooking(i), CertsEvent::Hook(end)) => if i < s.jobs.len()
            && s.jobs[i as int].reload_hook is Some {
            let hook = s.jobs[i as int].reload_hook->0;
            match end {
                HookEnd::Success => (
                    s.turn(i + 1),
                    Some(Line::Out("reload hook ok: "@ + hook)),
                ),
                HookEnd::Exited(status) => (
                    s.failing(i).turn(i + 1),
                    Some(Line::Warn("reload hook exited "@ + status + ": "@ + hook)),
                ),
                HookEnd::NotStarted(cause) => (
                    s.failing(i).turn(i + 1),
                    Some(Line::Warn("reload hook failed to start: "@ + cause)),
                ),
            }
        } else {
            (s, None)
        },
        _ => (s, None),
    }
}

/// Starts a run over all certificates of a configuration; with `renew_only`, over
/// those that are missing or due.
pub fn run_certs(cfg: &Config, renew_only: bool) -> (r: Certs)
    ensures
        r@ == certs_start(*cfg, renew_only),
{
    let mut jobs: Vec<Job<String>> = Vec::new();
    let mut i: usize = 0;
    let ghost all = cfg.certificates@.map_values(|c: CertConfig| job_of(c));
    while i < cfg.certificates.len()
        invariant
            i <= cfg.certificates@.len(),
            all == cfg.certificates@.map_values(|c: CertConfig| job_of(c)),
            jobs_view(jobs@) == all.take(i as int),
        decreases cfg.certificates@.len() - i,
    {
        let cert = &cfg.certificates[i];
        let ghost before = jobs@;
        let reload_hook = match &cert.reload_hook {
            Some(h) => Some(h.clone()),
            None => None,
        };
        jobs.push(
            Job {
                names: join(&cert.domains, ", "),
                output_dir: cert.output_dir.clone(),
                reload_hook,
            },
        );
        assert(jobs_view(jobs@) =~= jobs_view(before).push(all[i as int]));
        assert(all.take(i + 1) =~= all.take(i as int).push(all[i as int]));
        i = i + 1;
    }
    assert(all.take(i as int) =~= all);
    let phase = if cfg.certificates.len() == 0 {
        CertsPhase::Done(Err(Failure::new("no certificates configured".to_owned())))
    } else {
        CertsPhase::Opening
    };
    let r = Certs {
        jobs,
        renew_only,
        renew_before_days: cfg.renew_before_days,
        failed: Vec::new(),
        phase,
    };
    assert(places(r.failed@) =~= Seq::empty());
    r
}

impl Certs {
    /// The same run in another phase.
    fn in_phase(self, phase: CertsPhase<Failure, usize>) -> (r: Certs)
        ensures
            r@ == self@.in_phase(phase@),
    {
        Certs { phase, ..self }
    }

    /// The run comes to the certificate at a place, or to its end.
    fn turn(self, i: usize) -> (r: Certs)
        ensures
            r@ == self@.turn(i as nat),
    {
        let phase = if i < self.jobs.len() {
            if self.renew_only {
                CertsPhase::Checking(i)
            } else {
                CertsPhase::Issuing(i)
            }
        } else if self.failed.len() > 0 {
            CertsPhase::Done(
                Err(
                    Failure::new(
                        cat2(
                            decimal_text(self.failed.len() as u64).as_str(),
                            " certificate(s) failed",
                        ),
                    ),
                ),
            )
        } else {
            CertsPhase::Done(Ok(()))
        };
        self.in_phase(phase)
    }

    /// The certificate at a place failed.
    fn failing(self, i: usize) -> (r: Certs)
        ensures
            r@ == self@.failing(i as nat),
    {
        let mut failed = self.failed;
        let ghost before = failed@;
        failed.push(i);
        assert(places(failed@) =~= places(before).push(i as nat));
        Certs { failed, ..self }
    }

    /// The run and what the reader is told, once what it asked for came to `event`.
    /// An event that answers nothing changes nothing.
    pub fn step(self, event: CertsEvent<String, Failure, i64>) -> (r: (
        Certs,
        Option<Line<String>>,
    ))
        ensures
            (r.0@, line_opt(r.1)) == certs_step(self@, event@),
    {
        let Certs { jobs, renew_only, renew_before_days, failed, phase } = self;
        let s = Certs { jobs, renew_only, renew_before_days, failed, phase: CertsPhase::Opening };
        match (phase, event) {
            (CertsPhase::Opening, CertsEvent::Did(Ok(_))) => (
                s.in_phase(CertsPhase::Account),
                None,
            ),
            (CertsPhase::Opening, CertsEvent::Did(Err(f))) => (
                s.in_phase(CertsPhase::Done(Err(f))),
                None,
            ),
            (CertsPhase::Account, CertsEvent::Did(Ok(_))) => (s.turn(0), None),
            (CertsPhase::Account, CertsEvent::Did(Err(f))) => (
                s.in_phase(CertsPhase::Done(Err(f))),
                None,
            ),
            (CertsPhase::Checking(i), CertsEvent::Days(days)) => s.checked(i, days),
            (CertsPhase::Issuing(i), CertsEvent::Did(result)) => s.issued(i, result),
            (CertsPhase::Hooking(i), CertsEvent::Hook(end)) => s.hooked(i, end),
            (phase, _) => (s.in_phase(phase), None),
        }
    }

    /// It was found out when a certificate ends.
    fn checked(self, i: usize, days: Result<Option<i64>, Failure>) -> (r: (
        Certs,
        Option<Line<String>>,
    ))
        ensures
            (r.0@, line_opt(r.1)) == certs_step(
                self@.in_phase(CertsPhase::Checking(i as nat)),
                CertsEvent::Days(days_view(days)),
            ),
    {
        if i >= self.jobs.len() {
            return (self.in_phase(CertsPhase::Checking(i)), None);
        }
        match days {
            Ok(Some(left)) if left >= self.renew_before_days => {
                let mut line = cat6(
                    "skip [",
                    self.jobs[i].names.as_str(),
                    "]: ",
                    signed_text(left).as_str(),
                    " days left (renews at ",
                    signed_text(self.renew_before_days).as_str(),
                );
                line.append(")");
                (self.turn(i + 1), Some(Line::Out(line)))
            },
            Ok(_) => (self.in_phase(CertsPhase::Issuing(i)), None),
            Err(f) => {
                let line = cat2(
                    "warning: cannot read existing cert, re-issuing: ",
                    f.message().as_str(),
                );
                (self.in_phase(CertsPhase::Issuing(i)), Some(Line::Warn(line)))
            },
        }
    }

    /// A certificate was issued, or was not.
    fn issued(self, i: usize, result: Result<(), Failure>) -> (r: (Certs, Option<Line<String>>))
        ensures
            (r.0@, line_opt(r.1)) == certs_step(
                self@.in_phase(CertsPhase::Issuing(i as nat)),
                CertsEvent::Did(done_view(result)),
            ),
    {
        if i >= self.jobs.len() {
            return (self.in_phase(CertsPhase::Issuing(i)), None);
        }
        match result {
            Err(f) => {
                let line = cat4(
                    "FAILED [",
                    self.jobs[i].names.as_str(),
                    "]: ",
                    f.report().as_str(),
                );
                (self.failing(i).turn(i + 1), Some(Line::Warn(line)))
            },
            Ok(_) => if self.jobs[i].reload_hook.is_some() {
                (self.in_phase(CertsPhase::Hooking(i)), None)
            } else {
                (self.turn(i + 1), None)
            },
        }
    }

    /// A reload hook was run, or was not.
    fn hooked(self, i: usize, end: HookEnd<String>) -> (r: (Certs, Option<Line<String>>))
        ensures
            (r.0@, line_opt(r.1)) == certs_step(
                self@.in_phase(CertsPhase::Hooking(i as nat)),
                CertsEvent::<String, Failure, i64>::Hook(end)@,
            ),
    {
        if i >= self.jobs.len() {
            return (self.in_phase(CertsPhase::Hooking(i)), None);
        }
        let hook = match &self.jobs[i].reload_hook {
            Some(h) => h.clone(),
            None => return (self.in_phase(CertsPhase::Hooking(i)), None),
        };
        match end {
            HookEnd::Success => (
                self.turn(i + 1),
                Some(Line::Out(cat2("reload hook ok: ", hook.as_str()))),
            ),
            HookEnd::Exited(status) => (
                self.failing(i).turn(i + 1),
                Some(
                    Line::Warn(
                        cat4("reload hook exited ", status.as_str(), ": ", hook.as_str()),
                    ),
                ),
            ),
            HookEnd::NotStarted(cause) => (
                self.failing(i).turn(i + 1),
                Some(Line::Warn(cat2("reload hook failed to start: ", cause.as_str()))),
            ),
        }
    }
}

// ---- what is to be done --------------------------------------------------

/// What a run asks for. `S` stands for a text and `I` for a place in a row.
#[derive(Debug)]
pub enum CertsAction<S, I> {
    /// Open the challenge zone.
    OpenDns,
    /// Load the account, or create it.
    LoadAccount,
    /// Find out when the certificate in this directory ends.
    CheckExpiry(S),
    /// Issue the certificate at this place of the configuration.
    Issue(I),
    /// Run this command in a shell.
    RunHook(S),
    /// There is nothing to do.
    Rest,
}

impl View for CertsAction<String, usize> {
    type V = CertsAction<Seq<char>, nat>;

    open spec fn view(&self) -> CertsAction<Seq<char>, nat> {
        match *self {
            CertsAction::OpenDns => CertsAction::OpenDns,
            CertsAction::LoadAccount => CertsAction::LoadAccount,
            CertsAction::CheckExpiry(dir) => CertsAction::CheckExpiry(dir@),
            CertsAction::Issue(i) => CertsAction::Issue(i as nat),
            CertsAction::RunHook(hook) => CertsAction::RunHook(hook@),
            CertsAction::Rest => CertsAction::Rest,
        }
    }
}

/// What a run asks for in its phase.
pub open spec fn certs_action(s: CertsView) -> CertsAction<Seq<char>, nat> {
    match s.phase {
        CertsPhase::Opening => CertsAction::OpenDns,
        CertsPhase::Account => CertsAction::LoadAccount,
        CertsPhase::Checking(i) if i < s.jobs.len() => CertsAction::CheckExpiry(
            s.jobs[i as int].output_dir,
        ),
        CertsPhase::Issuing(i) if i < s.jobs.len() => CertsAction::Issue(i),
        CertsPhase::Hooking(i) if i < s.jobs.len() => match s.jobs[i as int].reload_hook {
            Some(hook) => CertsAction::RunHook(hook),
            None => CertsAction::Rest,
        },
        _ => CertsAction::Rest,
    }
}

impl Certs {
    /// What the run asks for in its phase.
    pub fn action(&self) -> (r: CertsAction<String, usize>)
        ensures
            r@ == certs_action(self@),
    {
        match &self.phase {
            CertsPhase::Opening => CertsAction::OpenDns,
            CertsPhase::Account => CertsAction::LoadAccount,
            CertsPhase::Checking(i) => if *i < self.jobs.len() {
                CertsAction::CheckExpiry(self.jobs[*i].output_dir.clone())
            } else {
                CertsAction::Rest
            },
            CertsPhase::Issuing(i) => if *i < self.jobs.len() {
                CertsAction::Issue(*i)
            } else {
                CertsAction::Rest
            },
            CertsPhase::Hooking(i) => if *i < self.jobs.len() {
                match &self.jobs[*i].reload_hook {
                    Some(hook) => CertsAction::RunHook(hook.clone()),
                    None => CertsAction::Rest,
                }
            } else {
                CertsAction::Rest
            },
            CertsPhase::Done(_) => CertsAction::Rest,
        }
    }
}

// ---- laws ----------------------------------------------------------------

/// How one certificate comes out, whatever of it is asked for.
pub struct CertEnd {
    pub days: Result<Option<int>, Seq<Seq<char>>>,
    pub issued: Result<(), Seq<Seq<char>>>,
    pub hook: HookEnd<Seq<char>>,
}

/// Whether a certificate is skipped: only certificates that are due are asked for, and
/// no fewer days are left than the configuration gives.
pub open spec fn skipped(s: CertsView, end: CertEnd) -> bool {
    &&& s.renew_only
    &&& end.days is Ok
    &&& end.days->Ok_0 is Some
    &&& end.days->Ok_0->0 >= s.renew_before_days
}

/// Whether a certificate fails: it is not skipped, and it is not issued or its reload
/// hook does not succeed.
pub open spec fn cert_fails(s: CertsView, i: int, end: CertEnd) -> bool {
    !skipped(s, end) && (end.issued is Err || (s.jobs[i].reload_hook is Some && !(end.hook
        is Success)))
}

/// What a run asks for at one certificate, and how it comes out.
pub open spec fn cert_events(s: CertsView, i: int, end: CertEnd) -> Seq<
    (CertsAction<Seq<char>, nat>, CertsEventView),
> {
    let check = if s.renew_only {
        seq![(CertsAction::CheckExpiry(s.jobs[i].output_dir), CertsEvent::Days(end.days))]
    } else {
        Seq::empty()
    };
    let issue = if skipped(s, end) {
        Seq::empty()
    } else {
        seq![(CertsAction::Issue(i as nat), CertsEvent::Did(end.issued))]
    };
    let hook = if !skipped(s, end) && end.issued is Ok && s.jobs[i].reload_hook is Some {
        seq![(CertsAction::RunHook(s.jobs[i].reload_hook->0), CertsEvent::Hook(end.hook))]
    } else {
        Seq::empty()
    };
    check + issue + hook
}

/// A run after a row of events, each of which answers what the run asks for.
pub open spec fn certs_run(
    s: CertsView,
    events: Seq<(CertsAction<Seq<char>, nat>, CertsEventView)>,
) -> Option<CertsView>
    decreases events.len(),
{
    if events.len() == 0 {
        Some(s)
    } else if events[0].0 != certs_action(s) {
        None
    } else {
        certs_run(certs_step(s, events[0].1).0, events.drop_first())
    }
}

proof fn lemma_run_concat(
    s: CertsView,
    a: Seq<(CertsAction<Seq<char>, nat>, CertsEventView)>,
    b: Seq<(CertsAction<Seq<char>, nat>, CertsEventView)>,
)
    ensures
        certs_run(s, a + b) == (match certs_run(s, a) {
            Some(t) => certs_run(t, b),
            None => None,
        }),
    decreases a.len(),
{
    if a.len() == 0 {
        assert(a + b =~= b);
    } else {
        assert((a + b).drop_first() =~= a.drop_first() + b);
        lemma_run_concat(certs_step(s, a[0].1).0, a.drop_first(), b);
    }
}

/// At one certificate a run asks when it ends, issues it and runs its hook, each only
/// where it is due: a certificate with no fewer days left than the configuration gives is
/// skipped, a hook is run only after the certificate was issued, and one that fails is
/// noted and does not keep the run from the next.
pub proof fn lemma_one_certificate(s: CertsView, i: nat, end: CertEnd)
    requires
        i < s.jobs.len(),
        s.phase == s.turn(i).phase,
    ensures
        certs_run(s, cert_events(s, i as int, end)) == Some(
            if cert_fails(s, i as int, end) {
                s.failing(i).turn(i + 1)
            } else {
                s.turn(i + 1)
            },
        ),
{
    reveal_with_fuel(certs_run, 4);
    let events = cert_events(s, i as int, end);
    if s.renew_only {
        assert(events[0] == (
            CertsAction::<Seq<char>, nat>::CheckExpiry(s.jobs[i as int].output_dir),
            CertsEvent::<Seq<char>, Seq<Seq<char>>, int>::Days(end.days),
        ));
    }
    assert(s.in_phase(CertsPhase::Issuing(i)).turn(i + 1) == s.turn(i + 1));
    assert(s.in_phase(CertsPhase::Hooking(i)).turn(i + 1) == s.turn(i + 1));
}

/// The places of the certificates that fail, up to a place.
pub open spec fn failing_places(s: CertsView, ends: Seq<CertEnd>, n: int) -> Seq<nat>
    decreases n,
{
    if n <= 0 {
        Seq::empty()
    } else if cert_fails(s, n - 1, ends[n - 1]) {
        failing_places(s, ends, n - 1).push((n - 1) as nat)
    } else {
        failing_places(s, ends, n - 1)
    }
}

/// What a run asks for at all certificates up to a place, and how it comes out.
pub open spec fn all_events(s: CertsView, ends: Seq<CertEnd>, n: int) -> Seq<
    (CertsAction<Seq<char>, nat>, CertsEventView),
>
    decreases n,
{
    if n <= 0 {
        Seq::empty()
    } else {
        all_events(s, ends, n - 1) + cert_events(s, n - 1, ends[n - 1])
    }
}

proof fn lemma_certificates(s: CertsView, ends: Seq<CertEnd>, n: int)
    requires
        0 <= n <= s.jobs.len() == ends.len(),
        s.phase == s.turn(0).phase,
        s.failed.len() == 0,
    ensures
        certs_run(s, all_events(s, ends, n)) == Some(
            (CertsView { failed: failing_places(s, ends, n), ..s }).turn(n as nat),
        ),
    decreases n,
{
    let done = CertsView { failed: failing_places(s, ends, n), ..s };
    if n == 0 {
        assert(s.failed =~= Seq::empty());
    } else {
        lemma_certificates(s, ends, n - 1);
        let before = (CertsView { failed: failing_places(s, ends, n - 1), ..s }).turn(
            (n - 1) as nat,
        );
        let end = ends[n - 1];
        lemma_run_concat(s, all_events(s, ends, n - 1), cert_events(s, n - 1, end));
        assert(cert_events(s, n - 1, end) =~= cert_events(before, n - 1, end));
        lemma_one_certificate(before, (n - 1) as nat, end);
        assert(before.turn(n as nat) == (CertsView {
            failed: failing_places(s, ends, n - 1),
            ..s
        }).turn(n as nat));
    }
}

/// A run takes every certificate once, in order, whatever comes of the others, and
/// succeeds exactly where none fails.
pub proof fn lemma_run_certs(s: CertsView, ends: Seq<CertEnd>)
    requires
        s.jobs.len() == ends.len(),
        s.phase == s.turn(0).phase,
        s.failed.len() == 0,
    ensures
        ({
            let end = certs_run(s, all_events(s, ends, ends.len() as int));
            &&& end is Some
            &&& end->0.phase is Done
            &&& end->0.failed == failing_places(s, ends, ends.len() as int)
            &&& end->0.phase->Done_0 is Ok <==> forall|i: int|
                0 <= i < ends.len() ==> !cert_fails(s, i, #[trigger] ends[i])
        }),
{
    lemma_certificates(s, ends, ends.len() as int);
    lemma_no_failures(s, ends, ends.len() as int);
}

/// A run comes to its certificates once the challenge zone is open and the account is
/// there, and asks for nothing of the certificate authority where either fails.
pub proof fn lemma_run_begins(
    cfg: Config,
    renew_only: bool,
    opened: Result<(), Seq<Seq<char>>>,
    account: Result<(), Seq<Seq<char>>>,
)
    requires
        cfg.certificates@.len() > 0,
    ensures
        ({
            let start = certs_start(cfg, renew_only);
            let one = certs_step(start, CertsEvent::Did(opened)).0;
            let two = certs_step(one, CertsEvent::Did(account)).0;
            &&& certs_action(start) is OpenDns
            &&& opened is Err ==> one.phase is Done && one.phase->Done_0 is Err
            &&& opened is Ok ==> certs_action(one) is LoadAccount
            &&& opened is Ok && account is Err ==> two.phase is Done && two.phase->Done_0 is Err
            &&& opened is Ok && account is Ok ==> two == start.turn(0) && two.failed.len() == 0
        }),
{
}

proof fn lemma_no_failures(s: CertsView, ends: Seq<CertEnd>, n: int)
    requires
        0 <= n <= ends.len(),
    ensures
        failing_places(s, ends, n).len() == 0 <==> forall|i: int|
            0 <= i < n ==> !cert_fails(s, i, #[trigger] ends[i]),
    decreases n,
{
    if n > 0 {
        lemma_no_failures(s, ends, n - 1);
        if failing_places(s, ends, n).len() == 0 {
            assert forall|i: int| 0 <= i < n implies !cert_fails(s, i, #[trigger] ends[i]) by {
                if i < n - 1 {
                    assert(!cert_fails(s, i, ends[i]));
                }
            }
        } else {
            if forall|i: int| 0 <= i < n ==> !cert_fails(s, i, #[trigger] ends[i]) {
                assert(!cert_fails(s, n - 1, ends[n - 1]));
                assert forall|i: int| 0 <= i < n - 1 implies !cert_fails(
                    s,
                    i,
                    #[trigger] ends[i],
                ) by {}
            }
        }
    }
}

/// A renewal takes a certificate with fewer days left than the configuration gives, and
/// skips one with as many or more. One that is missing or cannot be read is taken.
pub proof fn lemma_due_is_renewed(s: CertsView, end: CertEnd)
    requires
        s.renew_only,
    ensures
        match end.days {
            Ok(Some(left)) => skipped(s, end) <==> !(left < s.renew_before_days),
            Ok(None) => !skipped(s, end),
            Err(_) => !skipped(s, end),
        },
{
}

/// A run has one place for each certificate of its configuration, in the same order, with
/// that certificate's names, directory and hook.
pub proof fn lemma_jobs(cfg: Config, renew_only: bool, i: int)
    requires
        0 <= i < cfg.certificates@.len(),
    ensures
        ({
            let jobs = certs_start(cfg, renew_only).jobs;
            let cert = cfg.certificates@[i];
            &&& jobs.len() == cfg.certificates@.len()
            &&& jobs[i].names == joined(texts(cert.domains@), ", "@)
            &&& jobs[i].output_dir == cert.output_dir@
            &&& jobs[i].reload_hook is Some <==> cert.reload_hook is Some
            &&& cert.reload_hook is Some ==> jobs[i].reload_hook->0 == cert.reload_hook->0@
        }),
{
}

/// Whether a certificate is taken: all are, but for those that a renewal finds with no
/// fewer days left than the configuration gives.
pub open spec fn taken(cfg: Config, renew_only: bool, end: CertEnd) -> bool {
    match end.days {
        Ok(Some(left)) => !renew_only || left < cfg.renew_before_days,
        _ => true,
    }
}

/// What is asked for at one certificate of a configuration, and how it comes out: a
/// renewal asks when the certificate in its directory ends; one that is taken is issued;
/// and its hook is run once it was.
pub open spec fn cert_course(cfg: Config, renew_only: bool, i: int, end: CertEnd) -> Seq<
    (CertsAction<Seq<char>, nat>, CertsEventView),
> {
    let cert = cfg.certificates@[i];
    (if renew_only {
        seq![(CertsAction::CheckExpiry(cert.output_dir@), CertsEvent::Days(end.days))]
    } else {
        Seq::empty()
    }) + (if taken(cfg, renew_only, end) {
        seq![(CertsAction::Issue(i as nat), CertsEvent::Did(end.issued))]
    } else {
        Seq::empty()
    }) + (if taken(cfg, renew_only, end) && end.issued is Ok && cert.reload_hook is Some {
        seq![(CertsAction::RunHook(cert.reload_hook->0@), CertsEvent::Hook(end.hook))]
    } else {
        Seq::empty()
    })
}

/// What is asked for at the certificates of a configuration up to a place, one after the
/// other.
pub open spec fn course(cfg: Config, renew_only: bool, ends: Seq<CertEnd>, n: int) -> Seq<
    (CertsAction<Seq<char>, nat>, CertsEventView),
>
    decreases n,
{
    if n <= 0 {
        Seq::empty()
    } else {
        course(cfg, renew_only, ends, n - 1) + cert_course(cfg, renew_only, n - 1, ends[n - 1])
    }
}

/// Whether a certificate of a configuration fails: it is taken, and is not issued or its
/// hook does not succeed.
pub open spec fn fails(cfg: Config, renew_only: bool, i: int, end: CertEnd) -> bool {
    taken(cfg, renew_only, end) && (end.issued is Err || (cfg.certificates@[i].reload_hook is Some
        && !(end.hook is Success)))
}

/// How many certificates up to a place fail.
pub open spec fn failures(cfg: Config, renew_only: bool, ends: Seq<CertEnd>, n: int) -> nat
    decreases n,
{
    if n <= 0 {
        0
    } else {
        failures(cfg, renew_only, ends, n - 1) + (if fails(cfg, renew_only, n - 1, ends[n - 1]) {
            1nat
        } else {
            0nat
        })
    }
}

proof fn lemma_course(cfg: Config, renew_only: bool, ends: Seq<CertEnd>, n: int)
    requires
        0 <= n <= ends.len() == cfg.certificates@.len(),
    ensures
        course(cfg, renew_only, ends, n) == all_events(
            certs_start(cfg, renew_only).turn(0),
            ends,
            n,
        ),
        failures(cfg, renew_only, ends, n) == failing_places(
            certs_start(cfg, renew_only).turn(0),
            ends,
            n,
        ).len(),
    decreases n,
{
    if n > 0 {
        lemma_course(cfg, renew_only, ends, n - 1);
        lemma_jobs(cfg, renew_only, n - 1);
        let s = certs_start(cfg, renew_only).turn(0);
        let end = ends[n - 1];
        assert(skipped(s, end) <==> !taken(cfg, renew_only, end));
        assert(cert_events(s, n - 1, end) =~= cert_course(cfg, renew_only, n - 1, end));
    }
}

/// A run of a configuration opens the challenge zone, loads the account, and then takes
/// each certificate in turn, with that certificate's own directory and hook. It succeeds
/// exactly where none fails, and else says how many did.
pub proof fn lemma_run_of_configuration(cfg: Config, renew_only: bool, ends: Seq<CertEnd>)
    requires
        ends.len() == cfg.certificates@.len(),
        ends.len() > 0,
    ensures
        ({
            let n = ends.len() as int;
            let events = seq![
                (CertsAction::<Seq<char>, nat>::OpenDns, CertsEventView::Did(Ok(()))),
                (CertsAction::<Seq<char>, nat>::LoadAccount, CertsEventView::Did(Ok(()))),
            ] + course(cfg, renew_only, ends, n);
            let end = certs_run(certs_start(cfg, renew_only), events);
            let k = failures(cfg, renew_only, ends, n);
            &&& end is Some
            &&& end->0.phase is Done
            &&& k == 0 ==> end->0.phase->Done_0 is Ok
            &&& k > 0 ==> end->0.phase->Done_0 == Err::<(), Seq<Seq<char>>>(
                seq![decimal(k) + " certificate(s) failed"@],
            )
        }),
{
    let n = ends.len() as int;
    let start = certs_start(cfg, renew_only);
    let first = seq![
        (CertsAction::<Seq<char>, nat>::OpenDns, CertsEventView::Did(Ok(()))),
        (CertsAction::<Seq<char>, nat>::LoadAccount, CertsEventView::Did(Ok(()))),
    ];
    lemma_run_concat(start, first, course(cfg, renew_only, ends, n));
    reveal_with_fuel(certs_run, 3);
    assert(first.drop_first().drop_first() =~= Seq::empty());
    assert(certs_run(start, first) == Some(start.turn(0)));
    lemma_course(cfg, renew_only, ends, n);
    lemma_certificates(start.turn(0), ends, n);
}

} // verus!
