//! Laws of what the reader is told, and of how a failure is passed on.

use vstd::prelude::*;
use vstd::string::*;

use crate::acme::{chain_end, days_result, store_plan, StoreStepView};
use crate::addr::{addr_form, host_part, port_part};
use crate::bindings::{ascii_name, base64_error, certificate_end, pem_contents};
use crate::certs::{certs_step, CertsEvent, CertsPhase, CertsView, HookEnd};
use crate::check::{check_step, look_failure, CheckEvent, CheckPhase, CheckView};
use crate::config::{Config, DnsConfig};
use crate::confirm::{
    confirm_answered, confirm_rested, probe_step, probe_value, Confirming, Probing,
};
use crate::dns::{
    lookup_result, stage, stage_of_resolver, stage_with_updater, txt_name, Lookup, Stage, Update,
    UpdateKind,
};
use crate::dns_laws::lemma_challenge_name;
use crate::doctor::{check_line, delegated, record_to_add};
use crate::encoding::base64_text;
use crate::lines::Line;
use crate::order::{issue_step, Event, IssueView, Phase};
use crate::query::{owner_stage, signer_failure, Exchange, QueryStage, RecordKind};
use crate::prompt::{confirm_text, consent, lemma_yes};
use crate::setup::{setup_step, state_dir_in, ConfigStep, Question, SetupView};
use crate::text::{
    begins, decimal, ends, joined, lower, occurs, port_value, signed_decimal, trimmed,
};
use crate::text_laws::{lemma_decimal, lemma_occurs_in};

verus! {

proof fn lemma_front(p: Seq<char>, rest: Seq<char>)
    ensures
        begins(p + rest, p),
{
    assert((p + rest).subrange(0, p.len() as int) =~= p);
}

proof fn lemma_back(front: Seq<char>, p: Seq<char>)
    ensures
        ends(front + p, p),
{
    let s = front + p;
    assert(s.subrange(s.len() - p.len(), s.len() as int) =~= p);
}

// ---- confirmation and probe ----------------------------------------------

/// One answer ends a confirmation exactly where it is a failure, which is passed on, or
/// holds the value itself. Any other leaves one question fewer, and after the last of
/// them the reader is told the name and the zone.
pub proof fn lemma_confirm_step(
    left: u8,
    name: Seq<char>,
    value: Seq<char>,
    zone: Seq<char>,
    answer: Result<Seq<Seq<char>>, Seq<Seq<char>>>,
)
    requires
        left > 0,
    ensures
        ({
            let one = confirm_answered(Confirming::Ask(left), value, answer);
            let two = confirm_rested(one, name, zone);
            &&& one is Served <==> answer is Ok && exists|i: int|
                0 <= i < answer->Ok_0.len() && answer->Ok_0[i] == value
            &&& answer is Err ==> one == Confirming::Failed(answer->Err_0) && two == one
            &&& one is Served ==> two is Served
            &&& !(one is Served) && answer is Ok && left > 1 ==> two == Confirming::<
                Seq<Seq<char>>,
            >::Ask((left - 1) as u8)
            &&& !(one is Served) && answer is Ok && left == 1 ==> two is Failed
                && two->Failed_0.len() == 1 && begins(two->Failed_0[0], "TXT "@ + name) && ends(
                two->Failed_0[0],
                zone,
            )
        }),
{
    let one = confirm_answered(Confirming::Ask(left), value, answer);
    let two = confirm_rested(one, name, zone);
    if answer is Ok && answer->Ok_0.contains(value) {
        let i = choose|i: int| 0 <= i < answer->Ok_0.len() && answer->Ok_0[i] == value;
        assert(answer->Ok_0[i] == value);
    }
    if !(one is Served) && answer is Ok && left == 1 {
        let middle =
            " was accepted but the update server does not serve it — check that this server is authoritative for "@;
        let text = two->Failed_0[0];
        assert(text =~= "TXT "@ + name + middle + zone);
        assert(text =~= ("TXT "@ + name) + (middle + zone));
        lemma_front("TXT "@ + name, middle + zone);
        lemma_back("TXT "@ + name + middle, zone);
    }
}

/// A probe passes on the failure of the step that failed, and where both confirming and
/// removing the record fail, that of removing it.
pub proof fn lemma_probe_failure(
    added: Result<(), Seq<Seq<char>>>,
    confirmed: Result<(), Seq<Seq<char>>>,
    cleared: Result<(), Seq<Seq<char>>>,
)
    ensures
        ({
            let end = probe_step(probe_step(probe_step(Probing::Add, added), confirmed), cleared);
            &&& added is Err ==> end == Probing::<Seq<Seq<char>>>::Done(added)
            &&& added is Ok && cleared is Err ==> end == Probing::<Seq<Seq<char>>>::Done(cleared)
            &&& added is Ok && cleared is Ok ==> end == Probing::<Seq<Seq<char>>>::Done(confirmed)
        }),
{
}

/// The probe records of two processes differ.
pub proof fn lemma_probe_values(a: u32, b: u32)
    ensures
        a != b ==> probe_value(a) != probe_value(b),
        begins(probe_value(a), "dnsvcert-probe-"@),
{
    lemma_decimal(a as nat);
    lemma_decimal(b as nat);
    let front = "dnsvcert-probe-"@;
    lemma_front(front, decimal(a as nat));
    if probe_value(a) == probe_value(b) {
        assert(probe_value(a).skip(front.len() as int) =~= decimal(a as nat));
        assert(probe_value(b).skip(front.len() as int) =~= decimal(b as nat));
    }
}

// ---- a run over all certificates -----------------------------------------

/// A certificate that is skipped is named, with its own days and those of the
/// configuration; one that cannot be read is told with the cause, and nothing is told of
/// one that is missing or due.
pub proof fn lemma_skip_told(s: CertsView, i: nat, days: Result<Option<int>, Seq<Seq<char>>>)
    requires
        s.phase == CertsPhase::<Seq<Seq<char>>, nat>::Checking(i),
        i < s.jobs.len(),
    ensures
        ({
            let told = certs_step(s, CertsEvent::Days(days)).1;
            &&& days matches Ok(Some(left)) ==> if left >= s.renew_before_days {
                &&& told is Some && told->0 is Out
                &&& begins(
                    told->0->Out_0,
                    "skip ["@ + s.jobs[i as int].names + "]: "@ + signed_decimal(left)
                        + " days left (renews at "@,
                )
                &&& ends(told->0->Out_0, signed_decimal(s.renew_before_days) + ")"@)
            } else {
                told is None
            }
            &&& days matches Ok(None) ==> told is None
            &&& days matches Err(e) ==> told is Some && told->0 is Warn && ends(
                told->0->Warn_0,
                e[0],
            )
        }),
{
    let told = certs_step(s, CertsEvent::Days(days)).1;
    match days {
        Ok(Some(left)) => {
            if left >= s.renew_before_days {
                let front = "skip ["@ + s.jobs[i as int].names + "]: "@ + signed_decimal(left)
                    + " days left (renews at "@;
                let back = signed_decimal(s.renew_before_days) + ")"@;
                assert(told->0->Out_0 =~= front + back);
                lemma_front(front, back);
                lemma_back(front, back);
            }
        },
        Ok(None) => {},
        Err(e) => {
            lemma_back("warning: cannot read existing cert, re-issuing: "@, e[0]);
        },
    }
}

/// A certificate that fails is named with all causes, and one that does not is passed
/// over in silence.
pub proof fn lemma_failed_told(s: CertsView, i: nat, result: Result<(), Seq<Seq<char>>>)
    requires
        s.phase == CertsPhase::<Seq<Seq<char>>, nat>::Issuing(i),
        i < s.jobs.len(),
    ensures
        ({
            let told = certs_step(s, CertsEvent::Did(result)).1;
            &&& result is Ok ==> told is None
            &&& result matches Err(e) ==> told is Some && told->0 is Warn && begins(
                told->0->Warn_0,
                "FAILED ["@ + s.jobs[i as int].names + "]: "@,
            ) && ends(told->0->Warn_0, joined(e, ": "@))
        }),
{
    if let Err(e) = result {
        let front = "FAILED ["@ + s.jobs[i as int].names + "]: "@;
        lemma_front(front, joined(e, ": "@));
        lemma_back(front, joined(e, ": "@));
    }
}

/// Where a reload hook did not succeed, the reader is warned with its status and the
/// command, or with the cause.
pub proof fn lemma_hook_told(s: CertsView, i: nat, end: HookEnd<Seq<char>>, hook: Seq<char>)
    requires
        s.phase == CertsPhase::<Seq<Seq<char>>, nat>::Hooking(i),
        i < s.jobs.len(),
        s.jobs[i as int].reload_hook == Some(hook),
    ensures
        ({
            let told = certs_step(s, CertsEvent::Hook(end)).1;
            &&& told is Some
            &&& told->0 is Out <==> end is Success
            &&& end is Success ==> ends(told->0->Out_0, ": "@ + hook)
            &&& end matches HookEnd::Exited(status) ==> told->0 is Warn && ends(
                told->0->Warn_0,
                " "@ + status + ": "@ + hook,
            )
            &&& end matches HookEnd::NotStarted(cause) ==> told->0 is Warn && ends(
                told->0->Warn_0,
                ": "@ + cause,
            )
        }),
{
    let told = certs_step(s, CertsEvent::Hook(end)).1;
    reveal_strlit(": ");
    reveal_strlit(" ");
    match end {
        HookEnd::Success => {
            reveal_strlit("reload hook ok: ");
            let front = "reload hook ok: "@.take(14);
            assert("reload hook ok: "@ =~= front + ": "@);
            assert(told->0->Out_0 =~= front + (": "@ + hook));
            lemma_back(front, ": "@ + hook);
        },
        HookEnd::Exited(status) => {
            reveal_strlit("reload hook exited ");
            let front = "reload hook exited "@.take(18);
            assert("reload hook exited "@ =~= front + " "@);
            assert(told->0->Warn_0 =~= front + (" "@ + status + ": "@ + hook));
            lemma_back(front, " "@ + status + ": "@ + hook);
        },
        HookEnd::NotStarted(cause) => {
            reveal_strlit("reload hook failed to start: ");
            let front = "reload hook failed to start: "@.take(27);
            assert("reload hook failed to start: "@ =~= front + ": "@);
            assert(told->0->Warn_0 =~= front + (": "@ + cause));
            lemma_back(front, ": "@ + cause);
        },
    }
}

/// Where the challenge zone cannot be opened or there is no account, the run ends with
/// that failure.
pub proof fn lemma_run_stops(s: CertsView, e: Seq<Seq<char>>)
    ensures
        s.phase is Opening || s.phase is Account ==> certs_step(
            s,
            CertsEvent::Did(Err(e)),
        ).0.phase == CertsPhase::<Seq<Seq<char>>, nat>::Done(Err(e)),
{
}

// ---- the checks of a setup -----------------------------------------------

/// A target that was found is shown as what the CNAME points at, and the name in the
/// challenge zone as what was expected.
pub proof fn lemma_found_shown(name: Seq<char>, zone: Seq<char>, found: Seq<char>)
    requires
        !(name.len() >= 2 && name[0] == '*' && name[1] == '.'),
    ensures
        ends(
            look_failure(name, zone, Ok(Some(found)))[0],
            " points at "@ + found + ", expected "@ + (name + seq!['.'] + zone),
        ),
        !delegated(name, zone, Ok(Some(found))) ==> occurs(
            check_line(name, zone, Ok(Some(found))),
            " points at "@ + found + ", expected "@ + (name + seq!['.'] + zone),
        ),
{
    lemma_challenge_name(name, Seq::empty(), zone);
    let front = "FAIL  "@ + ("_acme-challenge."@ + name);
    let back = " points at "@ + found + ", expected "@ + (name + seq!['.'] + zone);
    lemma_back(front, back);
    assert(look_failure(name, zone, Ok(Some(found)))[0] =~= front + back) by {
        reveal_strlit("*.");
        assert(crate::dns::base_name(name) =~= name);
    }
    if !delegated(name, zone, Ok(Some(found))) {
        let record = record_to_add(name, zone);
        assert(check_line(name, zone, Ok(Some(found))) =~= front + back + record);
        lemma_occurs_in(front, back, record);
    }
}

/// A name whose delegation is in place is named itself, and a setup whose challenge zone
/// cannot be opened ends with that failure.
pub proof fn lemma_pass_told(
    s: CheckView,
    target: Result<Option<Seq<char>>, Seq<Seq<char>>>,
    e: Seq<Seq<char>>,
)
    ensures
        s.phase is Looking && s.phase->Looking_0 < s.bases.len() && delegated(
            s.bases[s.phase->Looking_0 as int],
            s.zone,
            target,
        ) ==> ({
            let told = check_step(s, CheckEvent::Target(target)).1;
            let base = s.bases[s.phase->Looking_0 as int];
            told.len() > 0 && told[0] == "PASS  "@ + ("_acme-challenge."@ + base) + " -> "@
                + txt_name(base, s.zone)
        }),
        s.phase is Opening ==> check_step(s, CheckEvent::Opened(Err(e))).0.phase == CheckPhase::<
            Seq<Seq<char>>,
            nat,
        >::Done(Err(e)),
        s.phase is Probing ==> ({
            let told = check_step(s, CheckEvent::Did(Err(e))).1;
            told.len() == 2 && ends(told[0], joined(e, ": "@)) && ends(told[1], s.config_path)
        }),
{
    lemma_back("FAIL  cannot write to "@ + s.zone + ": "@, joined(e, ": "@));
    lemma_back("      check dns.server / tsig_key / tsig_secret in "@, s.config_path);
}

/// After the request the reader is told that it is done, or every cause of its failure;
/// either way with the configuration file in the command that goes on.
pub proof fn lemma_outcome_told(s: CheckView, result: Result<(), Seq<Seq<char>>>)
    requires
        s.phase is Issuing,
    ensures
        ({
            let told = check_step(s, CheckEvent::Did(result)).1;
            &&& told.len() == 2
            &&& begins(told[0], "\nDone."@) <==> result is Ok
            &&& result matches Err(e) ==> ends(told[0], ": "@ + joined(e, ": "@))
            &&& result is Ok ==> ends(told[1], "dnsvcert -c "@ + s.config_path + " renew"@)
            &&& result is Err ==> ends(told[1], "dnsvcert -c "@ + s.config_path + " issue"@)
        }),
{
    let told = check_step(s, CheckEvent::Did(result)).1;
    reveal_strlit("\nDone.");
    reveal_strlit("dnsvcert -c ");
    match result {
        Ok(_) => {
            reveal_strlit("\nDone. Renewal is automatic once you schedule it, e.g. cron:");
            assert(told[0].subrange(0, 6) =~= "\nDone."@);
            reveal_strlit("  17 3 * * *  root  dnsvcert -c ");
            let front = "  17 3 * * *  root  dnsvcert -c "@.take(20);
            assert("  17 3 * * *  root  dnsvcert -c "@ =~= front + "dnsvcert -c "@);
            let back = "dnsvcert -c "@ + s.config_path + " renew"@;
            assert(told[1] =~= front + back);
            lemma_back(front, back);
        },
        Err(e) => {
            reveal_strlit("\nIssuance failed: ");
            reveal_strlit(": ");
            assert(told[0][1] == 'I');
            if begins(told[0], "\nDone."@) {
                assert(told[0].subrange(0, 6)[1] == 'D');
            }
            let first = "\nIssuance failed: "@.take(16);
            assert("\nIssuance failed: "@ =~= first + ": "@);
            assert(told[0] =~= first + (": "@ + joined(e, ": "@)));
            lemma_back(first, ": "@ + joined(e, ": "@));
            reveal_strlit("Fix the cause and run: dnsvcert -c ");
            let front = "Fix the cause and run: dnsvcert -c "@.take(23);
            assert("Fix the cause and run: dnsvcert -c "@ =~= front + "dnsvcert -c "@);
            let back = "dnsvcert -c "@ + s.config_path + " issue"@;
            assert(told[1] =~= front + back);
            lemma_back(front, back);
        },
    }
}

// ---- an order ------------------------------------------------------------

/// What the reader is told names the record that it is about: the one that was confirmed,
/// the one that the resolver does not show, the one that could not be removed. At the end
/// it names the domains and the directory.
pub proof fn lemma_order_told(s: IssueView, e: Seq<Seq<char>>)
    ensures
        s.phase matches Phase::Confirming { name, value } ==> issue_step(
            s,
            Event::Did(Ok(())),
        ).1 == Some(Line::Out("TXT "@ + name + " in place"@)),
        s.phase matches Phase::Watching(i) ==> i < s.pending.len() ==> ({
            let told = issue_step(s, Event::Seen(false)).1;
            &&& told is Some && told->0 is Out
            &&& begins(told->0->Out_0, "note: "@ + s.pending[i as int].0)
            &&& issue_step(s, Event::Seen(true)).1 is None
        }),
        s.phase matches Phase::Clearing { at, outcome } ==> at < s.cleanup.len() ==> ({
            let told = issue_step(s, Event::Did(Err(e))).1;
            &&& told is Some && told->0 is Warn
            &&& ends(told->0->Warn_0, " TXT "@ + s.cleanup[at as int] + ": "@ + e[0])
            &&& issue_step(s, Event::Did(Ok(()))).1 is None
        }),
        s.phase is WritingChain ==> ({
            let told = issue_step(s, Event::Did(Ok(()))).1;
            &&& told is Some && told->0 is Out
            &&& occurs(told->0->Out_0, "["@ + joined(s.domains, ", "@) + "]"@)
            &&& ends(told->0->Out_0, " into "@ + s.output_dir)
        }),
{
    match s.phase {
        Phase::Watching(i) => {
            if i < s.pending.len() {
                let name = s.pending[i as int].0;
                let rest =
                    " is not visible via your configured resolver yet (negative caching); proceeding — the CA queries the authoritative servers itself. Lower the challenge zone's SOA minimum (60s) if this keeps happening."@;
                lemma_front("note: "@ + name, rest);
            }
        },
        Phase::Clearing { at, outcome } => {
            if at < s.cleanup.len() {
                let told = issue_step(s, Event::Did(Err(e))).1;
                reveal_strlit("warning: could not clean up TXT ");
                reveal_strlit(" TXT ");
                let front = "warning: could not clean up TXT "@.take(27);
                assert("warning: could not clean up TXT "@ =~= front + " TXT "@);
                let back = " TXT "@ + s.cleanup[at as int] + ": "@ + e[0];
                assert(told->0->Warn_0 =~= front + back);
                lemma_back(front, back);
            }
        },
        Phase::WritingChain { chain } => {
            let told = issue_step(s, Event::Did(Ok(()))).1;
            reveal_strlit("issued certificate for [");
            reveal_strlit("] into ");
            reveal_strlit("[");
            reveal_strlit("]");
            reveal_strlit(" into ");
            let first = "issued certificate for ["@.take(23);
            assert("issued certificate for ["@ =~= first + "["@);
            assert("] into "@ =~= "]"@ + " into "@);
            let middle = "["@ + joined(s.domains, ", "@) + "]"@;
            let back = " into "@ + s.output_dir;
            assert(told->0->Out_0 =~= first + middle + back);
            lemma_occurs_in(first, middle, back);
            lemma_back(first + middle, back);
        },
        _ => {},
    }
}

/// The failure that an order in this state ends with, if it is to end with one.
pub open spec fn failure(s: IssueView) -> Option<Seq<Seq<char>>> {
    match s.phase {
        Phase::Done(Err(e)) => Some(e),
        Phase::Clearing { outcome: Err(e), .. } => Some(e),
        _ => None,
    }
}

/// Where what an order asked for fails, other than the removal of a record, the order ends
/// with that failure: its causes come last, after at most one more of the order's own.
pub proof fn lemma_cause_kept(s: IssueView, e: Seq<Seq<char>>)
    ensures
        s.phase is Placing || s.phase is Adding || s.phase is Confirming || s.phase is SettingReady
            || s.phase is MakingDir || s.phase is WritingKey || s.phase is WritingChain
            ==> passes_on(issue_step(s, Event::Did(Err(e))).0, e),
        s.phase is Authorizing || s.phase is Readying ==> passes_on(
            issue_step(s, Event::Unfetched(e)).0,
            e,
        ),
        s.phase is Polling ==> passes_on(issue_step(s, Event::Status(Err(e))).0, e),
        s.phase is Finalizing || s.phase is Downloading ==> passes_on(
            issue_step(s, Event::Text(Err(e))).0,
            e,
        ),
{
    let own = seq!["cannot create ACME order"@];
    assert((own + e).skip(1) =~= e);
    assert((seq!["finalize failed"@] + e).skip(1) =~= e);
    assert((seq!["certificate download failed"@] + e).skip(1) =~= e);
    assert((seq!["cannot create output_dir "@ + s.output_dir] + e).skip(1) =~= e);
}

/// Whether an order ends with a failure whose causes are `e`, after at most one more.
pub open spec fn passes_on(s: IssueView, e: Seq<Seq<char>>) -> bool {
    failure(s) is Some && (failure(s)->0 == e || (failure(s)->0.len() == e.len() + 1
        && failure(s)->0.skip(1) == e))
}

// ---- the account and the days --------------------------------------------

/// How long a certificate lasts is not known where its file cannot be read as one or
/// there is no time, and the failure says why. The end is that of the certificate in the
/// file.
pub proof fn lemma_days_unknown(
    shown: Seq<char>,
    end: i64,
    cause: Seq<char>,
    now: Result<u64, Seq<char>>,
    data: Seq<u8>,
)
    ensures
        ({
            let r = days_result(shown, Err(cause), now);
            r is Err && r->Err_0.len() == 1 && occurs(r->Err_0[0], shown) && ends(
                r->Err_0[0],
                cause,
            )
        }),
        days_result(shown, Ok(end), Err(cause)) == Err::<Option<int>, Seq<Seq<char>>>(seq![cause]),
        pem_contents(data) matches Ok(der) ==> chain_end(data) == certificate_end(der),
        pem_contents(data) matches Err(e) ==> chain_end(data) == Err::<i64, Seq<char>>(e),
{
    lemma_occurs_in("cannot parse "@, shown, ": "@ + cause);
    assert("cannot parse "@ + shown + ": "@ + cause =~= "cannot parse "@ + shown + (": "@ + cause));
    lemma_back("cannot parse "@ + shown + ": "@, cause);
}

/// Credentials that cannot be written out are not stored: the failure is all that follows
/// the directory.
pub proof fn lemma_not_stored(cfg: Config, shown: Seq<char>, cause: Seq<char>)
    ensures
        ({
            let steps = store_plan(cfg, shown, Err(cause));
            &&& steps.last() == StoreStepView::Fail(seq![cause])
            &&& forall|i: int| 0 <= i < steps.len() ==> !(#[trigger] steps[i] is Write)
                && !(steps[i] is Say)
        }),
{
}

// ---- the challenge zone --------------------------------------------------

/// A host that cannot be looked up is named, with the cause.
pub proof fn lemma_lookup_failed(host: Seq<char>, cause: String)
    ensures
        ({
            let r = lookup_result(Lookup::Unresolvable(cause), host);
            r is Err && r->Err_0.len() == 2 && occurs(r->Err_0[0], "'"@ + host + "'"@)
                && r->Err_0[1] == cause@
        }),
        ({
            let r = lookup_result(Lookup::NoAddress, host);
            r is Err && r->Err_0.len() == 1 && begins(r->Err_0[0], "'"@ + host + "'"@)
        }),
{
    reveal_strlit("cannot resolve hostname '");
    reveal_strlit("'");
    reveal_strlit("' resolved to no addresses");
    let front = "cannot resolve hostname '"@.take(24);
    let shown = "'"@ + host + "'"@;
    assert("cannot resolve hostname '"@ =~= front + "'"@);
    assert("cannot resolve hostname '"@ + host + "'"@ =~= front + shown + Seq::<char>::empty());
    lemma_occurs_in(front, shown, Seq::empty());
    let back = "' resolved to no addresses"@.skip(1);
    assert("' resolved to no addresses"@ =~= "'"@ + back);
    assert("'"@ + host + "' resolved to no addresses"@ =~= shown + back);
    lemma_front(shown, back);
}

/// The opening fails where the server or the resolver cannot be looked up, and the failure
/// is about the host that was looked up.
pub proof fn lemma_opening_failed(cfg: DnsConfig, l: Lookup)
    requires
        !(l is Found),
    ensures
        stage(cfg, None, None) matches Stage::NeedServer(host, _) ==> stage(cfg, Some(l), None)
            == Stage::Failed(lookup_result(l, host)->Err_0),
        stage_of_resolver(cfg, None) matches Stage::NeedResolver(host, _) ==> stage_of_resolver(
            cfg,
            Some(l),
        ) == Stage::Failed(lookup_result(l, host)->Err_0),
{
}

/// A signer is needed exactly where there is a secret and the configuration does not say
/// that queries go unsigned; the opening fails where one is needed and cannot be made.
pub proof fn lemma_signer_needed(cfg: DnsConfig, resolver: Option<Lookup>)
    ensures
        ({
            let fault = signer_failure(cfg.tsig_key@, cfg.tsig_algorithm@);
            let needed = cfg.tsig_secret is Some && cfg.sign_queries != Some(false);
            &&& needed && fault is Some ==> stage_with_updater(cfg, resolver) == Stage::Failed(
                fault->0,
            )
            &&& !needed || fault is None ==> stage_with_updater(cfg, resolver)
                == stage_of_resolver(cfg, resolver)
        }),
{
}

/// A signer can be made exactly for a name that can be read and one of the three algorithms
/// of at least 256 bits, in upper or lower case.
pub proof fn lemma_signer_made(name: Seq<char>, algorithm: Seq<char>)
    ensures
        signer_failure(name, algorithm) is None <==> ascii_name(name) is Ok && (lower(algorithm)
            == "hmac-sha256"@ || lower(algorithm) == "hmac-sha384"@ || lower(algorithm)
            == "hmac-sha512"@),
{
    reveal_strlit("hmac-sha1");
    reveal_strlit("hmac-sha224");
    reveal_strlit("hmac-sha256");
    reveal_strlit("hmac-sha384");
    reveal_strlit("hmac-sha512");
    assert("hmac-sha224"@[8] == '2' && "hmac-sha224"@[9] == '2');
    assert("hmac-sha256"@[8] == '2' && "hmac-sha256"@[9] == '5');
    assert("hmac-sha384"@[8] == '3');
    assert("hmac-sha512"@[8] == '5');
    assert("hmac-sha1"@.len() == 9);
}

/// A query that fails names the server that was asked, and the cause; one for a name that
/// cannot be read names that.
pub proof fn lemma_query_failed(
    addr: Seq<char>,
    name: Seq<char>,
    kind: RecordKind,
    labels: Seq<Seq<u8>>,
    fqdn: bool,
    exchange: Exchange,
    cause: Seq<char>,
)
    ensures
        ({
            let end = owner_stage(addr, name, kind, Ok((labels, fqdn)), Some(exchange));
            end matches QueryStage::Failed(e) ==> e.len() == 1 && occurs(e[0], addr) && ends(
                e[0],
                match exchange {
                    Exchange::Unreachable(c) => c@,
                    Exchange::Unanswered(c) => c@,
                    Exchange::Replied(reply) => reply.code_text@,
                },
            )
        }),
        exchange is Unreachable || exchange is Unanswered ==> owner_stage(
            addr,
            name,
            kind,
            Ok((labels, fqdn)),
            Some(exchange),
        ) is Failed,
        ({
            let end = owner_stage(addr, name, kind, Err(cause), Some(exchange));
            end is Failed && end->Failed_0.len() == 1 && occurs(end->Failed_0[0], name) && ends(
                end->Failed_0[0],
                cause,
            )
        }),
{
    match exchange {
        Exchange::Unreachable(c) => {
            lemma_named("cannot connect to "@, addr, ": "@, c@);
        },
        Exchange::Unanswered(c) => {
            lemma_named("query to "@, addr, " failed: "@, c@);
        },
        Exchange::Replied(reply) => {
            lemma_named("server "@, addr, " answered "@, reply.code_text@);
        },
    }
    lemma_named("bad name "@, name, ": "@, cause);
}

proof fn lemma_named(front: Seq<char>, who: Seq<char>, middle: Seq<char>, cause: Seq<char>)
    ensures
        occurs(front + who + middle + cause, who),
        ends(front + who + middle + cause, cause),
{
    lemma_occurs_in(front, who, middle + cause);
    assert(front + who + middle + cause =~= front + who + (middle + cause));
    lemma_back(front + who + middle, cause);
}

/// An update that was refused is told with the name that it concerns and the cause.
pub proof fn lemma_refusal(u: Update, cause: Seq<char>)
    ensures
        occurs(u.refusal(cause), u.name@),
        ends(u.refusal(cause), cause),
        occurs(u.refusal(cause), "adding"@) || u.kind is Replace,
        occurs(u.refusal(cause), "clearing"@) || u.kind is Add,
{
    match u.kind {
        UpdateKind::Add => {
            lemma_named("TSIG update failed adding TXT "@, u.name@, ": "@, cause);
            reveal_strlit("TSIG update failed adding TXT ");
            reveal_strlit("adding");
            let word = "TSIG update failed adding TXT "@;
            let rest = word.skip(25) + u.name@ + ": "@ + cause;
            assert(u.refusal(cause) =~= word.take(19) + "adding"@ + rest);
            lemma_occurs_in(word.take(19), "adding"@, rest);
        },
        UpdateKind::Replace => {
            lemma_named("TSIG update failed clearing TXT "@, u.name@, ": "@, cause);
            reveal_strlit("TSIG update failed clearing TXT ");
            reveal_strlit("clearing");
            let word = "TSIG update failed clearing TXT "@;
            let rest = word.skip(27) + u.name@ + ": "@ + cause;
            assert(u.refusal(cause) =~= word.take(19) + "clearing"@ + rest);
            lemma_occurs_in(word.take(19), "clearing"@, rest);
        },
    }
}

/// A secret that is not base64, or else a port of the server that is no number, ends the
/// opening before anything is looked up, whatever was found.
pub proof fn lemma_opening_refused(
    cfg: DnsConfig,
    server: Option<Lookup>,
    resolver: Option<Lookup>,
)
    ensures
        ({
            let readable = cfg.tsig_secret is Some ==> exists|b: Seq<u8>| #[trigger]
                base64_text(b) == trimmed(cfg.tsig_secret->0@);
            let addr = addr_form(cfg.server@);
            let end = stage(cfg, server, resolver);
            &&& !readable ==> end is Failed && end->Failed_0.len() == 2 && end->Failed_0[1]
                == base64_error(trimmed(cfg.tsig_secret->0@))
            &&& readable && port_value(port_part(addr)) is Err ==> end is Failed
                && end->Failed_0.len() == 2 && occurs(end->Failed_0[0], addr)
            &&& readable && port_value(port_part(addr)) is Ok && server is None ==> end
                == Stage::NeedServer(host_part(addr), port_value(port_part(addr))->Ok_0)
        }),
{
    let addr = addr_form(cfg.server@);
    lemma_occurs_in("bad port in '"@, addr, "'"@);
}

// ---- the guided setup ----------------------------------------------------

/// The account's directory lies in the home directory where there is one, and else in the
/// directory of the system that is at hand.
pub proof fn lemma_state_dir(home: Seq<char>, windows: bool)
    ensures
        begins(state_dir_in(Some(home), windows), home),
        begins(state_dir_in(None, true), "C:\\"@),
        begins(state_dir_in(None, false), "/var/lib/"@),
        ends(state_dir_in(Some(home), windows), "/.local/state/dnsvcert"@),
        ends(state_dir_in(None, windows), "/.local/state/dnsvcert"@),
{
    let back = "/.local/state/dnsvcert"@;
    reveal_strlit("/.local/state/dnsvcert");
    reveal_strlit("C:\\ProgramData");
    reveal_strlit("C:\\");
    reveal_strlit("/var/lib");
    reveal_strlit("/var/lib/");
    lemma_front(home, back);
    lemma_back(home, back);
    lemma_back("C:\\ProgramData"@, back);
    lemma_back("/var/lib"@, back);
    assert(state_dir_in(None, true).subrange(0, 3) =~= "C:\\"@);
    assert(state_dir_in(None, false).subrange(0, 9) =~= "/var/lib/"@);
}

/// The answers go to the file that the setup is for, and to no other; the file is for its
/// owner alone once it is written, and its directory is made before.
pub proof fn lemma_answers_stored(s: SetupView, state_dir: Seq<char>, dir: Seq<char>)
    ensures
        ({
            let with = s.config_steps(state_dir, Some(dir));
            let bare = s.config_steps(state_dir, None);
            &&& with.len() == 4 && with.skip(1) == bare
            &&& with[0] is MakeDir && with[0]->dir == dir
            &&& bare[0] is Write && bare[0]->Write_path == s.path && bare[0]->contents
                == s.contents(state_dir)
            &&& bare[1] == ConfigStep::SetMode { path: s.path, mode: 0o600 }
            &&& bare[2] is Say && occurs(bare[2]->Say_0, s.path)
        }),
{
    let with = s.config_steps(state_dir, Some(dir));
    let bare = s.config_steps(state_dir, None);
    assert(with.skip(1) =~= bare);
    lemma_occurs_in("\nwrote "@, s.path, " (owner-only permissions)"@);
}

// ---- hints ---------------------------------------------------------------

proof fn lemma_default_told(prompt: Seq<char>, default_yes: bool)
    ensures
        ends(confirm_text(prompt, default_yes), "[Y/n]: "@) <==> default_yes,
        ends(confirm_text(prompt, default_yes), "[y/N]: "@) <==> !default_yes,
        consent(default_yes, Some(Seq::empty())) == default_yes,
        consent(default_yes, None) == default_yes,
        consent(default_yes, Some(seq!['y'])),
        !consent(default_yes, Some(seq!['n'])),
{
    reveal_strlit("");
    reveal_strlit("[Y/n]");
    reveal_strlit("[y/N]");
    reveal_strlit(": ");
    reveal_strlit("[Y/n]: ");
    reveal_strlit("[y/N]: ");
    let text = confirm_text(prompt, default_yes);
    let back = text.subrange(text.len() - 7, text.len() as int);
    if default_yes {
        assert(text =~= prompt + " "@ + "[Y/n]"@ + ": "@);
        assert(back =~= "[Y/n]: "@);
        assert(back[1] == 'Y' && "[y/N]: "@[1] == 'y');
    } else {
        assert(text =~= prompt + " "@ + "[y/N]"@ + ": "@);
        assert(back =~= "[y/N]: "@);
        assert(back[1] == 'y' && "[Y/n]: "@[1] == 'Y');
    }
    let none = Seq::<char>::empty();
    assert(none =~= none + none + none);
    lemma_yes(default_yes, none, none, none, none);
    assert(seq!['y'] =~= none + seq!['y'] + none);
    lemma_yes(default_yes, seq!['y'], seq!['y'], none, none);
    assert(seq!['n'] =~= none + seq!['n'] + none);
    lemma_yes(default_yes, seq!['n'], seq!['n'], none, none);
}

/// The letter in upper case behind a question of the setup says what the return key alone
/// means: the same as the line y, or the same as the line n.
pub proof fn lemma_setup_hint(s: SetupView)
    requires
        s.question is UseExisting || s.question is Overwrite || s.question is Wildcard
            || s.question is More || s.question is Split || s.question is Keep,
    ensures
        s.prompt() is Some,
        ends(s.prompt()->0, "[Y/n]: "@) <==> !ends(s.prompt()->0, "[y/N]: "@),
        ends(s.prompt()->0, "[Y/n]: "@) ==> setup_step(s, Some(Seq::empty())) == setup_step(
            s,
            Some(seq!['y']),
        ),
        ends(s.prompt()->0, "[y/N]: "@) ==> setup_step(s, Some(Seq::empty())) == setup_step(
            s,
            Some(seq!['n']),
        ),
{
    match s.question {
        Question::UseExisting => {
            lemma_default_told("Found "@ + s.path + " — use it as-is?"@, true);
        },
        Question::Overwrite => {
            lemma_default_told("Overwrite it with new answers?"@, false);
        },
        Question::Wildcard(w) => {
            lemma_default_told("Include the wildcard "@ + w + " too?"@, true);
        },
        Question::More => {
            lemma_default_told("Add another domain?"@, false);
        },
        Question::Split(r) => {
            lemma_default_told(
                "Is your DNS split-horizon / multi-view (internal answers differ from public)?"@,
                false,
            );
        },
        Question::Keep(r) => {
            lemma_default_told("Keep "@ + r + " anyway?"@, false);
        },
        _ => {},
    }
}

/// The letter in upper case behind a question of the checks says what the return key alone
/// means: each of them goes on.
pub proof fn lemma_check_hint(s: CheckView)
    ensures
        s.prompt() is Some <==> s.phase is RetryProbe || s.phase is RetryLook || s.phase
            is Consenting,
        s.prompt() is Some ==> ends(s.prompt()->0, "[Y/n]: "@) && check_step(
            s,
            CheckEvent::Typed(Some(Seq::empty())),
        ) == check_step(s, CheckEvent::Typed(Some(seq!['y']))) && check_step(
            s,
            CheckEvent::Typed(Some(Seq::empty())),
        ) != check_step(s, CheckEvent::Typed(Some(seq!['n']))),
{
    match s.phase {
        CheckPhase::RetryProbe => {
            lemma_default_told("Fixed something? Check again?"@, true);
        },
        CheckPhase::RetryLook(_) => {
            lemma_default_told("Added it? Check again? (DNS changes can take a minute)"@, true);
        },
        CheckPhase::Consenting => {
            lemma_default_told("Request the certificate from Let's Encrypt now?"@, true);
        },
        _ => {},
    }
}

} // verus!
