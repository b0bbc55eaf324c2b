//! Runs over all certificates, the doctor, the hooks and the guided setup.

use dnsvcert::certs::{run_certs, Certs, CertsAction, CertsEvent, CertsPhase, HookEnd};
use dnsvcert::check::{check_and_issue, Check, CheckEvent, CheckPhase};
use dnsvcert::config::{AcmeConfig, CertConfig, Config, DnsConfig};
use dnsvcert::dns::{ChallengeDns, Lookup, Opening};
use dnsvcert::doctor::{check_delegation, probe_tsig, run_doctor, Doctor, DoctorEvent, DoctorPhase};
use dnsvcert::failure::Failure;
use dnsvcert::hook::{hook_domain, run_hook, HookAction, HookStep};
use dnsvcert::lines::Line;
use dnsvcert::prompt::{answer, ask, ask_secret, confirm, looks_like_email, says_yes};
use dnsvcert::setup::{default_state_dir, init, run, ConfigStep, Ending, Question, Setup};

fn cert(domains: &[&str], hook: Option<&str>) -> CertConfig {
    CertConfig {
        domains: domains.iter().map(|d| d.to_string()).collect(),
        output_dir: format!("/c/{}", domains[0]),
        reload_hook: hook.map(|h| h.to_string()),
    }
}

fn config(certificates: Vec<CertConfig>) -> Config {
    Config {
        acme: AcmeConfig { directory: "d".into(), email: "e@x.y".into() },
        dns: DnsConfig {
            server: "ns1".into(),
            challenge_zone: "z.example".into(),
            tsig_key: "k".into(),
            tsig_secret: Some("c2VjcmV0".into()),
            tsig_algorithm: "hmac-sha256".into(),
            ttl: 60,
            propagation_wait_secs: 7,
            resolver: None,
            sign_queries: None,
        },
        state_dir: "/s".into(),
        certificates,
        renew_before_days: 30,
    }
}

fn opened(cfg: &Config) -> ChallengeDns {
    match ChallengeDns::new(&cfg.dns, Some(Lookup::Found("192.0.2.1:53".into())), None) {
        Opening::Open(dns) => dns,
        _ => panic!(),
    }
}

fn failure(s: &str) -> Failure {
    Failure::new(s.into())
}

// ---- all certificates ----

fn certs_after(start: Certs, events: Vec<CertsEvent<String, Failure, i64>>) -> (Certs, Vec<String>) {
    let mut s = start;
    let mut said = Vec::new();
    for e in events {
        let (t, l) = s.step(e);
        s = t;
        match l {
            None => {}
            Some(Line::Out(x)) => said.push(format!("out {x}")),
            Some(Line::Warn(x)) => said.push(format!("err {x}")),
        }
    }
    (s, said)
}

fn certs_result(s: &Certs) -> String {
    match &s.phase {
        CertsPhase::Done(Ok(())) => "ok".into(),
        CertsPhase::Done(Err(f)) => f.report(),
        p => panic!("{p:?}"),
    }
}

fn ok() -> CertsEvent<String, Failure, i64> {
    CertsEvent::Did(Ok(()))
}

fn no(s: &str) -> CertsEvent<String, Failure, i64> {
    CertsEvent::Did(Err(failure(s)))
}

#[test]
fn a_run_needs_certificates() {
    let s = run_certs(&config(vec![]), false);
    assert_eq!(certs_result(&s), "no certificates configured");
    assert!(matches!(s.action(), CertsAction::Rest));
}

#[test]
fn a_run_takes_every_certificate() {
    let cfg = config(vec![
        cert(&["a", "*.a"], None),
        cert(&["b"], Some("reload b")),
        cert(&["c"], Some("reload c")),
        cert(&["d"], Some("reload d")),
    ]);
    let start = run_certs(&cfg, false);
    assert!(matches!(start.action(), CertsAction::OpenDns));
    let (s, _) = certs_after(start, vec![ok()]);
    assert!(matches!(s.action(), CertsAction::LoadAccount));
    let (s, _) = certs_after(s, vec![ok()]);
    assert!(matches!(s.action(), CertsAction::Issue(0)));
    let (s, said) = certs_after(
        s,
        vec![CertsEvent::Did(Err(failure("refused").context("order".into()))), ok()],
    );
    assert_eq!(said, ["err FAILED [a, *.a]: order: refused"]);
    match s.action() {
        CertsAction::RunHook(h) => assert_eq!(h, "reload b"),
        _ => panic!(),
    }
    let (s, said) = certs_after(
        s,
        vec![
            CertsEvent::Hook(HookEnd::Success),
            ok(),
            CertsEvent::Hook(HookEnd::Exited("exit status: 3".into())),
            ok(),
            CertsEvent::Hook(HookEnd::NotStarted("no shell".into())),
        ],
    );
    assert_eq!(
        said,
        [
            "out reload hook ok: reload b",
            "err reload hook exited exit status: 3: reload c",
            "err reload hook failed to start: no shell",
        ]
    );
    assert_eq!(s.failed, [0, 2, 3]);
    assert_eq!(certs_result(&s), "3 certificate(s) failed");
}

#[test]
fn a_run_without_failures_succeeds() {
    let cfg = config(vec![cert(&["a"], None)]);
    let (s, said) = certs_after(run_certs(&cfg, false), vec![ok(), ok(), ok()]);
    assert_eq!(certs_result(&s), "ok");
    assert!(said.is_empty());
}

#[test]
fn a_run_fails_without_dns_or_account() {
    let cfg = config(vec![cert(&["a"], None)]);
    let (s, _) = certs_after(run_certs(&cfg, false), vec![no("dns")]);
    assert_eq!(certs_result(&s), "dns");
    let (s, _) = certs_after(run_certs(&cfg, false), vec![ok(), no("account")]);
    assert_eq!(certs_result(&s), "account");
}

#[test]
fn renewal_skips_what_is_not_due() {
    let cfg = config(vec![cert(&["a"], None)]);
    let check = |days: Result<Option<i64>, Failure>| {
        let (s, _) = certs_after(run_certs(&cfg, true), vec![ok(), ok()]);
        match s.action() {
            CertsAction::CheckExpiry(d) => assert_eq!(d, "/c/a"),
            _ => panic!(),
        }
        certs_after(s, vec![CertsEvent::Days(days)])
    };
    for left in [30, 31, 90] {
        let (s, said) = check(Ok(Some(left)));
        assert_eq!(said, [format!("out skip [a]: {left} days left (renews at 30)")]);
        assert_eq!(certs_result(&s), "ok");
    }
    for due in [Some(29), Some(0), Some(-5), None] {
        let (s, said) = check(Ok(due));
        assert!(matches!(s.action(), CertsAction::Issue(0)));
        assert!(said.is_empty());
    }
    let (s, said) = check(Err(failure("cannot parse x").context("outer".into())));
    assert_eq!(said, ["err warning: cannot read existing cert, re-issuing: outer"]);
    assert!(matches!(s.action(), CertsAction::Issue(0)));
    let mut cfg = config(vec![cert(&["a"], None)]);
    cfg.renew_before_days = -3;
    let (s, _) = certs_after(run_certs(&cfg, true), vec![ok(), ok()]);
    let (_, said) = certs_after(s, vec![CertsEvent::Days(Ok(Some(-2)))]);
    assert_eq!(said, ["out skip [a]: -2 days left (renews at -3)"]);
}

// ---- the doctor ----

fn doctor_after(start: Doctor, events: Vec<DoctorEvent<String, Failure>>) -> (Doctor, Vec<String>) {
    let mut s = start;
    let mut said = Vec::new();
    for e in events {
        let (t, l) = s.step(e);
        s = t;
        said.extend(l);
    }
    (s, said)
}

fn target(t: &str) -> DoctorEvent<String, Failure> {
    DoctorEvent::Target(Ok(Some(t.into())))
}

#[test]
fn the_doctor_finds_nothing_wrong() {
    let cfg = config(vec![cert(&["a.example", "*.a.example"], None), cert(&["b.example"], None)]);
    let d = run_doctor(&cfg, &opened(&cfg));
    assert_eq!(d.question(), None);
    let (d, said) = doctor_after(d, vec![DoctorEvent::Probed(Ok(()))]);
    assert_eq!(said, ["PASS  TSIG write access to z.example"]);
    assert_eq!(d.question().as_deref(), Some("_acme-challenge.a.example"));
    let (d, said) = doctor_after(
        d,
        vec![target("A.Example.z.example."), target("a.example.z.example"), target("b.example.z.example.")],
    );
    assert_eq!(
        said,
        [
            "PASS  _acme-challenge.a.example -> a.example.z.example",
            "PASS  _acme-challenge.a.example -> a.example.z.example",
            "PASS  _acme-challenge.b.example -> b.example.z.example",
            "all checks passed",
        ]
    );
    assert!(matches!(d.phase, DoctorPhase::Done(Ok(()))));
}

#[test]
fn every_failure_of_the_doctor_shows_the_record_to_add() {
    let cfg = config(vec![cert(&["*.a", "b", "c"], None)]);
    let (d, said) = doctor_after(
        run_doctor(&cfg, &opened(&cfg)),
        vec![
            DoctorEvent::Probed(Err(failure("cause").context("no TSIG secret".into()))),
            target("elsewhere."),
            DoctorEvent::Target(Ok(None)),
            DoctorEvent::Target(Err(failure("timeout"))),
        ],
    );
    assert_eq!(
        said,
        [
            "FAIL  TSIG write access to z.example: no TSIG secret: cause",
            "FAIL  _acme-challenge.a points at elsewhere., expected a.z.example — add: _acme-challenge.a CNAME a.z.example.",
            "FAIL  _acme-challenge.b has no CNAME — add: _acme-challenge.b CNAME b.z.example.",
            "FAIL  _acme-challenge.c: timeout — add: _acme-challenge.c CNAME c.z.example.",
        ]
    );
    match d.phase {
        DoctorPhase::Done(Err(f)) => assert_eq!(f.report(), "doctor found problems"),
        _ => panic!(),
    }
    assert!(check_delegation("a", "z", Ok(Some("A.Z.".into()))).0);
    assert!(!check_delegation("a", "z", Ok(Some("a".into()))).0);
    let p = probe_tsig("n", "v");
    assert_eq!((p.name.as_str(), p.value.as_str()), ("n", "v"));
}

// ---- the hooks ----

#[test]
fn hooks_write_and_remove_one_record() {
    let cfg = config(vec![]);
    let dns = opened(&cfg);
    let steps = run_hook(HookAction::Auth, "*.a.example", Ok("v".into()), &dns).unwrap();
    assert_eq!(
        format!("{steps:?}"),
        "[Add { name: \"a.example.z.example\", value: \"v\" }, Confirm { name: \"a.example.z.example\", value: \"v\" }, Sleep(7)]"
    );
    let steps = run_hook(HookAction::Cleanup, "*.a.example", Err("unset".into()), &dns).unwrap();
    assert_eq!(steps.len(), 1);
    match &steps[0] {
        HookStep::Clear(n) => assert_eq!(n, "a.example.z.example"),
        _ => panic!(),
    }
    assert_eq!(
        run_hook(HookAction::Auth, "a", Err("unset".into()), &dns).unwrap_err().report(),
        "CERTBOT_VALIDATION not set: unset"
    );
    assert_eq!(hook_domain(Ok("a".into())).unwrap(), "a");
    assert_eq!(
        hook_domain(Err("unset".into())).unwrap_err().report(),
        "CERTBOT_DOMAIN not set — hook mode is for certbot --manual-auth-hook: unset"
    );
}

// ---- questions ----

#[test]
fn questions_show_their_default() {
    assert_eq!(ask("Name", None), "Name: ");
    assert_eq!(ask("Name", Some("")), "Name: ");
    assert_eq!(ask("Name", Some("x")), "Name [x]: ");
    assert_eq!(confirm("Sure?", true), "Sure? [Y/n]: ");
    assert_eq!(confirm("Sure?", false), "Sure? [y/N]: ");
}

#[test]
fn replies_are_trimmed_or_the_default() {
    let line = |s: &str| Some(s.to_string());
    assert_eq!(answer(None, line(" x\n")).as_deref(), Some("x"));
    assert_eq!(answer(None, line(" \n")), None);
    assert_eq!(answer(Some("d"), line("\n")).as_deref(), Some("d"));
    assert_eq!(answer(Some(""), line("")).as_deref(), Some(""));
    assert_eq!(answer(None, None).as_deref(), Some(""));
    assert_eq!(answer(Some("d"), None).as_deref(), Some("d"));
    assert_eq!(ask_secret(line(" s3 \n")).as_deref(), Some("s3"));
    assert_eq!(ask_secret(line(" ")), None);
    assert_eq!(ask_secret(None), None);
    assert!(looks_like_email("a@b.c"));
    assert!(!looks_like_email("a@b"));
    assert!(!looks_like_email("a.b"));
}

#[test]
fn consent_is_said_in_a_few_ways() {
    let line = |s: &str| Some(s.to_string());
    for yes in ["y", "Y\n", " yes ", "YES", "ya", "Ya"] {
        assert!(says_yes(false, line(yes)));
    }
    for no in ["n", "no", "yep", "1", "yess"] {
        assert!(!says_yes(true, line(no)));
    }
    assert!(says_yes(true, line(" \n")) && says_yes(true, None));
    assert!(!says_yes(false, line("")) && !says_yes(false, None));
}

// ---- the guided setup ----

fn typed(start: Setup, lines: &[&str]) -> (Setup, Vec<String>) {
    let mut s = start;
    let mut said = Vec::new();
    for l in lines {
        let (t, more) = s.step(Some(l.to_string()));
        s = t;
        said.extend(more);
    }
    (s, said)
}

#[test]
fn the_wizard_collects_answers() {
    let (s, said) = run("dnsvcert.yml", false);
    assert_eq!(said.len(), 6);
    assert_eq!(said[0], "dnsvcert guided setup");
    assert_eq!(said[3], "Nothing is requested from Let's Encrypt until step 3.\n");
    assert_eq!(said[4], "Step 1/3 — your details");
    assert_eq!(s.prompt().as_deref(), Some("Contact email for Let's Encrypt: "));
    let (s, said) = typed(s, &["", "nobody", "ops@example.com"]);
    assert_eq!(said[0], "  (required)");
    assert_eq!(said[1], "  that doesn't look right — try again");
    assert!(said[2].starts_with("\nThe next three values"));
    let (s, _) = typed(s, &["ns1", "acme.example.com"]);
    assert_eq!(s.prompt().as_deref(), Some("TSIG key name [dnsvcert]: "));
    let (s, _) = typed(s, &[""]);
    assert!(s.hidden());
    let (s, said) = typed(s, &[" c2VjcmV0 "]);
    assert_eq!(said, [""]);
    assert!(!s.hidden());
    assert_eq!(
        s.prompt().as_deref(),
        Some("Domain to get a certificate for (e.g. app.example.com): ")
    );
    let (s, said) = typed(s, &["", "*.app.example.com"]);
    assert_eq!(said, ["  (required)"]);
    assert_eq!(
        s.prompt().as_deref(),
        Some("Include the wildcard *.app.example.com too? [Y/n]: ")
    );
    let (s, _) = typed(s, &["", "y"]);
    assert_eq!(s.prompt().as_deref(), Some("Another domain (Enter to stop): "));
    let (s, _) = typed(s, &["app.example.com"]);
    assert_eq!(s.prompt().as_deref(), Some("Add another domain? [y/N]: "));
    let (s, _) = typed(s, &["yes", "b.example.com", "n"]);
    assert_eq!(s.domains, ["app.example.com", "*.app.example.com", "b.example.com"]);
    let (s, said) = typed(s, &["y", ""]);
    assert_eq!(said.len(), 5);
    assert_eq!(s.prompt().as_deref(), Some("Choose 1 or 2 [1]: "));
    let (s, said) = typed(s, &["3", "2"]);
    assert_eq!(said, ["  1 or 2, please"]);
    assert_eq!(s.prompt().as_deref(), Some("Resolver address [8.8.8.8]: "));
    let (s, said) = typed(s, &["10.0.0.1", "y"]);
    assert_eq!(said.len(), 3);
    assert_eq!(
        said[0],
        "  NOTE: 10.0.0.1 looks like an internal resolver — on a split-horizon"
    );
    assert_eq!(s.prompt().as_deref(), Some("Keep 10.0.0.1 anyway? [y/N]: "));
    let (s, said) = typed(s, &["", "2", "", "y"]);
    assert_eq!(said.len(), 2);
    assert_eq!(s.resolver.as_deref(), Some("8.8.8.8"));
    assert_eq!(
        s.prompt().as_deref(),
        Some("Directory for the certificate files [./certs/app.example.com]: ")
    );
    let (s, _) = typed(s, &["", "reload"]);
    assert!(matches!(s.question, Question::Finished(Ending::WriteFile)));
    assert_eq!(s.prompt(), None);
    let text = s.contents("/st");
    assert!(text.contains("  email: ops@example.com\n"));
    assert!(text.contains("  tsig_secret: \"c2VjcmV0\"\n"));
    assert!(text.contains("state_dir: /st\n"));
    assert!(text.contains("  resolver: 8.8.8.8\n"));
    assert!(text.contains("    reload_hook: \"reload\"\n"));
    assert!(text.contains("[\"app.example.com\", \"*.app.example.com\", \"b.example.com\"]"));
    let steps = s.config_steps("/st", Some("etc".into()));
    assert_eq!(steps.len(), 4);
    match (&steps[0], &steps[1], &steps[2], &steps[3]) {
        (
            ConfigStep::MakeDir { dir, failing },
            ConfigStep::Write { path, contents, failing: f },
            ConfigStep::SetMode { mode, .. },
            ConfigStep::Say(l),
        ) => {
            assert_eq!((dir.as_str(), failing.as_str()), ("etc", "cannot create etc"));
            assert_eq!((path.as_str(), f.as_str()), ("dnsvcert.yml", "cannot write dnsvcert.yml"));
            assert_eq!(contents, &text);
            assert_eq!(*mode, 0o600);
            assert_eq!(l, "\nwrote dnsvcert.yml (owner-only permissions)");
        }
        _ => panic!(),
    }
    assert_eq!(s.config_steps("/st", None).len(), 3);
}

#[test]
fn the_wizard_respects_an_existing_file() {
    let (s, said) = run("c.yml", true);
    assert_eq!(said.len(), 4);
    assert_eq!(s.prompt().as_deref(), Some("Found c.yml — use it as-is? [Y/n]: "));
    let (s, _) = typed(s, &[""]);
    assert!(matches!(s.question, Question::Finished(Ending::UseFile)));
    let (s, said) = typed(run("c.yml", true).0, &["n", ""]);
    assert!(matches!(s.question, Question::Finished(Ending::KeepFile)));
    assert_eq!(said, ["Keeping the existing file. Edit it directly, then run: dnsvcert doctor"]);
    let (s, said) = typed(run("c.yml", true).0, &["n", "y"]);
    assert!(matches!(s.question, Question::Email));
    assert_eq!(said[0], "Step 1/3 — your details");
}

#[test]
fn the_wizard_without_a_secret_or_a_resolver() {
    let (s, said) = typed(run("c", false).0, &["a@b.c", "s", "z", "key", ""]);
    assert_eq!(said[1], "  no secret yet — you can add it to the config later as dns.tsig_secret");
    // no line can be read any more
    let (s, _) = s.step(None);
    assert!(matches!(s.question, Question::Choice));
    let (s, _) = s.step(None);
    assert_eq!(s.resolver, None);
    assert_eq!(
        s.prompt().as_deref(),
        Some("Directory for the certificate files [./certs/certs]: ")
    );
    let (s, _) = typed(run("c", false).0, &["a@b.c", "s", "z", "k", "x", "d", "n", "n", "2", "r", "n"]);
    assert_eq!(s.resolver.as_deref(), Some("r"));
    let (s, said) = typed(
        run("c", false).0,
        &["a@b.c", "s", "z", "k", "x", "d", "n", "n", "2", "192.168.1.1", "y", "y"],
    );
    assert_eq!(s.resolver.as_deref(), Some("192.168.1.1"));
    assert_eq!(said.last().unwrap(), "  so resolver caches don't stall verification.");
}

#[test]
fn a_starter_file_holds_placeholders() {
    let s = init("c.yml", vec!["*.app.example.com".into()], "ops@example.com", "acme.example.com");
    assert_eq!(s.prompt(), None);
    let text = s.contents("/st");
    assert!(text.contains("  email: ops@example.com\n"));
    assert!(text.contains("  server: CHANGE_ME\n"));
    assert!(text.contains("  tsig_secret: \"CHANGE_ME\"\n"));
    assert!(text.contains("  - domains: [\"*.app.example.com\"]\n    output_dir: ./certs/app.example.com\n"));
    assert!(init("c", vec![], "e", "z").contents("/st").contains("output_dir: ./certs/certs\n"));
}

#[test]
fn the_state_directory_lies_in_the_home_directory() {
    assert_eq!(default_state_dir(Some("/home/x".into()), false), "/home/x/.local/state/dnsvcert");
    assert_eq!(default_state_dir(None, false), "/var/lib/.local/state/dnsvcert");
    assert_eq!(default_state_dir(None, true), "C:\\ProgramData/.local/state/dnsvcert");
}

// ---- the checks of the guided setup ----

fn check_after(start: Check, events: Vec<CheckEvent<String, Failure>>) -> (Check, Vec<String>) {
    let mut s = start;
    let mut said = Vec::new();
    for e in events {
        let (t, l) = s.step(e);
        s = t;
        said.extend(l);
    }
    (s, said)
}

fn reply(s: &str) -> CheckEvent<String, Failure> {
    CheckEvent::Typed(Some(s.into()))
}

fn points_at(t: &str) -> CheckEvent<String, Failure> {
    CheckEvent::Target(Ok(Some(t.into())))
}

#[test]
fn checks_repeat_until_all_is_well() {
    let cfg = config(vec![cert(&["b", "*.b"], None), cert(&["*.a"], None)]);
    let (c, said) = check_and_issue("c.yml", &cfg);
    assert_eq!(said, ["\nStep 2/3 — checking your DNS setup"]);
    assert_eq!(c.bases, ["a", "b"]);
    let (c, said) = check_after(
        c,
        vec![CheckEvent::Opened(Ok(true)), CheckEvent::Did(Err(failure("refused")))],
    );
    assert_eq!(
        said,
        [
            "FAIL  cannot write to z.example: refused",
            "      check dns.server / tsig_key / tsig_secret in c.yml",
        ]
    );
    assert_eq!(c.prompt().as_deref(), Some("Fixed something? Check again? [Y/n]: "));
    let (c, said) = check_after(c, vec![reply(""), CheckEvent::Did(Ok(()))]);
    assert_eq!(said, ["PASS  write access to z.example confirmed"]);
    assert_eq!(c.question().as_deref(), Some("_acme-challenge.a"));
    let (c, said) = check_after(c, vec![CheckEvent::Target(Err(failure("timeout")))]);
    assert_eq!(
        said,
        [
            "MISSING  _acme-challenge.a has no CNAME yet",
            "      Add this record in the DNS that hosts a:",
            "        _acme-challenge.a  CNAME  a.z.example.",
        ]
    );
    assert_eq!(
        c.prompt().as_deref(),
        Some("Added it? Check again? (DNS changes can take a minute) [Y/n]: ")
    );
    let (c, said) = check_after(c, vec![reply("y"), points_at("x")]);
    assert_eq!(said[0], "FAIL  _acme-challenge.a points at x, expected a.z.example");
    let (c, said) = check_after(c, vec![reply("y"), points_at("A.z.example."), points_at("b.z.example")]);
    assert_eq!(
        said,
        [
            "PASS  _acme-challenge.a -> a.z.example",
            "PASS  _acme-challenge.b -> b.z.example",
            "\nStep 3/3 — issue the certificate",
        ]
    );
    assert_eq!(
        c.prompt().as_deref(),
        Some("Request the certificate from Let's Encrypt now? [Y/n]: ")
    );
    let (c, _) = check_after(c, vec![reply("")]);
    assert!(matches!(c.phase, CheckPhase::Issuing));
    let (c, said) = check_after(c, vec![CheckEvent::Did(Ok(()))]);
    assert_eq!(said[1], "  17 3 * * *  root  dnsvcert -c c.yml renew");
    assert!(matches!(c.phase, CheckPhase::Done(Ok(()))));
}

#[test]
fn checks_can_be_stopped() {
    let cfg = config(vec![cert(&["a"], None)]);
    let start = || check_and_issue("c", &cfg).0;
    let end = |e: Vec<CheckEvent<String, Failure>>| {
        let (c, said) = check_after(start(), e);
        match c.phase {
            CheckPhase::Done(Ok(())) => said.last().unwrap().clone(),
            CheckPhase::Done(Err(f)) => f.report(),
            p => panic!("{p:?}"),
        }
    };
    let open = || CheckEvent::Opened(Ok(true));
    let did = || CheckEvent::Did(Ok(()));
    assert_eq!(end(vec![CheckEvent::Opened(Err(failure("dns")))]), "dns");
    assert_eq!(
        end(vec![open(), CheckEvent::Did(Err(failure("x"))), reply("n")]),
        "Stopping here. Re-run `dnsvcert setup` when ready."
    );
    assert_eq!(
        end(vec![open(), did(), CheckEvent::Target(Ok(None)), reply("n")]),
        "Stopping here. Re-run `dnsvcert setup` once the record exists."
    );
    assert_eq!(
        end(vec![open(), did(), points_at("a.z.example"), reply("no")]),
        "Setup complete. Issue any time with: dnsvcert -c c issue"
    );
    assert_eq!(
        end(vec![open(), did(), points_at("a.z.example"), reply("y"), CheckEvent::Did(Err(failure("x")))]),
        "Fix the cause and run: dnsvcert -c c issue"
    );
}

#[test]
fn checks_run_without_a_secret() {
    let cfg = config(vec![cert(&["a"], None)]);
    let (c, said) = check_after(
        check_and_issue("c", &cfg).0,
        vec![CheckEvent::Opened(Ok(false)), points_at("a.z.example")],
    );
    assert_eq!(
        said,
        [
            "SKIP  write check — no TSIG secret set yet",
            "PASS  _acme-challenge.a -> a.z.example",
            "\nDNS records are in place. Add your TSIG secret to c",
            "(dns.tsig_secret), then run `dnsvcert setup` again to issue.",
        ]
    );
    assert!(matches!(c.phase, CheckPhase::Done(Ok(()))));
}
