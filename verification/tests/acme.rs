//! The account, expiry, and the course of an order.

use base64::Engine;
use dnsvcert::acme::{
    account_created, account_path, create_failed, days_from, days_left, days_until_expiry,
    load_or_create_account, read_credentials, restore_failed, state_dir_failed, store_account,
    AccountFault, AccountFile, AccountPlan, CertFile, StoreStep,
};
use dnsvcert::config::{AcmeConfig, CertConfig, Config, DnsConfig};
use dnsvcert::dns::{ChallengeDns, Lookup, Opening};
use dnsvcert::failure::Failure;
use dnsvcert::files::{write_file, FilePath, FileStep};
use dnsvcert::lines::Line;
use dnsvcert::order::{
    chain_path, issue, patience, Action, AuthorizationStatus, Event, Issue, OrderStatus, Phase,
};

fn config() -> Config {
    Config {
        acme: AcmeConfig {
            directory: "https://acme-v02.api.letsencrypt.org/directory".into(),
            email: "ops@example.com".into(),
        },
        dns: DnsConfig {
            server: "ns1".into(),
            challenge_zone: "acme.example.com".into(),
            tsig_key: "k".into(),
            tsig_secret: Some("c2VjcmV0".into()),
            tsig_algorithm: "hmac-sha256".into(),
            ttl: 60,
            propagation_wait_secs: 10,
            resolver: None,
            sign_queries: None,
        },
        state_dir: "/var/lib/dnsvcert".into(),
        certificates: vec![],
        renew_before_days: 30,
    }
}

// ---- the account ----

#[test]
fn the_account_file_is_named_after_the_directory() {
    let p = account_path(&config());
    assert_eq!(p.dir, "/var/lib/dnsvcert");
    assert_eq!(p.file, "account-https___acme_v02_api_letsencrypt_org_directory.json");
    let mut cfg = config();
    cfg.acme.directory = "../../ä/x".into();
    assert_eq!(account_path(&cfg).file, "account-________x.json");
}

#[test]
fn an_account_is_created_where_none_is_stored() {
    match load_or_create_account(&config(), "/p", AccountFile::Missing) {
        AccountPlan::Create(q) => {
            assert_eq!(q.contact, "mailto:ops@example.com");
            assert!(q.terms_of_service_agreed);
            assert!(!q.only_return_existing);
            assert_eq!(q.directory, config().acme.directory);
        }
        _ => panic!(),
    }
}

#[test]
fn unreadable_credentials_are_reported() {
    let why = |p: AccountPlan| match p {
        AccountPlan::Failed(f) => f.report(),
        _ => panic!(),
    };
    let cfg = config();
    assert_eq!(
        why(load_or_create_account(&cfg, "/p", AccountFile::Unreadable("denied".into()))),
        "cannot read /p: denied"
    );
    assert!(why(load_or_create_account(&cfg, "/p", AccountFile::Text("{".into()))).starts_with("bad /p: "));
    assert_eq!(why(read_credentials("/p", Err("x".into()))), "bad /p: x");
}

const CREDENTIALS: &str =
    r#"{"id":"https://ca.example/acct/1","key_pkcs8":"AQID","directory":"https://ca.example/dir"}"#;

#[test]
fn stored_credentials_read_back() {
    let cfg = config();
    let restore = |json: &str| match load_or_create_account(&cfg, "/p", AccountFile::Text(json.into())) {
        AccountPlan::Restore(c) => c,
        _ => panic!(),
    };
    let c = restore(CREDENTIALS);
    assert_eq!(c.private_key().secret_pkcs8_der(), [1, 2, 3]);
    let steps = account_created(&cfg, "/p", &c);
    assert_eq!(steps.len(), 3);
    match &steps[0] {
        StoreStep::MakeDir(d) => assert_eq!(d, "/var/lib/dnsvcert"),
        _ => panic!(),
    }
    let text = match &steps[1] {
        StoreStep::Write(w) => match (&w[0], &w[1], &w[2]) {
            (
                FileStep::Write { path, contents },
                FileStep::SetMode { mode, .. },
                FileStep::Rename { to, .. },
            ) => {
                let name = "account-https___acme_v02_api_letsencrypt_org_directory";
                assert_eq!(path.file, format!("{name}.tmp"));
                assert_eq!(*mode, 0o600);
                assert_eq!(to.file, format!("{name}.json"));
                contents.clone()
            }
            _ => panic!(),
        },
        _ => panic!(),
    };
    match &steps[2] {
        StoreStep::Say(l) => assert_eq!(l, "created ACME account, credentials stored in /p"),
        _ => panic!(),
    }
    assert_eq!(restore(&text).private_key().secret_pkcs8_der(), [1, 2, 3]);
    let a: serde_json::Value = serde_json::from_str(&text).unwrap();
    let b: serde_json::Value = serde_json::from_str(CREDENTIALS).unwrap();
    assert_eq!(a, b);
}

#[test]
fn account_failures_have_their_context() {
    let f = |s: &str| Failure::new(s.into());
    assert_eq!(restore_failed(AccountFault::NoClient(f("tls"))).report(), "tls");
    assert_eq!(
        restore_failed(AccountFault::Refused(f("gone"))).report(),
        "cannot restore ACME account from stored credentials: gone"
    );
    assert_eq!(create_failed(AccountFault::NoClient(f("tls"))).report(), "tls");
    assert_eq!(
        create_failed(AccountFault::Refused(f("gone"))).report(),
        "cannot create ACME account: gone"
    );
    assert_eq!(
        state_dir_failed(&config(), f("denied")).report(),
        "cannot create state_dir /var/lib/dnsvcert: denied"
    );
    let steps = store_account(&config(), "/p", Err("odd".into()));
    assert_eq!(steps.len(), 2);
    match &steps[1] {
        StoreStep::Fail(f) => assert_eq!(f.report(), "odd"),
        _ => panic!(),
    }
}

// ---- expiry ----

fn tlv(tag: u8, body: &[u8]) -> Vec<u8> {
    let mut out = vec![tag];
    if body.len() < 128 {
        out.push(body.len() as u8);
    } else {
        out.push(0x82);
        out.push((body.len() >> 8) as u8);
        out.push(body.len() as u8);
    }
    out.extend_from_slice(body);
    out
}

/// A certificate in PEM that is valid until the given time (YYMMDDHHMMSSZ).
fn certificate(not_after: &str) -> Vec<u8> {
    let oid = [0x06, 0x08, 0x2a, 0x86, 0x48, 0xce, 0x3d, 0x04, 0x03, 0x02];
    let algorithm = tlv(0x30, &oid);
    let name = tlv(0x30, &[]);
    let validity = tlv(0x30, &[tlv(0x17, b"200101000000Z"), tlv(0x17, not_after.as_bytes())].concat());
    let key = tlv(0x30, &[algorithm.clone(), tlv(0x03, &[0, 4])].concat());
    let body = tlv(
        0x30,
        &[tlv(0x02, &[1]), algorithm.clone(), name.clone(), validity, name, key].concat(),
    );
    let der = tlv(0x30, &[body, algorithm, tlv(0x03, &[0, 1])].concat());
    let text = base64::engine::general_purpose::STANDARD.encode(der);
    format!("-----BEGIN CERTIFICATE-----\n{text}\n-----END CERTIFICATE-----\n").into_bytes()
}

#[test]
fn days_are_counted_toward_zero() {
    assert_eq!(days_left(86400 * 30, 0), 30);
    assert_eq!(days_left(86400 * 30 - 1, 0), 29);
    assert_eq!(days_left(86399, 0), 0);
    assert_eq!(days_left(0, 86399), 0);
    assert_eq!(days_left(0, 86400), -1);
    assert_eq!(days_left(0, 86400 * 2 - 1), -1);
    assert_eq!(days_left(i64::MIN, u64::MAX), (i64::MIN as i128 - u64::MAX as i128).wrapping_div(86400) as i64);
    assert_eq!(days_left(i64::MAX, 0), i64::MAX / 86400);
}

#[test]
fn expiry_is_read_from_the_chain() {
    // 2030-01-01T00:00:00Z
    let end: u64 = 1_893_456_000;
    let at = |data: Vec<u8>, now| days_until_expiry("/c", CertFile::Contents(data), now);
    assert_eq!(at(certificate("300101000000Z"), Ok(end - 86400 * 31)).unwrap(), Some(31));
    assert_eq!(at(certificate("300101000000Z"), Ok(end + 86400)).unwrap(), Some(-1));
    assert_eq!(at(certificate("300102000000Z"), Ok(end)).unwrap(), Some(1));
    let mut chain = certificate("300101000000Z");
    chain.extend(certificate("210101000000Z"));
    assert_eq!(at(chain, Ok(end - 86400)).unwrap(), Some(1));
    assert_eq!(
        at(certificate("300101000000Z"), Err("clock".into())).unwrap_err().report(),
        "clock"
    );
}

#[test]
fn expiry_without_a_certificate() {
    assert_eq!(days_until_expiry("/c", CertFile::Missing, Ok(0)).unwrap(), None);
    assert_eq!(
        days_until_expiry("/c", CertFile::Unreadable("denied".into()), Ok(0)).unwrap_err().report(),
        "denied"
    );
    let bad = |data: &str| {
        days_until_expiry("/c", CertFile::Contents(data.into()), Ok(0)).unwrap_err().report()
    };
    assert!(bad("no pem").starts_with("cannot parse /c: "));
    assert!(bad("-----BEGIN CERTIFICATE-----\nAAAA\n-----END CERTIFICATE-----\n")
        .starts_with("cannot parse /c: "));
    assert_eq!(
        days_from("/c", Err("x".into()), Ok(0)).unwrap_err().report(),
        "cannot parse /c: x"
    );
    assert_eq!(days_from("/c", Ok(86400), Ok(0)).unwrap(), Some(1));
}

// ---- files ----

#[test]
fn files_are_complete_before_they_have_their_name() {
    let path = FilePath { dir: "d".to_string(), file: "a.b.pem".to_string() };
    let steps = write_file(path, "text".into(), 0o644);
    assert_eq!(steps.len(), 3);
    match (&steps[0], &steps[1], &steps[2]) {
        (
            FileStep::Write { path, contents },
            FileStep::SetMode { path: p, mode },
            FileStep::Rename { from, to },
        ) => {
            assert_eq!((path.dir.as_str(), path.file.as_str(), contents.as_str()), ("d", "a.b.tmp", "text"));
            assert_eq!((p.file.as_str(), *mode), ("a.b.tmp", 0o644));
            assert_eq!((from.file.as_str(), to.file.as_str()), ("a.b.tmp", "a.b.pem"));
        }
        _ => panic!(),
    }
    let f = || Failure::new("disk".into());
    assert_eq!(steps[0].failed("d/a.b.tmp", f()).report(), "cannot write d/a.b.tmp: disk");
    assert_eq!(steps[1].failed("d/a.b.tmp", f()).report(), "disk");
    assert_eq!(steps[2].failed("d/a.b.pem", f()).report(), "cannot move into d/a.b.pem: disk");
    // the standard library names temporary files in the same way
    for file in ["privkey.pem", "plain", ".hidden", ".hidden.x", "a.", "x.tmp"] {
        let path = FilePath { dir: "d".to_string(), file: file.to_string() };
        let there = std::path::Path::new(file).with_extension("tmp");
        match &write_file(path, String::new(), 0)[0] {
            FileStep::Write { path, .. } => assert_eq!(path.file, there.to_str().unwrap()),
            _ => panic!(),
        }
    }
}

// ---- the course of an order ----

fn order(wait: u64) -> Issue {
    let mut cfg = config();
    cfg.dns.propagation_wait_secs = wait;
    let sock = Some(Lookup::Found("192.0.2.1:53".into()));
    let dns = match ChallengeDns::new(&cfg.dns, sock, None) {
        Opening::Open(dns) => dns,
        _ => panic!(),
    };
    let cert = CertConfig {
        domains: vec!["app.example.com".into(), "*.app.example.com".into()],
        output_dir: "/certs".into(),
        reload_hook: None,
    };
    issue(&cert, &dns)
}

fn pending(identifier: &str, value: &str) -> Event<String, Failure> {
    Event::Authorization {
        status: AuthorizationStatus::Pending,
        challenge: Some((identifier.into(), value.into())),
    }
}

fn other(status: AuthorizationStatus) -> Event<String, Failure> {
    Event::Authorization { status, challenge: None }
}

fn did() -> Event<String, Failure> {
    Event::Did(Ok(()))
}

fn fails(s: &str) -> Event<String, Failure> {
    Event::Did(Err(Failure::new(s.into())))
}

fn shown(l: Option<Line<String>>) -> String {
    match l {
        None => String::new(),
        Some(Line::Out(s)) => format!("out {s}"),
        Some(Line::Warn(s)) => format!("err {s}"),
    }
}

/// An order after some events, and what was said.
fn after(start: Issue, events: Vec<Event<String, Failure>>) -> (Issue, Vec<String>) {
    let mut s = start;
    let mut said = Vec::new();
    for e in events {
        let (t, l) = s.step(e);
        s = t;
        if l.is_some() {
            said.push(shown(l));
        }
    }
    (s, said)
}

fn result(s: &Issue) -> String {
    match &s.phase {
        Phase::Done(Ok(())) => "ok".into(),
        Phase::Done(Err(f)) => f.report(),
        p => panic!("{p:?}"),
    }
}

#[test]
fn an_order_runs_to_its_end() {
    let mut s = order(10);
    let mut acts = Vec::new();
    let mut said = Vec::new();
    for e in [
        did(),
        pending("app.example.com", "v1"),
        did(),
        did(),
        other(AuthorizationStatus::Valid),
        pending("*.app.example.com", "v2"),
        did(),
        did(),
        Event::Ended,
        Event::Slept,
        Event::Seen(true),
        Event::Seen(false),
        pending("app.example.com", "v1"),
        did(),
        other(AuthorizationStatus::Valid),
        pending("*.app.example.com", "v2"),
        did(),
        Event::Ended,
        Event::Status(Ok(OrderStatus::Ready)),
        Event::Text(Ok("KEY".into())),
        Event::Text(Ok("CHAIN".into())),
        fails("timeout"),
        did(),
        did(),
        did(),
    ] {
        acts.push(format!("{:?}", s.action()));
        let (t, l) = s.step(e);
        s = t;
        if l.is_some() {
            said.push(shown(l));
        }
    }
    let name = "app.example.com.acme.example.com";
    assert_eq!(result(&s), "ok");
    assert!(matches!(s.action(), Action::Rest));
    assert_eq!(
        said,
        [
            format!("out TXT {name} in place"),
            format!("out TXT {name} in place"),
            "out waiting 10s for propagation".into(),
            format!("out note: {name} is not visible via your configured resolver yet (negative caching); proceeding — the CA queries the authoritative servers itself. Lower the challenge zone's SOA minimum (60s) if this keeps happening."),
            format!("err warning: could not clean up TXT {name}: timeout"),
            "out issued certificate for [app.example.com, *.app.example.com] into /certs".into(),
        ]
    );
    assert_eq!(acts[0], "PlaceOrder([\"app.example.com\", \"*.app.example.com\"])");
    assert_eq!(acts[1], "NextAuthorization");
    assert_eq!(acts[2], format!("AddTxt {{ name: \"{name}\", value: \"v1\" }}"));
    assert_eq!(acts[3], format!("ConfirmTxt {{ name: \"{name}\", value: \"v1\" }}"));
    assert_eq!(acts[9], "Sleep(10)");
    assert_eq!(
        acts[11],
        format!("AwaitPublicTxt {{ name: \"{name}\", value: \"v2\", budget_secs: 60 }}")
    );
    assert_eq!(acts[12], "NextAuthorizationAgain");
    assert_eq!(acts[13], "SetReady");
    assert_eq!(acts[18], "PollReady");
    assert_eq!(acts[19], "Finalize");
    assert_eq!(acts[20], "PollCertificate");
    // both records lie at one name, which is cleared once
    assert_eq!(acts[21], format!("ClearTxt(\"{name}\")"));
    assert_eq!(acts[22], "MakeDir(\"/certs\")");
    assert!(acts[23].contains("privkey.tmp") && acts[23].contains("mode: 384"));
    assert!(acts[24].contains("fullchain.tmp") && acts[24].contains("mode: 420"));
}

#[test]
fn what_was_added_is_cleared_after_a_failure() {
    let events = vec![
        did(),
        pending("b", "1"),
        did(),
        did(),
        pending("a", "2"),
        did(),
        did(),
        pending("c", "3"),
        fails("refused"),
    ];
    let (s, _) = after(order(0), events);
    assert_eq!(s.cleanup, ["a.acme.example.com", "b.acme.example.com"]);
    match s.action() {
        Action::ClearTxt(n) => assert_eq!(n, "a.acme.example.com"),
        _ => panic!(),
    }
    let (s, said) = after(s, vec![did(), did()]);
    assert_eq!(result(&s), "refused");
    assert!(said.is_empty());
}

#[test]
fn a_record_that_is_not_confirmed_is_cleared() {
    let (s, _) = after(order(0), vec![did(), pending("a", "1"), did(), fails("not served")]);
    assert_eq!(s.cleanup, ["a.acme.example.com"]);
    assert_eq!(result(&after(s, vec![did()]).0), "not served");
}

#[test]
fn orders_fail_with_their_reason() {
    let end = |e: Vec<Event<String, Failure>>| result(&after(order(10), e).0);
    let f = || Failure::new("x".into());
    assert_eq!(end(vec![fails("x")]), "cannot create ACME order: x");
    assert_eq!(end(vec![did(), Event::Unfetched(f())]), "x");
    for (s, w) in [
        (AuthorizationStatus::Invalid, "Invalid"),
        (AuthorizationStatus::Revoked, "Revoked"),
        (AuthorizationStatus::Expired, "Expired"),
        (AuthorizationStatus::Deactivated, "Deactivated"),
    ] {
        assert_eq!(end(vec![did(), other(s)]), format!("unexpected authorization status: {w}"));
    }
    assert_eq!(
        end(vec![did(), other(AuthorizationStatus::Pending)]),
        "server offered no dns-01 challenge"
    );
    let ready = || vec![did(), Event::Ended];
    let with = |more: Vec<Event<String, Failure>>| {
        let mut v = ready();
        v.extend(more);
        end(v)
    };
    assert_eq!(with(vec![other(AuthorizationStatus::Pending)]), "server offered no dns-01 challenge");
    assert_eq!(with(vec![Event::Unfetched(f())]), "x");
    assert_eq!(with(vec![pending("a", "1"), fails("no")]), "no");
    for (s, w) in [
        (OrderStatus::Pending, "Pending"),
        (OrderStatus::Processing, "Processing"),
        (OrderStatus::Valid, "Valid"),
        (OrderStatus::Invalid, "Invalid"),
    ] {
        assert_eq!(
            with(vec![Event::Ended, Event::Status(Ok(s))]),
            format!("order failed validation, status: {w}")
        );
    }
    assert_eq!(with(vec![Event::Ended, Event::Status(Err(f()))]), "x");
    let polled = |more: Vec<Event<String, Failure>>| {
        let mut v = vec![Event::Ended, Event::Status(Ok(OrderStatus::Ready))];
        v.extend(more);
        with(v)
    };
    assert_eq!(polled(vec![Event::Text(Err(f()))]), "finalize failed: x");
    assert_eq!(
        polled(vec![Event::Text(Ok("K".into())), Event::Text(Err(f()))]),
        "certificate download failed: x"
    );
    let got = |more: Vec<Event<String, Failure>>| {
        let mut v = vec![Event::Text(Ok("K".into())), Event::Text(Ok("C".into()))];
        v.extend(more);
        polled(v)
    };
    assert_eq!(got(vec![fails("d")]), "cannot create output_dir /certs: d");
    assert_eq!(got(vec![did(), fails("k")]), "k");
    assert_eq!(got(vec![did(), did(), fails("c")]), "c");
    assert_eq!(got(vec![did(), did(), did()]), "ok");
}

#[test]
fn nothing_to_wait_for_means_no_wait() {
    let (s, said) = after(order(10), vec![did(), Event::Ended]);
    assert!(matches!(s.phase, Phase::Readying));
    assert!(said.is_empty());
    let (s, _) = after(order(0), vec![did(), pending("a", "1"), did(), did(), Event::Ended]);
    match s.action() {
        Action::AwaitPublicTxt { budget_secs, .. } => assert_eq!(budget_secs, 60),
        _ => panic!(),
    }
    let (s, _) = after(order(75), vec![did(), pending("a", "1"), did(), did(), Event::Ended, Event::Slept]);
    match s.action() {
        Action::AwaitPublicTxt { budget_secs, .. } => assert_eq!(budget_secs, 75),
        _ => panic!(),
    }
    // an event that answers nothing changes nothing
    let (s, said) = after(s, vec![Event::Slept, did()]);
    assert!(matches!(s.phase, Phase::Watching(0)));
    assert!(said.is_empty());
}

#[test]
fn polling_is_patient() {
    let p = patience();
    assert_eq!((p.initial_delay_secs, p.backoff_tenths, p.timeout_secs), (1, 15, 300));
    assert_eq!(chain_path("d").file, "fullchain.pem");
}
