//! The challenge zone: names, opening, updates, reading and confirming.

use dnsvcert::config::DnsConfig;
use dnsvcert::confirm::{Confirming, Probing, Watching};
use dnsvcert::dns::{
    challenge_txt_name, normalize, parse_algorithm, strip_wildcard, ChallengeDns, Lookup, Opening,
    Reading, UpdateKind,
};
use dnsvcert::failure::Failure;
use dnsvcert::query::{
    hickory_algorithm, Answer, Exchange, Querier, Query, Rdata, RecordKind, Reply, TsigAlgorithm,
};
use hickory_proto::rr::Name;

fn config(secret: Option<&str>) -> DnsConfig {
    DnsConfig {
        server: "ns1.example.com".into(),
        challenge_zone: "acme.example.com".into(),
        tsig_key: "dnsvcert-key".into(),
        tsig_secret: secret.map(|s| s.into()),
        tsig_algorithm: "hmac-sha256".into(),
        ttl: 60,
        propagation_wait_secs: 10,
        resolver: None,
        sign_queries: None,
    }
}

fn found(s: &str) -> Option<Lookup> {
    Some(Lookup::Found(s.to_string()))
}

fn opened(cfg: &DnsConfig) -> ChallengeDns {
    match ChallengeDns::new(cfg, found("192.0.2.1:53"), found("192.0.2.8:53")) {
        Opening::Open(dns) => dns,
        Opening::Failed(f) => panic!("{}", f.report()),
        _ => panic!("not opened"),
    }
}

fn refused(cfg: &DnsConfig, server: Option<Lookup>, resolver: Option<Lookup>) -> String {
    match ChallengeDns::new(cfg, server, resolver) {
        Opening::Failed(f) => f.report(),
        _ => panic!("not refused"),
    }
}

#[test]
fn maps_identifiers_to_challenge_zone_names() {
    assert_eq!(
        challenge_txt_name("app.example.com", "acme.example.com"),
        "app.example.com.acme.example.com"
    );
    // wildcard and its base share the same TXT name
    assert_eq!(
        challenge_txt_name("*.app.example.com", "acme.example.com"),
        challenge_txt_name("app.example.com", "acme.example.com"),
    );
}

#[test]
fn rejects_unknown_algorithm() {
    assert!(parse_algorithm("hmac-md5").is_err());
    assert!(parse_algorithm("hmac-sha256").is_ok());
}

#[test]
fn wildcards_lose_one_label() {
    assert_eq!(strip_wildcard("*.a"), "a");
    assert_eq!(strip_wildcard("*.*.a"), "*.a");
    assert_eq!(strip_wildcard("*a"), "*a");
    assert_eq!(strip_wildcard(""), "");
    assert_ne!(challenge_txt_name("a", "z"), challenge_txt_name("b", "z"));
    assert!(challenge_txt_name("*.x", "z").ends_with(".z"));
}

#[test]
fn names_are_compared_without_case_and_dot() {
    assert_eq!(normalize("App.Example.COM."), "app.example.com");
    assert_eq!(normalize("a.."), "a");
    assert_eq!(normalize(&normalize("ÄB.")), "Äb");
    assert_eq!(normalize("..."), "");
}

#[test]
fn algorithms_are_named() {
    for (name, a) in [
        ("hmac-sha1", TsigAlgorithm::HmacSha1),
        ("hmac-sha224", TsigAlgorithm::HmacSha224),
        ("HMAC-SHA256", TsigAlgorithm::HmacSha256),
        ("hmac-sha384", TsigAlgorithm::HmacSha384),
        ("hmac-sha512", TsigAlgorithm::HmacSha512),
    ] {
        assert_eq!(parse_algorithm(name).unwrap(), a);
        assert_eq!(hickory_algorithm(name).unwrap(), a);
    }
    assert_eq!(
        parse_algorithm("HMAC-MD5").unwrap_err().report(),
        "unsupported tsig_algorithm 'hmac-md5' (use hmac-sha256, hmac-sha512, ...)"
    );
    assert_eq!(
        hickory_algorithm("HMAC-MD5").unwrap_err().report(),
        "unsupported tsig_algorithm 'hmac-md5'"
    );
}

#[test]
fn opening_asks_for_the_addresses_it_needs() {
    let mut cfg = config(Some(" c2VjcmV0\n"));
    cfg.resolver = Some("8.8.8.8:5300".into());
    match ChallengeDns::new(&cfg, None, None) {
        Opening::NeedServer(e) => assert_eq!((e.host.as_str(), e.port), ("ns1.example.com", 53)),
        _ => panic!(),
    }
    match ChallengeDns::new(&cfg, found("192.0.2.1:53"), None) {
        Opening::NeedResolver(e) => assert_eq!((e.host.as_str(), e.port), ("8.8.8.8", 5300)),
        _ => panic!(),
    }
    let dns = opened(&cfg);
    assert_eq!(dns.master.addr, "192.0.2.1:53");
    assert_eq!(dns.verify.addr, "192.0.2.8:53");
    assert!(dns.verify_is_resolver && dns.can_write());
    assert_eq!((dns.zone.as_str(), dns.ttl, dns.propagation_wait_secs), ("acme.example.com", 60, 10));
}

#[test]
fn the_secret_becomes_the_key() {
    let dns = opened(&config(Some(" c2VjcmV0 ")));
    let signer = dns.master.signer.as_ref().unwrap();
    assert_eq!(signer.key(), b"secret");
    assert_eq!(signer.fudge(), 300);
    assert_eq!(signer.signer_name(), &Name::from_ascii("dnsvcert-key.").unwrap());
    assert_eq!(signer.algorithm(), &hickory_proto::rr::rdata::tsig::TsigAlgorithm::HmacSha256);
}

#[test]
fn signing_follows_the_configuration() {
    let sign = |secret: Option<&str>, resolver: bool, setting: Option<bool>| {
        let mut cfg = config(secret);
        cfg.resolver = if resolver { Some("8.8.8.8".into()) } else { None };
        cfg.sign_queries = setting;
        let dns = opened(&cfg);
        (dns.signed, dns.master.signer.is_some(), dns.verify.signer.is_some())
    };
    assert_eq!(sign(Some("c2VjcmV0"), false, None), (true, true, true));
    assert_eq!(sign(Some("c2VjcmV0"), true, None), (true, true, false));
    assert_eq!(sign(Some("c2VjcmV0"), false, Some(false)), (true, false, false));
    assert_eq!(sign(Some("c2VjcmV0"), true, Some(false)), (true, false, false));
    assert_eq!(sign(Some("c2VjcmV0"), false, Some(true)), (true, true, true));
    assert_eq!(sign(Some("c2VjcmV0"), true, Some(true)), (true, true, true));
    assert_eq!(sign(None, false, None), (false, false, false));
    assert_eq!(sign(None, true, Some(true)), (false, false, false));
}

#[test]
fn opening_fails_in_order() {
    let mut cfg = config(Some("c2VjcmV"));
    assert!(refused(&cfg, None, None).starts_with("dns.tsig_secret is not valid base64: "));
    cfg.tsig_secret = Some("c2VjcmV0".into());
    cfg.server = "ns1:x".into();
    assert_eq!(
        refused(&cfg, None, None),
        "bad port in 'tcp://ns1:x': invalid digit found in string"
    );
    cfg.server = "ns1".into();
    assert_eq!(
        refused(&cfg, Some(Lookup::Unresolvable("lookup failed".into())), None),
        "cannot resolve hostname 'ns1': lookup failed"
    );
    assert_eq!(
        refused(&cfg, Some(Lookup::NoAddress), None),
        "'ns1' resolved to no addresses"
    );
    cfg.tsig_algorithm = "hmac-md5".into();
    assert_eq!(
        refused(&cfg, found("192.0.2.1:53"), None),
        "unsupported tsig_algorithm 'hmac-md5' (use hmac-sha256, hmac-sha512, ...)"
    );
    cfg.tsig_algorithm = "hmac-sha1".into();
    assert!(refused(&cfg, found("192.0.2.1:53"), None).starts_with("cannot create DNS updater: "));
    cfg.tsig_algorithm = "hmac-sha512".into();
    assert!(refused(&cfg, found("not an address"), None).starts_with("cannot create DNS updater: "));
    cfg.resolver = Some("r:99999".into());
    assert_eq!(
        refused(&cfg, found("192.0.2.1:53"), None),
        "bad port in 'tcp://r:99999': number too large to fit in target type"
    );
    cfg.resolver = Some("r".into());
    assert_eq!(
        refused(&cfg, found("192.0.2.1:53"), Some(Lookup::NoAddress)),
        "'r' resolved to no addresses"
    );
}

#[test]
fn queriers_refuse_what_cannot_sign() {
    let fail = |name: &str, algorithm: &str| {
        let r = Querier::new("192.0.2.1:53", Some((name, vec![1, 2], algorithm)));
        match r {
            Ok(_) => panic!(),
            Err(f) => f.report(),
        }
    };
    assert_eq!(fail("k", "nothing"), "unsupported tsig_algorithm 'nothing'");
    assert_eq!(
        fail("k", "hmac-sha1"),
        "cannot build query signer: Tsig unsupported mac algorithm"
    );
    assert!(fail("a..b", "hmac-sha256").starts_with("bad key name: "));
}

#[test]
fn queriers_are_made_of_a_key_whose_name_was_read() {
    let q = Querier::with_key("a", Ok(name("Key.")), vec![7], TsigAlgorithm::HmacSha384).unwrap();
    let signer = q.signer.unwrap();
    assert_eq!((signer.key(), signer.fudge()), (&[7u8][..], 300));
    assert_eq!(signer.signer_name(), &name("key."));
    let why = |n: Result<Name, String>, a| match Querier::with_key("a", n, vec![7], a) {
        Ok(_) => panic!(),
        Err(f) => f.report(),
    };
    assert_eq!(why(Err("odd".into()), TsigAlgorithm::HmacSha1), "bad key name: odd");
    assert_eq!(
        why(Ok(name("k.")), TsigAlgorithm::HmacSha224),
        "cannot build query signer: Tsig unsupported mac algorithm"
    );
    match q_failed("odd") {
        Query::Failed(f) => assert_eq!(f.report(), "bad name n: odd"),
        _ => panic!(),
    }
}

fn q_failed(why: &str) -> Query<'static> {
    let q = Querier::new("192.0.2.1:53", None).unwrap();
    q.query_owner("n", RecordKind::Txt, Err(why.to_string()), None)
}

#[test]
fn opening_goes_on_from_an_updater() {
    let mut cfg = config(Some("c2VjcmV0"));
    let open = |cfg: &DnsConfig, updater| {
        ChallengeDns::with_updater(cfg, vec![1, 2], "192.0.2.1:53".into(), updater, None)
    };
    match open(&cfg, Err("odd".into())) {
        Opening::Failed(f) => assert_eq!(f.report(), "cannot create DNS updater: odd"),
        _ => panic!(),
    }
    match open(&cfg, Ok(opened(&config(None)).updater)) {
        Opening::Open(dns) => assert_eq!(dns.verify.signer.unwrap().key(), [1, 2]),
        _ => panic!(),
    }
    cfg.tsig_key = "a..b".into();
    match open(&cfg, Ok(opened(&config(None)).updater)) {
        Opening::Failed(f) => assert!(f.report().starts_with("bad key name: ")),
        _ => panic!(),
    }
    // the name of the key does not matter where nothing is signed with it
    cfg.sign_queries = Some(false);
    match open(&cfg, Ok(opened(&config(None)).updater)) {
        Opening::Open(dns) => assert!(dns.signed && dns.master.signer.is_none()),
        _ => panic!(),
    }
    cfg.tsig_secret = None;
    cfg.resolver = Some("r".into());
    match open(&cfg, Ok(opened(&config(None)).updater)) {
        Opening::NeedResolver(e) => assert_eq!((e.host.as_str(), e.port), ("r", 53)),
        _ => panic!(),
    }
}

#[test]
fn updates_carry_name_value_and_zone() {
    let dns = opened(&config(Some("c2VjcmV0")));
    let u = dns.add_txt("app.acme.example.com", "v").unwrap();
    assert_eq!(u.kind, UpdateKind::Add);
    assert_eq!((u.name.as_str(), u.ttl, u.zone.as_str()), ("app.acme.example.com", 60, "acme.example.com"));
    assert_eq!(u.values, ["v"]);
    assert_eq!(
        u.failed("refused").report(),
        "TSIG update failed adding TXT app.acme.example.com: refused"
    );
    let u = dns.clear_txt("n").unwrap();
    assert_eq!(u.kind, UpdateKind::Replace);
    assert_eq!((u.name.as_str(), u.ttl), ("n", 0));
    assert!(u.values.is_empty());
    assert_eq!(u.failed("refused").report(), "TSIG update failed clearing TXT n: refused");
}

#[test]
fn a_wildcard_and_its_base_are_answered_together() {
    let dns = opened(&config(Some("c2VjcmV0")));
    let at = |identifier: &str| challenge_txt_name(identifier, &dns.zone);
    let mut served: Vec<String> = vec!["before".into()];
    let mut names = Vec::new();
    for u in [
        dns.add_txt(&at("app.example.com"), "v1").unwrap(),
        dns.add_txt(&at("*.app.example.com"), "v2").unwrap(),
    ] {
        assert_eq!(u.kind, UpdateKind::Add);
        served.extend(u.values);
        names.push(u.name);
    }
    assert_eq!(names[0], names[1]);
    assert_eq!(served, ["before", "v1", "v2"]);
    for _ in 0..2 {
        let u = dns.clear_txt(&names[0]).unwrap();
        assert_eq!(u.kind, UpdateKind::Replace);
        served = u.values;
        assert!(served.is_empty());
    }
}

#[test]
fn nothing_is_written_without_a_secret() {
    let dns = opened(&config(None));
    assert!(!dns.can_write());
    let why = "no TSIG secret configured — set dns.tsig_secret or DNSVCERT_TSIG_SECRET";
    assert_eq!(dns.require_secret().unwrap_err().report(), why);
    assert_eq!(dns.add_txt("n", "v").unwrap_err().report(), why);
    assert_eq!(dns.clear_txt("n").unwrap_err().report(), why);
}

fn name(s: &str) -> Name {
    Name::from_ascii(s).unwrap()
}

fn replied(code: u16, answers: Vec<Answer>) -> Exchange {
    Exchange::Replied(Reply { code, code_text: "Server Failure".into(), answers })
}

#[test]
fn queries_ask_for_the_qualified_name() {
    let q = Querier::new("192.0.2.1:53", None).unwrap();
    for given in ["App.example.com", "App.example.com."] {
        match q.query(given, RecordKind::Txt, None) {
            Query::Send(n) => assert_eq!(n, name("app.example.com.")),
            _ => panic!(),
        }
    }
    match q.query("a..b", RecordKind::Txt, None) {
        Query::Failed(f) => assert!(f.report().starts_with("bad name a..b: ")),
        _ => panic!(),
    }
}

#[test]
fn failed_exchanges_are_reported() {
    let q = Querier::new("192.0.2.1:53", None).unwrap();
    let why = |e: Exchange| match q.query("a", RecordKind::Cname, Some(&e)) {
        Query::Failed(f) => f.report(),
        _ => panic!(),
    };
    assert_eq!(why(Exchange::Unreachable("x".into())), "cannot connect to 192.0.2.1:53: x");
    assert_eq!(why(Exchange::Unanswered("x".into())), "query to 192.0.2.1:53 failed: x");
    assert_eq!(why(replied(2, vec![])), "server 192.0.2.1:53 answered Server Failure");
}

#[test]
fn txt_values_are_read_from_the_master() {
    let dns = opened(&config(Some("c2VjcmV0")));
    match dns.txt_values("a.example.com", None) {
        Reading::Send { to, name: n, kind } => {
            assert_eq!(to.addr, "192.0.2.1:53");
            assert_eq!(n, name("a.example.com."));
            assert_eq!(kind, RecordKind::Txt);
        }
        _ => panic!(),
    }
    let reply = replied(
        0,
        vec![
            Answer {
                name: name("A.EXAMPLE.com."),
                data: Rdata::Txt(vec![b"one ".to_vec(), b"\xc3\xa4\xff".to_vec()]),
            },
            Answer { name: name("other.example.com."), data: Rdata::Txt(vec![b"no".to_vec()]) },
            Answer { name: name("a.example.com."), data: Rdata::Cname(name("x.")) },
            Answer { name: name("a.example.com."), data: Rdata::Txt(vec![]) },
            Answer { name: name("a.example.com."), data: Rdata::Other },
        ],
    );
    match dns.txt_values("a.example.com", Some(&reply)) {
        Reading::Done(Ok(v)) => assert_eq!(v, ["one ä\u{fffd}", ""]),
        _ => panic!(),
    }
    match dns.txt_values("a.example.com", Some(&replied(3, vec![]))) {
        Reading::Done(Ok(v)) => assert!(v.is_empty()),
        _ => panic!(),
    }
    match dns.txt_values("a", Some(&Exchange::Unreachable("no route".into()))) {
        Reading::Done(Err(f)) => assert_eq!(
            f.report(),
            "TXT query for a failed: cannot connect to 192.0.2.1:53: no route"
        ),
        _ => panic!(),
    }
}

#[test]
fn cname_targets_are_read_from_the_verification_path() {
    let mut cfg = config(Some("c2VjcmV0"));
    cfg.resolver = Some("8.8.8.8".into());
    let dns = opened(&cfg);
    match dns.cname_target("_acme-challenge.a", None) {
        Reading::Send { to, kind, .. } => {
            assert_eq!(to.addr, "192.0.2.8:53");
            assert_eq!(kind, RecordKind::Cname);
        }
        _ => panic!(),
    }
    match dns.public_txt_values("a", None) {
        Reading::Send { to, .. } => assert_eq!(to.addr, "192.0.2.8:53"),
        _ => panic!(),
    }
    let reply = replied(
        0,
        vec![
            Answer { name: name("_acme-challenge.a."), data: Rdata::Txt(vec![]) },
            Answer {
                name: name("_acme-challenge.A."),
                data: Rdata::Cname(name("A.acme.example.com.")),
            },
            Answer { name: name("_acme-challenge.a."), data: Rdata::Cname(name("second.")) },
        ],
    );
    match dns.cname_target("_acme-challenge.a", Some(&reply)) {
        Reading::Done(Ok(Some(t))) => assert_eq!(t, "A.acme.example.com."),
        _ => panic!(),
    }
    match dns.cname_target("_acme-challenge.a", Some(&replied(0, vec![]))) {
        Reading::Done(Ok(None)) => {}
        _ => panic!(),
    }
    match dns.cname_target("x", Some(&Exchange::Unanswered("timeout".into()))) {
        Reading::Done(Err(f)) => assert_eq!(
            f.message(),
            "CNAME query for x failed: query to 192.0.2.8:53 failed: timeout"
        ),
        _ => panic!(),
    }
}

fn values(v: &[&str]) -> Result<Vec<String>, Failure> {
    Ok(v.iter().map(|s| s.to_string()).collect())
}

#[test]
fn confirmation_ends_with_the_first_answer_that_decides() {
    let dns = opened(&config(Some("c2VjcmV0")));
    let c = dns.confirm_txt("n", "v");
    assert_eq!((c.name.as_str(), c.value.as_str(), c.zone.as_str()), ("n", "v", "acme.example.com"));
    let c = c.answered(values(&["w"])).rested().answered(values(&["w", "v"]));
    assert!(matches!(c.state, Confirming::Served));
    let c = c.answered(Err(Failure::new("late".into())));
    assert!(matches!(c.state, Confirming::Served));

    let c = dns.confirm_txt("n", "v").answered(values(&[])).rested();
    match c.answered(Err(Failure::new("broken".into()))).state {
        Confirming::Failed(f) => assert_eq!(f.report(), "broken"),
        _ => panic!(),
    }
}

#[test]
fn confirmation_asks_ten_times() {
    let dns = opened(&config(Some("c2VjcmV0")));
    let mut c = dns.confirm_txt("n", "v");
    let mut asked = 0;
    while let Confirming::Ask(_) = c.state {
        asked += 1;
        c = c.answered(values(&["old"]));
        assert!(matches!(c.state, Confirming::Pause(_)));
        c = c.rested();
    }
    assert_eq!(asked, 10);
    match c.state {
        Confirming::Failed(f) => assert_eq!(
            f.report(),
            "TXT n was accepted but the update server does not serve it — check that this server is authoritative for acme.example.com"
        ),
        _ => panic!(),
    }
}

#[test]
fn the_resolver_is_watched_only_where_there_is_one() {
    let dns = opened(&config(Some("c2VjcmV0")));
    assert_eq!(dns.await_public_txt("n", "v", 60).state, Watching::Done(true));
    let mut cfg = config(Some("c2VjcmV0"));
    cfg.resolver = Some("8.8.8.8".into());
    let dns = opened(&cfg);
    let w = dns.await_public_txt("n", "v", 10);
    assert_eq!((w.budget_secs, w.state), (30, Watching::Ask));
    assert_eq!(dns.await_public_txt("n", "v", 31).budget_secs, 31);
    let w = w.answered(Err(Failure::new("x".into())), 29);
    assert_eq!(w.state, Watching::Pause);
    let w = w.rested().answered(values(&["old"]), 30);
    assert_eq!(w.state, Watching::Done(false));
    let w = dns.await_public_txt("n", "v", 10).answered(values(&["v"]), 99);
    assert_eq!(w.state, Watching::Done(true));
}

#[test]
fn a_probe_is_always_cleaned_up() {
    let dns = opened(&config(Some("c2VjcmV0")));
    let p = dns.probe(4711);
    assert_eq!(p.name, "_dnsvcert-probe.acme.example.com");
    assert_eq!(p.value, "dnsvcert-probe-4711");
    let p = p.step(Ok(()));
    assert!(matches!(p.state, Probing::Confirm));
    let p = p.step(Err(Failure::new("not served".into())));
    assert!(matches!(p.state, Probing::Clear(Err(_))));
    match p.step(Ok(())).state {
        Probing::Done(Err(f)) => assert_eq!(f.report(), "not served"),
        _ => panic!(),
    }
    let p = dns.probe(0).step(Ok(())).step(Err(Failure::new("a".into())));
    match p.step(Err(Failure::new("b".into()))).state {
        Probing::Done(Err(f)) => assert_eq!(f.report(), "b"),
        _ => panic!(),
    }
    match dns.probe(1).step(Err(Failure::new("no".into()))).state {
        Probing::Done(Err(f)) => assert_eq!(f.report(), "no"),
        _ => panic!(),
    }
    let p = dns.probe(1).step(Ok(())).step(Ok(())).step(Ok(()));
    assert!(matches!(p.state, Probing::Done(Ok(()))));
}
