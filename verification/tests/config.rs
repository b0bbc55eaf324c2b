//! The configuration: defaults, the secret in force, and the file that is rendered.

use dnsvcert::addr::{normalize_addr, resolve_addr};
use dnsvcert::config::{
    default_directory, default_propagation_wait_secs, default_renew_before_days,
    default_state_dir, default_tsig_algorithm, default_ttl, render_template, AcmeConfig,
    CertConfig, Config, ConfigSource, DnsConfig,
};

fn text(v: &serde_yaml::Value, key: &str) -> Option<String> {
    v.get(key).and_then(|x| x.as_str()).map(|x| x.to_string())
}

/// What a YAML text holds, with the defaults of the library where it is silent.
fn read(yaml: &str) -> Config {
    let root: serde_yaml::Value = serde_yaml::from_str(yaml).unwrap();
    let acme = root.get("acme").unwrap();
    let dns = root.get("dns").unwrap();
    let mut certificates = Vec::new();
    if let Some(list) = root.get("certificates").and_then(|c| c.as_sequence()) {
        for cert in list {
            let domains = cert.get("domains").unwrap().as_sequence().unwrap();
            certificates.push(CertConfig {
                domains: domains.iter().map(|d| d.as_str().unwrap().to_string()).collect(),
                output_dir: text(cert, "output_dir").unwrap(),
                reload_hook: text(cert, "reload_hook"),
            });
        }
    }
    Config {
        acme: AcmeConfig {
            directory: text(acme, "directory").unwrap_or_else(default_directory),
            email: text(acme, "email").unwrap(),
        },
        dns: DnsConfig {
            server: text(dns, "server").unwrap(),
            challenge_zone: text(dns, "challenge_zone").unwrap(),
            tsig_key: text(dns, "tsig_key").unwrap(),
            tsig_secret: text(dns, "tsig_secret"),
            tsig_algorithm: text(dns, "tsig_algorithm").unwrap_or_else(default_tsig_algorithm),
            ttl: dns.get("ttl").and_then(|x| x.as_u64()).map(|x| x as u32).unwrap_or_else(default_ttl),
            propagation_wait_secs: dns
                .get("propagation_wait_secs")
                .and_then(|x| x.as_u64())
                .unwrap_or_else(default_propagation_wait_secs),
            resolver: text(dns, "resolver"),
            sign_queries: dns.get("sign_queries").and_then(|x| x.as_bool()),
        },
        state_dir: text(&root, "state_dir").unwrap_or_else(default_state_dir),
        certificates,
        renew_before_days: root
            .get("renew_before_days")
            .and_then(|x| x.as_i64())
            .unwrap_or_else(default_renew_before_days),
    }
}

#[test]
fn parses_minimal_config_with_defaults() {
    let cfg = read(
        r#"
acme:
  email: admin@example.com
dns:
  server: 203.0.113.10
  challenge_zone: acme.example.com
  tsig_key: acme-key
  tsig_secret: "c2VjcmV0"
certificates:
  - domains: ["app.example.com", "*.app.example.com"]
    output_dir: /tmp/certs
"#,
    );
    assert!(cfg.acme.directory.contains("letsencrypt.org"));
    assert_eq!(cfg.dns.server_addr(), "tcp://203.0.113.10:53");
    assert_eq!(cfg.dns.ttl, 60);
    assert_eq!(cfg.renew_before_days, 30);
    assert_eq!(cfg.certificates[0].domains.len(), 2);
}

#[test]
fn server_addr_keeps_explicit_proto_and_port() {
    let mk = |s: &str| DnsConfig {
        server: s.into(),
        challenge_zone: "z".into(),
        tsig_key: "k".into(),
        tsig_secret: None,
        tsig_algorithm: default_tsig_algorithm(),
        ttl: 60,
        propagation_wait_secs: 1,
        resolver: None,
        sign_queries: None,
    };
    assert_eq!(mk("udp://1.2.3.4:5353").server_addr(), "udp://1.2.3.4:5353");
    assert_eq!(mk("1.2.3.4:5353").server_addr(), "tcp://1.2.3.4:5353");
    assert_eq!(mk("1.2.3.4").server_addr(), "tcp://1.2.3.4:53");
}

#[test]
fn defaults_are_exact() {
    assert_eq!(default_directory(), "https://acme-v02.api.letsencrypt.org/directory");
    assert_eq!(default_state_dir(), "/var/lib/dnsvcert");
    assert_eq!(default_tsig_algorithm(), "hmac-sha256");
    assert_eq!(default_ttl(), 60);
    assert_eq!(default_propagation_wait_secs(), 10);
    assert_eq!(default_renew_before_days(), 30);
}

#[test]
fn addresses_keep_their_form() {
    for raw in ["", " ns1 ", "ns1:5353", "udp://ns1", "tcp://ns1:53", "a://b://c", "\u{3000}x\n"] {
        let once = normalize_addr(raw);
        assert_eq!(normalize_addr(&once), once);
        assert!(once.contains("://"));
    }
    assert_eq!(normalize_addr("  8.8.8.8\t"), "tcp://8.8.8.8:53");
    assert_eq!(normalize_addr(""), "tcp://:53");
}

#[test]
fn addresses_are_taken_apart() {
    let e = resolve_addr("tcp://ns1.example.com:5353").unwrap();
    assert_eq!((e.host.as_str(), e.port), ("ns1.example.com", 5353));
    let e = resolve_addr("tcp://ns1.example.com").unwrap();
    assert_eq!((e.host.as_str(), e.port), ("ns1.example.com", 53));
    let e = resolve_addr("tcp://::1:53").unwrap();
    assert_eq!((e.host.as_str(), e.port), ("::1", 53));
    let e = resolve_addr("ns1:+9").unwrap();
    assert_eq!((e.host.as_str(), e.port), ("ns1", 9));
}

#[test]
fn bad_ports_are_refused() {
    let why = |a: &str| resolve_addr(a).unwrap_err().report();
    assert_eq!(why("tcp://x:"), "bad port in 'tcp://x:': cannot parse integer from empty string");
    assert_eq!(why("tcp://x:5a"), "bad port in 'tcp://x:5a': invalid digit found in string");
    assert_eq!(
        why("tcp://x:65536"),
        "bad port in 'tcp://x:65536': number too large to fit in target type"
    );
    assert_eq!(why("tcp://x:-1"), "bad port in 'tcp://x:-1': invalid digit found in string");
    // the same words as the standard library's
    for p in ["", "5a", "65536", "-1", "+", "+7", "007", "99999999999999999999x"] {
        let ours = resolve_addr(&format!("tcp://x:{p}"));
        match p.parse::<u16>() {
            Ok(n) => assert_eq!(ours.unwrap().port, n),
            Err(e) => assert_eq!(ours.unwrap_err().messages()[1], e.to_string()),
        }
    }
}

fn sample(secret: Option<&str>) -> Config {
    let mut cfg = read(
        "acme: {email: a@b.c}\ndns: {server: s, challenge_zone: z, tsig_key: k}\nstate_dir: /s\n",
    );
    cfg.dns.tsig_secret = secret.map(|s| s.to_string());
    cfg
}

fn loaded(file: Option<&str>, env: Option<&str>) -> Option<String> {
    let source = ConfigSource::Parsed(sample(file));
    Config::load("p", source, env.map(|s| s.to_string())).unwrap().dns.tsig_secret
}

#[test]
fn environment_secret_wins_and_placeholders_are_none() {
    assert_eq!(loaded(Some("file"), Some("env")).as_deref(), Some("env"));
    assert_eq!(loaded(Some("file"), None).as_deref(), Some("file"));
    assert_eq!(loaded(None, Some("env")).as_deref(), Some("env"));
    assert_eq!(loaded(Some(""), None), None);
    assert_eq!(loaded(Some("CHANGE_ME"), None), None);
    assert_eq!(loaded(Some("file"), Some("")), None);
    assert_eq!(loaded(Some("file"), Some("CHANGE_ME")), None);
    assert_eq!(loaded(None, None), None);
}

#[test]
fn unreadable_and_invalid_files_are_reported() {
    let f = Config::load("/c", ConfigSource::Unreadable("no such file".into()), None).unwrap_err();
    assert_eq!(f.messages(), ["cannot read config file /c", "no such file"]);
    let f = Config::load("/c", ConfigSource::Invalid("bad yaml".into()), None).unwrap_err();
    assert_eq!(f.report(), "invalid config in /c: bad yaml");
    assert_eq!(f.message(), "invalid config in /c");
}

#[test]
fn renders_a_file_with_all_values() {
    let out = render_template(
        "ops@example.com",
        "203.0.113.10",
        "acme.example.com",
        "dnsvcert",
        Some("c2VjcmV0"),
        &["app.example.com".to_string(), "*.app.example.com".to_string()],
        "./certs/app",
        "/home/x/.local/state/dnsvcert",
        Some("systemctl reload nginx"),
        Some("8.8.8.8"),
    );
    assert_eq!(
        out,
        r#"acme:
  directory: https://acme-v02.api.letsencrypt.org/directory
  email: ops@example.com

state_dir: /home/x/.local/state/dnsvcert

dns:
  # The three values below come with your DNSVault subscription.
  server: 203.0.113.10
  challenge_zone: acme.example.com
  tsig_key: dnsvcert
  # Base64 secret; alternatively set the DNSVCERT_TSIG_SECRET environment variable.
  tsig_secret: "c2VjcmV0"
  # Verification queries go here (what Let's Encrypt sees); query signing is off.
  resolver: 8.8.8.8

renew_before_days: 30

certificates:
  - domains: ["app.example.com", "*.app.example.com"]
    output_dir: ./certs/app
    reload_hook: "systemctl reload nginx"
"#
    );
    let cfg = read(&out);
    assert_eq!(cfg.dns.resolver.as_deref(), Some("8.8.8.8"));
    assert_eq!(cfg.certificates[0].domains, ["app.example.com", "*.app.example.com"]);
    assert_eq!(cfg.certificates[0].reload_hook.as_deref(), Some("systemctl reload nginx"));
}

#[test]
fn renders_placeholders() {
    let out = render_template("e@x.y", "s", "z", "k", None, &[], "d", "st", Some(""), None);
    assert_eq!(
        out,
        r#"acme:
  directory: https://acme-v02.api.letsencrypt.org/directory
  email: e@x.y

state_dir: st

dns:
  # The three values below come with your DNSVault subscription.
  server: s
  challenge_zone: z
  tsig_key: k
  # Base64 secret; alternatively set the DNSVCERT_TSIG_SECRET environment variable.
  tsig_secret: "CHANGE_ME"
  # Verification queries are TSIG-signed to the server above so multi-view
  # servers route them like the updates. To verify via a resolver instead:
  # resolver: 8.8.8.8
  # sign_queries: false

renew_before_days: 30

certificates:
  - domains: ["app.example.com", "*.app.example.com"]
    output_dir: d
    # reload_hook: "systemctl reload nginx"
"#
    );
    let cfg = read(&out);
    assert_eq!(cfg.dns.tsig_secret.as_deref(), Some("CHANGE_ME"));
    let cfg = Config::load("p", ConfigSource::Parsed(cfg), None).unwrap();
    assert_eq!(cfg.dns.tsig_secret, None);
    assert_eq!(cfg.certificates[0].reload_hook, None);
}
