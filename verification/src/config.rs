//! The configuration: its fields, their defaults, and the file that `init` and
//! `setup` write.

use vstd::prelude::*;
use vstd::string::*;

use crate::addr::{addr_form, normalize_addr};
use crate::failure::Failure;
use crate::text::{cat2, cat3, join, joined, same, str_opt, text_opt, texts};

verus! {

/// Everything the client is told.
#[derive(Debug)]
pub struct Config {
    pub acme: AcmeConfig,
    pub dns: DnsConfig,
    pub state_dir: String,
    pub certificates: Vec<CertConfig>,
    pub renew_before_days: i64,
}

/// The certificate authority and the contact it is given.
#[derive(Debug)]
pub struct AcmeConfig {
    pub directory: String,
    pub email: String,
}

/// The challenge zone, the server that holds it and the key that may write to it.
#[derive(Debug)]
pub struct DnsConfig {
    /// DNS master that accepts the TSIG-signed updates.
    /// "203.0.113.10", "203.0.113.10:5353" or "tcp://203.0.113.10:53".
    pub server: String,
    /// The delegated challenge zone, e.g. "acme.example.com".
    pub challenge_zone: String,
    pub tsig_key: String,
    /// Base64 TSIG secret. May be omitted when DNSVCERT_TSIG_SECRET is set.
    pub tsig_secret: Option<String>,
    pub tsig_algorithm: String,
    pub ttl: u32,
    /// Seconds to wait after writing TXT records before telling the CA to
    /// validate: covers NOTIFY lag to the challenge zone's secondaries.
    pub propagation_wait_secs: u64,
    /// Where doctor's CNAME checks go, and the watch for TXT records that follows
    /// TXT confirm; TXT confirm itself always asks `server`. Defaults to `server`.
    /// Point it elsewhere when the update server's view routing would answer your
    /// queries from the wrong view.
    pub resolver: Option<String>,
    /// Sign verification queries, TXT confirm among them, with the TSIG key so
    /// multi-view servers route them like the updates. Default: queries to `server`
    /// are signed, queries to a custom resolver are not.
    pub sign_queries: Option<bool>,
}

/// One certificate: its names, where it is put and what is run afterwards.
#[derive(Debug)]
pub struct CertConfig {
    pub domains: Vec<String>,
    pub output_dir: String,
    pub reload_hook: Option<String>,
}

/// The certificate authority where the file names none.
pub fn default_directory() -> (r: String)
    ensures
        r@ == "https://acme-v02.api.letsencrypt.org/directory"@,
{
    "https://acme-v02.api.letsencrypt.org/directory".to_owned()
}

/// The directory for the account where the file names none.
pub fn default_state_dir() -> (r: String)
    ensures
        r@ == "/var/lib/dnsvcert"@,
{
    "/var/lib/dnsvcert".to_owned()
}

/// The TSIG algorithm where the file names none.
pub fn default_tsig_algorithm() -> (r: String)
    ensures
        r@ == "hmac-sha256"@,
{
    "hmac-sha256".to_owned()
}

/// The time to live of TXT records where the file gives none, in seconds.
pub fn default_ttl() -> (r: u32)
    ensures
        r == 60,
{
    60
}

/// The wait for propagation where the file gives none, in seconds.
pub fn default_propagation_wait_secs() -> (r: u64)
    ensures
        r == 10,
{
    10
}

/// The days left below which a certificate is renewed where the file gives none.
pub fn default_renew_before_days() -> (r: i64)
    ensures
        r == 30,
{
    30
}

/// What came of reading and parsing the configuration file.
#[derive(Debug)]
pub enum ConfigSource {
    /// The file could not be read, and why.
    Unreadable(String),
    /// The file holds no configuration, and why.
    Invalid(String),
    /// What the file holds.
    Parsed(Config),
}

/// The TSIG secret in force: the one in the environment where there is one, else
/// the one in the file. An empty text and the placeholder are no secret.
pub open spec fn effective_secret(
    file: Option<Seq<char>>,
    env: Option<Seq<char>>,
) -> Option<Seq<char>> {
    let secret = if env is Some {
        env
    } else {
        file
    };
    if secret == Some(""@) || secret == Some("CHANGE_ME"@) {
        None
    } else {
        secret
    }
}

impl Config {
    /// The configuration in force, from what the file at `path` holds and the
    /// value of DNSVCERT_TSIG_SECRET. A missing secret is no failure: read-only
    /// commands work without one.
    pub fn load(path: &str, source: ConfigSource, env_secret: Option<String>) -> (r: Result<
        Config,
        Failure,
    >)
        ensures
            match (source, r) {
                (ConfigSource::Unreadable(cause), Err(f)) => f@ == seq![
                    "cannot read config file "@ + path@,
                    cause@,
                ],
                (ConfigSource::Invalid(cause), Err(f)) => f@ == seq![
                    "invalid config in "@ + path@,
                    cause@,
                ],
                (ConfigSource::Parsed(parsed), Ok(cfg)) => {
                    &&& cfg == (Config {
                        dns: DnsConfig { tsig_secret: cfg.dns.tsig_secret, ..parsed.dns },
                        ..parsed
                    })
                    &&& text_opt(cfg.dns.tsig_secret) == effective_secret(
                        text_opt(parsed.dns.tsig_secret),
                        text_opt(env_secret),
                    )
                },
                _ => false,
            },
    {
        match source {
            ConfigSource::Unreadable(cause) => Err(
                Failure::caused(cat2("cannot read config file ", path), cause),
            ),
            ConfigSource::Invalid(cause) => Err(
                Failure::caused(cat2("invalid config in ", path), cause),
            ),
            ConfigSource::Parsed(parsed) => {
                let mut cfg = parsed;
                if let Some(secret) = env_secret {
                    cfg.dns.tsig_secret = Some(secret);
                }
                let placeholder = match &cfg.dns.tsig_secret {
                    Some(s) => same(s.as_str(), "") || same(s.as_str(), "CHANGE_ME"),
                    None => false,
                };
                if placeholder {
                    cfg.dns.tsig_secret = None;
                }
                Ok(cfg)
            },
        }
    }
}

impl DnsConfig {
    /// `server` in the "proto://host:port" form.
    pub fn server_addr(&self) -> (r: String)
        ensures
            r@ == addr_form(self.server@),
    {
        normalize_addr(self.server.as_str())
    }
}

/// `s` between double quotes.
pub open spec fn quoted(s: Seq<char>) -> Seq<char> {
    "\""@ + s + "\""@
}

/// The list of domains in the file: each between quotes, or two examples.
pub open spec fn domains_text(domains: Seq<Seq<char>>) -> Seq<char> {
    if domains.len() == 0 {
        "\"app.example.com\", \"*.app.example.com\""@
    } else {
        joined(domains.map_values(|d: Seq<char>| quoted(d)), ", "@)
    }
}

/// The reload hook in the file: set, or shown as a comment.
pub open spec fn hook_text(hook: Option<Seq<char>>) -> Seq<char> {
    match hook {
        Some(h) if h.len() > 0 => "    reload_hook: \""@ + h + "\"\n"@,
        _ => "    # reload_hook: \"systemctl reload nginx\"\n"@,
    }
}

/// The resolver in the file: set, or shown as a comment.
pub open spec fn resolver_text(resolver: Option<Seq<char>>) -> Seq<char> {
    match resolver {
        Some(r) => "  # Verification queries go here (what Let's Encrypt sees); query signing is off.\n  resolver: "@
            + r,
        None => "  # Verification queries are TSIG-signed to the server above so multi-view\n  # servers route them like the updates. To verify via a resolver instead:\n  # resolver: 8.8.8.8\n  # sign_queries: false"@,
    }
}

/// The configuration file for the given values.
pub open spec fn config_text(
    email: Seq<char>,
    server: Seq<char>,
    zone: Seq<char>,
    key: Seq<char>,
    secret: Option<Seq<char>>,
    domains: Seq<Seq<char>>,
    output_dir: Seq<char>,
    state_dir: Seq<char>,
    reload_hook: Option<Seq<char>>,
    resolver: Option<Seq<char>>,
) -> Seq<char> {
    "acme:\n  directory: https://acme-v02.api.letsencrypt.org/directory\n  email: "@ + email
        + "\n\nstate_dir: "@ + state_dir
        + "\n\ndns:\n  # The three values below come with your DNSVault subscription.\n  server: "@
        + server + "\n  challenge_zone: "@ + zone + "\n  tsig_key: "@ + key
        + "\n  # Base64 secret; alternatively set the DNSVCERT_TSIG_SECRET environment variable.\n  tsig_secret: \""@
        + (match secret {
        Some(s) => s,
        None => "CHANGE_ME"@,
    }) + "\"\n"@ + resolver_text(resolver)
        + "\n\nrenew_before_days: 30\n\ncertificates:\n  - domains: ["@ + domains_text(domains)
        + "]\n    output_dir: "@ + output_dir + "\n"@ + hook_text(reload_hook)
}

/// The list of domains in the file.
fn domains_line(domains: &[String]) -> (r: String)
    ensures
        r@ == domains_text(texts(domains@)),
{
    if domains.len() == 0 {
        return "\"app.example.com\", \"*.app.example.com\"".to_owned();
    }
    let mut list: Vec<String> = Vec::new();
    let mut i: usize = 0;
    let ghost all = texts(domains@).map_values(|d: Seq<char>| quoted(d));
    while i < domains.len()
        invariant
            i <= domains@.len(),
            all == texts(domains@).map_values(|d: Seq<char>| quoted(d)),
            texts(list@) == all.take(i as int),
        decreases domains@.len() - i,
    {
        let ghost before = list@;
        list.push(cat3("\"", domains[i].as_str(), "\""));
        assert(texts(list@) =~= texts(before).push(all[i as int]));
        assert(all.take(i + 1) =~= all.take(i as int).push(all[i as int]));
        i = i + 1;
    }
    assert(all.take(i as int) =~= all);
    join(&list, ", ")
}

/// Render a config file. Used by `init` (placeholders) and `setup` (real values).
pub fn render_template(
    email: &str,
    server: &str,
    zone: &str,
    key: &str,
    secret: Option<&str>,
    domains: &[String],
    output_dir: &str,
    state_dir: &str,
    reload_hook: Option<&str>,
    resolver: Option<&str>,
) -> (r: String)
    ensures
        r@ == config_text(
            email@,
            server@,
            zone@,
            key@,
            str_opt(secret),
            texts(domains@),
            output_dir@,
            state_dir@,
            str_opt(reload_hook),
            str_opt(resolver),
        ),
{
    let hook_line = match reload_hook {
        Some(h) if !h.is_empty() => cat3("    reload_hook: \"", h, "\"\n"),
        _ => "    # reload_hook: \"systemctl reload nginx\"\n".to_owned(),
    };
    let resolver_block = match resolver {
        Some(r) => cat2(
            "  # Verification queries go here (what Let's Encrypt sees); query signing is off.\n  resolver: ",
            r,
        ),
        None =>
            "  # Verification queries are TSIG-signed to the server above so multi-view\n  # servers route them like the updates. To verify via a resolver instead:\n  # resolver: 8.8.8.8\n  # sign_queries: false".to_owned(),
    };
    let secret_text = match secret {
        Some(s) => s,
        None => "CHANGE_ME",
    };
    let mut out = cat2(
        "acme:\n  directory: https://acme-v02.api.letsencrypt.org/directory\n  email: ",
        email,
    );
    out.append("\n\nstate_dir: ");
    out.append(state_dir);
    out.append(
        "\n\ndns:\n  # The three values below come with your DNSVault subscription.\n  server: ",
    );
    out.append(server);
    out.append("\n  challenge_zone: ");
    out.append(zone);
    out.append("\n  tsig_key: ");
    out.append(key);
    out.append(
        "\n  # Base64 secret; alternatively set the DNSVCERT_TSIG_SECRET environment variable.\n  tsig_secret: \"",
    );
    out.append(secret_text);
    out.append("\"\n");
    out.append(resolver_block.as_str());
    out.append("\n\nrenew_before_days: 30\n\ncertificates:\n  - domains: [");
    out.append(domains_line(domains).as_str());
    out.append("]\n    output_dir: ");
    out.append(output_dir);
    out.append("\n");
    out.append(hook_line.as_str());
    out
}

/// The secret in the environment wins over the one in the file, and the placeholder
/// that a rendered file holds is no secret.
pub proof fn lemma_secret(file: Option<Seq<char>>, env: Option<Seq<char>>)
    ensures
        env is Some ==> effective_secret(file, env) == effective_secret(None, env),
        effective_secret(Some("CHANGE_ME"@), None) is None,
        effective_secret(Some(""@), None) is None,
        file is Some && file->0 != ""@ && file->0 != "CHANGE_ME"@ ==> effective_secret(file, None)
            == file,
{
}

} // verus!
