//! `dnsvcert setup`: guided, interactive first run. It asks for every value and writes
//! the config; the checks and the first certificate follow. For people without a DNS
//! background.
//!
//! The dialogue is a state that holds the question to put, and a step to the next
//! state once a line was typed in reply.

use vstd::prelude::*;
use vstd::string::*;

use crate::config::{config_text, render_template};
use crate::confirm::holds;
use crate::dns::{base_name, strip_wildcard};
use crate::lines::{and_line, line, silent};
use crate::prompt::{
    answer, ask, ask_secret, confirm, confirm_text, consent, email_like, looks_like_email,
    prompt_text, reply, says_yes, secret_in,
};
use crate::text::{begins, cat2, cat3, has_prefix, same, text_opt, texts};

verus! {

/// How the dialogue ended.
#[derive(Clone, Copy, PartialEq, Eq, Structural, Debug)]
pub enum Ending {
    /// The file that was found stays, and nothing more is done.
    KeepFile,
    /// The file that was found is used.
    UseFile,
    /// The answers are written to the file.
    WriteFile,
}

/// The question to put. `S` stands for a text.
#[derive(Debug)]
pub enum Question<S> {
    /// Whether the file that was found is used.
    UseExisting,
    /// Whether it is overwritten.
    Overwrite,
    Email,
    Server,
    Zone,
    Key,
    Secret,
    /// The next domain.
    Domain,
    /// Whether this wildcard is wanted too.
    Wildcard(S),
    /// Whether there is another domain.
    More,
    /// How records are verified.
    Choice,
    Resolver,
    /// Whether answers differ between networks; this resolver was named.
    Split(S),
    /// Whether this resolver is kept although it looks like an internal one.
    Keep(S),
    Directory,
    Hook,
    /// There is no further question.
    Finished(Ending),
}

impl View for Question<String> {
    type V = Question<Seq<char>>;

    open spec fn view(&self) -> Question<Seq<char>> {
        match *self {
            Question::UseExisting => Question::UseExisting,
            Question::Overwrite => Question::Overwrite,
            Question::Email => Question::Email,
            Question::Server => Question::Server,
            Question::Zone => Question::Zone,
            Question::Key => Question::Key,
            Question::Secret => Question::Secret,
            Question::Domain => Question::Domain,
            Question::Wildcard(w) => Question::Wildcard(w@),
            Question::More => Question::More,
            Question::Choice => Question::Choice,
            Question::Resolver => Question::Resolver,
            Question::Split(r) => Question::Split(r@),
            Question::Keep(r) => Question::Keep(r@),
            Question::Directory => Question::Directory,
            Question::Hook => Question::Hook,
            Question::Finished(e) => Question::Finished(e),
        }
    }
}

/// The dialogue: what was answered so far, and the question to put.
#[derive(Debug)]
pub struct Setup {
    pub path: String,
    pub email: String,
    pub server: String,
    pub zone: String,
    pub key: String,
    pub secret: Option<String>,
    pub domains: Vec<String>,
    pub resolver: Option<String>,
    pub output_dir: String,
    pub hook: String,
    pub question: Question<String>,
}

/// The dialogue, as the contracts speak of it.
pub struct SetupView {
    pub path: Seq<char>,
    pub email: Seq<char>,
    pub server: Seq<char>,
    pub zone: Seq<char>,
    pub key: Seq<char>,
    pub secret: Option<Seq<char>>,
    pub domains: Seq<Seq<char>>,
    pub resolver: Option<Seq<char>>,
    pub output_dir: Seq<char>,
    pub hook: Seq<char>,
    pub question: Question<Seq<char>>,
}

impl View for Setup {
    type V = SetupView;

    open spec fn view(&self) -> SetupView {
        SetupView {
            path: self.path@,
            email: self.email@,
            server: self.server@,
            zone: self.zone@,
            key: self.key@,
            secret: text_opt(self.secret),
            domains: texts(self.domains@),
            resolver: text_opt(self.resolver),
            output_dir: self.output_dir@,
            hook: self.hook@,
            question: self.question@,
        }
    }
}

// ---- what the reader is told ---------------------------------------------

/// How the dialogue begins.
pub open spec fn greeting() -> Seq<Seq<char>> {
    seq![
        "dnsvcert guided setup"@,
        "====================="@,
        "Three steps: 1) your details  2) DNS checks  3) issue the certificate."@,
        "Nothing is requested from Let's Encrypt until step 3.\n"@,
    ]
}

/// How the first step begins.
pub open spec fn step_one() -> Seq<Seq<char>> {
    seq!["Step 1/3 — your details"@, "(press Enter to accept a [default])\n"@]
}

/// The ways to verify records.
pub open spec fn choices() -> Seq<Seq<char>> {
    seq![
        ""@,
        "How should dnsvcert verify its DNS records?"@,
        "  1. Ask the DNSVault server directly (signed) — works everywhere,"@,
        "     including locked-down networks where DNS must go through DNSVault"@,
        "  2. Ask a resolver — checks exactly what Let's Encrypt will see"@,
    ]
}

/// The caution about a resolver that looks like an internal one.
pub open spec fn internal_note(resolver: Seq<char>) -> Seq<Seq<char>> {
    seq![
        "  NOTE: "@ + resolver + " looks like an internal resolver — on a split-horizon"@,
        "  network it may answer from the internal view, which is not what"@,
        "  Let's Encrypt sees. A public resolver (8.8.8.8) or option 1 is safer."@,
    ]
}

/// The advice about a resolver where answers differ between networks.
pub open spec fn tips() -> Seq<Seq<char>> {
    seq![
        "  tip: keep the challenge zone's TTLs and SOA minimum low (60s)"@,
        "  so resolver caches don't stall verification."@,
    ]
}

/// Whether a resolver looks like an internal one.
pub open spec fn internal_address(r: Seq<char>) -> bool {
    begins(r, "10."@) || begins(r, "192.168."@) || begins(r, "172."@)
}

// ---- the questions -------------------------------------------------------

impl SetupView {
    /// The base of the first domain.
    pub open spec fn first_base(self) -> Seq<char> {
        if self.domains.len() > 0 {
            base_name(self.domains[0])
        } else {
            "certs"@
        }
    }

    /// The default of a question that has an answer in words.
    pub open spec fn default(self) -> Option<Seq<char>> {
        match self.question {
            Question::Key => Some("dnsvcert"@),
            Question::Domain => if self.domains.len() == 0 {
                None
            } else {
                Some(""@)
            },
            Question::Choice => Some("1"@),
            Question::Resolver => Some("8.8.8.8"@),
            Question::Directory => Some("./certs/"@ + self.first_base()),
            Question::Hook => Some(""@),
            _ => None,
        }
    }

    /// The question as it is put; nothing where there is none.
    pub open spec fn prompt(self) -> Option<Seq<char>> {
        match self.question {
            Question::UseExisting => Some(
                confirm_text("Found "@ + self.path + " — use it as-is?"@, true),
            ),
            Question::Overwrite => Some(confirm_text("Overwrite it with new answers?"@, false)),
            Question::Email => Some(
                prompt_text("Contact email for Let's Encrypt"@, self.default()),
            ),
            Question::Server => Some(
                prompt_text(
                    "DNS server that accepts the updates (name or IP)"@,
                    self.default(),
                ),
            ),
            Question::Zone => Some(
                prompt_text("Challenge zone (e.g. acme.example.com)"@, self.default()),
            ),
            Question::Key => Some(prompt_text("TSIG key name"@, self.default())),
            Question::Secret => Some(
                prompt_text(
                    "TSIG secret (input hidden; Enter to skip for now — DNS checks still run)"@,
                    Some(""@),
                ),
            ),
            Question::Domain => Some(
                prompt_text(
                    if self.domains.len() == 0 {
                        "Domain to get a certificate for (e.g. app.example.com)"@
                    } else {
                        "Another domain (Enter to stop)"@
                    },
                    self.default(),
                ),
            ),
            Question::Wildcard(w) => Some(
                confirm_text("Include the wildcard "@ + w + " too?"@, true),
            ),
            Question::More => Some(confirm_text("Add another domain?"@, false)),
            Question::Choice => Some(prompt_text("Choose 1 or 2"@, self.default())),
            Question::Resolver => Some(prompt_text("Resolver address"@, self.default())),
            Question::Split(_) => Some(
                confirm_text(
                    "Is your DNS split-horizon / multi-view (internal answers differ from public)?"@,
                    false,
                ),
            ),
            Question::Keep(r) => Some(confirm_text("Keep "@ + r + " anyway?"@, false)),
            Question::Directory => Some(
                prompt_text("Directory for the certificate files"@, self.default()),
            ),
            Question::Hook => Some(
                prompt_text(
                    "Command to run after issue/renew (e.g. systemctl reload nginx; Enter for none)"@,
                    self.default(),
                ),
            ),
            Question::Finished(_) => None,
        }
    }

    /// The same dialogue with another question.
    pub open spec fn asking(self, question: Question<Seq<char>>) -> SetupView {
        SetupView { question, ..self }
    }

    /// The dialogue once a resolver was decided on.
    pub open spec fn resolving(self, resolver: Option<Seq<char>>) -> SetupView {
        SetupView { resolver, question: Question::Directory, ..self }
    }

    /// The dialogue once a domain was named: its base is taken where it is new, and its
    /// wildcard is offered where that is new.
    pub open spec fn with_domain(self, d: Seq<char>) -> SetupView {
        let base = base_name(d);
        let domains = if self.domains.contains(base) {
            self.domains
        } else {
            self.domains.push(base)
        };
        let wild = "*."@ + base;
        SetupView {
            domains,
            question: if domains.contains(wild) {
                Question::More
            } else {
                Question::Wildcard(wild)
            },
            ..self
        }
    }

    /// The dialogue once a question was answered in words, and what the reader is told.
    pub open spec fn answered(self, v: Seq<char>) -> (SetupView, Seq<Seq<char>>) {
        match self.question {
            Question::Email => if email_like(v) {
                (
                    SetupView { email: v, question: Question::Server, ..self },
                    seq![
                        "\nThe next three values come from DNSVault (your subscription or your admin):"@,
                    ],
                )
            } else {
                (self, seq!["  that doesn't look right — try again"@])
            },
            Question::Server => (
                SetupView { server: v, question: Question::Zone, ..self },
                Seq::empty(),
            ),
            Question::Zone => (
                SetupView { zone: v, question: Question::Key, ..self },
                Seq::empty(),
            ),
            Question::Key => (
                SetupView { key: v, question: Question::Secret, ..self },
                Seq::empty(),
            ),
            Question::Domain => if v.len() == 0 {
                (self.asking(Question::Choice), choices())
            } else {
                (self.with_domain(v), Seq::empty())
            },
            Question::Choice => if v == "1"@ {
                (self.resolving(None), Seq::empty())
            } else if v == "2"@ {
                (self.asking(Question::Resolver), Seq::empty())
            } else {
                (self, seq!["  1 or 2, please"@])
            },
            Question::Resolver => (self.asking(Question::Split(v)), Seq::empty()),
            Question::Directory => (
                SetupView { output_dir: v, question: Question::Hook, ..self },
                Seq::empty(),
            ),
            Question::Hook => (
                SetupView {
                    hook: v,
                    question: Question::Finished(Ending::WriteFile),
                    ..self
                },
                Seq::empty(),
            ),
            _ => (self, Seq::empty()),
        }
    }
}

/// The dialogue and what the reader is told, once a line was typed in reply to the
/// question, or none could be read.
pub open spec fn setup_step(s: SetupView, line: Option<Seq<char>>) -> (SetupView, Seq<Seq<char>>) {
    match s.question {
        Question::UseExisting => if consent(true, line) {
            (s.asking(Question::Finished(Ending::UseFile)), Seq::empty())
        } else {
            (s.asking(Question::Overwrite), Seq::empty())
        },
        Question::Overwrite => if consent(false, line) {
            (s.asking(Question::Email), step_one())
        } else {
            (
                s.asking(Question::Finished(Ending::KeepFile)),
                seq!["Keeping the existing file. Edit it directly, then run: dnsvcert doctor"@],
            )
        },
        Question::Secret => (
            SetupView { secret: secret_in(line), question: Question::Domain, ..s },
            if secret_in(line) is None {
                seq![
                    "  no secret yet — you can add it to the config later as dns.tsig_secret"@,
                    ""@,
                ]
            } else {
                seq![""@]
            },
        ),
        Question::Wildcard(wild) => (
            SetupView {
                domains: if consent(true, line) {
                    s.domains.push(wild)
                } else {
                    s.domains
                },
                question: Question::More,
                ..s
            },
            Seq::empty(),
        ),
        Question::More => if consent(false, line) {
            (s.asking(Question::Domain), Seq::empty())
        } else {
            (s.asking(Question::Choice), choices())
        },
        Question::Split(r) => if !consent(false, line) {
            (s.resolving(Some(r)), Seq::empty())
        } else if internal_address(r) {
            (s.asking(Question::Keep(r)), internal_note(r))
        } else {
            (s.resolving(Some(r)), tips())
        },
        Question::Keep(r) => if consent(false, line) {
            (s.resolving(Some(r)), tips())
        } else {
            (s.asking(Question::Choice), Seq::empty())
        },
        Question::Finished(_) => (s, Seq::empty()),
        _ => match reply(s.default(), line) {
            None => (s, seq!["  (required)"@]),
            Some(v) => s.answered(v),
        },
    }
}

/// The dialogue before anything was answered.
pub open spec fn setup_start(path: Seq<char>, exists: bool) -> SetupView {
    SetupView {
        path,
        email: Seq::empty(),
        server: Seq::empty(),
        zone: Seq::empty(),
        key: Seq::empty(),
        secret: None,
        domains: Seq::empty(),
        resolver: None,
        output_dir: Seq::empty(),
        hook: Seq::empty(),
        question: if exists {
            Question::UseExisting
        } else {
            Question::Email
        },
    }
}

// ---- the dialogue --------------------------------------------------------

/// How the first step begins.
fn step_one_lines() -> (r: Vec<String>)
    ensures
        texts(r@) == step_one(),
{
    let r = and_line(
        line("Step 1/3 — your details".to_owned()),
        "(press Enter to accept a [default])\n".to_owned(),
    );
    assert(texts(r@) =~= step_one());
    r
}

/// The ways to verify records.
fn choice_lines() -> (r: Vec<String>)
    ensures
        texts(r@) == choices(),
{
    let r = line("".to_owned());
    let r = and_line(r, "How should dnsvcert verify its DNS records?".to_owned());
    let r = and_line(
        r,
        "  1. Ask the DNSVault server directly (signed) — works everywhere,".to_owned(),
    );
    let r = and_line(
        r,
        "     including locked-down networks where DNS must go through DNSVault".to_owned(),
    );
    let r = and_line(
        r,
        "  2. Ask a resolver — checks exactly what Let's Encrypt will see".to_owned(),
    );
    assert(texts(r@) =~= choices());
    r
}

/// The caution about a resolver that looks like an internal one.
fn internal_lines(resolver: &str) -> (r: Vec<String>)
    ensures
        texts(r@) == internal_note(resolver@),
{
    let r = line(
        cat3("  NOTE: ", resolver, " looks like an internal resolver — on a split-horizon"),
    );
    let r = and_line(
        r,
        "  network it may answer from the internal view, which is not what".to_owned(),
    );
    let r = and_line(
        r,
        "  Let's Encrypt sees. A public resolver (8.8.8.8) or option 1 is safer.".to_owned(),
    );
    assert(texts(r@) =~= internal_note(resolver@));
    r
}

/// The advice about a resolver where answers differ between networks.
fn tip_lines() -> (r: Vec<String>)
    ensures
        texts(r@) == tips(),
{
    let r = and_line(
        line("  tip: keep the challenge zone's TTLs and SOA minimum low (60s)".to_owned()),
        "  so resolver caches don't stall verification.".to_owned(),
    );
    assert(texts(r@) =~= tips());
    r
}

/// Starts the dialogue for the file at `config_path`, which may exist already, with
/// what the reader is told.
pub fn run(config_path: &str, exists: bool) -> (r: (Setup, Vec<String>))
    ensures
        r.0@ == setup_start(config_path@, exists),
        texts(r.1@) == (if exists {
            greeting()
        } else {
            greeting() + step_one()
        }),
{
    let lines = line("dnsvcert guided setup".to_owned());
    let lines = and_line(lines, "=====================".to_owned());
    let lines = and_line(
        lines,
        "Three steps: 1) your details  2) DNS checks  3) issue the certificate.".to_owned(),
    );
    let mut lines = and_line(
        lines,
        "Nothing is requested from Let's Encrypt until step 3.\n".to_owned(),
    );
    assert(texts(lines@) =~= greeting());
    if !exists {
        lines = and_line(lines, "Step 1/3 — your details".to_owned());
        lines = and_line(lines, "(press Enter to accept a [default])\n".to_owned());
        assert(texts(lines@) =~= greeting() + step_one());
    }
    let s = Setup {
        path: config_path.to_owned(),
        email: String::new(),
        server: String::new(),
        zone: String::new(),
        key: String::new(),
        secret: None,
        domains: Vec::new(),
        resolver: None,
        output_dir: String::new(),
        hook: String::new(),
        question: if exists {
            Question::UseExisting
        } else {
            Question::Email
        },
    };
    assert(s.email@ =~= Seq::empty());
    assert(texts(s.domains@) =~= Seq::empty());
    (s, lines)
}

/// Whether a resolver looks like an internal one.
fn looks_internal(r: &str) -> (b: bool)
    ensures
        b == internal_address(r@),
{
    has_prefix(r, "10.") || has_prefix(r, "192.168.") || has_prefix(r, "172.")
}

impl Setup {
    /// The default of a question that has an answer in words.
    pub fn default_answer(&self) -> (r: Option<String>)
        ensures
            text_opt(r) == self@.default(),
    {
        match &self.question {
            Question::Key => Some("dnsvcert".to_owned()),
            Question::Domain => if self.domains.len() == 0 {
                None
            } else {
                Some("".to_owned())
            },
            Question::Choice => Some("1".to_owned()),
            Question::Resolver => Some("8.8.8.8".to_owned()),
            Question::Directory => {
                let base = if self.domains.len() > 0 {
                    strip_wildcard(self.domains[0].as_str())
                } else {
                    "certs".to_owned()
                };
                Some(cat2("./certs/", base.as_str()))
            },
            Question::Hook => Some("".to_owned()),
            _ => None,
        }
    }

    /// The question as it is put, in words that await words.
    fn put(&self, prompt: &str) -> (r: Option<String>)
        ensures
            text_opt(r) == Some(prompt_text(prompt@, self@.default())),
    {
        match self.default_answer() {
            Some(d) => Some(ask(prompt, Some(d.as_str()))),
            None => Some(ask(prompt, None)),
        }
    }

    /// The question as it is put; nothing where there is none.
    pub fn prompt(&self) -> (r: Option<String>)
        ensures
            text_opt(r) == self@.prompt(),
    {
        match &self.question {
            Question::UseExisting => Some(
                confirm(cat3("Found ", self.path.as_str(), " — use it as-is?").as_str(), true),
            ),
            Question::Overwrite => Some(confirm("Overwrite it with new answers?", false)),
            Question::Email => self.put("Contact email for Let's Encrypt"),
            Question::Server => self.put("DNS server that accepts the updates (name or IP)"),
            Question::Zone => self.put("Challenge zone (e.g. acme.example.com)"),
            Question::Key => self.put("TSIG key name"),
            Question::Secret => Some(
                ask(
                    "TSIG secret (input hidden; Enter to skip for now — DNS checks still run)",
                    Some(""),
                ),
            ),
            Question::Domain => if self.domains.len() == 0 {
                self.put("Domain to get a certificate for (e.g. app.example.com)")
            } else {
                self.put("Another domain (Enter to stop)")
            },
            Question::Wildcard(w) => Some(
                confirm(cat3("Include the wildcard ", w.as_str(), " too?").as_str(), true),
            ),
            Question::More => Some(confirm("Add another domain?", false)),
            Question::Choice => self.put("Choose 1 or 2"),
            Question::Resolver => self.put("Resolver address"),
            Question::Split(_) => Some(
                confirm(
                    "Is your DNS split-horizon / multi-view (internal answers differ from public)?",
                    false,
                ),
            ),
            Question::Keep(r) => Some(
                confirm(cat3("Keep ", r.as_str(), " anyway?").as_str(), false),
            ),
            Question::Directory => self.put("Directory for the certificate files"),
            Question::Hook => self.put(
                "Command to run after issue/renew (e.g. systemctl reload nginx; Enter for none)",
            ),
            Question::Finished(_) => None,
        }
    }

    /// Whether what is typed in reply is to be hidden.
    pub fn hidden(&self) -> (r: bool)
        ensures
            r == (self.question is Secret),
    {
        match self.question {
            Question::Secret => true,
            _ => false,
        }
    }

    /// The same dialogue with another question.
    fn asking(self, question: Question<String>) -> (r: Setup)
        ensures
            r@ == self@.asking(question@),
    {
        Setup { question, ..self }
    }

    /// The dialogue once a resolver was decided on.
    fn resolving(self, resolver: Option<String>) -> (r: Setup)
        ensures
            r@ == self@.resolving(text_opt(resolver)),
    {
        Setup { resolver, question: Question::Directory, ..self }
    }

    /// The dialogue once a domain was named.
    fn with_domain(self, d: &str) -> (r: Setup)
        ensures
            r@ == self@.with_domain(d@),
    {
        let base = strip_wildcard(d);
        let wild = cat2("*.", base.as_str());
        let mut domains = self.domains;
        let ghost before = domains@;
        if !holds(&domains, base.as_str()) {
            domains.push(base);
            assert(texts(domains@) =~= texts(before).push(base@));
        }
        let question = if holds(&domains, wild.as_str()) {
            Question::More
        } else {
            Question::Wildcard(wild)
        };
        Setup { domains, question, ..self }
    }

    /// The dialogue once a question was answered in words, and what the reader is told.
    fn answered(self, v: String) -> (r: (Setup, Vec<String>))
        ensures
            (r.0@, texts(r.1@)) == self@.answered(v@),
    {
        match self.question {
            Question::Email => if looks_like_email(v.as_str()) {
                (
                    Setup { email: v, question: Question::Server, ..self },
                    line(
                        "\nThe next three values come from DNSVault (your subscription or your admin):".to_owned(),
                    ),
                )
            } else {
                (
                    Setup { question: Question::Email, ..self },
                    line("  that doesn't look right — try again".to_owned()),
                )
            },
            Question::Server => (
                Setup { server: v, question: Question::Zone, ..self },
                silent(),
            ),
            Question::Zone => (Setup { zone: v, question: Question::Key, ..self }, silent()),
            Question::Key => (Setup { key: v, question: Question::Secret, ..self }, silent()),
            Question::Domain => {
                let s = Setup { question: Question::Domain, ..self };
                if v.as_str().unicode_len() == 0 {
                    (s.asking(Question::Choice), choice_lines())
                } else {
                    (s.with_domain(v.as_str()), silent())
                }
            },
            Question::Choice => {
                let s = Setup { question: Question::Choice, ..self };
                if same(v.as_str(), "1") {
                    (s.resolving(None), silent())
                } else if same(v.as_str(), "2") {
                    (s.asking(Question::Resolver), silent())
                } else {
                    (s, line("  1 or 2, please".to_owned()))
                }
            },
            Question::Resolver => (Setup { question: Question::Split(v), ..self }, silent()),
            Question::Directory => (
                Setup { output_dir: v, question: Question::Hook, ..self },
                silent(),
            ),
            Question::Hook => (
                Setup {
                    hook: v,
                    question: Question::Finished(Ending::WriteFile),
                    ..self
                },
                silent(),
            ),
            question => (Setup { question, ..self }, silent()),
        }
    }

    /// The dialogue once the secret was typed, and what the reader is told.
    fn with_secret(self, secret: Option<String>) -> (r: (Setup, Vec<String>))
        ensures
            r.0@ == (SetupView {
                secret: text_opt(secret),
                question: Question::Domain,
                ..self@
            }),
            texts(r.1@) == (if secret is None {
                seq![
                    "  no secret yet — you can add it to the config later as dns.tsig_secret"@,
                    ""@,
                ]
            } else {
                seq![""@]
            }),
    {
        let lines = if secret.is_none() {
            let lines = and_line(
                line(
                    "  no secret yet — you can add it to the config later as dns.tsig_secret".to_owned(),
                ),
                "".to_owned(),
            );
            assert(texts(lines@) =~= seq![
                "  no secret yet — you can add it to the config later as dns.tsig_secret"@,
                ""@,
            ]);
            lines
        } else {
            line("".to_owned())
        };
        (Setup { secret, question: Question::Domain, ..self }, lines)
    }

    /// The dialogue once a wildcard was taken or left.
    fn with_wildcard(self, wild: String, taken: bool) -> (r: Setup)
        ensures
            r@ == (SetupView {
                domains: if taken {
                    self@.domains.push(wild@)
                } else {
                    self@.domains
                },
                question: Question::More,
                ..self@
            }),
    {
        let mut domains = self.domains;
        let ghost before = domains@;
        if taken {
            domains.push(wild);
            assert(texts(domains@) =~= texts(before).push(wild@));
        }
        Setup { domains, question: Question::More, ..self }
    }

    /// The dialogue and what the reader is told, once a line was typed in reply to the
    /// question, or none could be read.
    pub fn step(self, typed: Option<String>) -> (r: (Setup, Vec<String>))
        ensures
            (r.0@, texts(r.1@)) == setup_step(self@, text_opt(typed)),
    {
        let default = self.default_answer();
        let Setup {
            path,
            email,
            server,
            zone,
            key,
            secret,
            domains,
            resolver,
            output_dir,
            hook,
            question,
        } = self;
        let s = Setup {
            path,
            email,
            server,
            zone,
            key,
            secret,
            domains,
            resolver,
            output_dir,
            hook,
            question: Question::Email,
        };
        match question {
            Question::UseExisting => if says_yes(true, typed) {
                (s.asking(Question::Finished(Ending::UseFile)), silent())
            } else {
                (s.asking(Question::Overwrite), silent())
            },
            Question::Overwrite => if says_yes(false, typed) {
                (s.asking(Question::Email), step_one_lines())
            } else {
                (
                    s.asking(Question::Finished(Ending::KeepFile)),
                    line(
                        "Keeping the existing file. Edit it directly, then run: dnsvcert doctor".to_owned(),
                    ),
                )
            },
            Question::Secret => s.with_secret(ask_secret(typed)),
            Question::Wildcard(wild) => (s.with_wildcard(wild, says_yes(true, typed)), silent()),
            Question::More => if says_yes(false, typed) {
                (s.asking(Question::Domain), silent())
            } else {
                (s.asking(Question::Choice), choice_lines())
            },
            Question::Split(r) => if !says_yes(false, typed) {
                (s.resolving(Some(r)), silent())
            } else if looks_internal(r.as_str()) {
                let lines = internal_lines(r.as_str());
                (s.asking(Question::Keep(r)), lines)
            } else {
                (s.resolving(Some(r)), tip_lines())
            },
            Question::Keep(r) => if says_yes(false, typed) {
                (s.resolving(Some(r)), tip_lines())
            } else {
                (s.asking(Question::Choice), silent())
            },
            Question::Finished(e) => (s.asking(Question::Finished(e)), silent()),
            question => {
                let reply = match &default {
                    Some(d) => answer(Some(d.as_str()), typed),
                    None => answer(None, typed),
                };
                match reply {
                    None => (s.asking(question), line("  (required)".to_owned())),
                    Some(v) => s.asking(question).answered(v),
                }
            },
        }
    }
}

// ---- the file ------------------------------------------------------------

/// The directory for the account: in the home directory, or in the system's where
/// there is none.
pub open spec fn state_dir_in(home: Option<Seq<char>>, windows: bool) -> Seq<char> {
    (match home {
        Some(h) => h,
        None => if windows {
            "C:\\ProgramData"@
        } else {
            "/var/lib"@
        },
    }) + "/.local/state/dnsvcert"@
}

/// The directory for the account, from the value of the variable that names the home
/// directory.
pub fn default_state_dir(home: Option<String>, windows: bool) -> (r: String)
    ensures
        r@ == state_dir_in(text_opt(home), windows),
{
    let base = match home {
        Some(h) => h,
        None => if windows {
            "C:\\ProgramData".to_owned()
        } else {
            "/var/lib".to_owned()
        },
    };
    cat2(base.as_str(), "/.local/state/dnsvcert")
}

/// One step of writing the answers to the file. Where a step fails, no later one is
/// taken. `S` stands for a text.
#[derive(Debug)]
pub enum ConfigStep<S> {
    /// This directory is made, and those above it; where that fails the reader is told
    /// `failing` and the cause.
    MakeDir { dir: S, failing: S },
    /// The file gets its contents; where that fails the reader is told `failing` and
    /// the cause.
    Write { path: S, contents: S, failing: S },
    /// The file gets these permissions, where the system has them.
    SetMode { path: S, mode: u32 },
    /// The reader is told this.
    Say(S),
}

impl View for ConfigStep<String> {
    type V = ConfigStep<Seq<char>>;

    open spec fn view(&self) -> ConfigStep<Seq<char>> {
        match *self {
            ConfigStep::MakeDir { dir, failing } => ConfigStep::MakeDir {
                dir: dir@,
                failing: failing@,
            },
            ConfigStep::Write { path, contents, failing } => ConfigStep::Write {
                path: path@,
                contents: contents@,
                failing: failing@,
            },
            ConfigStep::SetMode { path, mode } => ConfigStep::SetMode { path: path@, mode },
            ConfigStep::Say(s) => ConfigStep::Say(s@),
        }
    }
}

impl SetupView {
    /// The file for the answers.
    pub open spec fn contents(self, state_dir: Seq<char>) -> Seq<char> {
        config_text(
            self.email,
            self.server,
            self.zone,
            self.key,
            self.secret,
            self.domains,
            self.output_dir,
            state_dir,
            if self.hook.len() > 0 {
                Some(self.hook)
            } else {
                None
            },
            self.resolver,
        )
    }

    /// The steps in which the answers are written to the file, in a directory that may
    /// have to be made.
    pub open spec fn config_steps(
        self,
        state_dir: Seq<char>,
        parent: Option<Seq<char>>,
    ) -> Seq<ConfigStep<Seq<char>>> {
        (match parent {
            Some(dir) => seq![ConfigStep::MakeDir { dir, failing: "cannot create "@ + dir }],
            None => Seq::empty(),
        }) + seq![
            ConfigStep::Write {
                path: self.path,
                contents: self.contents(state_dir),
                failing: "cannot write "@ + self.path,
            },
            ConfigStep::SetMode { path: self.path, mode: 0o600 },
            ConfigStep::Say("\nwrote "@ + self.path + " (owner-only permissions)"@),
        ]
    }
}

impl Setup {
    /// The file for the answers.
    pub fn contents(&self, state_dir: &str) -> (r: String)
        ensures
            r@ == self@.contents(state_dir@),
    {
        let secret = match &self.secret {
            Some(s) => Some(s.as_str()),
            None => None,
        };
        let resolver = match &self.resolver {
            Some(r) => Some(r.as_str()),
            None => None,
        };
        let hook = if self.hook.as_str().unicode_len() > 0 {
            Some(self.hook.as_str())
        } else {
            None
        };
        render_template(
            self.email.as_str(),
            self.server.as_str(),
            self.zone.as_str(),
            self.key.as_str(),
            secret,
            self.domains.as_slice(),
            self.output_dir.as_str(),
            state_dir,
            hook,
            resolver,
        )
    }

    /// The steps in which the answers are written to the file, in a directory that may
    /// have to be made.
    pub fn config_steps(&self, state_dir: &str, parent: Option<String>) -> (r: Vec<
        ConfigStep<String>,
    >)
        ensures
            r@.map_values(|s: ConfigStep<String>| s@) == self@.config_steps(
                state_dir@,
                text_opt(parent),
            ),
    {
        let mut steps: Vec<ConfigStep<String>> = Vec::new();
        if let Some(dir) = parent {
            let failing = cat2("cannot create ", dir.as_str());
            steps.push(ConfigStep::MakeDir { dir, failing });
        }
        steps.push(
            ConfigStep::Write {
                path: self.path.clone(),
                contents: self.contents(state_dir),
                failing: cat2("cannot write ", self.path.as_str()),
            },
        );
        steps.push(ConfigStep::SetMode { path: self.path.clone(), mode: 0o600 });
        steps.push(
            ConfigStep::Say(
                cat3("\nwrote ", self.path.as_str(), " (owner-only permissions)"),
            ),
        );
        assert(steps@.map_values(|s: ConfigStep<String>| s@) =~= self@.config_steps(
            state_dir@,
            text_opt(parent),
        ));
        steps
    }
}

/// The answers for a starter file, in which the server and the secret are to be filled
/// in.
pub open spec fn starter(
    path: Seq<char>,
    domains: Seq<Seq<char>>,
    email: Seq<char>,
    zone: Seq<char>,
) -> SetupView {
    let named = SetupView { domains, ..setup_start(path, false) };
    SetupView {
        email,
        server: "CHANGE_ME"@,
        zone,
        key: "dnsvcert"@,
        output_dir: "./certs/"@ + named.first_base(),
        question: Question::Finished(Ending::WriteFile),
        ..named
    }
}

/// The answers for a starter file.
pub fn init(config_path: &str, domains: Vec<String>, email: &str, challenge_zone: &str) -> (r: Setup)
    ensures
        r@ == starter(config_path@, texts(domains@), email@, challenge_zone@),
{
    let base = if domains.len() > 0 {
        strip_wildcard(domains[0].as_str())
    } else {
        "certs".to_owned()
    };
    let r = Setup {
        path: config_path.to_owned(),
        email: email.to_owned(),
        server: "CHANGE_ME".to_owned(),
        zone: challenge_zone.to_owned(),
        key: "dnsvcert".to_owned(),
        secret: None,
        domains,
        resolver: None,
        output_dir: cat2("./certs/", base.as_str()),
        hook: String::new(),
        question: Question::Finished(Ending::WriteFile),
    };
    assert(r.hook@ =~= Seq::empty());
    r
}

// ---- laws ----------------------------------------------------------------

/// The dialogue after a row of lines.
pub open spec fn setup_run(s: SetupView, lines: Seq<Option<Seq<char>>>) -> SetupView
    decreases lines.len(),
{
    if lines.len() == 0 {
        s
    } else {
        setup_step(setup_run(s, lines.drop_last()), lines.last()).0
    }
}

/// No domain was taken twice, and a wildcard that may be taken is new.
spec fn tidy(s: SetupView) -> bool {
    &&& s.domains.no_duplicates()
    &&& match s.question {
        Question::Wildcard(w) => !s.domains.contains(w),
        _ => true,
    }
    &&& match s.question {
        Question::UseExisting => true,
        Question::Overwrite => true,
        Question::Email => true,
        Question::Finished(Ending::UseFile) => true,
        Question::Finished(Ending::KeepFile) => true,
        _ => email_like(s.email),
    }
}

proof fn lemma_tidy(path: Seq<char>, exists: bool, lines: Seq<Option<Seq<char>>>)
    ensures
        tidy(setup_run(setup_start(path, exists), lines)),
    decreases lines.len(),
{
    if lines.len() > 0 {
        lemma_tidy(path, exists, lines.drop_last());
    }
}

/// Whatever is typed, no domain is taken twice, and answers are written only with a
/// text that may be an email address.
pub proof fn lemma_setup_answers(path: Seq<char>, exists: bool, lines: Seq<Option<Seq<char>>>)
    ensures
        ({
            let s = setup_run(setup_start(path, exists), lines);
            &&& s.domains.no_duplicates()
            &&& s.question == Question::<Seq<char>>::Finished(Ending::WriteFile) ==> email_like(
                s.email,
            )
        }),
{
    lemma_tidy(path, exists, lines);
}

/// What the first two lines said where a file was found.
spec fn overwriting(s: SetupView, lines: Seq<Option<Seq<char>>>) -> bool {
    match s.question {
        Question::UseExisting => lines.len() == 0,
        Question::Overwrite => lines.len() == 1 && !consent(true, lines[0]),
        Question::Finished(Ending::UseFile) => lines.len() >= 1,
        Question::Finished(Ending::KeepFile) => lines.len() >= 2,
        _ => lines.len() >= 2 && !consent(true, lines[0]) && consent(false, lines[1]),
    }
}

proof fn lemma_overwriting(path: Seq<char>, lines: Seq<Option<Seq<char>>>)
    ensures
        overwriting(setup_run(setup_start(path, true), lines), lines),
    decreases lines.len(),
{
    if lines.len() > 0 {
        lemma_overwriting(path, lines.drop_last());
    }
}

/// A file that was found is overwritten only where the reader declined to use it and
/// then agreed to overwrite it.
pub proof fn lemma_overwrite_needs_consent(path: Seq<char>, lines: Seq<Option<Seq<char>>>)
    requires
        setup_run(setup_start(path, true), lines).question == Question::<Seq<char>>::Finished(
            Ending::WriteFile,
        ),
    ensures
        lines.len() >= 2,
        !consent(true, lines[0]),
        consent(false, lines[1]),
{
    lemma_overwriting(path, lines);
}

} // verus!
