//! Laws of the configuration and of the file that holds it.

use vstd::prelude::*;
use vstd::string::*;

use crate::config::{config_text, domains_text, effective_secret, hook_text, quoted, resolver_text};
use crate::text::{ends, joined, occurs, stands_at};
use crate::text_laws::lemma_occurs_in;

verus! {

/// The secret in the environment is in force where there is one, else the one in the
/// file, but an empty text and the placeholder are no secret.
pub proof fn lemma_secret_in_force(file: Option<Seq<char>>, env: Seq<char>)
    ensures
        env.len() > 0 && env != "CHANGE_ME"@ ==> effective_secret(file, Some(env)) == Some(env),
        env.len() == 0 || env == "CHANGE_ME"@ ==> effective_secret(file, Some(env)) is None,
        file is Some && file->0.len() > 0 && file->0 != "CHANGE_ME"@ ==> effective_secret(file, None)
            == file,
        file is None || file->0.len() == 0 || file->0 == "CHANGE_ME"@ ==> effective_secret(
            file,
            None,
        ) is None,
{
    reveal_strlit("");
    reveal_strlit("CHANGE_ME");
    assert(env.len() == 0 ==> env =~= ""@);
    assert(file is Some && file->0.len() == 0 ==> file->0 =~= ""@);
}

/// The domains stand in the file between quotes, with a comma between any two.
pub proof fn lemma_domains_text(domains: Seq<Seq<char>>)
    requires
        domains.len() > 0,
    ensures
        domains_text(domains) == "\""@ + joined(domains, "\""@ + ", "@ + "\""@) + "\""@,
    decreases domains.len(),
{
    let all = domains.map_values(|d: Seq<char>| quoted(d));
    let mark = "\""@ + ", "@ + "\""@;
    if domains.len() == 1 {
        assert(all[0] == quoted(domains[0]));
    } else {
        let front = domains.drop_last();
        lemma_domains_text(front);
        assert(all.drop_last() =~= front.map_values(|d: Seq<char>| quoted(d)));
        assert(all.last() == quoted(domains.last()));
        let x = joined(front, mark);
        let y = domains.last();
        assert("\""@ + x + "\""@ + ", "@ + ("\""@ + y + "\""@) =~= "\""@ + (x + mark + y) + "\""@);
    }
}

/// What occurs in a text occurs in it with more behind it.
proof fn lemma_occurs_more(s: Seq<char>, p: Seq<char>, more: Seq<char>)
    requires
        occurs(s, p),
    ensures
        occurs(s + more, p),
{
    let i = choose|i: int| stands_at(s, p, i);
    assert((s + more).subrange(i, i + p.len()) =~= p);
    assert(stands_at(s + more, p, i));
}

/// The file gives the email address.
pub proof fn lemma_file_email(
    email: Seq<char>,
    server: Seq<char>,
    zone: Seq<char>,
    key: Seq<char>,
    secret: Option<Seq<char>>,
    domains: Seq<Seq<char>>,
    output_dir: Seq<char>,
    state_dir: Seq<char>,
    reload_hook: Option<Seq<char>>,
    resolver: Option<Seq<char>>,
)
    ensures
        occurs(
            config_text(
                email,
                server,
                zone,
                key,
                secret,
                domains,
                output_dir,
                state_dir,
                reload_hook,
                resolver,
            ),
            "\n  email: "@ + email + "\n"@,
        ),
{
    let shown = match secret {
        Some(s) => s,
        None => "CHANGE_ME"@,
    };
    let front = Seq::<char>::empty();
    let field = "\n  email: "@ + email + "\n"@;
    assert("acme:\n  directory: https://acme-v02.api.letsencrypt.org/directory\n  email: "@ == "acme:\n  directory: https://acme-v02.api.letsencrypt.org/directory"@ + "\n  email: "@) by {
        reveal_strlit("acme:\n  directory: https://acme-v02.api.letsencrypt.org/directory\n  email: ");
        reveal_strlit("acme:\n  directory: https://acme-v02.api.letsencrypt.org/directory");
        reveal_strlit("\n  email: ");
        assert("acme:\n  directory: https://acme-v02.api.letsencrypt.org/directory\n  email: "@ =~= "acme:\n  directory: https://acme-v02.api.letsencrypt.org/directory"@ + "\n  email: "@);
    }
    assert("\n\nstate_dir: "@ == "\n"@ + "\nstate_dir: "@) by {
        reveal_strlit("\n\nstate_dir: ");
        reveal_strlit("\n");
        reveal_strlit("\nstate_dir: ");
        assert("\n\nstate_dir: "@ =~= "\n"@ + "\nstate_dir: "@);
    }
    let text2 = "acme:\n  directory: https://acme-v02.api.letsencrypt.org/directory\n  email: "@ + email + "\n\nstate_dir: "@;
    assert(text2 =~= (front + "acme:\n  directory: https://acme-v02.api.letsencrypt.org/directory"@) + field + "\nstate_dir: "@);
    lemma_occurs_in(front + "acme:\n  directory: https://acme-v02.api.letsencrypt.org/directory"@, field, "\nstate_dir: "@);
    let text3 = text2 + state_dir;
    lemma_occurs_more(text2, field, state_dir);
    let text4 = text3 + "\n\ndns:\n  # The three values below come with your DNSVault subscription.\n  server: "@;
    lemma_occurs_more(text3, field, "\n\ndns:\n  # The three values below come with your DNSVault subscription.\n  server: "@);
    let text5 = text4 + server;
    lemma_occurs_more(text4, field, server);
    let text6 = text5 + "\n  challenge_zone: "@;
    lemma_occurs_more(text5, field, "\n  challenge_zone: "@);
    let text7 = text6 + zone;
    lemma_occurs_more(text6, field, zone);
    let text8 = text7 + "\n  tsig_key: "@;
    lemma_occurs_more(text7, field, "\n  tsig_key: "@);
    let text9 = text8 + key;
    lemma_occurs_more(text8, field, key);
    let text10 = text9 + "\n  # Base64 secret; alternatively set the DNSVCERT_TSIG_SECRET environment variable.\n  tsig_secret: \""@;
    lemma_occurs_more(text9, field, "\n  # Base64 secret; alternatively set the DNSVCERT_TSIG_SECRET environment variable.\n  tsig_secret: \""@);
    let text11 = text10 + shown;
    lemma_occurs_more(text10, field, shown);
    let text12 = text11 + "\"\n"@;
    lemma_occurs_more(text11, field, "\"\n"@);
    let text13 = text12 + resolver_text(resolver);
    lemma_occurs_more(text12, field, resolver_text(resolver));
    let text14 = text13 + "\n\nrenew_before_days: 30\n\ncertificates:\n  - domains: ["@;
    lemma_occurs_more(text13, field, "\n\nrenew_before_days: 30\n\ncertificates:\n  - domains: ["@);
    let text15 = text14 + domains_text(domains);
    lemma_occurs_more(text14, field, domains_text(domains));
    let text16 = text15 + "]\n    output_dir: "@;
    lemma_occurs_more(text15, field, "]\n    output_dir: "@);
    let text17 = text16 + output_dir;
    lemma_occurs_more(text16, field, output_dir);
    let text18 = text17 + "\n"@;
    lemma_occurs_more(text17, field, "\n"@);
    let text19 = text18 + hook_text(reload_hook);
    lemma_occurs_more(text18, field, hook_text(reload_hook));
}

/// The file gives the state directory.
pub proof fn lemma_file_state_dir(
    email: Seq<char>,
    server: Seq<char>,
    zone: Seq<char>,
    key: Seq<char>,
    secret: Option<Seq<char>>,
    domains: Seq<Seq<char>>,
    output_dir: Seq<char>,
    state_dir: Seq<char>,
    reload_hook: Option<Seq<char>>,
    resolver: Option<Seq<char>>,
)
    ensures
        occurs(
            config_text(
                email,
                server,
                zone,
                key,
                secret,
                domains,
                output_dir,
                state_dir,
                reload_hook,
                resolver,
            ),
            "\nstate_dir: "@ + state_dir + "\n"@,
        ),
{
    let shown = match secret {
        Some(s) => s,
        None => "CHANGE_ME"@,
    };
    let front = "acme:\n  directory: https://acme-v02.api.letsencrypt.org/directory\n  email: "@ + email;
    let field = "\nstate_dir: "@ + state_dir + "\n"@;
    assert("\n\nstate_dir: "@ == "\n"@ + "\nstate_dir: "@) by {
        reveal_strlit("\n\nstate_dir: ");
        reveal_strlit("\n");
        reveal_strlit("\nstate_dir: ");
        assert("\n\nstate_dir: "@ =~= "\n"@ + "\nstate_dir: "@);
    }
    assert("\n\ndns:\n  # The three values below come with your DNSVault subscription.\n  server: "@ == "\n"@ + "\ndns:\n  # The three values below come with your DNSVault subscription.\n  server: "@) by {
        reveal_strlit("\n\ndns:\n  # The three values below come with your DNSVault subscription.\n  server: ");
        reveal_strlit("\n");
        reveal_strlit("\ndns:\n  # The three values below come with your DNSVault subscription.\n  server: ");
        assert("\n\ndns:\n  # The three values below come with your DNSVault subscription.\n  server: "@ =~= "\n"@ + "\ndns:\n  # The three values below come with your DNSVault subscription.\n  server: "@);
    }
    let text4 = front + "\n\nstate_dir: "@ + state_dir + "\n\ndns:\n  # The three values below come with your DNSVault subscription.\n  server: "@;
    assert(text4 =~= (front + "\n"@) + field + "\ndns:\n  # The three values below come with your DNSVault subscription.\n  server: "@);
    lemma_occurs_in(front + "\n"@, field, "\ndns:\n  # The three values below come with your DNSVault subscription.\n  server: "@);
    let text5 = text4 + server;
    lemma_occurs_more(text4, field, server);
    let text6 = text5 + "\n  challenge_zone: "@;
    lemma_occurs_more(text5, field, "\n  challenge_zone: "@);
    let text7 = text6 + zone;
    lemma_occurs_more(text6, field, zone);
    let text8 = text7 + "\n  tsig_key: "@;
    lemma_occurs_more(text7, field, "\n  tsig_key: "@);
    let text9 = text8 + key;
    lemma_occurs_more(text8, field, key);
    let text10 = text9 + "\n  # Base64 secret; alternatively set the DNSVCERT_TSIG_SECRET environment variable.\n  tsig_secret: \""@;
    lemma_occurs_more(text9, field, "\n  # Base64 secret; alternatively set the DNSVCERT_TSIG_SECRET environment variable.\n  tsig_secret: \""@);
    let text11 = text10 + shown;
    lemma_occurs_more(text10, field, shown);
    let text12 = text11 + "\"\n"@;
    lemma_occurs_more(text11, field, "\"\n"@);
    let text13 = text12 + resolver_text(resolver);
    lemma_occurs_more(text12, field, resolver_text(resolver));
    let text14 = text13 + "\n\nrenew_before_days: 30\n\ncertificates:\n  - domains: ["@;
    lemma_occurs_more(text13, field, "\n\nrenew_before_days: 30\n\ncertificates:\n  - domains: ["@);
    let text15 = text14 + domains_text(domains);
    lemma_occurs_more(text14, field, domains_text(domains));
    let text16 = text15 + "]\n    output_dir: "@;
    lemma_occurs_more(text15, field, "]\n    output_dir: "@);
    let text17 = text16 + output_dir;
    lemma_occurs_more(text16, field, output_dir);
    let text18 = text17 + "\n"@;
    lemma_occurs_more(text17, field, "\n"@);
    let text19 = text18 + hook_text(reload_hook);
    lemma_occurs_more(text18, field, hook_text(reload_hook));
}

/// The file gives the server.
pub proof fn lemma_file_server(
    email: Seq<char>,
    server: Seq<char>,
    zone: Seq<char>,
    key: Seq<char>,
    secret: Option<Seq<char>>,
    domains: Seq<Seq<char>>,
    output_dir: Seq<char>,
    state_dir: Seq<char>,
    reload_hook: Option<Seq<char>>,
    resolver: Option<Seq<char>>,
)
    ensures
        occurs(
            config_text(
                email,
                server,
                zone,
                key,
                secret,
                domains,
                output_dir,
                state_dir,
                reload_hook,
                resolver,
            ),
            "\n  server: "@ + server + "\n"@,
        ),
{
    let shown = match secret {
        Some(s) => s,
        None => "CHANGE_ME"@,
    };
    let front = "acme:\n  directory: https://acme-v02.api.letsencrypt.org/directory\n  email: "@ + email + "\n\nstate_dir: "@ + state_dir;
    let field = "\n  server: "@ + server + "\n"@;
    assert("\n\ndns:\n  # The three values below come with your DNSVault subscription.\n  server: "@ == "\n\ndns:\n  # The three values below come with your DNSVault subscription."@ + "\n  server: "@) by {
        reveal_strlit("\n\ndns:\n  # The three values below come with your DNSVault subscription.\n  server: ");
        reveal_strlit("\n\ndns:\n  # The three values below come with your DNSVault subscription.");
        reveal_strlit("\n  server: ");
        assert("\n\ndns:\n  # The three values below come with your DNSVault subscription.\n  server: "@ =~= "\n\ndns:\n  # The three values below come with your DNSVault subscription."@ + "\n  server: "@);
    }
    assert("\n  challenge_zone: "@ == "\n"@ + "  challenge_zone: "@) by {
        reveal_strlit("\n  challenge_zone: ");
        reveal_strlit("\n");
        reveal_strlit("  challenge_zone: ");
        assert("\n  challenge_zone: "@ =~= "\n"@ + "  challenge_zone: "@);
    }
    let text6 = front + "\n\ndns:\n  # The three values below come with your DNSVault subscription.\n  server: "@ + server + "\n  challenge_zone: "@;
    assert(text6 =~= (front + "\n\ndns:\n  # The three values below come with your DNSVault subscription."@) + field + "  challenge_zone: "@);
    lemma_occurs_in(front + "\n\ndns:\n  # The three values below come with your DNSVault subscription."@, field, "  challenge_zone: "@);
    let text7 = text6 + zone;
    lemma_occurs_more(text6, field, zone);
    let text8 = text7 + "\n  tsig_key: "@;
    lemma_occurs_more(text7, field, "\n  tsig_key: "@);
    let text9 = text8 + key;
    lemma_occurs_more(text8, field, key);
    let text10 = text9 + "\n  # Base64 secret; alternatively set the DNSVCERT_TSIG_SECRET environment variable.\n  tsig_secret: \""@;
    lemma_occurs_more(text9, field, "\n  # Base64 secret; alternatively set the DNSVCERT_TSIG_SECRET environment variable.\n  tsig_secret: \""@);
    let text11 = text10 + shown;
    lemma_occurs_more(text10, field, shown);
    let text12 = text11 + "\"\n"@;
    lemma_occurs_more(text11, field, "\"\n"@);
    let text13 = text12 + resolver_text(resolver);
    lemma_occurs_more(text12, field, resolver_text(resolver));
    let text14 = text13 + "\n\nrenew_before_days: 30\n\ncertificates:\n  - domains: ["@;
    lemma_occurs_more(text13, field, "\n\nrenew_before_days: 30\n\ncertificates:\n  - domains: ["@);
    let text15 = text14 + domains_text(domains);
    lemma_occurs_more(text14, field, domains_text(domains));
    let text16 = text15 + "]\n    output_dir: "@;
    lemma_occurs_more(text15, field, "]\n    output_dir: "@);
    let text17 = text16 + output_dir;
    lemma_occurs_more(text16, field, output_dir);
    let text18 = text17 + "\n"@;
    lemma_occurs_more(text17, field, "\n"@);
    let text19 = text18 + hook_text(reload_hook);
    lemma_occurs_more(text18, field, hook_text(reload_hook));
}

/// The file gives the challenge zone.
pub proof fn lemma_file_zone(
    email: Seq<char>,
    server: Seq<char>,
    zone: Seq<char>,
    key: Seq<char>,
    secret: Option<Seq<char>>,
    domains: Seq<Seq<char>>,
    output_dir: Seq<char>,
    state_dir: Seq<char>,
    reload_hook: Option<Seq<char>>,
    resolver: Option<Seq<char>>,
)
    ensures
        occurs(
            config_text(
                email,
                server,
                zone,
                key,
                secret,
                domains,
                output_dir,
                state_dir,
                reload_hook,
                resolver,
            ),
            "\n  challenge_zone: "@ + zone + "\n"@,
        ),
{
    let shown = match secret {
        Some(s) => s,
        None => "CHANGE_ME"@,
    };
    let front = "acme:\n  directory: https://acme-v02.api.letsencrypt.org/directory\n  email: "@ + email + "\n\nstate_dir: "@ + state_dir + "\n\ndns:\n  # The three values below come with your DNSVault subscription.\n  server: "@ + server;
    let field = "\n  challenge_zone: "@ + zone + "\n"@;
    assert("\n  tsig_key: "@ == "\n"@ + "  tsig_key: "@) by {
        reveal_strlit("\n  tsig_key: ");
        reveal_strlit("\n");
        reveal_strlit("  tsig_key: ");
        assert("\n  tsig_key: "@ =~= "\n"@ + "  tsig_key: "@);
    }
    let text8 = front + "\n  challenge_zone: "@ + zone + "\n  tsig_key: "@;
    assert(text8 =~= (front + Seq::<char>::empty()) + field + "  tsig_key: "@);
    lemma_occurs_in(front + Seq::<char>::empty(), field, "  tsig_key: "@);
    let text9 = text8 + key;
    lemma_occurs_more(text8, field, key);
    let text10 = text9 + "\n  # Base64 secret; alternatively set the DNSVCERT_TSIG_SECRET environment variable.\n  tsig_secret: \""@;
    lemma_occurs_more(text9, field, "\n  # Base64 secret; alternatively set the DNSVCERT_TSIG_SECRET environment variable.\n  tsig_secret: \""@);
    let text11 = text10 + shown;
    lemma_occurs_more(text10, field, shown);
    let text12 = text11 + "\"\n"@;
    lemma_occurs_more(text11, field, "\"\n"@);
    let text13 = text12 + resolver_text(resolver);
    lemma_occurs_more(text12, field, resolver_text(resolver));
    let text14 = text13 + "\n\nrenew_before_days: 30\n\ncertificates:\n  - domains: ["@;
    lemma_occurs_more(text13, field, "\n\nrenew_before_days: 30\n\ncertificates:\n  - domains: ["@);
    let text15 = text14 + domains_text(domains);
    lemma_occurs_more(text14, field, domains_text(domains));
    let text16 = text15 + "]\n    output_dir: "@;
    lemma_occurs_more(text15, field, "]\n    output_dir: "@);
    let text17 = text16 + output_dir;
    lemma_occurs_more(text16, field, output_dir);
    let text18 = text17 + "\n"@;
    lemma_occurs_more(text17, field, "\n"@);
    let text19 = text18 + hook_text(reload_hook);
    lemma_occurs_more(text18, field, hook_text(reload_hook));
}

/// The file gives the name of the key.
pub proof fn lemma_file_key(
    email: Seq<char>,
    server: Seq<char>,
    zone: Seq<char>,
    key: Seq<char>,
    secret: Option<Seq<char>>,
    domains: Seq<Seq<char>>,
    output_dir: Seq<char>,
    state_dir: Seq<char>,
    reload_hook: Option<Seq<char>>,
    resolver: Option<Seq<char>>,
)
    ensures
        occurs(
            config_text(
                email,
                server,
                zone,
                key,
                secret,
                domains,
                output_dir,
                state_dir,
                reload_hook,
                resolver,
            ),
            "\n  tsig_key: "@ + key + "\n"@,
        ),
{
    let shown = match secret {
        Some(s) => s,
        None => "CHANGE_ME"@,
    };
    let front = "acme:\n  directory: https://acme-v02.api.letsencrypt.org/directory\n  email: "@ + email + "\n\nstate_dir: "@ + state_dir + "\n\ndns:\n  # The three values below come with your DNSVault subscription.\n  server: "@ + server + "\n  challenge_zone: "@ + zone;
    let field = "\n  tsig_key: "@ + key + "\n"@;
    assert("\n  # Base64 secret; alternatively set the DNSVCERT_TSIG_SECRET environment variable.\n  tsig_secret: \""@ == "\n"@ + "  # Base64 secret; alternatively set the DNSVCERT_TSIG_SECRET environment variable.\n  tsig_secret: \""@) by {
        reveal_strlit("\n  # Base64 secret; alternatively set the DNSVCERT_TSIG_SECRET environment variable.\n  tsig_secret: \"");
        reveal_strlit("\n");
        reveal_strlit("  # Base64 secret; alternatively set the DNSVCERT_TSIG_SECRET environment variable.\n  tsig_secret: \"");
        assert("\n  # Base64 secret; alternatively set the DNSVCERT_TSIG_SECRET environment variable.\n  tsig_secret: \""@ =~= "\n"@ + "  # Base64 secret; alternatively set the DNSVCERT_TSIG_SECRET environment variable.\n  tsig_secret: \""@);
    }
    let text10 = front + "\n  tsig_key: "@ + key + "\n  # Base64 secret; alternatively set the DNSVCERT_TSIG_SECRET environment variable.\n  tsig_secret: \""@;
    assert(text10 =~= (front + Seq::<char>::empty()) + field + "  # Base64 secret; alternatively set the DNSVCERT_TSIG_SECRET environment variable.\n  tsig_secret: \""@);
    lemma_occurs_in(front + Seq::<char>::empty(), field, "  # Base64 secret; alternatively set the DNSVCERT_TSIG_SECRET environment variable.\n  tsig_secret: \""@);
    let text11 = text10 + shown;
    lemma_occurs_more(text10, field, shown);
    let text12 = text11 + "\"\n"@;
    lemma_occurs_more(text11, field, "\"\n"@);
    let text13 = text12 + resolver_text(resolver);
    lemma_occurs_more(text12, field, resolver_text(resolver));
    let text14 = text13 + "\n\nrenew_before_days: 30\n\ncertificates:\n  - domains: ["@;
    lemma_occurs_more(text13, field, "\n\nrenew_before_days: 30\n\ncertificates:\n  - domains: ["@);
    let text15 = text14 + domains_text(domains);
    lemma_occurs_more(text14, field, domains_text(domains));
    let text16 = text15 + "]\n    output_dir: "@;
    lemma_occurs_more(text15, field, "]\n    output_dir: "@);
    let text17 = text16 + output_dir;
    lemma_occurs_more(text16, field, output_dir);
    let text18 = text17 + "\n"@;
    lemma_occurs_more(text17, field, "\n"@);
    let text19 = text18 + hook_text(reload_hook);
    lemma_occurs_more(text18, field, hook_text(reload_hook));
}

/// The file gives the secret, or the placeholder.
pub proof fn lemma_file_secret(
    email: Seq<char>,
    server: Seq<char>,
    zone: Seq<char>,
    key: Seq<char>,
    secret: Option<Seq<char>>,
    domains: Seq<Seq<char>>,
    output_dir: Seq<char>,
    state_dir: Seq<char>,
    reload_hook: Option<Seq<char>>,
    resolver: Option<Seq<char>>,
)
    ensures
        occurs(
            config_text(
                email,
                server,
                zone,
                key,
                secret,
                domains,
                output_dir,
                state_dir,
                reload_hook,
                resolver,
            ),
            "\n  tsig_secret: \""@ + (match secret {
        Some(s) => s,
        None => "CHANGE_ME"@,
    }) + "\"\n"@,
        ),
{
    let shown = match secret {
        Some(s) => s,
        None => "CHANGE_ME"@,
    };
    let front = "acme:\n  directory: https://acme-v02.api.letsencrypt.org/directory\n  email: "@ + email + "\n\nstate_dir: "@ + state_dir + "\n\ndns:\n  # The three values below come with your DNSVault subscription.\n  server: "@ + server + "\n  challenge_zone: "@ + zone + "\n  tsig_key: "@ + key;
    let field = "\n  tsig_secret: \""@ + shown + "\"\n"@;
    assert("\n  # Base64 secret; alternatively set the DNSVCERT_TSIG_SECRET environment variable.\n  tsig_secret: \""@ == "\n  # Base64 secret; alternatively set the DNSVCERT_TSIG_SECRET environment variable."@ + "\n  tsig_secret: \""@) by {
        reveal_strlit("\n  # Base64 secret; alternatively set the DNSVCERT_TSIG_SECRET environment variable.\n  tsig_secret: \"");
        reveal_strlit("\n  # Base64 secret; alternatively set the DNSVCERT_TSIG_SECRET environment variable.");
        reveal_strlit("\n  tsig_secret: \"");
        assert("\n  # Base64 secret; alternatively set the DNSVCERT_TSIG_SECRET environment variable.\n  tsig_secret: \""@ =~= "\n  # Base64 secret; alternatively set the DNSVCERT_TSIG_SECRET environment variable."@ + "\n  tsig_secret: \""@);
    }
    let text12 = front + "\n  # Base64 secret; alternatively set the DNSVCERT_TSIG_SECRET environment variable.\n  tsig_secret: \""@ + shown + "\"\n"@;
    assert(text12 =~= (front + "\n  # Base64 secret; alternatively set the DNSVCERT_TSIG_SECRET environment variable."@) + field + Seq::<char>::empty());
    lemma_occurs_in(front + "\n  # Base64 secret; alternatively set the DNSVCERT_TSIG_SECRET environment variable."@, field, Seq::<char>::empty());
    let text13 = text12 + resolver_text(resolver);
    lemma_occurs_more(text12, field, resolver_text(resolver));
    let text14 = text13 + "\n\nrenew_before_days: 30\n\ncertificates:\n  - domains: ["@;
    lemma_occurs_more(text13, field, "\n\nrenew_before_days: 30\n\ncertificates:\n  - domains: ["@);
    let text15 = text14 + domains_text(domains);
    lemma_occurs_more(text14, field, domains_text(domains));
    let text16 = text15 + "]\n    output_dir: "@;
    lemma_occurs_more(text15, field, "]\n    output_dir: "@);
    let text17 = text16 + output_dir;
    lemma_occurs_more(text16, field, output_dir);
    let text18 = text17 + "\n"@;
    lemma_occurs_more(text17, field, "\n"@);
    let text19 = text18 + hook_text(reload_hook);
    lemma_occurs_more(text18, field, hook_text(reload_hook));
}

/// The file gives the domains.
pub proof fn lemma_file_domains(
    email: Seq<char>,
    server: Seq<char>,
    zone: Seq<char>,
    key: Seq<char>,
    secret: Option<Seq<char>>,
    domains: Seq<Seq<char>>,
    output_dir: Seq<char>,
    state_dir: Seq<char>,
    reload_hook: Option<Seq<char>>,
    resolver: Option<Seq<char>>,
)
    ensures
        occurs(
            config_text(
                email,
                server,
                zone,
                key,
                secret,
                domains,
                output_dir,
                state_dir,
                reload_hook,
                resolver,
            ),
            "\n  - domains: ["@ + domains_text(domains) + "]\n"@,
        ),
{
    let shown = match secret {
        Some(s) => s,
        None => "CHANGE_ME"@,
    };
    let front = "acme:\n  directory: https://acme-v02.api.letsencrypt.org/directory\n  email: "@ + email + "\n\nstate_dir: "@ + state_dir + "\n\ndns:\n  # The three values below come with your DNSVault subscription.\n  server: "@ + server + "\n  challenge_zone: "@ + zone + "\n  tsig_key: "@ + key + "\n  # Base64 secret; alternatively set the DNSVCERT_TSIG_SECRET environment variable.\n  tsig_secret: \""@ + shown + "\"\n"@ + resolver_text(resolver);
    let field = "\n  - domains: ["@ + domains_text(domains) + "]\n"@;
    assert("\n\nrenew_before_days: 30\n\ncertificates:\n  - domains: ["@ == "\n\nrenew_before_days: 30\n\ncertificates:"@ + "\n  - domains: ["@) by {
        reveal_strlit("\n\nrenew_before_days: 30\n\ncertificates:\n  - domains: [");
        reveal_strlit("\n\nrenew_before_days: 30\n\ncertificates:");
        reveal_strlit("\n  - domains: [");
        assert("\n\nrenew_before_days: 30\n\ncertificates:\n  - domains: ["@ =~= "\n\nrenew_before_days: 30\n\ncertificates:"@ + "\n  - domains: ["@);
    }
    assert("]\n    output_dir: "@ == "]\n"@ + "    output_dir: "@) by {
        reveal_strlit("]\n    output_dir: ");
        reveal_strlit("]\n");
        reveal_strlit("    output_dir: ");
        assert("]\n    output_dir: "@ =~= "]\n"@ + "    output_dir: "@);
    }
    let text16 = front + "\n\nrenew_before_days: 30\n\ncertificates:\n  - domains: ["@ + domains_text(domains) + "]\n    output_dir: "@;
    assert(text16 =~= (front + "\n\nrenew_before_days: 30\n\ncertificates:"@) + field + "    output_dir: "@);
    lemma_occurs_in(front + "\n\nrenew_before_days: 30\n\ncertificates:"@, field, "    output_dir: "@);
    let text17 = text16 + output_dir;
    lemma_occurs_more(text16, field, output_dir);
    let text18 = text17 + "\n"@;
    lemma_occurs_more(text17, field, "\n"@);
    let text19 = text18 + hook_text(reload_hook);
    lemma_occurs_more(text18, field, hook_text(reload_hook));
}

/// The file gives the output directory.
pub proof fn lemma_file_output_dir(
    email: Seq<char>,
    server: Seq<char>,
    zone: Seq<char>,
    key: Seq<char>,
    secret: Option<Seq<char>>,
    domains: Seq<Seq<char>>,
    output_dir: Seq<char>,
    state_dir: Seq<char>,
    reload_hook: Option<Seq<char>>,
    resolver: Option<Seq<char>>,
)
    ensures
        occurs(
            config_text(
                email,
                server,
                zone,
                key,
                secret,
                domains,
                output_dir,
                state_dir,
                reload_hook,
                resolver,
            ),
            "\n    output_dir: "@ + output_dir + "\n"@,
        ),
{
    let shown = match secret {
        Some(s) => s,
        None => "CHANGE_ME"@,
    };
    let front = "acme:\n  directory: https://acme-v02.api.letsencrypt.org/directory\n  email: "@ + email + "\n\nstate_dir: "@ + state_dir + "\n\ndns:\n  # The three values below come with your DNSVault subscription.\n  server: "@ + server + "\n  challenge_zone: "@ + zone + "\n  tsig_key: "@ + key + "\n  # Base64 secret; alternatively set the DNSVCERT_TSIG_SECRET environment variable.\n  tsig_secret: \""@ + shown + "\"\n"@ + resolver_text(resolver) + "\n\nrenew_before_days: 30\n\ncertificates:\n  - domains: ["@ + domains_text(domains);
    let field = "\n    output_dir: "@ + output_dir + "\n"@;
    assert("]\n    output_dir: "@ == "]"@ + "\n    output_dir: "@) by {
        reveal_strlit("]\n    output_dir: ");
        reveal_strlit("]");
        reveal_strlit("\n    output_dir: ");
        assert("]\n    output_dir: "@ =~= "]"@ + "\n    output_dir: "@);
    }
    let text18 = front + "]\n    output_dir: "@ + output_dir + "\n"@;
    assert(text18 =~= (front + "]"@) + field + Seq::<char>::empty());
    lemma_occurs_in(front + "]"@, field, Seq::<char>::empty());
    let text19 = text18 + hook_text(reload_hook);
    lemma_occurs_more(text18, field, hook_text(reload_hook));
}

/// The file gives the resolver where there is one.
pub proof fn lemma_file_resolver(
    email: Seq<char>,
    server: Seq<char>,
    zone: Seq<char>,
    key: Seq<char>,
    secret: Option<Seq<char>>,
    domains: Seq<Seq<char>>,
    output_dir: Seq<char>,
    state_dir: Seq<char>,
    reload_hook: Option<Seq<char>>,
    resolver: Option<Seq<char>>,
)
    requires
        resolver is Some,
    ensures
        occurs(
            config_text(
                email,
                server,
                zone,
                key,
                secret,
                domains,
                output_dir,
                state_dir,
                reload_hook,
                resolver,
            ),
            "\n  resolver: "@ + resolver->0 + "\n"@,
        ),
{
    let shown = match secret {
        Some(s) => s,
        None => "CHANGE_ME"@,
    };
    let front = "acme:\n  directory: https://acme-v02.api.letsencrypt.org/directory\n  email: "@ + email + "\n\nstate_dir: "@ + state_dir + "\n\ndns:\n  # The three values below come with your DNSVault subscription.\n  server: "@ + server + "\n  challenge_zone: "@ + zone + "\n  tsig_key: "@ + key + "\n  # Base64 secret; alternatively set the DNSVCERT_TSIG_SECRET environment variable.\n  tsig_secret: \""@ + shown + "\"\n"@;
    let r = resolver->0;
    let field = "\n  resolver: "@ + r + "\n"@;
    assert("  # Verification queries go here (what Let's Encrypt sees); query signing is off.\n  resolver: "@ == "  # Verification queries go here (what Let's Encrypt sees); query signing is off."@ + "\n  resolver: "@) by {
        reveal_strlit("  # Verification queries go here (what Let's Encrypt sees); query signing is off.\n  resolver: ");
        reveal_strlit("  # Verification queries go here (what Let's Encrypt sees); query signing is off.");
        reveal_strlit("\n  resolver: ");
        assert("  # Verification queries go here (what Let's Encrypt sees); query signing is off.\n  resolver: "@ =~= "  # Verification queries go here (what Let's Encrypt sees); query signing is off."@ + "\n  resolver: "@);
    }
    assert("\n\nrenew_before_days: 30\n\ncertificates:\n  - domains: ["@ == "\n"@ + "\nrenew_before_days: 30\n\ncertificates:\n  - domains: ["@) by {
        reveal_strlit("\n\nrenew_before_days: 30\n\ncertificates:\n  - domains: [");
        reveal_strlit("\n");
        reveal_strlit("\nrenew_before_days: 30\n\ncertificates:\n  - domains: [");
        assert("\n\nrenew_before_days: 30\n\ncertificates:\n  - domains: ["@ =~= "\n"@ + "\nrenew_before_days: 30\n\ncertificates:\n  - domains: ["@);
    }
    let text14 = front + resolver_text(resolver) + "\n\nrenew_before_days: 30\n\ncertificates:\n  - domains: ["@;
    assert(text14 =~= (front + "  # Verification queries go here (what Let's Encrypt sees); query signing is off."@) + field + "\nrenew_before_days: 30\n\ncertificates:\n  - domains: ["@);
    lemma_occurs_in(front + "  # Verification queries go here (what Let's Encrypt sees); query signing is off."@, field, "\nrenew_before_days: 30\n\ncertificates:\n  - domains: ["@);
    let text15 = text14 + domains_text(domains);
    lemma_occurs_more(text14, field, domains_text(domains));
    let text16 = text15 + "]\n    output_dir: "@;
    lemma_occurs_more(text15, field, "]\n    output_dir: "@);
    let text17 = text16 + output_dir;
    lemma_occurs_more(text16, field, output_dir);
    let text18 = text17 + "\n"@;
    lemma_occurs_more(text17, field, "\n"@);
    let text19 = text18 + hook_text(reload_hook);
    lemma_occurs_more(text18, field, hook_text(reload_hook));
}

/// The file ends with the reload hook where there is one.
pub proof fn lemma_file_hook(
    email: Seq<char>,
    server: Seq<char>,
    zone: Seq<char>,
    key: Seq<char>,
    secret: Option<Seq<char>>,
    domains: Seq<Seq<char>>,
    output_dir: Seq<char>,
    state_dir: Seq<char>,
    reload_hook: Option<Seq<char>>,
    resolver: Option<Seq<char>>,
)
    requires
        reload_hook is Some,
        reload_hook->0.len() > 0,
    ensures
        ends(
            config_text(
                email,
                server,
                zone,
                key,
                secret,
                domains,
                output_dir,
                state_dir,
                reload_hook,
                resolver,
            ),
            "    reload_hook: \""@ + reload_hook->0 + "\"\n"@,
        ),
{
    let text = config_text(
            email,
            server,
            zone,
            key,
            secret,
            domains,
            output_dir,
            state_dir,
            reload_hook,
            resolver,
        );
    let tail = hook_text(reload_hook);
    assert(text.subrange(text.len() - tail.len(), text.len() as int) =~= tail);
}

/// Without a resolver the file only shows how one would be given, as a comment.
pub proof fn lemma_file_no_resolver(
    email: Seq<char>,
    server: Seq<char>,
    zone: Seq<char>,
    key: Seq<char>,
    secret: Option<Seq<char>>,
    domains: Seq<Seq<char>>,
    output_dir: Seq<char>,
    state_dir: Seq<char>,
    reload_hook: Option<Seq<char>>,
    resolver: Option<Seq<char>>,
)
    requires
        resolver is None,
    ensures
        occurs(
            config_text(
                email,
                server,
                zone,
                key,
                secret,
                domains,
                output_dir,
                state_dir,
                reload_hook,
                resolver,
            ),
            "  # Verification queries are TSIG-signed to the server above so multi-view\n  # servers route them like the updates. To verify via a resolver instead:\n  # resolver: 8.8.8.8\n  # sign_queries: false"@,
        ),
{
    let shown = match secret {
        Some(s) => s,
        None => "CHANGE_ME"@,
    };
    let front = "acme:\n  directory: https://acme-v02.api.letsencrypt.org/directory\n  email: "@ + email + "\n\nstate_dir: "@ + state_dir + "\n\ndns:\n  # The three values below come with your DNSVault subscription.\n  server: "@ + server + "\n  challenge_zone: "@ + zone + "\n  tsig_key: "@ + key + "\n  # Base64 secret; alternatively set the DNSVCERT_TSIG_SECRET environment variable.\n  tsig_secret: \""@ + shown + "\"\n"@;
    let field = "  # Verification queries are TSIG-signed to the server above so multi-view\n  # servers route them like the updates. To verify via a resolver instead:\n  # resolver: 8.8.8.8\n  # sign_queries: false"@;
    let text13 = front + resolver_text(resolver);
    assert(text13 =~= front + field + Seq::<char>::empty());
    lemma_occurs_in(front, field, Seq::empty());
    let text14 = text13 + "\n\nrenew_before_days: 30\n\ncertificates:\n  - domains: ["@;
    lemma_occurs_more(text13, field, "\n\nrenew_before_days: 30\n\ncertificates:\n  - domains: ["@);
    let text15 = text14 + domains_text(domains);
    lemma_occurs_more(text14, field, domains_text(domains));
    let text16 = text15 + "]\n    output_dir: "@;
    lemma_occurs_more(text15, field, "]\n    output_dir: "@);
    let text17 = text16 + output_dir;
    lemma_occurs_more(text16, field, output_dir);
    let text18 = text17 + "\n"@;
    lemma_occurs_more(text17, field, "\n"@);
    let text19 = text18 + hook_text(reload_hook);
    lemma_occurs_more(text18, field, hook_text(reload_hook));
}

/// Without a reload hook the file ends with one as a comment.
pub proof fn lemma_file_no_hook(
    email: Seq<char>,
    server: Seq<char>,
    zone: Seq<char>,
    key: Seq<char>,
    secret: Option<Seq<char>>,
    domains: Seq<Seq<char>>,
    output_dir: Seq<char>,
    state_dir: Seq<char>,
    reload_hook: Option<Seq<char>>,
    resolver: Option<Seq<char>>,
)
    requires
        reload_hook is None || reload_hook->0.len() == 0,
    ensures
        ends(
            config_text(
                email,
                server,
                zone,
                key,
                secret,
                domains,
                output_dir,
                state_dir,
                reload_hook,
                resolver,
            ),
            "    # reload_hook: \"systemctl reload nginx\"\n"@,
        ),
{
    let text = config_text(
            email,
            server,
            zone,
            key,
            secret,
            domains,
            output_dir,
            state_dir,
            reload_hook,
            resolver,
        );
    let tail = hook_text(reload_hook);
    assert(text.subrange(text.len() - tail.len(), text.len() as int) =~= tail);
}

} // verus!
