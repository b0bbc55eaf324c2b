//! Laws of the guided setup: each answer ends up where its question says.

use vstd::prelude::*;
use vstd::string::*;

use crate::config_laws::{
    lemma_file_domains, lemma_file_email, lemma_file_hook, lemma_file_key, lemma_file_no_hook,
    lemma_file_no_resolver, lemma_file_output_dir, lemma_file_resolver, lemma_file_secret,
    lemma_file_server, lemma_file_state_dir, lemma_file_zone,
};
use crate::config::domains_text;
use crate::dns::base_name;
use crate::prompt::{confirm_text, consent, prompt_text};
use crate::setup::{setup_run, setup_start, setup_step, starter, Ending, Question, SetupView};
use crate::text::{begins, ends, occurs, trimmed};
use crate::text_laws::lemma_begins_ends;

verus! {

/// Whether a question was put that begins in this way.
pub open spec fn asked(s: SetupView, front: Seq<char>) -> bool {
    s.prompt() is Some && begins(s.prompt()->0, front)
}

/// The line that was typed last, or could not be read, when a question that begins in
/// this way was put.
pub open spec fn last_typed(
    start: SetupView,
    lines: Seq<Option<Seq<char>>>,
    front: Seq<char>,
) -> Option<Option<Seq<char>>>
    decreases lines.len(),
{
    if lines.len() == 0 {
        None
    } else if asked(setup_run(start, lines.drop_last()), front) {
        Some(lines.last())
    } else {
        last_typed(start, lines.drop_last(), front)
    }
}

/// What a line means where there is a default: itself without the white space around it,
/// or the default where nothing else is left or no line could be read.
pub open spec fn meant(typed: Option<Seq<char>>, default: Seq<char>) -> Seq<char> {
    if typed is Some && trimmed(typed->0).len() > 0 {
        trimmed(typed->0)
    } else {
        default
    }
}

/// What was said last to a question that begins in this way.
pub open spec fn said(
    start: SetupView,
    lines: Seq<Option<Seq<char>>>,
    front: Seq<char>,
    default: Seq<char>,
) -> Seq<char> {
    meant(last_typed(start, lines, front)->0, default)
}

// ---- the questions apart -------------------------------------------------

proof fn lemma_front(x: Seq<char>, d: Option<Seq<char>>, yes: bool)
    ensures
        prompt_text(x, d).len() >= x.len(),
        forall|i: int| 0 <= i < x.len() ==> #[trigger] prompt_text(x, d)[i] == x[i],
        confirm_text(x, yes).len() >= x.len(),
        forall|i: int| 0 <= i < x.len() ==> #[trigger] confirm_text(x, yes)[i] == x[i],
{
}

/// The letters of a question by which it is told from the others.
spec fn letters(s: SetupView) -> (char, char, char, char) {
    let p = s.prompt()->0;
    (p[0], p[1], p[2], p[5])
}

proof fn lemma_letters(s: SetupView)
    ensures
        s.prompt() is Some <==> !(s.question is Finished),
        s.prompt() is Some ==> s.prompt()->0.len() >= 6,
        match s.question {
            Question::UseExisting => letters(s).0 == 'F',
            Question::Overwrite => letters(s).0 == 'O',
            Question::Email => letters(s).0 == 'C' && letters(s).1 == 'o' && letters(s).2 == 'n',
            Question::Server => letters(s).0 == 'D' && letters(s).1 == 'N',
            Question::Zone => letters(s).0 == 'C' && letters(s).1 == 'h' && letters(s).2 == 'a',
            Question::Key => letters(s).0 == 'T' && letters(s).3 == 'k',
            Question::Secret => letters(s).0 == 'T' && letters(s).3 == 's',
            Question::Domain => (letters(s).0 == 'D' && letters(s).1 == 'o') || (letters(s).0
                == 'A' && letters(s).1 == 'n'),
            Question::Wildcard(_) => letters(s).0 == 'I' && letters(s).1 == 'n',
            Question::More => letters(s).0 == 'A' && letters(s).1 == 'd',
            Question::Choice => letters(s).0 == 'C' && letters(s).1 == 'h' && letters(s).2 == 'o',
            Question::Resolver => letters(s).0 == 'R',
            Question::Split(_) => letters(s).0 == 'I' && letters(s).1 == 's',
            Question::Keep(_) => letters(s).0 == 'K',
            Question::Directory => letters(s).0 == 'D' && letters(s).1 == 'i',
            Question::Hook => letters(s).0 == 'C' && letters(s).1 == 'o' && letters(s).2 == 'm',
            Question::Finished(_) => true,
        },
{
    match s.question {
        Question::UseExisting => {
            reveal_strlit("Found ");
            lemma_front("Found "@ + s.path + " — use it as-is?"@, None, true);
        },
        Question::Overwrite => {
            reveal_strlit("Overwrite it with new answers?");
            lemma_front("Overwrite it with new answers?"@, None, false);
        },
        Question::Email => {
            reveal_strlit("Contact email for Let's Encrypt");
            lemma_front("Contact email for Let's Encrypt"@, s.default(), true);
        },
        Question::Server => {
            reveal_strlit("DNS server that accepts the updates (name or IP)");
            lemma_front(
                "DNS server that accepts the updates (name or IP)"@,
                s.default(),
                true,
            );
        },
        Question::Zone => {
            reveal_strlit("Challenge zone (e.g. acme.example.com)");
            lemma_front("Challenge zone (e.g. acme.example.com)"@, s.default(), true);
        },
        Question::Key => {
            reveal_strlit("TSIG key name");
            lemma_front("TSIG key name"@, s.default(), true);
        },
        Question::Secret => {
            reveal_strlit(
                "TSIG secret (input hidden; Enter to skip for now — DNS checks still run)",
            );
            lemma_front(
                "TSIG secret (input hidden; Enter to skip for now — DNS checks still run)"@,
                Some(""@),
                true,
            );
        },
        Question::Domain => {
            reveal_strlit("Domain to get a certificate for (e.g. app.example.com)");
            reveal_strlit("Another domain (Enter to stop)");
            lemma_front(
                "Domain to get a certificate for (e.g. app.example.com)"@,
                s.default(),
                true,
            );
            lemma_front("Another domain (Enter to stop)"@, s.default(), true);
        },
        Question::Wildcard(w) => {
            reveal_strlit("Include the wildcard ");
            lemma_front("Include the wildcard "@ + w + " too?"@, None, true);
        },
        Question::More => {
            reveal_strlit("Add another domain?");
            lemma_front("Add another domain?"@, None, false);
        },
        Question::Choice => {
            reveal_strlit("Choose 1 or 2");
            lemma_front("Choose 1 or 2"@, s.default(), true);
        },
        Question::Resolver => {
            reveal_strlit("Resolver address");
            lemma_front("Resolver address"@, s.default(), true);
        },
        Question::Split(_) => {
            reveal_strlit(
                "Is your DNS split-horizon / multi-view (internal answers differ from public)?",
            );
            lemma_front(
                "Is your DNS split-horizon / multi-view (internal answers differ from public)?"@,
                None,
                false,
            );
        },
        Question::Keep(r) => {
            reveal_strlit("Keep ");
            reveal_strlit(" anyway?");
            lemma_front("Keep "@ + r + " anyway?"@, None, false);
        },
        Question::Directory => {
            reveal_strlit("Directory for the certificate files");
            lemma_front("Directory for the certificate files"@, s.default(), true);
        },
        Question::Hook => {
            reveal_strlit(
                "Command to run after issue/renew (e.g. systemctl reload nginx; Enter for none)",
            );
            lemma_front(
                "Command to run after issue/renew (e.g. systemctl reload nginx; Enter for none)"@,
                s.default(),
                true,
            );
        },
        Question::Finished(_) => {},
    }
}

/// The words of the question.
pub open spec fn email_question() -> Seq<char> {
    "Contact email for Let's Encrypt"@
}

proof fn lemma_asks_email(s: SetupView)
    ensures
        asked(s, email_question()) <==> s.question is Email,
{
    let words = email_question();
    reveal_strlit("Contact email for Let's Encrypt");
    lemma_letters(s);
    if asked(s, words) {
        let p = s.prompt()->0;
        let begun = p.subrange(0, words.len() as int);
        assert(begun[0] == p[0] && begun[1] == p[1] && begun[2] == p[2] && begun[5] == p[5]);
    }
    if s.question is Email {
        lemma_front(words, s.default(), true);
        let p = s.prompt()->0;
        assert(p.subrange(0, words.len() as int) =~= words);
    }
}

/// The words of the question.
pub open spec fn server_question() -> Seq<char> {
    "DNS server that accepts the updates (name or IP)"@
}

proof fn lemma_asks_server(s: SetupView)
    ensures
        asked(s, server_question()) <==> s.question is Server,
{
    let words = server_question();
    reveal_strlit("DNS server that accepts the updates (name or IP)");
    lemma_letters(s);
    if asked(s, words) {
        let p = s.prompt()->0;
        let begun = p.subrange(0, words.len() as int);
        assert(begun[0] == p[0] && begun[1] == p[1] && begun[2] == p[2] && begun[5] == p[5]);
    }
    if s.question is Server {
        lemma_front(words, s.default(), true);
        let p = s.prompt()->0;
        assert(p.subrange(0, words.len() as int) =~= words);
    }
}

/// The words of the question.
pub open spec fn zone_question() -> Seq<char> {
    "Challenge zone (e.g. acme.example.com)"@
}

proof fn lemma_asks_zone(s: SetupView)
    ensures
        asked(s, zone_question()) <==> s.question is Zone,
{
    let words = zone_question();
    reveal_strlit("Challenge zone (e.g. acme.example.com)");
    lemma_letters(s);
    if asked(s, words) {
        let p = s.prompt()->0;
        let begun = p.subrange(0, words.len() as int);
        assert(begun[0] == p[0] && begun[1] == p[1] && begun[2] == p[2] && begun[5] == p[5]);
    }
    if s.question is Zone {
        lemma_front(words, s.default(), true);
        let p = s.prompt()->0;
        assert(p.subrange(0, words.len() as int) =~= words);
    }
}

/// The words of the question.
pub open spec fn key_question() -> Seq<char> {
    "TSIG key name"@
}

proof fn lemma_asks_key(s: SetupView)
    ensures
        asked(s, key_question()) <==> s.question is Key,
{
    let words = key_question();
    reveal_strlit("TSIG key name");
    lemma_letters(s);
    if asked(s, words) {
        let p = s.prompt()->0;
        let begun = p.subrange(0, words.len() as int);
        assert(begun[0] == p[0] && begun[1] == p[1] && begun[2] == p[2] && begun[5] == p[5]);
    }
    if s.question is Key {
        lemma_front(words, s.default(), true);
        let p = s.prompt()->0;
        assert(p.subrange(0, words.len() as int) =~= words);
    }
}

/// The words of the question.
pub open spec fn secret_question() -> Seq<char> {
    "TSIG secret (input hidden; Enter to skip for now — DNS checks still run)"@
}

proof fn lemma_asks_secret(s: SetupView)
    ensures
        asked(s, secret_question()) <==> s.question is Secret,
{
    let words = secret_question();
    reveal_strlit("TSIG secret (input hidden; Enter to skip for now — DNS checks still run)");
    lemma_letters(s);
    if asked(s, words) {
        let p = s.prompt()->0;
        let begun = p.subrange(0, words.len() as int);
        assert(begun[0] == p[0] && begun[1] == p[1] && begun[2] == p[2] && begun[5] == p[5]);
    }
    if s.question is Secret {
        lemma_front(words, Some(""@), true);
        let p = s.prompt()->0;
        assert(p.subrange(0, words.len() as int) =~= words);
    }
}

/// The words of the question.
pub open spec fn choice_question() -> Seq<char> {
    "Choose 1 or 2"@
}

proof fn lemma_asks_choice(s: SetupView)
    ensures
        asked(s, choice_question()) <==> s.question is Choice,
{
    let words = choice_question();
    reveal_strlit("Choose 1 or 2");
    lemma_letters(s);
    if asked(s, words) {
        let p = s.prompt()->0;
        let begun = p.subrange(0, words.len() as int);
        assert(begun[0] == p[0] && begun[1] == p[1] && begun[2] == p[2] && begun[5] == p[5]);
    }
    if s.question is Choice {
        lemma_front(words, s.default(), true);
        let p = s.prompt()->0;
        assert(p.subrange(0, words.len() as int) =~= words);
    }
}

/// The words of the question.
pub open spec fn resolver_question() -> Seq<char> {
    "Resolver address"@
}

proof fn lemma_asks_resolver(s: SetupView)
    ensures
        asked(s, resolver_question()) <==> s.question is Resolver,
{
    let words = resolver_question();
    reveal_strlit("Resolver address");
    lemma_letters(s);
    if asked(s, words) {
        let p = s.prompt()->0;
        let begun = p.subrange(0, words.len() as int);
        assert(begun[0] == p[0] && begun[1] == p[1] && begun[2] == p[2] && begun[5] == p[5]);
    }
    if s.question is Resolver {
        lemma_front(words, s.default(), true);
        let p = s.prompt()->0;
        assert(p.subrange(0, words.len() as int) =~= words);
    }
}

/// The words of the question.
pub open spec fn directory_question() -> Seq<char> {
    "Directory for the certificate files"@
}

proof fn lemma_asks_directory(s: SetupView)
    ensures
        asked(s, directory_question()) <==> s.question is Directory,
{
    let words = directory_question();
    reveal_strlit("Directory for the certificate files");
    lemma_letters(s);
    if asked(s, words) {
        let p = s.prompt()->0;
        let begun = p.subrange(0, words.len() as int);
        assert(begun[0] == p[0] && begun[1] == p[1] && begun[2] == p[2] && begun[5] == p[5]);
    }
    if s.question is Directory {
        lemma_front(words, s.default(), true);
        let p = s.prompt()->0;
        assert(p.subrange(0, words.len() as int) =~= words);
    }
}

/// The words of the question.
pub open spec fn hook_question() -> Seq<char> {
    "Command to run after issue/renew (e.g. systemctl reload nginx; Enter for none)"@
}

proof fn lemma_asks_hook(s: SetupView)
    ensures
        asked(s, hook_question()) <==> s.question is Hook,
{
    let words = hook_question();
    reveal_strlit("Command to run after issue/renew (e.g. systemctl reload nginx; Enter for none)");
    lemma_letters(s);
    if asked(s, words) {
        let p = s.prompt()->0;
        let begun = p.subrange(0, words.len() as int);
        assert(begun[0] == p[0] && begun[1] == p[1] && begun[2] == p[2] && begun[5] == p[5]);
    }
    if s.question is Hook {
        lemma_front(words, s.default(), true);
        let p = s.prompt()->0;
        assert(p.subrange(0, words.len() as int) =~= words);
    }
}

/// Whether a domain was asked for.
pub open spec fn asks_domain(s: SetupView) -> bool {
    asked(s, "Domain to get a certificate for (e.g. app.example.com)"@) || asked(
        s,
        "Another domain (Enter to stop)"@,
    )
}

/// Whether it was asked if a wildcard is wanted.
pub open spec fn asks_wildcard(s: SetupView) -> bool {
    asked(s, "Include the wildcard "@)
}

proof fn lemma_asks_domain(s: SetupView)
    ensures
        asks_domain(s) <==> s.question is Domain,
{
    let first = "Domain to get a certificate for (e.g. app.example.com)"@;
    let other = "Another domain (Enter to stop)"@;
    reveal_strlit("Domain to get a certificate for (e.g. app.example.com)");
    reveal_strlit("Another domain (Enter to stop)");
    lemma_letters(s);
    if s.prompt() is Some {
        let p = s.prompt()->0;
        if asked(s, first) {
            let begun = p.subrange(0, first.len() as int);
            assert(begun[0] == p[0] && begun[1] == p[1]);
        }
        if asked(s, other) {
            let begun = p.subrange(0, other.len() as int);
            assert(begun[0] == p[0] && begun[1] == p[1]);
        }
    }
    if s.question is Domain {
        lemma_front(first, s.default(), true);
        lemma_front(other, s.default(), true);
        let p = s.prompt()->0;
        if s.domains.len() == 0 {
            assert(p.subrange(0, first.len() as int) =~= first);
        } else {
            assert(p.subrange(0, other.len() as int) =~= other);
        }
    }
}

proof fn lemma_asks_wildcard(s: SetupView)
    ensures
        asks_wildcard(s) <==> s.question is Wildcard,
{
    let words = "Include the wildcard "@;
    reveal_strlit("Include the wildcard ");
    lemma_letters(s);
    if asked(s, words) {
        let p = s.prompt()->0;
        let begun = p.subrange(0, words.len() as int);
        assert(begun[0] == p[0] && begun[1] == p[1]);
    }
    match s.question {
        Question::Wildcard(w) => {
            let x = words + w + " too?"@;
            lemma_front(x, None, true);
            let p = s.prompt()->0;
            assert(p.subrange(0, words.len() as int) =~= words);
        },
        _ => {},
    }
}

// ---- the answers ---------------------------------------------------------

/// The domain that was named last.
pub open spec fn last_domain(start: SetupView, lines: Seq<Option<Seq<char>>>) -> Seq<char>
    decreases lines.len(),
{
    if lines.len() == 0 {
        Seq::empty()
    } else if asks_domain(setup_run(start, lines.drop_last())) && meant(
        lines.last(),
        Seq::empty(),
    ).len() > 0 {
        meant(lines.last(), Seq::empty())
    } else {
        last_domain(start, lines.drop_last())
    }
}

/// The domains that were named, each without its wildcard label, and the wildcards of
/// those for which one was wanted.
pub open spec fn named(start: SetupView, lines: Seq<Option<Seq<char>>>) -> Set<Seq<char>>
    decreases lines.len(),
{
    if lines.len() == 0 {
        Set::empty()
    } else {
        let front = lines.drop_last();
        let s = setup_run(start, front);
        let before = named(start, front);
        let typed = lines.last();
        if asks_domain(s) && meant(typed, Seq::empty()).len() > 0 {
            before.insert(base_name(meant(typed, Seq::empty())))
        } else if asks_wildcard(s) && consent(true, typed) {
            before.insert(seq!['*', '.'] + base_name(last_domain(start, front)))
        } else {
            before
        }
    }
}

/// How far the dialogue has come.
spec fn rank(q: Question<Seq<char>>) -> int {
    match q {
        Question::UseExisting => 0,
        Question::Overwrite => 0,
        Question::Email => 1,
        Question::Server => 2,
        Question::Zone => 3,
        Question::Key => 4,
        Question::Secret => 5,
        Question::Domain => 6,
        Question::Wildcard(_) => 6,
        Question::More => 6,
        Question::Choice => 7,
        Question::Resolver => 7,
        Question::Split(_) => 7,
        Question::Keep(_) => 7,
        Question::Directory => 8,
        Question::Hook => 9,
        Question::Finished(Ending::WriteFile) => 10,
        Question::Finished(_) => 0,
    }
}

/// The directory that is offered for some domains.
pub open spec fn offered_dir(domains: Seq<Seq<char>>) -> Seq<char> {
    "./certs/"@ + (if domains.len() > 0 {
        base_name(domains[0])
    } else {
        "certs"@
    })
}

/// The secret in a line, if any.
pub open spec fn secret_of(typed: Option<Seq<char>>) -> Option<Seq<char>> {
    if meant(typed, Seq::empty()).len() > 0 {
        Some(meant(typed, Seq::empty()))
    } else {
        None
    }
}

/// What is known of the answers so far.
spec fn kept(start: SetupView, lines: Seq<Option<Seq<char>>>) -> bool {
    let s = setup_run(start, lines);
    let k = rank(s.question);
    let choice = said(start, lines, choice_question(), "1"@);
    let resolver = said(start, lines, resolver_question(), "8.8.8.8"@);
    &&& k > 1 ==> s.email == said(start, lines, email_question(), Seq::empty())
    &&& k > 2 ==> s.server == said(start, lines, server_question(), Seq::empty())
    &&& k > 3 ==> s.zone == said(start, lines, zone_question(), Seq::empty())
    &&& k > 4 ==> s.key == said(start, lines, key_question(), "dnsvcert"@)
    &&& k > 5 ==> s.secret == secret_of(last_typed(start, lines, secret_question())->0)
    &&& match s.question {
        Question::Resolver => choice == "2"@,
        Question::Split(r) => choice == "2"@ && r == resolver,
        Question::Keep(r) => choice == "2"@ && r == resolver,
        _ => true,
    }
    &&& k > 7 ==> (choice == "1"@ && s.resolver is None) || (choice == "2"@ && s.resolver == Some(
        resolver,
    ))
    &&& k > 8 ==> s.output_dir == said(
        start,
        lines,
        directory_question(),
        offered_dir(s.domains),
    )
    &&& k > 9 ==> s.hook == said(start, lines, hook_question(), Seq::empty())
    &&& match s.question {
        Question::Wildcard(w) => w == seq!['*', '.'] + base_name(last_domain(start, lines)),
        _ => true,
    }
    &&& forall|d: Seq<char>| #[trigger] s.domains.contains(d) <==> named(start, lines).contains(d)
}

proof fn lemma_push_has(s: Seq<Seq<char>>, x: Seq<char>)
    ensures
        forall|d: Seq<char>| #[trigger] s.push(x).contains(d) <==> s.contains(d) || d == x,
{
    assert forall|d: Seq<char>| #[trigger] s.push(x).contains(d) <==> s.contains(d) || d == x by {
        assert(s.push(x)[s.len() as int] == x);
        if s.contains(d) {
            let i = choose|i: int| 0 <= i < s.len() && s[i] == d;
            assert(s.push(x)[i] == d);
        }
        if s.push(x).contains(d) && d != x {
            let i = choose|i: int| 0 <= i < s.push(x).len() && s.push(x)[i] == d;
            assert(s[i] == d);
        }
    }
}

proof fn lemma_kept(path: Seq<char>, exists: bool, lines: Seq<Option<Seq<char>>>)
    ensures
        kept(setup_start(path, exists), lines),
    decreases lines.len(),
{
    let start = setup_start(path, exists);
    reveal_strlit("");
    assert(""@ =~= Seq::<char>::empty());
    if lines.len() > 0 {
        let front = lines.drop_last();
        let typed = lines.last();
        lemma_kept(path, exists, front);
        lemma_kept_step(start, front, typed);
        assert(lines =~= front.push(typed));
    }
}

proof fn lemma_kept_step(start: SetupView, front: Seq<Option<Seq<char>>>, typed: Option<Seq<char>>)
    requires
        kept(start, front),
    ensures
        kept(start, front.push(typed)),
{
    let lines = front.push(typed);
    let s = setup_run(start, front);
    assert(lines.drop_last() =~= front);
    reveal_strlit("");
    reveal_strlit("*.");
    assert(""@ =~= Seq::<char>::empty());
    assert("*."@ =~= seq!['*', '.']);
    lemma_asks_email(s);
    lemma_asks_server(s);
    lemma_asks_zone(s);
    lemma_asks_key(s);
    lemma_asks_secret(s);
    lemma_asks_choice(s);
    lemma_asks_resolver(s);
    lemma_asks_directory(s);
    lemma_asks_hook(s);
    lemma_asks_domain(s);
    lemma_asks_wildcard(s);
    match s.question {
        Question::Domain => {
            let v = meant(typed, Seq::empty());
            if v.len() > 0 {
                lemma_push_has(s.domains, base_name(v));
            }
        },
        Question::Wildcard(w) => {
            lemma_push_has(s.domains, w);
        },
        _ => {},
    }
}

/// The answers that are written are those that were given last to the questions for them,
/// without the white space around them, or the defaults that were offered; a resolver is
/// written where the second way was chosen.
pub proof fn lemma_answers(path: Seq<char>, exists: bool, lines: Seq<Option<Seq<char>>>)
    requires
        setup_run(setup_start(path, exists), lines).question == Question::<Seq<char>>::Finished(
            Ending::WriteFile,
        ),
    ensures
        ({
            let start = setup_start(path, exists);
            let s = setup_run(start, lines);
            let choice = said(start, lines, choice_question(), "1"@);
            &&& s.email == said(start, lines, email_question(), Seq::empty())
            &&& s.server == said(start, lines, server_question(), Seq::empty())
            &&& s.zone == said(start, lines, zone_question(), Seq::empty())
            &&& s.key == said(start, lines, key_question(), "dnsvcert"@)
            &&& s.secret == secret_of(last_typed(start, lines, secret_question())->0)
            &&& choice == "1"@ || choice == "2"@
            &&& choice == "1"@ ==> s.resolver is None
            &&& choice == "2"@ ==> s.resolver == Some(
                said(start, lines, resolver_question(), "8.8.8.8"@),
            )
            &&& s.output_dir == said(start, lines, directory_question(), offered_dir(s.domains))
            &&& s.hook == said(start, lines, hook_question(), Seq::empty())
            &&& forall|d: Seq<char>| #[trigger]
                s.domains.contains(d) <==> named(start, lines).contains(d)
        }),
{
    lemma_kept(path, exists, lines);
    reveal_strlit("1");
    reveal_strlit("2");
    assert("1"@[0] != "2"@[0]);
}

/// The file that the dialogue ends with gives what was said to each question under the
/// key that the question is about.
pub proof fn lemma_written_answers(
    path: Seq<char>,
    exists: bool,
    lines: Seq<Option<Seq<char>>>,
    state_dir: Seq<char>,
)
    requires
        setup_run(setup_start(path, exists), lines).question == Question::<Seq<char>>::Finished(
            Ending::WriteFile,
        ),
    ensures
        ({
            let start = setup_start(path, exists);
            let s = setup_run(start, lines);
            let text = s.contents(state_dir);
            let email = said(start, lines, email_question(), Seq::empty());
            let server = said(start, lines, server_question(), Seq::empty());
            let zone = said(start, lines, zone_question(), Seq::empty());
            let key = said(start, lines, key_question(), "dnsvcert"@);
            let secret = secret_of(last_typed(start, lines, secret_question())->0);
            let dir = said(start, lines, directory_question(), offered_dir(s.domains));
            let hook = said(start, lines, hook_question(), Seq::empty());
            let resolver = said(start, lines, resolver_question(), "8.8.8.8"@);
            &&& occurs(text, "\n  email: "@ + email + "\n"@)
            &&& occurs(text, "\nstate_dir: "@ + state_dir + "\n"@)
            &&& occurs(text, "\n  server: "@ + server + "\n"@)
            &&& occurs(text, "\n  challenge_zone: "@ + zone + "\n"@)
            &&& occurs(text, "\n  tsig_key: "@ + key + "\n"@)
            &&& occurs(
                text,
                "\n  tsig_secret: \""@ + (match secret {
                    Some(t) => t,
                    None => "CHANGE_ME"@,
                }) + "\"\n"@,
            )
            &&& occurs(text, "\n  - domains: ["@ + domains_text(s.domains) + "]\n"@)
            &&& occurs(text, "\n    output_dir: "@ + dir + "\n"@)
            &&& hook.len() > 0 ==> ends(text, "    reload_hook: \""@ + hook + "\"\n"@)
            &&& said(start, lines, choice_question(), "1"@) == "2"@ ==> occurs(
                text,
                "\n  resolver: "@ + resolver + "\n"@,
            )
            &&& said(start, lines, choice_question(), "1"@) == "1"@ ==> occurs(
                text,
                "  # Verification queries are TSIG-signed to the server above so multi-view\n  # servers route them like the updates. To verify via a resolver instead:\n  # resolver: 8.8.8.8\n  # sign_queries: false"@,
            )
            &&& hook.len() == 0 ==> ends(
                text,
                "    # reload_hook: \"systemctl reload nginx\"\n"@,
            )
        }),
{
    let s = setup_run(setup_start(path, exists), lines);
    lemma_answers(path, exists, lines);
    let hook = if s.hook.len() > 0 {
        Some(s.hook)
    } else {
        None
    };
    lemma_file_email(
        s.email,
        s.server,
        s.zone,
        s.key,
        s.secret,
        s.domains,
        s.output_dir,
        state_dir,
        hook,
        s.resolver,
    );
    lemma_file_state_dir(
        s.email,
        s.server,
        s.zone,
        s.key,
        s.secret,
        s.domains,
        s.output_dir,
        state_dir,
        hook,
        s.resolver,
    );
    lemma_file_server(
        s.email,
        s.server,
        s.zone,
        s.key,
        s.secret,
        s.domains,
        s.output_dir,
        state_dir,
        hook,
        s.resolver,
    );
    lemma_file_zone(
        s.email,
        s.server,
        s.zone,
        s.key,
        s.secret,
        s.domains,
        s.output_dir,
        state_dir,
        hook,
        s.resolver,
    );
    lemma_file_key(
        s.email,
        s.server,
        s.zone,
        s.key,
        s.secret,
        s.domains,
        s.output_dir,
        state_dir,
        hook,
        s.resolver,
    );
    lemma_file_secret(
        s.email,
        s.server,
        s.zone,
        s.key,
        s.secret,
        s.domains,
        s.output_dir,
        state_dir,
        hook,
        s.resolver,
    );
    lemma_file_domains(
        s.email,
        s.server,
        s.zone,
        s.key,
        s.secret,
        s.domains,
        s.output_dir,
        state_dir,
        hook,
        s.resolver,
    );
    lemma_file_output_dir(
        s.email,
        s.server,
        s.zone,
        s.key,
        s.secret,
        s.domains,
        s.output_dir,
        state_dir,
        hook,
        s.resolver,
    );
    if s.resolver is Some {
        lemma_file_resolver(
            s.email,
            s.server,
            s.zone,
            s.key,
            s.secret,
            s.domains,
            s.output_dir,
            state_dir,
            hook,
            s.resolver,
        );
    } else {
        lemma_file_no_resolver(
            s.email,
            s.server,
            s.zone,
            s.key,
            s.secret,
            s.domains,
            s.output_dir,
            state_dir,
            hook,
            s.resolver,
        );
    }
    if s.hook.len() > 0 {
        lemma_file_hook(
            s.email,
            s.server,
            s.zone,
            s.key,
            s.secret,
            s.domains,
            s.output_dir,
            state_dir,
            hook,
            s.resolver,
        );
    } else {
        lemma_file_no_hook(
            s.email,
            s.server,
            s.zone,
            s.key,
            s.secret,
            s.domains,
            s.output_dir,
            state_dir,
            hook,
            s.resolver,
        );
    }
}

// ---- the turns of the dialogue -------------------------------------------

/// A file that was found is used where the reader agrees; else it is kept, unless the
/// reader agrees to overwrite it.
pub proof fn lemma_existing(path: Seq<char>, first: Option<Seq<char>>, second: Option<Seq<char>>)
    ensures
        ({
            let start = setup_start(path, true);
            let one = setup_step(start, first).0;
            let two = setup_step(one, second).0;
            &&& consent(true, first) ==> one.question == Question::<Seq<char>>::Finished(
                Ending::UseFile,
            )
            &&& !consent(true, first) && consent(false, second) ==> two.question is Email
            &&& !consent(true, first) && !consent(false, second) ==> two.question == Question::<
                Seq<char>,
            >::Finished(Ending::KeepFile)
        }),
{
}

/// An email address is taken exactly where an at sign and a dot stand in it; a question
/// without a default is put again where nothing was typed.
pub proof fn lemma_email(s: SetupView, typed: Option<Seq<char>>)
    ensures
        s.question is Email ==> ({
            let v = meant(typed, Seq::empty());
            let good = v.contains('@') && v.contains('.');
            let t = setup_step(s, typed).0;
            &&& good ==> t.question is Server && t.email == v
            &&& !good ==> t == s
        }),
        (s.question is Server || s.question is Zone) && typed is Some && trimmed(typed->0).len()
            == 0 ==> setup_step(s, typed).0 == s,
{
}

/// For each domain that is named, its wildcard is offered unless it is taken already; then
/// it is asked whether there is another. At least one is to be named; after that, naming
/// none ends the list.
pub proof fn lemma_wildcard_offered(s: SetupView, typed: Option<Seq<char>>, more: Option<Seq<char>>)
    ensures
        s.question is Domain && meant(typed, Seq::empty()).len() > 0 ==> ({
            let t = setup_step(s, typed).0;
            let base = base_name(meant(typed, Seq::empty()));
            &&& t.domains.contains(base)
            &&& t.domains.contains(seq!['*', '.'] + base) ==> t.question is More
            &&& !t.domains.contains(seq!['*', '.'] + base) ==> t.question == Question::Wildcard(
                seq!['*', '.'] + base,
            )
        }),
        s.question is Domain && s.domains.len() > 0 && meant(typed, Seq::empty()).len() == 0
            ==> setup_step(s, typed).0.question is Choice && setup_step(s, typed).0.domains
            == s.domains,
        s.question is Domain && s.domains.len() == 0 && typed is Some && trimmed(typed->0).len()
            == 0 ==> setup_step(s, typed).0 == s,
        s.question is Wildcard ==> setup_step(s, more).0.question is More,
        s.question is More && consent(false, more) ==> setup_step(s, more).0.question is Domain,
        s.question is More && !consent(false, more) ==> setup_step(s, more).0.question is Choice,
{
    reveal_strlit("*.");
    reveal_strlit("");
    assert("*."@ =~= seq!['*', '.']);
    assert(""@ =~= Seq::<char>::empty());
    if s.question is Domain && meant(typed, Seq::empty()).len() > 0 {
        let base = base_name(meant(typed, Seq::empty()));
        if !s.domains.contains(base) {
            assert(s.domains.push(base)[s.domains.len() as int] == base);
        }
    }
}

/// A resolver in one of the ranges for internal networks is taken on a network whose
/// answers differ only where the reader insists, and any other is taken.
pub proof fn lemma_resolver_taken(
    s: SetupView,
    r: Seq<char>,
    rest: Seq<char>,
    typed: Option<Seq<char>>,
)
    ensures
        s.question == Question::Split(r) && !consent(false, typed) ==> setup_step(
            s,
            typed,
        ).0.resolver == Some(r) && setup_step(s, typed).0.question is Directory,
        s.question == Question::Split(r) && consent(false, typed) && (r == "10."@ + rest || r
            == "192.168."@ + rest || r == "172."@ + rest) ==> setup_step(s, typed).0.question
            == Question::Keep(r),
        s.question == Question::Split(r) && consent(false, typed) && !(exists|x: Seq<char>|
            r == "10."@ + x) && !(exists|x: Seq<char>| r == "192.168."@ + x) && !(exists|
            x: Seq<char>,
        | r == "172."@ + x) ==> setup_step(s, typed).0.resolver == Some(r) && setup_step(
            s,
            typed,
        ).0.question is Directory,
        s.question == Question::Keep(r) && consent(false, typed) ==> setup_step(s, typed).0.resolver
            == Some(r) && setup_step(s, typed).0.question is Directory,
        s.question == Question::Keep(r) && !consent(false, typed) ==> setup_step(
            s,
            typed,
        ).0.resolver == s.resolver && setup_step(s, typed).0.question is Choice,
{
    lemma_begins_ends(r, "10."@);
    lemma_begins_ends(r, "192.168."@);
    lemma_begins_ends(r, "172."@);
}

/// A starter file gives the email address, the challenge zone and the domains that it is
/// made for, and a placeholder in place of a secret.
pub proof fn lemma_starter(
    path: Seq<char>,
    domains: Seq<Seq<char>>,
    email: Seq<char>,
    zone: Seq<char>,
    state_dir: Seq<char>,
)
    ensures
        ({
            let s = starter(path, domains, email, zone);
            let text = s.contents(state_dir);
            &&& s.path == path
            &&& s.question == Question::<Seq<char>>::Finished(Ending::WriteFile)
            &&& occurs(text, "\n  email: "@ + email + "\n"@)
            &&& occurs(text, "\n  challenge_zone: "@ + zone + "\n"@)
            &&& occurs(text, "\n  tsig_secret: \""@ + "CHANGE_ME"@ + "\"\n"@)
            &&& occurs(text, "\n  - domains: ["@ + domains_text(domains) + "]\n"@)
            &&& occurs(text, "\n    output_dir: "@ + offered_dir(domains) + "\n"@)
        }),
{
    let s = starter(path, domains, email, zone);
    let hook = if s.hook.len() > 0 {
        Some(s.hook)
    } else {
        None
    };
    lemma_file_email(
        s.email,
        s.server,
        s.zone,
        s.key,
        s.secret,
        s.domains,
        s.output_dir,
        state_dir,
        hook,
        s.resolver,
    );
    lemma_file_zone(
        s.email,
        s.server,
        s.zone,
        s.key,
        s.secret,
        s.domains,
        s.output_dir,
        state_dir,
        hook,
        s.resolver,
    );
    lemma_file_secret(
        s.email,
        s.server,
        s.zone,
        s.key,
        s.secret,
        s.domains,
        s.output_dir,
        state_dir,
        hook,
        s.resolver,
    );
    lemma_file_domains(
        s.email,
        s.server,
        s.zone,
        s.key,
        s.secret,
        s.domains,
        s.output_dir,
        state_dir,
        hook,
        s.resolver,
    );
    lemma_file_output_dir(
        s.email,
        s.server,
        s.zone,
        s.key,
        s.secret,
        s.domains,
        s.output_dir,
        state_dir,
        hook,
        s.resolver,
    );
}

} // verus!
