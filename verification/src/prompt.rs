//! Questions on a terminal, and what the lines typed in reply mean.

use vstd::prelude::*;
use vstd::string::*;

use crate::text::{
    cat2, cat3, cat4, has_char, is_white, lower, lowercase, same, str_opt, text_opt, trim, trimmed,
};
use crate::text_laws::{lemma_lower, lemma_trimmed_is, same_letter};

verus! {

/// A question as it is put, with the default between brackets where there is one.
pub open spec fn prompt_text(prompt: Seq<char>, default: Option<Seq<char>>) -> Seq<char> {
    match default {
        Some(d) if d.len() > 0 => prompt + " ["@ + d + "]: "@,
        _ => prompt + ": "@,
    }
}

/// What a line means in reply to a question: itself without the white space around it,
/// or the default where nothing else is left; nothing where there is no default either.
/// Where no line could be read it is the default, or empty.
pub open spec fn reply(default: Option<Seq<char>>, line: Option<Seq<char>>) -> Option<Seq<char>> {
    match line {
        None => match default {
            Some(d) => Some(d),
            None => Some(Seq::empty()),
        },
        Some(l) => if trimmed(l).len() > 0 {
            Some(trimmed(l))
        } else {
            default
        },
    }
}

/// The question whether something is so, with a hint at the default.
pub open spec fn confirm_text(prompt: Seq<char>, default_yes: bool) -> Seq<char> {
    prompt_text(
        prompt + " "@ + (if default_yes {
            "[Y/n]"@
        } else {
            "[y/N]"@
        }),
        Some(""@),
    )
}

/// Whether a line says yes.
pub open spec fn consent(default_yes: bool, line: Option<Seq<char>>) -> bool {
    let v = lower(reply(Some(Seq::empty()), line)->0);
    if v.len() == 0 {
        default_yes
    } else {
        v == "y"@ || v == "yes"@ || v == "ya"@
    }
}

/// The secret in a line, if any.
pub open spec fn secret_in(line: Option<Seq<char>>) -> Option<Seq<char>> {
    match line {
        Some(l) if trimmed(l).len() > 0 => Some(trimmed(l)),
        _ => None,
    }
}

/// Whether a text may be an email address.
pub open spec fn email_like(v: Seq<char>) -> bool {
    v.contains('@') && v.contains('.')
}

/// A question as it is put.
pub fn ask(prompt: &str, default: Option<&str>) -> (r: String)
    ensures
        r@ == prompt_text(prompt@, str_opt(default)),
{
    match default {
        Some(d) if !d.is_empty() => cat4(prompt, " [", d, "]: "),
        _ => cat2(prompt, ": "),
    }
}

/// What a line means in reply to a question; nothing where the question is to be put
/// again.
pub fn answer(default: Option<&str>, line: Option<String>) -> (r: Option<String>)
    ensures
        text_opt(r) == reply(str_opt(default), text_opt(line)),
{
    match line {
        None => match default {
            Some(d) => Some(d.to_owned()),
            None => {
                let empty = String::new();
                assert(empty@ =~= Seq::empty());
                Some(empty)
            },
        },
        Some(l) => {
            let t = trim(l.as_str());
            if t.as_str().unicode_len() > 0 {
                Some(t)
            } else {
                match default {
                    Some(d) => Some(d.to_owned()),
                    None => None,
                }
            }
        },
    }
}

/// The question whether something is so.
pub fn confirm(prompt: &str, default_yes: bool) -> (r: String)
    ensures
        r@ == confirm_text(prompt@, default_yes),
{
    ask(
        cat3(
            prompt,
            " ",
            if default_yes {
                "[Y/n]"
            } else {
                "[y/N]"
            },
        ).as_str(),
        Some(""),
    )
}

/// Whether a line says yes.
pub fn says_yes(default_yes: bool, line: Option<String>) -> (r: bool)
    ensures
        r == consent(default_yes, text_opt(line)),
{
    let v = match line {
        None => String::new(),
        Some(l) => trim(l.as_str()),
    };
    assert(line is None ==> v@ =~= Seq::empty());
    assert(line is Some && v@.len() == 0 ==> v@ =~= Seq::empty());
    let w = lowercase(v.as_str());
    if w.as_str().unicode_len() == 0 {
        default_yes
    } else {
        same(w.as_str(), "y") || same(w.as_str(), "yes") || same(w.as_str(), "ya")
    }
}

/// The secret in a line, if any.
pub fn ask_secret(line: Option<String>) -> (r: Option<String>)
    ensures
        text_opt(r) == secret_in(text_opt(line)),
{
    match line {
        None => None,
        Some(l) => {
            let t = trim(l.as_str());
            if t.as_str().unicode_len() > 0 {
                Some(t)
            } else {
                None
            }
        },
    }
}

/// Whether a text may be an email address.
pub fn looks_like_email(v: &str) -> (r: bool)
    ensures
        r == email_like(v@),
{
    has_char(v, '@') && has_char(v, '.')
}

/// Nothing but a line without text takes the default, and one that says "y", "yes" or
/// "ya" in any case is a yes whatever the default is.
pub proof fn lemma_consent(line: Seq<char>)
    ensures
        trimmed(line).len() == 0 ==> consent(true, Some(line)) && !consent(false, Some(line)),
        trimmed(line).len() > 0 ==> consent(true, Some(line)) == consent(false, Some(line)),
        lower(trimmed(line)) == "y"@ || lower(trimmed(line)) == "yes"@ || lower(trimmed(line))
            == "ya"@ ==> consent(false, Some(line)),
{
    reveal_strlit("y");
    reveal_strlit("yes");
    reveal_strlit("ya");
    assert(lower(trimmed(line)).len() == trimmed(line).len());
}

/// A line is taken without the white space around it; one without anything else gives
/// the default, and no answer where there is none.
pub proof fn lemma_reply(default: Option<Seq<char>>, line: Seq<char>, t: Seq<char>, a: Seq<char>, b: Seq<char>)
    requires
        line == a + t + b,
        forall|i: int| 0 <= i < a.len() ==> is_white(#[trigger] a[i]),
        forall|i: int| 0 <= i < b.len() ==> is_white(#[trigger] b[i]),
        t.len() > 0 ==> !is_white(t[0]) && !is_white(t.last()),
    ensures
        t.len() > 0 ==> reply(default, Some(line)) == Some(t) && secret_in(Some(line)) == Some(t),
        t.len() == 0 ==> reply(default, Some(line)) == default && secret_in(Some(line)) is None,
{
    lemma_trimmed_is(a, t, b);
}

/// A line is a yes where it is y, yes or ya in upper or lower case, white space around it
/// apart, or where nothing else stands in it and yes is the default; and a no otherwise.
pub proof fn lemma_yes(
    default_yes: bool,
    line: Seq<char>,
    t: Seq<char>,
    a: Seq<char>,
    b: Seq<char>,
)
    requires
        line == a + t + b,
        forall|i: int| 0 <= i < a.len() ==> is_white(#[trigger] a[i]),
        forall|i: int| 0 <= i < b.len() ==> is_white(#[trigger] b[i]),
        t.len() > 0 ==> !is_white(t[0]) && !is_white(t.last()),
    ensures
        consent(default_yes, Some(line)) <==> {
            ||| t.len() == 0 && default_yes
            ||| t.len() == 1 && same_letter(t[0], 'y')
            ||| t.len() == 2 && same_letter(t[0], 'y') && same_letter(t[1], 'a')
            ||| t.len() == 3 && same_letter(t[0], 'y') && same_letter(t[1], 'e') && same_letter(
                t[2],
                's',
            )
        },
        consent(default_yes, None) <==> default_yes,
{
    reveal_strlit("y");
    reveal_strlit("ya");
    reveal_strlit("yes");
    lemma_trimmed_is(a, t, b);
    lemma_lower(t);
    let v = lower(t);
    assert(v.len() == t.len());
    if v.len() == 1 && same_letter(t[0], 'y') {
        assert(v =~= "y"@);
    }
    if v.len() == 2 && same_letter(t[0], 'y') && same_letter(t[1], 'a') {
        assert(v =~= "ya"@);
    }
    if v.len() == 3 && same_letter(t[0], 'y') && same_letter(t[1], 'e') && same_letter(t[2], 's') {
        assert(v =~= "yes"@);
    }
    if v == "y"@ {
        assert(v[0] == 'y');
    }
    if v == "ya"@ {
        assert(v[0] == 'y' && v[1] == 'a');
    }
    if v == "yes"@ {
        assert(v[0] == 'y' && v[1] == 'e' && v[2] == 's');
    }
}

/// A default stands between brackets behind the question, unless it is empty.
pub proof fn lemma_prompt(prompt: Seq<char>, default: Seq<char>)
    ensures
        prompt_text(prompt, None) == prompt + ": "@,
        default.len() == 0 ==> prompt_text(prompt, Some(default)) == prompt + ": "@,
        default.len() > 0 ==> prompt_text(prompt, Some(default)) == prompt + " ["@ + default
            + "]: "@,
{
}

} // verus!
