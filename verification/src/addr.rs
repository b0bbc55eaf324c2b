//! Server addresses: what people configure, and the host and port in it.

use vstd::prelude::*;
use vstd::string::*;

use crate::failure::Failure;
use crate::text::{
    after_first, cat2, cat3, contains, find_last, first_at, has_char, is_white,
    lemma_first_at_unique, occurs, parse_port, port_value, rest_after, slice, stands_at, trim,
    trim_back, trim_front, trimmed, PortFault,
};

verus! {

/// `proto://host:port` for what was configured: white space around it is dropped,
/// the scheme is tcp where none is given, and the port is 53 where none is given.
pub open spec fn addr_form(raw: Seq<char>) -> Seq<char> {
    let s = trimmed(raw);
    let url = if occurs(s, "://"@) {
        s
    } else {
        "tcp://"@ + s
    };
    if after_first(url, "://"@).contains(':') {
        url
    } else {
        url + ":53"@
    }
}

/// Bare "host" or "host:port" as "tcp://host:port".
pub fn normalize_addr(raw: &str) -> (r: String)
    ensures
        r@ == addr_form(raw@),
{
    let s = trim(raw);
    let url = if contains(s.as_str(), "://") {
        s
    } else {
        cat2("tcp://", s.as_str())
    };
    let after = rest_after(url.as_str(), "://");
    if has_char(after.as_str(), ':') {
        url
    } else {
        cat2(url.as_str(), ":53")
    }
}

/// A host, by name or by IP address, and a TCP port.
#[derive(Debug)]
pub struct Endpoint {
    pub host: String,
    pub port: u16,
}

/// Where `c` stands last in `s`, which holds it.
pub open spec fn last_place(s: Seq<char>, c: char) -> int {
    choose|i: int|
        0 <= i < s.len() && s[i] == c && forall|j: int| i < j < s.len() ==> s[j] != c
}

/// The host in `addr`: what stands between the scheme and the last colon after it.
pub open spec fn host_part(addr: Seq<char>) -> Seq<char> {
    let rest = after_first(addr, "://"@);
    if rest.contains(':') {
        rest.take(last_place(rest, ':'))
    } else {
        rest
    }
}

/// The port in `addr`: what stands after the last colon behind the scheme, or 53.
pub open spec fn port_part(addr: Seq<char>) -> Seq<char> {
    let rest = after_first(addr, "://"@);
    if rest.contains(':') {
        rest.skip(last_place(rest, ':') + 1)
    } else {
        "53"@
    }
}

/// What a reader is told about a port that cannot be read.
pub open spec fn fault_text(f: PortFault) -> Seq<char> {
    match f {
        PortFault::Empty => "cannot parse integer from empty string"@,
        PortFault::InvalidDigit => "invalid digit found in string"@,
        PortFault::TooLarge => "number too large to fit in target type"@,
    }
}

/// What a reader is told about a port that cannot be read.
fn fault_message(f: PortFault) -> (r: String)
    ensures
        r@ == fault_text(f),
{
    match f {
        PortFault::Empty => "cannot parse integer from empty string".to_owned(),
        PortFault::InvalidDigit => "invalid digit found in string".to_owned(),
        PortFault::TooLarge => "number too large to fit in target type".to_owned(),
    }
}

/// The host and the port in "proto://host:port".
pub fn resolve_addr(addr: &str) -> (r: Result<Endpoint, Failure>)
    ensures
        match (r, port_value(port_part(addr@))) {
            (Ok(e), Ok(port)) => e.host@ == host_part(addr@) && e.port == port,
            (Err(f), Err(fault)) => f@ == seq![
                "bad port in '"@ + addr@ + "'"@,
                fault_text(fault),
            ],
            _ => false,
        },
{
    let rest = rest_after(addr, "://");
    let n: usize = rest.as_str().unicode_len();
    let (host, port) = match find_last(rest.as_str(), ':') {
        Some(i) => {
            proof {
                let k = last_place(rest@, ':');
                assert(rest@[i as int] == ':');
                assert(0 <= k < rest@.len() && rest@[k] == ':' && forall|j: int|
                    k < j < rest@.len() ==> rest@[j] != ':');
                assert(k == i);
            }
            (slice(rest.as_str(), 0, i), slice(rest.as_str(), i + 1, n))
        },
        None => (rest, "53".to_owned()),
    };
    match parse_port(port.as_str()) {
        Ok(number) => Ok(Endpoint { host, port: number }),
        Err(fault) => Err(
            Failure::caused(cat3("bad port in '", addr, "'"), fault_message(fault)),
        ),
    }
}

// ---- laws ----------------------------------------------------------------

/// No white space stands at either end of `s`.
spec fn tight(s: Seq<char>) -> bool {
    s.len() > 0 ==> !is_white(s[0]) && !is_white(s.last())
}

proof fn lemma_trim_front(s: Seq<char>)
    ensures
        trim_front(s).len() > 0 ==> !is_white(trim_front(s)[0]),
        trim_front(s).len() > 0 ==> trim_front(s).last() == s.last(),
        trim_front(s).len() <= s.len(),
    decreases s.len(),
{
    if s.len() > 0 && is_white(s[0]) {
        lemma_trim_front(s.drop_first());
    }
}

proof fn lemma_trim_back(s: Seq<char>)
    ensures
        trim_back(s).len() > 0 ==> !is_white(trim_back(s).last()),
        trim_back(s).len() > 0 ==> trim_back(s)[0] == s[0],
        trim_back(s).len() <= s.len(),
    decreases s.len(),
{
    if s.len() > 0 && is_white(s.last()) {
        lemma_trim_back(s.drop_last());
    }
}

proof fn lemma_trimmed(s: Seq<char>)
    ensures
        tight(trimmed(s)),
        tight(s) ==> trimmed(s) == s,
{
    lemma_trim_front(s);
    lemma_trim_back(trim_front(s));
}

/// The scheme's mark stands first at `i`, also where more is added at the end.
proof fn lemma_mark_kept(s: Seq<char>, tail: Seq<char>, i: int)
    requires
        first_at(s, "://"@, i),
    ensures
        first_at(s + tail, "://"@, i),
{
    reveal_strlit("://");
    let t = s + tail;
    assert(t.subrange(i, i + 3) =~= s.subrange(i, i + 3));
    assert forall|j: int| 0 <= j < i implies !stands_at(t, "://"@, j) by {
        assert(!stands_at(s, "://"@, j));
        assert(t.subrange(j, j + 3) =~= s.subrange(j, j + 3));
    }
}

proof fn lemma_mark_first(s: Seq<char>)
    requires
        occurs(s, "://"@),
    ensures
        exists|i: int| first_at(s, "://"@, i),
{
    let i = choose|i: int| stands_at(s, "://"@, i);
    lemma_mark_from(s, i);
}

proof fn lemma_mark_from(s: Seq<char>, i: int)
    requires
        stands_at(s, "://"@, i),
    ensures
        exists|k: int| first_at(s, "://"@, k),
    decreases i,
{
    if exists|j: int| 0 <= j < i && stands_at(s, "://"@, j) {
        let j = choose|j: int| 0 <= j < i && stands_at(s, "://"@, j);
        lemma_mark_from(s, j);
    } else {
        assert(first_at(s, "://"@, i));
    }
}

proof fn lemma_after(s: Seq<char>, i: int)
    requires
        first_at(s, "://"@, i),
    ensures
        occurs(s, "://"@),
        after_first(s, "://"@) == s.skip(i + 3),
{
    reveal_strlit("://");
    let k = choose|k: int| first_at(s, "://"@, k);
    lemma_first_at_unique(s, "://"@, i, k);
    assert(s.subrange(i + 3, s.len() as int) =~= s.skip(i + 3));
}

/// An address in the form "proto://host:port" has a scheme and a port, and stays as
/// it is when it is brought into that form again.
pub proof fn lemma_addr_form(raw: Seq<char>)
    ensures
        occurs(addr_form(raw), "://"@),
        after_first(addr_form(raw), "://"@).contains(':'),
        addr_form(addr_form(raw)) == addr_form(raw),
{
    reveal_strlit("://");
    reveal_strlit("tcp://");
    reveal_strlit(":53");
    let s = trimmed(raw);
    lemma_trimmed(raw);
    let url = if occurs(s, "://"@) {
        s
    } else {
        "tcp://"@ + s
    };
    if !occurs(s, "://"@) {
        assert(url.subrange(3, 6) =~= "://"@);
        assert forall|j: int| 0 <= j < 3 implies !stands_at(url, "://"@, j) by {
            assert(url.subrange(j, j + 3)[0] == url[j]);
            assert(url.subrange(j, j + 3)[1] == url[j + 1]);
            assert("://"@[1] == '/');
        }
        assert(first_at(url, "://"@, 3));
    } else {
        lemma_mark_first(url);
    }
    let i = choose|i: int| first_at(url, "://"@, i);
    lemma_after(url, i);
    let r = addr_form(raw);
    if !after_first(url, "://"@).contains(':') {
        lemma_mark_kept(url, ":53"@, i);
        lemma_after(r, i);
        let after = after_first(r, "://"@);
        assert(after[url.len() - i - 3] == ':');
    }
    assert(tight(r));
    lemma_trimmed(r);
}

} // verus!
