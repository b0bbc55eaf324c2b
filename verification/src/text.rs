//! Text primitives: what they return is stated over the characters of a string.

use vstd::prelude::*;
use vstd::string::*;

verus! {

/// The code points with the Unicode property White_Space.
pub open spec fn is_white(c: char) -> bool {
    ||| '\u{9}' <= c <= '\u{d}'
    ||| c == ' '
    ||| c == '\u{85}'
    ||| c == '\u{a0}'
    ||| c == '\u{1680}'
    ||| '\u{2000}' <= c <= '\u{200a}'
    ||| c == '\u{2028}'
    ||| c == '\u{2029}'
    ||| c == '\u{202f}'
    ||| c == '\u{205f}'
    ||| c == '\u{3000}'
}

/// `s` without its leading white space.
pub open spec fn trim_front(s: Seq<char>) -> Seq<char>
    decreases s.len(),
{
    if s.len() > 0 && is_white(s[0]) {
        trim_front(s.drop_first())
    } else {
        s
    }
}

/// `s` without its trailing white space.
pub open spec fn trim_back(s: Seq<char>) -> Seq<char>
    decreases s.len(),
{
    if s.len() > 0 && is_white(s.last()) {
        trim_back(s.drop_last())
    } else {
        s
    }
}

/// `s` without the white space at either end.
pub open spec fn trimmed(s: Seq<char>) -> Seq<char> {
    trim_back(trim_front(s))
}

/// `s` without its trailing `c`s.
pub open spec fn strip_back(s: Seq<char>, c: char) -> Seq<char>
    decreases s.len(),
{
    if s.len() > 0 && s.last() == c {
        strip_back(s.drop_last(), c)
    } else {
        s
    }
}

/// Whether `p` stands at position `i` of `s`.
pub open spec fn stands_at(s: Seq<char>, p: Seq<char>, i: int) -> bool {
    0 <= i && i + p.len() <= s.len() && s.subrange(i, i + p.len()) == p
}

/// Whether `s` begins with `p`.
pub open spec fn begins(s: Seq<char>, p: Seq<char>) -> bool {
    stands_at(s, p, 0)
}

/// Whether `s` ends with `p`.
pub open spec fn ends(s: Seq<char>, p: Seq<char>) -> bool {
    stands_at(s, p, s.len() - p.len())
}

/// Whether `p` occurs anywhere in `s`.
pub open spec fn occurs(s: Seq<char>, p: Seq<char>) -> bool {
    exists|i: int| stands_at(s, p, i)
}

/// Where `p` occurs first in `s`: no earlier position holds it.
pub open spec fn first_at(s: Seq<char>, p: Seq<char>, i: int) -> bool {
    stands_at(s, p, i) && forall|j: int| 0 <= j < i ==> !stands_at(s, p, j)
}

/// `s` after the first occurrence of `p`; all of `s` where `p` does not occur.
pub open spec fn after_first(s: Seq<char>, p: Seq<char>) -> Seq<char> {
    if occurs(s, p) {
        let i = choose|i: int| first_at(s, p, i);
        s.subrange(i + p.len(), s.len() as int)
    } else {
        s
    }
}

/// The ASCII lower-case letter of an ASCII upper-case letter; any other
/// character itself.
pub open spec fn lower_char(c: char) -> char {
    if 'A' <= c <= 'Z' {
        ((c as u8 + 32) as u8) as char
    } else {
        c
    }
}

/// `s` with each ASCII upper-case letter in lower case.
pub open spec fn lower(s: Seq<char>) -> Seq<char> {
    Seq::new(s.len(), |i: int| lower_char(s[i]))
}

/// ASCII letters and digits.
pub open spec fn is_alnum(c: char) -> bool {
    ||| '0' <= c <= '9'
    ||| 'a' <= c <= 'z'
    ||| 'A' <= c <= 'Z'
}

/// ASCII digits.
pub open spec fn is_digit(c: char) -> bool {
    '0' <= c <= '9'
}

/// The number that a row of digits writes.
pub open spec fn number(s: Seq<char>) -> nat
    decreases s.len(),
{
    if s.len() == 0 {
        0
    } else {
        number(s.drop_last()) * 10 + (s.last() as nat - '0' as nat) as nat
    }
}

/// The digit character of a number below ten.
pub open spec fn digit_char(n: nat) -> char {
    ((n + 48) as u8) as char
}

/// The decimal notation of a number.
pub open spec fn decimal(n: nat) -> Seq<char>
    decreases n,
{
    if n < 10 {
        seq![digit_char(n)]
    } else {
        decimal(n / 10).push(digit_char(n % 10))
    }
}

/// The decimal notation of a number, with a minus sign where it is negative.
pub open spec fn signed_decimal(n: int) -> Seq<char> {
    if n < 0 {
        seq!['-'] + decimal((-n) as nat)
    } else {
        decimal(n as nat)
    }
}

/// The views of a row of strings.
pub open spec fn texts(v: Seq<String>) -> Seq<Seq<char>> {
    v.map_values(|s: String| s@)
}

/// The view of an optional string.
pub open spec fn text_opt(o: Option<String>) -> Option<Seq<char>> {
    match o {
        Some(s) => Some(s@),
        None => None,
    }
}

/// The view of an optional string slice.
pub open spec fn str_opt(o: Option<&str>) -> Option<Seq<char>> {
    match o {
        Some(s) => Some(s@),
        None => None,
    }
}

/// The texts of `list` in a row, `sep` between any two.
pub open spec fn joined(list: Seq<Seq<char>>, sep: Seq<char>) -> Seq<char>
    decreases list.len(),
{
    if list.len() == 0 {
        Seq::empty()
    } else if list.len() == 1 {
        list[0]
    } else {
        joined(list.drop_last(), sep) + sep + list.last()
    }
}

/// The order of texts by their characters, from the front.
pub open spec fn text_less(a: Seq<char>, b: Seq<char>) -> bool
    decreases a.len(),
{
    if b.len() == 0 {
        false
    } else if a.len() == 0 {
        true
    } else if a[0] != b[0] {
        a[0] < b[0]
    } else {
        text_less(a.drop_first(), b.drop_first())
    }
}

/// Whether each text stands before the next in the order of texts.
pub open spec fn strictly_sorted(list: Seq<Seq<char>>) -> bool {
    forall|i: int, j: int| 0 <= i < j < list.len() ==> text_less(#[trigger] list[i], #[trigger] list[j])
}

/// The position at which `x` belongs in a sorted list.
pub open spec fn place(list: Seq<Seq<char>>, x: Seq<char>) -> int
    decreases list.len(),
{
    if list.len() == 0 || !text_less(list[0], x) {
        0
    } else {
        1 + place(list.drop_first(), x)
    }
}

/// A sorted list with `x` in its place, unless it is there.
pub open spec fn with_text(list: Seq<Seq<char>>, x: Seq<char>) -> Seq<Seq<char>> {
    let k = place(list, x);
    if k < list.len() && list[k] == x {
        list
    } else {
        list.insert(k, x)
    }
}

/// The texts of `list` in increasing order, each once.
pub open spec fn sorted_set(list: Seq<Seq<char>>) -> Seq<Seq<char>>
    decreases list.len(),
{
    if list.len() == 0 {
        Seq::empty()
    } else {
        with_text(sorted_set(list.drop_last()), list.last())
    }
}

// ---- executable functions ------------------------------------------------

/// Whether `c` is white space.
pub fn white(c: char) -> (r: bool)
    ensures
        r == is_white(c),
{
    ('\u{9}' <= c && c <= '\u{d}') || c == ' ' || c == '\u{85}' || c == '\u{a0}' || c == '\u{1680}'
        || ('\u{2000}' <= c && c <= '\u{200a}') || c == '\u{2028}' || c == '\u{2029}' || c
        == '\u{202f}' || c == '\u{205f}' || c == '\u{3000}'
}

/// The part of `s` from character `from` up to character `to`.
pub fn slice(s: &str, from: usize, to: usize) -> (r: String)
    requires
        from <= to <= s@.len(),
    ensures
        r@ == s@.subrange(from as int, to as int),
{
    s.substring_char(from, to).to_owned()
}

/// `s` without the white space at either end.
pub fn trim(s: &str) -> (r: String)
    ensures
        r@ == trimmed(s@),
{
    let n: usize = s.unicode_len();
    let mut i: usize = 0;
    assert(s@.subrange(0, n as int) =~= s@);
    while i < n && white(s.get_char(i))
        invariant
            n == s@.len(),
            i <= n,
            trim_front(s@) == trim_front(s@.subrange(i as int, n as int)),
        decreases n - i,
    {
        assert(s@.subrange(i as int, n as int).drop_first() =~= s@.subrange(i + 1, n as int));
        i = i + 1;
    }
    let ghost front = trim_front(s@);
    assert(front =~= s@.subrange(i as int, n as int));
    let mut j: usize = n;
    while j > i && white(s.get_char(j - 1))
        invariant
            n == s@.len(),
            i <= j <= n,
            trim_back(front) == trim_back(s@.subrange(i as int, j as int)),
        decreases j,
    {
        assert(s@.subrange(i as int, j as int).drop_last() =~= s@.subrange(i as int, j - 1));
        j = j - 1;
    }
    assert(s@.subrange(i as int, j as int).len() > 0 ==> s@.subrange(i as int, j as int).last() == s@[j - 1]);
    slice(s, i, j)
}

/// `s` without its trailing `c`s.
pub fn trim_end_char(s: &str, c: char) -> (r: String)
    ensures
        r@ == strip_back(s@, c),
{
    let n: usize = s.unicode_len();
    let mut j: usize = n;
    assert(s@.subrange(0, n as int) =~= s@);
    while j > 0 && s.get_char(j - 1) == c
        invariant
            n == s@.len(),
            j <= n,
            strip_back(s@, c) == strip_back(s@.subrange(0, j as int), c),
        decreases j,
    {
        assert(s@.subrange(0, j as int).drop_last() =~= s@.subrange(0, j - 1));
        j = j - 1;
    }
    slice(s, 0, j)
}

/// Whether `p` stands at position `i` of `s`.
pub fn found_at(s: &str, p: &str, i: usize) -> (r: bool)
    ensures
        r == stands_at(s@, p@, i as int),
{
    let n: usize = s.unicode_len();
    let m: usize = p.unicode_len();
    if m > n || i > n - m {
        return false;
    }
    let mut k: usize = 0;
    while k < m
        invariant
            n == s@.len(),
            m == p@.len(),
            i + m <= n,
            k <= m,
            forall|x: int| 0 <= x < k ==> s@[i + x] == p@[x],
        decreases m - k,
    {
        if s.get_char(i + k) != p.get_char(k) {
            assert(s@.subrange(i as int, i + m)[k as int] != p@[k as int]);
            return false;
        }
        k = k + 1;
    }
    assert(s@.subrange(i as int, i + m) =~= p@);
    true
}

/// Whether `s` begins with `p`.
pub fn has_prefix(s: &str, p: &str) -> (r: bool)
    ensures
        r == begins(s@, p@),
{
    found_at(s, p, 0)
}

/// Whether two texts are the same.
pub fn same(a: &str, b: &str) -> (r: bool)
    ensures
        r == (a@ == b@),
{
    let r = a.unicode_len() == b.unicode_len() && has_prefix(a, b);
    assert(a@.len() == b@.len() ==> a@.subrange(0, b@.len() as int) =~= a@);
    r
}

/// The position at which `p` occurs first in `s`.
pub fn find(s: &str, p: &str) -> (r: Option<usize>)
    ensures
        match r {
            Some(i) => first_at(s@, p@, i as int),
            None => !occurs(s@, p@),
        },
{
    let n: usize = s.unicode_len();
    let m: usize = p.unicode_len();
    if m > n {
        return None;
    }
    let mut i: usize = 0;
    while i <= n - m
        invariant
            n == s@.len(),
            m == p@.len(),
            m <= n,
            i <= n - m + 1,
            forall|j: int| 0 <= j < i ==> !stands_at(s@, p@, j),
        decreases n - m + 1 - i,
    {
        if found_at(s, p, i) {
            return Some(i);
        }
        if i == n - m {
            return None;
        }
        i = i + 1;
    }
    None
}

/// Whether `p` occurs anywhere in `s`.
pub fn contains(s: &str, p: &str) -> (r: bool)
    ensures
        r == occurs(s@, p@),
{
    match find(s, p) {
        Some(_) => true,
        None => false,
    }
}

/// A position at which `p` occurs first is the only such position.
pub proof fn lemma_first_at_unique(s: Seq<char>, p: Seq<char>, i: int, j: int)
    requires
        first_at(s, p, i),
        first_at(s, p, j),
    ensures
        i == j,
{
}

/// `s` after the first occurrence of `p`; all of `s` where `p` does not occur.
pub fn rest_after(s: &str, p: &str) -> (r: String)
    ensures
        r@ == after_first(s@, p@),
{
    match find(s, p) {
        Some(i) => {
            let n: usize = s.unicode_len();
            let m: usize = p.unicode_len();
            proof {
                let k = choose|k: int| first_at(s@, p@, k);
                lemma_first_at_unique(s@, p@, i as int, k);
            }
            slice(s, i + m, n)
        },
        None => s.to_owned(),
    }
}

/// Whether the character `c` occurs in `s`.
pub fn has_char(s: &str, c: char) -> (r: bool)
    ensures
        r == s@.contains(c),
{
    let n: usize = s.unicode_len();
    let mut i: usize = 0;
    while i < n
        invariant
            n == s@.len(),
            i <= n,
            forall|j: int| 0 <= j < i ==> s@[j] != c,
        decreases n - i,
    {
        if s.get_char(i) == c {
            assert(s@[i as int] == c);
            return true;
        }
        i = i + 1;
    }
    false
}

/// Where `c` stands last in `s`.
pub fn find_last(s: &str, c: char) -> (r: Option<usize>)
    ensures
        match r {
            Some(i) => i < s@.len() && s@[i as int] == c && forall|j: int|
                i < j < s@.len() ==> s@[j] != c,
            None => !s@.contains(c),
        },
{
    let n: usize = s.unicode_len();
    let mut i: usize = n;
    while i > 0
        invariant
            n == s@.len(),
            i <= n,
            forall|j: int| i <= j < n ==> s@[j] != c,
        decreases i,
    {
        if s.get_char(i - 1) == c {
            return Some(i - 1);
        }
        i = i - 1;
    }
    None
}

/// `s` with each ASCII upper-case letter in lower case.
pub fn lowercase(s: &str) -> (r: String)
    ensures
        r@ == lower(s@),
{
    let n: usize = s.unicode_len();
    let mut out = String::new();
    let mut i: usize = 0;
    while i < n
        invariant
            n == s@.len(),
            i <= n,
            out@ == lower(s@.subrange(0, i as int)),
        decreases n - i,
    {
        let c = s.get_char(i);
        let d = if 'A' <= c && c <= 'Z' {
            (c as u8 + 32) as char
        } else {
            c
        };
        out.push(d);
        i = i + 1;
        assert(out@ =~= lower(s@.subrange(0, i as int)));
    }
    assert(s@.subrange(0, n as int) =~= s@);
    out
}

/// The decimal notation of `n`.
pub fn decimal_text(n: u64) -> (r: String)
    ensures
        r@ == decimal(n as nat),
    decreases n,
{
    let d = ((n % 10) as u8 + 48) as char;
    let mut out = if n < 10 {
        String::new()
    } else {
        decimal_text(n / 10)
    };
    out.push(d);
    assert(n < 10 ==> out@ =~= seq![digit_char(n as nat)]);
    out
}

/// The decimal notation of `n`, with a minus sign where it is negative.
pub fn signed_text(n: i64) -> (r: String)
    ensures
        r@ == signed_decimal(n as int),
{
    if n < 0 {
        let mut out = String::new();
        out.push('-');
        let m: u64 = (-(n + 1)) as u64 + 1;
        out.append(decimal_text(m).as_str());
        assert(out@ =~= signed_decimal(n as int));
        out
    } else {
        decimal_text(n as u64)
    }
}

/// The texts of `list` in a row, `sep` between any two.
pub fn join(list: &Vec<String>, sep: &str) -> (r: String)
    ensures
        r@ == joined(texts(list@), sep@),
{
    let mut out = String::new();
    let mut i: usize = 0;
    let ghost all = texts(list@);
    assert(all.take(0) =~= Seq::empty());
    while i < list.len()
        invariant
            i <= list@.len(),
            all == texts(list@),
            out@ == joined(all.take(i as int), sep@),
        decreases list@.len() - i,
    {
        if i > 0 {
            out.append(sep);
        }
        out.append(list[i].as_str());
        assert(all.take(i + 1).drop_last() =~= all.take(i as int));
        i = i + 1;
        assert(out@ =~= joined(all.take(i as int), sep@));
    }
    assert(all.take(i as int) =~= all);
    out
}

/// The same texts again.
pub fn copy_texts(list: &Vec<String>) -> (r: Vec<String>)
    ensures
        texts(r@) == texts(list@),
{
    let mut out: Vec<String> = Vec::new();
    let mut i: usize = 0;
    let ghost all = texts(list@);
    while i < list.len()
        invariant
            i <= list@.len(),
            all == texts(list@),
            texts(out@) == all.take(i as int),
        decreases list@.len() - i,
    {
        let ghost before = out@;
        out.push(list[i].clone());
        assert(texts(out@) =~= texts(before).push(all[i as int]));
        assert(all.take(i + 1) =~= all.take(i as int).push(all[i as int]));
        i = i + 1;
    }
    assert(all.take(i as int) =~= all);
    out
}

/// Two texts in a row.
pub fn cat2(a: &str, b: &str) -> (r: String)
    ensures
        r@ == a@ + b@,
{
    a.to_owned().concat(b)
}

/// Three texts in a row.
pub fn cat3(a: &str, b: &str, c: &str) -> (r: String)
    ensures
        r@ == a@ + b@ + c@,
{
    a.to_owned().concat(b).concat(c)
}

/// Four texts in a row.
pub fn cat4(a: &str, b: &str, c: &str, d: &str) -> (r: String)
    ensures
        r@ == a@ + b@ + c@ + d@,
{
    cat3(a, b, c).concat(d)
}

/// Five texts in a row.
pub fn cat5(a: &str, b: &str, c: &str, d: &str, e: &str) -> (r: String)
    ensures
        r@ == a@ + b@ + c@ + d@ + e@,
{
    cat4(a, b, c, d).concat(e)
}

/// Six texts in a row.
pub fn cat6(a: &str, b: &str, c: &str, d: &str, e: &str, f: &str) -> (r: String)
    ensures
        r@ == a@ + b@ + c@ + d@ + e@ + f@,
{
    cat5(a, b, c, d, e).concat(f)
}

/// Whether `a` stands before `b` in the order of texts.
pub fn less(a: &str, b: &str) -> (r: bool)
    ensures
        r == text_less(a@, b@),
{
    let n: usize = a.unicode_len();
    let m: usize = b.unicode_len();
    let mut i: usize = 0;
    assert(a@.subrange(0, n as int) =~= a@);
    assert(b@.subrange(0, m as int) =~= b@);
    while i < n && i < m
        invariant
            n == a@.len(),
            m == b@.len(),
            i <= n,
            i <= m,
            text_less(a@, b@) == text_less(
                a@.subrange(i as int, n as int),
                b@.subrange(i as int, m as int),
            ),
        decreases n - i,
    {
        let c = a.get_char(i);
        let d = b.get_char(i);
        if c != d {
            return c < d;
        }
        assert(a@.subrange(i as int, n as int).drop_first() =~= a@.subrange(i + 1, n as int));
        assert(b@.subrange(i as int, m as int).drop_first() =~= b@.subrange(i + 1, m as int));
        i = i + 1;
    }
    i < m
}

// ---- order ---------------------------------------------------------------

/// No text stands before itself.
pub proof fn lemma_less_irreflexive(a: Seq<char>)
    ensures
        !text_less(a, a),
    decreases a.len(),
{
    if a.len() > 0 {
        lemma_less_irreflexive(a.drop_first());
    }
}

/// The order of texts is transitive.
pub proof fn lemma_less_transitive(a: Seq<char>, b: Seq<char>, c: Seq<char>)
    requires
        text_less(a, b),
        text_less(b, c),
    ensures
        text_less(a, c),
    decreases a.len(),
{
    if a.len() > 0 && b.len() > 0 && c.len() > 0 && a[0] == b[0] && b[0] == c[0] {
        lemma_less_transitive(a.drop_first(), b.drop_first(), c.drop_first());
    }
}

/// Of two different texts one stands before the other.
pub proof fn lemma_less_total(a: Seq<char>, b: Seq<char>)
    ensures
        text_less(a, b) || text_less(b, a) || a == b,
    decreases a.len(),
{
    if a.len() > 0 && b.len() > 0 && a[0] == b[0] {
        lemma_less_total(a.drop_first(), b.drop_first());
        if a.drop_first() == b.drop_first() {
            assert(a =~= seq![a[0]] + a.drop_first());
            assert(b =~= seq![b[0]] + b.drop_first());
        }
    } else if a.len() == 0 && b.len() == 0 {
        assert(a =~= b);
    }
}

/// The position at which `name` belongs in a strictly sorted list: every text
/// before it is smaller, none after it is.
fn insertion_point(list: &Vec<String>, name: &str) -> (r: usize)
    requires
        strictly_sorted(texts(list@)),
    ensures
        r <= list@.len(),
        forall|i: int| 0 <= i < r ==> text_less(#[trigger] list@[i]@, name@),
        r < list@.len() ==> !text_less(list@[r as int]@, name@),
{
    let mut i: usize = 0;
    while i < list.len() && less(list[i].as_str(), name)
        invariant
            i <= list@.len(),
            forall|j: int| 0 <= j < i ==> text_less(#[trigger] list@[j]@, name@),
        decreases list@.len() - i,
    {
        i = i + 1;
    }
    i
}

/// The texts of `list` in increasing order, each once.
pub fn sort_dedup(list: &Vec<String>) -> (r: Vec<String>)
    ensures
        texts(r@) == sorted_set(texts(list@)),
{
    let mut out: Vec<String> = Vec::new();
    let mut k: usize = 0;
    while k < list.len()
        invariant
            k <= list@.len(),
            strictly_sorted(texts(out@)),
            forall|t: Seq<char>|
                texts(out@).contains(t) <==> texts(list@).take(k as int).contains(t),
        decreases list@.len() - k,
    {
        let name = list[k].as_str();
        let i: usize = insertion_point(&out, name);
        let present = i < out.len() && same(out[i].as_str(), name);
        let ghost before = out@;
        let ghost seen = texts(list@).take(k as int);
        let ghost next = texts(list@).take(k + 1);
        assert(next =~= seen.push(name@));
        if present {
            assert(texts(before)[i as int] == name@);
            assert forall|t: Seq<char>| texts(out@).contains(t) <==> next.contains(t) by {
                lemma_push_contains(seen, name@, t);
            }
        } else {
            out.insert(i, name.to_owned());
            assert(texts(out@) =~= texts(before).insert(i as int, name@));
            proof {
                lemma_insert_sorted(texts(before), i as int, name@);
            }
            assert forall|t: Seq<char>| texts(out@).contains(t) <==> next.contains(t) by {
                lemma_push_contains(seen, name@, t);
                lemma_insert_contains(texts(before), i as int, name@, t);
            }
        }
        k = k + 1;
    }
    assert(texts(list@).take(k as int) =~= texts(list@));
    proof {
        lemma_sorted_set(texts(list@));
        lemma_strictly_sorted_unique(texts(out@), sorted_set(texts(list@)));
    }
    out
}

proof fn lemma_place(list: Seq<Seq<char>>, x: Seq<char>)
    ensures
        0 <= place(list, x) <= list.len(),
        forall|i: int| 0 <= i < place(list, x) ==> text_less(#[trigger] list[i], x),
        place(list, x) < list.len() ==> !text_less(list[place(list, x)], x),
    decreases list.len(),
{
    if list.len() > 0 && text_less(list[0], x) {
        let rest = list.drop_first();
        lemma_place(rest, x);
        assert forall|i: int| 0 <= i < place(list, x) implies text_less(#[trigger] list[i], x) by {
            if i > 0 {
                assert(rest[i - 1] == list[i]);
            }
        }
        if place(list, x) < list.len() {
            assert(rest[place(rest, x)] == list[place(list, x)]);
        }
    }
}

/// The list of a row's texts is in increasing order, and holds those texts and no
/// others.
pub proof fn lemma_sorted_set(list: Seq<Seq<char>>)
    ensures
        strictly_sorted(sorted_set(list)),
        forall|t: Seq<char>| sorted_set(list).contains(t) <==> list.contains(t),
    decreases list.len(),
{
    if list.len() > 0 {
        let front = list.drop_last();
        let x = list.last();
        lemma_sorted_set(front);
        let s = sorted_set(front);
        let k = place(s, x);
        lemma_place(s, x);
        if !(k < s.len() && s[k] == x) {
            lemma_insert_sorted(s, k, x);
        }
        assert(list =~= front.push(x));
        assert forall|t: Seq<char>| sorted_set(list).contains(t) <==> list.contains(t) by {
            lemma_push_contains(front, x, t);
            lemma_insert_contains(s, k, x, t);
        }
    }
}

proof fn lemma_push_contains(s: Seq<Seq<char>>, x: Seq<char>, t: Seq<char>)
    ensures
        s.push(x).contains(t) <==> s.contains(t) || t == x,
{
    if s.contains(t) {
        let i = choose|i: int| 0 <= i < s.len() && s[i] == t;
        assert(s.push(x)[i] == t);
    }
    assert(s.push(x)[s.len() as int] == x);
    if s.push(x).contains(t) && t != x {
        let i = choose|i: int| 0 <= i < s.push(x).len() && s.push(x)[i] == t;
        assert(s[i] == t);
    }
}

proof fn lemma_insert_contains(s: Seq<Seq<char>>, k: int, x: Seq<char>, t: Seq<char>)
    requires
        0 <= k <= s.len(),
    ensures
        s.insert(k, x).contains(t) <==> s.contains(t) || t == x,
{
    let r = s.insert(k, x);
    assert(r[k] == x);
    if s.contains(t) {
        let i = choose|i: int| 0 <= i < s.len() && s[i] == t;
        if i < k {
            assert(r[i] == t);
        } else {
            assert(r[i + 1] == t);
        }
    }
    if r.contains(t) && t != x {
        let i = choose|i: int| 0 <= i < r.len() && r[i] == t;
        if i < k {
            assert(s[i] == t);
        } else {
            assert(s[i - 1] == t);
        }
    }
}

proof fn lemma_insert_sorted(s: Seq<Seq<char>>, k: int, x: Seq<char>)
    requires
        strictly_sorted(s),
        0 <= k <= s.len(),
        forall|i: int| 0 <= i < k ==> text_less(#[trigger] s[i], x),
        k < s.len() ==> !text_less(s[k], x) && s[k] != x,
    ensures
        strictly_sorted(s.insert(k, x)),
{
    let r = s.insert(k, x);
    assert forall|i: int, j: int| 0 <= i < j < r.len() implies text_less(
        #[trigger] r[i],
        #[trigger] r[j],
    ) by {
        if k < s.len() {
            lemma_less_total(x, s[k]);
        }
        if i == k {
            if j - 1 > k {
                lemma_less_transitive(x, s[k], s[j - 1]);
            }
        }
    }
}

/// Two strictly sorted lists with the same texts are the same list.
pub proof fn lemma_strictly_sorted_unique(a: Seq<Seq<char>>, b: Seq<Seq<char>>)
    requires
        strictly_sorted(a),
        strictly_sorted(b),
        forall|t: Seq<char>| a.contains(t) <==> b.contains(t),
    ensures
        a == b,
    decreases a.len(),
{
    if a.len() == 0 {
        if b.len() > 0 {
            assert(b.contains(b[0]));
        }
        assert(a =~= b);
    } else if b.len() == 0 {
        assert(a.contains(a[0]));
    } else {
        let x = a.last();
        let y = b.last();
        assert(a.contains(x) && b.contains(y));
        let i = choose|i: int| 0 <= i < b.len() && b[i] == x;
        let j = choose|j: int| 0 <= j < a.len() && a[j] == y;
        if x != y {
            assert(text_less(b[i], b[b.len() - 1]));
            assert(text_less(a[j], a[a.len() - 1]));
            lemma_less_transitive(x, y, x);
            lemma_less_irreflexive(x);
        }
        let a1 = a.drop_last();
        let b1 = b.drop_last();
        assert forall|t: Seq<char>| a1.contains(t) <==> b1.contains(t) by {
            lemma_drop_last_contains(a, t);
            lemma_drop_last_contains(b, t);
        }
        lemma_strictly_sorted_unique(a1, b1);
        assert(a =~= a1.push(x));
        assert(b =~= b1.push(y));
    }
}

proof fn lemma_drop_last_contains(a: Seq<Seq<char>>, t: Seq<char>)
    requires
        a.len() > 0,
        strictly_sorted(a),
    ensures
        a.drop_last().contains(t) <==> a.contains(t) && t != a.last(),
{
    if a.drop_last().contains(t) {
        let i = choose|i: int| 0 <= i < a.drop_last().len() && a.drop_last()[i] == t;
        assert(a[i] == t);
        assert(text_less(a[i], a[a.len() - 1]));
        lemma_less_irreflexive(t);
    }
    if a.contains(t) && t != a.last() {
        let i = choose|i: int| 0 <= i < a.len() && a[i] == t;
        assert(a.drop_last()[i] == t);
    }
}

// ---- numbers -------------------------------------------------------------

/// Why a text is no TCP port number.
#[derive(Clone, Copy, PartialEq, Eq, Structural, Debug)]
pub enum PortFault {
    /// There is nothing to read.
    Empty,
    /// A character is no digit.
    InvalidDigit,
    /// The number does not fit in sixteen bits.
    TooLarge,
}

/// The leading digits of `s`.
pub open spec fn digit_run(s: Seq<char>) -> Seq<char>
    decreases s.len(),
{
    if s.len() > 0 && is_digit(s[0]) {
        seq![s[0]] + digit_run(s.drop_first())
    } else {
        Seq::empty()
    }
}

/// `s` without one leading plus sign.
pub open spec fn without_plus(s: Seq<char>) -> Seq<char> {
    if s.len() > 0 && s[0] == '+' {
        s.drop_first()
    } else {
        s
    }
}

/// The port that `s` writes: an optional plus sign and then digits only, for a
/// number that fits in sixteen bits. A number that is too large is reported
/// before what follows its digits.
pub open spec fn port_value(s: Seq<char>) -> Result<u16, PortFault> {
    let body = without_plus(s);
    if s.len() == 0 {
        Err(PortFault::Empty)
    } else if number(digit_run(body)) > 0xffff {
        Err(PortFault::TooLarge)
    } else if body.len() == 0 || digit_run(body) != body {
        Err(PortFault::InvalidDigit)
    } else {
        Ok(number(body) as u16)
    }
}

/// The leading digits are the characters up to the first that is no digit.
proof fn lemma_digit_run(s: Seq<char>, k: int)
    requires
        0 <= k <= s.len(),
        forall|j: int| 0 <= j < k ==> is_digit(#[trigger] s[j]),
        k < s.len() ==> !is_digit(s[k]),
    ensures
        digit_run(s) == s.take(k),
    decreases s.len(),
{
    if k > 0 {
        let t = s.drop_first();
        assert forall|j: int| 0 <= j < k - 1 implies is_digit(#[trigger] t[j]) by {
            assert(t[j] == s[j + 1]);
        }
        lemma_digit_run(t, k - 1);
        assert(s.take(k) =~= seq![s[0]] + t.take(k - 1));
    } else {
        assert(s.take(0) =~= Seq::empty());
    }
}

/// More digits never write a smaller number.
proof fn lemma_number_grows(s: Seq<char>, k: int)
    requires
        0 <= k <= s.len(),
    ensures
        number(s.take(k)) <= number(s),
    decreases s.len(),
{
    if k < s.len() {
        lemma_number_grows(s.drop_last(), k);
        assert(s.drop_last().take(k) =~= s.take(k));
    } else {
        assert(s.take(k) =~= s);
    }
}

/// Reads a TCP port number.
pub fn parse_port(s: &str) -> (r: Result<u16, PortFault>)
    ensures
        r == port_value(s@),
{
    let n: usize = s.unicode_len();
    if n == 0 {
        return Err(PortFault::Empty);
    }
    let start: usize = if s.get_char(0) == '+' {
        1
    } else {
        0
    };
    let ghost body = without_plus(s@);
    assert(body =~= s@.subrange(start as int, n as int));
    let mut i: usize = start;
    let mut value: u32 = 0;
    assert(body.take(0) =~= Seq::empty());
    while i < n
        invariant
            n == s@.len(),
            start <= i <= n,
            body == s@.subrange(start as int, n as int),
            body == without_plus(s@),
            n > 0,
            value <= 0xffff,
            value == number(body.take(i - start)),
            forall|j: int| 0 <= j < i - start ==> is_digit(#[trigger] body[j]),
        decreases n - i,
    {
        let c = s.get_char(i);
        assert(c == body[i - start]);
        if !('0' <= c && c <= '9') {
            proof {
                lemma_digit_run(body, i - start);
                assert(body.take(i - start).len() != body.len());
            }
            return Err(PortFault::InvalidDigit);
        }
        value = value * 10 + (c as u32 - '0' as u32);
        i = i + 1;
        assert(body.take(i - start).drop_last() =~= body.take(i - start - 1));
        assert(body.take(i - start).last() == c);
        if value > 0xffff {
            proof {
                lemma_run_reaches(body, i - start);
            }
            return Err(PortFault::TooLarge);
        }
    }
    proof {
        lemma_digit_run(body, body.len() as int);
        assert(body.take(body.len() as int) =~= body);
    }
    if start == n {
        return Err(PortFault::InvalidDigit);
    }
    Ok(value as u16)
}

/// Where the first `k` characters are digits, the leading digits write a number
/// at least as large as theirs.
proof fn lemma_run_reaches(s: Seq<char>, k: int)
    requires
        0 <= k <= s.len(),
        forall|j: int| 0 <= j < k ==> is_digit(#[trigger] s[j]),
    ensures
        number(s.take(k)) <= number(digit_run(s)),
    decreases s.len() - k,
{
    if k == s.len() || !is_digit(s[k]) {
        lemma_digit_run(s, k);
    } else {
        lemma_run_reaches(s, k + 1);
        lemma_number_grows(s.take(k + 1), k);
        assert(s.take(k + 1).take(k) =~= s.take(k));
    }
}

} // verus!
