//! Laws of the text primitives.

use vstd::prelude::*;

use crate::text::{
    after_first, begins, decimal, digit_char, digit_run, ends, first_at, is_digit, is_white,
    joined, lemma_first_at_unique, lower, number, occurs, port_value, signed_decimal, stands_at,
    strip_back, text_less, trim_back, trim_front, trimmed, without_plus, PortFault,
};

verus! {

/// A text begins with another exactly where it is that text and some rest, and ends with
/// another exactly where it is some front and that text.
pub proof fn lemma_begins_ends(s: Seq<char>, p: Seq<char>)
    ensures
        begins(s, p) <==> exists|rest: Seq<char>| s == p + rest,
        ends(s, p) <==> exists|front: Seq<char>| s == front + p,
{
    if begins(s, p) {
        assert(s =~= p + s.skip(p.len() as int));
    }
    if exists|rest: Seq<char>| s == p + rest {
        let rest = choose|rest: Seq<char>| s == p + rest;
        assert(s.subrange(0, p.len() as int) =~= p);
    }
    if ends(s, p) {
        assert(s =~= s.take(s.len() - p.len()) + p);
    }
    if exists|front: Seq<char>| s == front + p {
        let front = choose|front: Seq<char>| s == front + p;
        assert(s.subrange(s.len() - p.len(), s.len() as int) =~= p);
    }
}

/// A text occurs in another exactly where that is some front, the text and some rest.
pub proof fn lemma_occurs(s: Seq<char>, p: Seq<char>)
    ensures
        occurs(s, p) <==> exists|front: Seq<char>, rest: Seq<char>| s == front + p + rest,
{
    if occurs(s, p) {
        let i = choose|i: int| stands_at(s, p, i);
        assert(s =~= s.take(i) + p + s.skip(i + p.len()));
    }
    if exists|front: Seq<char>, rest: Seq<char>| s == front + p + rest {
        let (front, rest) = choose|front: Seq<char>, rest: Seq<char>| s == front + p + rest;
        lemma_occurs_in(front, p, rest);
    }
}

/// A text occurs between any front and any rest.
pub proof fn lemma_occurs_in(front: Seq<char>, p: Seq<char>, rest: Seq<char>)
    ensures
        occurs(front + p + rest, p),
        stands_at(front + p + rest, p, front.len() as int),
{
    let s = front + p + rest;
    assert(s.subrange(front.len() as int, front.len() as int + p.len()) =~= p);
    assert(stands_at(s, p, front.len() as int));
}

proof fn lemma_first(s: Seq<char>, p: Seq<char>, i: int)
    requires
        stands_at(s, p, i),
    ensures
        exists|k: int| first_at(s, p, k) && k <= i,
    decreases i,
{
    if exists|j: int| 0 <= j < i && stands_at(s, p, j) {
        let j = choose|j: int| 0 <= j < i && stands_at(s, p, j);
        lemma_first(s, p, j);
    } else {
        assert(first_at(s, p, i));
    }
}

/// What follows the first occurrence of a text is at least as long as what follows any
/// occurrence, and does follow one.
pub proof fn lemma_after_first(s: Seq<char>, p: Seq<char>)
    ensures
        occurs(s, p) ==> exists|front: Seq<char>| s == front + p + after_first(s, p),
        forall|front: Seq<char>, rest: Seq<char>|
            s == #[trigger] (front + p + rest) ==> rest.len() <= after_first(s, p).len(),
        !occurs(s, p) ==> after_first(s, p) == s,
{
    if occurs(s, p) {
        let j = choose|j: int| stands_at(s, p, j);
        lemma_first(s, p, j);
        let i = choose|i: int| first_at(s, p, i);
        assert(s =~= s.take(i) + p + after_first(s, p));
        assert forall|front: Seq<char>, rest: Seq<char>|
            s == #[trigger] (front + p + rest) implies rest.len() <= after_first(s, p).len() by {
            lemma_occurs_in(front, p, rest);
            lemma_first(s, p, front.len() as int);
            let k = choose|k: int| first_at(s, p, k) && k <= front.len();
            lemma_first_at_unique(s, p, i, k);
        }
    } else {
        assert forall|front: Seq<char>, rest: Seq<char>|
            s == #[trigger] (front + p + rest) implies rest.len() <= after_first(s, p).len() by {
            lemma_occurs_in(front, p, rest);
        }
    }
}

proof fn lemma_trim_front(s: Seq<char>) -> (k: int)
    ensures
        0 <= k <= s.len(),
        trim_front(s) == s.skip(k),
        forall|i: int| 0 <= i < k ==> is_white(#[trigger] s[i]),
        k < s.len() ==> !is_white(s[k]),
    decreases s.len(),
{
    if s.len() > 0 && is_white(s[0]) {
        let rest = s.drop_first();
        let k = lemma_trim_front(rest);
        assert(rest.skip(k) =~= s.skip(k + 1));
        assert forall|i: int| 0 <= i < k + 1 implies is_white(#[trigger] s[i]) by {
            if i > 0 {
                assert(rest[i - 1] == s[i]);
            }
        }
        if k < rest.len() {
            assert(rest[k] == s[k + 1]);
        }
        k + 1
    } else {
        assert(s.skip(0) =~= s);
        0
    }
}

proof fn lemma_trim_back(s: Seq<char>) -> (k: int)
    ensures
        0 <= k <= s.len(),
        trim_back(s) == s.take(k),
        forall|i: int| k <= i < s.len() ==> is_white(#[trigger] s[i]),
        k > 0 ==> !is_white(s[k - 1]),
    decreases s.len(),
{
    if s.len() > 0 && is_white(s.last()) {
        let front = s.drop_last();
        let k = lemma_trim_back(front);
        assert(front.take(k) =~= s.take(k));
        assert forall|i: int| k <= i < s.len() implies is_white(#[trigger] s[i]) by {
            if i < front.len() {
                assert(front[i] == s[i]);
            }
        }
        k
    } else {
        assert(s.take(s.len() as int) =~= s);
        s.len() as int
    }
}

/// Trimming drops white space at either end and nothing else: between what is dropped
/// stands a text that neither begins nor ends with white space.
pub proof fn lemma_trimmed(s: Seq<char>)
    ensures
        exists|a: Seq<char>, b: Seq<char>|
            s == #[trigger] (a + trimmed(s) + b) && (forall|i: int|
                0 <= i < a.len() ==> is_white(#[trigger] a[i])) && (forall|i: int|
                0 <= i < b.len() ==> is_white(#[trigger] b[i])),
        trimmed(s).len() > 0 ==> !is_white(trimmed(s)[0]) && !is_white(trimmed(s).last()),
{
    let k = lemma_trim_front(s);
    let m = s.skip(k);
    let n = lemma_trim_back(m);
    let a = s.take(k);
    let b = m.skip(n);
    assert(s =~= a + trimmed(s) + b);
    assert forall|i: int| 0 <= i < b.len() implies is_white(#[trigger] b[i]) by {
        assert(m[n + i] == b[i]);
    }
    if trimmed(s).len() > 0 {
        assert(trimmed(s)[0] == s[k]);
        assert(trimmed(s).last() == m[n - 1]);
    }
}

/// A text that neither begins nor ends with white space is left as it is, also where
/// white space stands around it.
pub proof fn lemma_trimmed_is(a: Seq<char>, t: Seq<char>, b: Seq<char>)
    requires
        forall|i: int| 0 <= i < a.len() ==> is_white(#[trigger] a[i]),
        forall|i: int| 0 <= i < b.len() ==> is_white(#[trigger] b[i]),
        t.len() > 0 ==> !is_white(t[0]) && !is_white(t.last()),
    ensures
        trimmed(a + t + b) == t,
{
    let s = a + t + b;
    let k = lemma_trim_front(s);
    let m = s.skip(k);
    let n = lemma_trim_back(m);
    if t.len() > 0 {
        assert(s[a.len() as int] == t[0]);
        assert(k <= a.len());
        if k < a.len() {
            assert(s[k] == a[k]);
        }
        assert(m =~= t + b);
        assert(m[t.len() - 1] == t.last());
        assert(n >= t.len());
        if n > t.len() {
            assert(m[n - 1] == b[n - 1 - t.len()]);
        }
        assert(m.take(n) =~= t);
    } else {
        assert(s =~= a + b);
        if k < s.len() {
            if k < a.len() {
                assert(s[k] == a[k]);
            } else {
                assert(s[k] == b[k - a.len()]);
            }
        }
        assert(trimmed(s) =~= t);
    }
}

/// Blanks, tabs and line ends are white space, and no visible ASCII character is.
pub proof fn lemma_white(c: char)
    ensures
        c == ' ' || c == '\t' || c == '\n' || c == '\r' ==> is_white(c),
        '!' <= c <= '~' ==> !is_white(c),
{
}

/// Stripping a character from the end drops that character and nothing else.
pub proof fn lemma_strip_back(s: Seq<char>, c: char) -> (k: int)
    ensures
        0 <= k <= s.len(),
        strip_back(s, c) == s.take(k),
        forall|i: int| k <= i < s.len() ==> #[trigger] s[i] == c,
        k > 0 ==> s[k - 1] != c,
    decreases s.len(),
{
    if s.len() > 0 && s.last() == c {
        let front = s.drop_last();
        let k = lemma_strip_back(front, c);
        assert(front.take(k) =~= s.take(k));
        assert forall|i: int| k <= i < s.len() implies #[trigger] s[i] == c by {
            if i < front.len() {
                assert(front[i] == s[i]);
            }
        }
        k
    } else {
        assert(s.take(s.len() as int) =~= s);
        s.len() as int
    }
}

/// Lower case moves the ASCII upper-case letters by 32 places and leaves every other
/// character.
pub proof fn lemma_lower(s: Seq<char>)
    ensures
        lower(s).len() == s.len(),
        forall|i: int|
            0 <= i < s.len() ==> (#[trigger] lower(s)[i]) as int == s[i] as int + (if 65
                <= s[i] as int <= 90 {
                32int
            } else {
                0int
            }),
{
}

/// Two characters are the same letter, up to the case of ASCII letters.
pub open spec fn same_letter(c: char, d: char) -> bool {
    ||| c == d
    ||| 'A' <= c <= 'Z' && d as int == c as int + 32
    ||| 'A' <= d <= 'Z' && c as int == d as int + 32
}

/// Two texts are the same in lower case exactly where they agree letter by letter.
pub proof fn lemma_lower_same(a: Seq<char>, b: Seq<char>)
    ensures
        lower(a) == lower(b) <==> a.len() == b.len() && forall|i: int|
            0 <= i < a.len() ==> same_letter(#[trigger] a[i], b[i]),
{
    lemma_lower(a);
    lemma_lower(b);
    if lower(a) == lower(b) {
        assert forall|i: int| 0 <= i < a.len() implies same_letter(#[trigger] a[i], b[i]) by {
            assert(lower(a)[i] == lower(b)[i]);
        }
    }
    if a.len() == b.len() && forall|i: int|
        0 <= i < a.len() ==> same_letter(#[trigger] a[i], b[i]) {
        assert forall|i: int| 0 <= i < a.len() implies lower(a)[i] == lower(b)[i] by {
            assert(same_letter(a[i], b[i]));
        }
        assert(lower(a) =~= lower(b));
    }
}

/// The decimal notation of a number is a row of digits that reads back as that number,
/// without a zero in front unless it is the only digit.
pub proof fn lemma_decimal(n: nat)
    ensures
        number(decimal(n)) == n,
        decimal(n).len() > 0,
        forall|i: int| 0 <= i < decimal(n).len() ==> '0' <= #[trigger] decimal(n)[i] <= '9',
        decimal(n).len() > 1 ==> decimal(n)[0] != '0',
    decreases n,
{
    if n >= 10 {
        let front = decimal(n / 10);
        lemma_decimal(n / 10);
        assert(decimal(n).drop_last() =~= front);
        assert(decimal(n).last() == digit_char(n % 10));
        assert forall|i: int| 0 <= i < decimal(n).len() implies '0' <= #[trigger] decimal(n)[i]
            <= '9' by {
            if i < front.len() {
                assert(front[i] == decimal(n)[i]);
            }
        }
        if front.len() == 1 {
            assert(n / 10 < 10) by {
                if n / 10 >= 10 {
                    lemma_decimal(n / 10 / 10);
                    assert(decimal(n / 10).len() == decimal(n / 10 / 10).len() + 1);
                }
            }
            assert(decimal(n / 10)[0] == digit_char(n / 10));
        }
    } else {
        let one = seq![digit_char(n)];
        assert(one.drop_last() =~= Seq::empty());
        assert(number(one.drop_last()) == 0);
    }
}

/// A number below zero has a minus sign in front of the number without its sign.
pub proof fn lemma_signed_decimal(n: int)
    ensures
        n >= 0 ==> number(signed_decimal(n)) == n && signed_decimal(n)[0] != '-',
        n < 0 ==> signed_decimal(n)[0] == '-' && number(signed_decimal(n).skip(1)) == -n,
{
    if n >= 0 {
        lemma_decimal(n as nat);
    } else {
        lemma_decimal((-n) as nat);
        assert(signed_decimal(n).skip(1) =~= decimal((-n) as nat));
    }
}

/// One text alone stands as it is, and two rows are joined with one separator between
/// them.
pub proof fn lemma_joined(a: Seq<Seq<char>>, b: Seq<Seq<char>>, sep: Seq<char>)
    ensures
        a.len() == 0 ==> joined(a, sep) == Seq::<char>::empty(),
        a.len() == 1 ==> joined(a, sep) == a[0],
        a.len() > 0 && b.len() > 0 ==> joined(a + b, sep) == joined(a, sep) + sep + joined(b, sep),
    decreases b.len(),
{
    if a.len() > 0 && b.len() == 1 {
        assert((a + b).drop_last() =~= a);
        assert((a + b).last() == b[0]);
    } else if a.len() > 0 && b.len() > 1 {
        lemma_joined(a, b.drop_last(), sep);
        assert((a + b).drop_last() =~= a + b.drop_last());
        assert((a + b).last() == b.last());
        let x = joined(a, sep);
        let y = joined(b.drop_last(), sep);
        assert(x + sep + y + sep + b.last() =~= x + sep + (y + sep + b.last()));
    }
}

/// Texts are in order by the first character in which they differ, and a text stands
/// before every longer one that begins with it.
pub proof fn lemma_order(front: Seq<char>, a: Seq<char>, b: Seq<char>)
    ensures
        a.len() > 0 ==> text_less(front, front + a),
        a.len() > 0 && b.len() > 0 && a[0] < b[0] ==> text_less(front + a, front + b),
    decreases front.len(),
{
    if front.len() > 0 {
        lemma_order(front.drop_first(), a, b);
        assert((front + a).drop_first() =~= front.drop_first() + a);
        assert((front + b).drop_first() =~= front.drop_first() + b);
    } else {
        assert(front + a =~= a);
        assert(front + b =~= b);
    }
}

proof fn lemma_digit_run(s: Seq<char>)
    ensures
        forall|i: int| 0 <= i < digit_run(s).len() ==> '0' <= #[trigger] digit_run(s)[i] <= '9',
        (forall|i: int| 0 <= i < s.len() ==> '0' <= #[trigger] s[i] <= '9') ==> digit_run(s) == s,
    decreases s.len(),
{
    if s.len() > 0 && is_digit(s[0]) {
        let tail = s.drop_first();
        lemma_digit_run(tail);
        if forall|i: int| 0 <= i < s.len() ==> '0' <= #[trigger] s[i] <= '9' {
            assert forall|i: int| 0 <= i < tail.len() implies '0' <= #[trigger] tail[i] <= '9' by {
                assert(tail[i] == s[i + 1]);
            }
            assert(seq![s[0]] + tail =~= s);
        }
        assert forall|i: int| 0 <= i < digit_run(s).len() implies '0' <= #[trigger] digit_run(
            s,
        )[i] <= '9' by {
            if i > 0 {
                assert(digit_run(s)[i] == digit_run(tail)[i - 1]);
            }
        }
    } else if s.len() == 0 {
        assert(s =~= digit_run(s));
    }
}

/// A row of digits, of which there is at least one.
pub open spec fn digits(s: Seq<char>) -> bool {
    s.len() > 0 && forall|i: int| 0 <= i < s.len() ==> '0' <= #[trigger] s[i] <= '9'
}

/// A port is read exactly where its text is a row of digits for a number of sixteen bits,
/// and it is that number; a plus sign in front changes nothing. So every such number is
/// read from its decimal notation.
pub proof fn lemma_port(s: Seq<char>, n: u16)
    ensures
        port_value(decimal(n as nat)) == Ok::<u16, PortFault>(n),
        !(s.len() > 0 && s[0] == '+') ==> (port_value(s) is Ok <==> digits(s) && number(s)
            <= 65535) && (port_value(s) is Ok ==> port_value(s)->Ok_0 == number(s)),
        port_value(seq!['+'] + s) is Ok <==> digits(s) && number(s) <= 65535,
        port_value(seq!['+'] + s) is Ok ==> port_value(seq!['+'] + s)->Ok_0 == number(s),
{
    let d = decimal(n as nat);
    lemma_decimal(n as nat);
    assert forall|i: int| 0 <= i < d.len() implies '0' <= #[trigger] d[i] <= '9' by {}
    lemma_digit_run(d);
    assert(without_plus(d) == d);
    lemma_digit_run(s);
    assert((seq!['+'] + s).drop_first() =~= s);
}

} // verus!
