//! Standard base64: the notation of bytes in which TSIG secrets are written.

use vstd::prelude::*;

verus! {

/// The character of the standard base64 alphabet for a six-bit number.
pub open spec fn base64_char(n: int) -> char {
    if n < 26 {
        (('A' as int + n) as u8) as char
    } else if n < 52 {
        (('a' as int + n - 26) as u8) as char
    } else if n < 62 {
        (('0' as int + n - 52) as u8) as char
    } else if n == 62 {
        '+'
    } else {
        '/'
    }
}

/// The standard base64 notation of `b`, padded to a multiple of four characters.
pub open spec fn base64_text(b: Seq<u8>) -> Seq<char>
    decreases b.len(),
{
    if b.len() == 0 {
        Seq::empty()
    } else if b.len() == 1 {
        seq![base64_char((b[0] / 4) as int), base64_char(b[0] % 4 * 16), '=', '=']
    } else if b.len() == 2 {
        seq![
            base64_char((b[0] / 4) as int),
            base64_char(b[0] % 4 * 16 + b[1] / 16),
            base64_char(b[1] % 16 * 4),
            '=',
        ]
    } else {
        seq![
            base64_char((b[0] / 4) as int),
            base64_char(b[0] % 4 * 16 + b[1] / 16),
            base64_char(b[1] % 16 * 4 + b[2] / 64),
            base64_char((b[2] % 64) as int),
        ] + base64_text(b.skip(3))
    }
}

/// Whether `text` is the notation of some bytes.
pub open spec fn is_base64(text: Seq<char>) -> bool {
    exists|b: Seq<u8>| #[trigger] base64_text(b) == text
}

/// The bytes whose notation `text` is.
pub open spec fn base64_bytes(text: Seq<char>) -> Seq<u8> {
    choose|b: Seq<u8>| #[trigger] base64_text(b) == text
}

/// Different six-bit numbers have different characters, and none is the padding.
proof fn lemma_base64_char(a: int, b: int)
    requires
        0 <= a < 64,
        0 <= b < 64,
        base64_char(a) == base64_char(b),
    ensures
        a == b,
{
}

proof fn lemma_base64_char_pad(a: int)
    requires
        0 <= a < 64,
    ensures
        base64_char(a) != '=',
{
}

/// Different bytes have different notations.
pub proof fn lemma_base64_injective(a: Seq<u8>, b: Seq<u8>)
    requires
        base64_text(a) == base64_text(b),
    ensures
        a == b,
    decreases a.len(),
{
    let s = base64_text(a);
    let t = base64_text(b);
    if a.len() == 0 || b.len() == 0 {
        assert(a.len() == 0 ==> s.len() == 0);
        assert(b.len() == 0 ==> t.len() == 0);
        assert(a.len() > 0 ==> s.len() > 0);
        assert(b.len() > 0 ==> t.len() > 0);
        assert(a =~= b);
    } else {
        let (a0, a1, a2, a3) = sextets(a);
        let (b0, b1, b2, b3) = sextets(b);
        lemma_sextets(a);
        lemma_sextets(b);
        assert(s[0] == base64_char(a0) && t[0] == base64_char(b0));
        assert(s[1] == base64_char(a1) && t[1] == base64_char(b1));
        lemma_base64_char(a0, b0);
        lemma_base64_char(a1, b1);
        lemma_base64_char_pad(a2);
        lemma_base64_char_pad(a3);
        lemma_base64_char_pad(b2);
        lemma_base64_char_pad(b3);
        assert(a.len() == 1 <==> s[2] == '=');
        assert(b.len() == 1 <==> t[2] == '=');
        assert(a.len() <= 2 <==> s[3] == '=');
        assert(b.len() <= 2 <==> t[3] == '=');
        if a.len() >= 2 {
            lemma_base64_char(a2, b2);
        }
        if a.len() >= 3 {
            lemma_base64_char(a3, b3);
            assert(base64_text(a.skip(3)) =~= s.skip(4));
            assert(base64_text(b.skip(3)) =~= t.skip(4));
            lemma_base64_injective(a.skip(3), b.skip(3));
            assert(a =~= seq![a[0], a[1], a[2]] + a.skip(3));
            assert(b =~= seq![b[0], b[1], b[2]] + b.skip(3));
        } else {
            assert(a =~= b);
        }
    }
}

/// The first four six-bit numbers of `b`; those that the notation leaves out are zero.
spec fn sextets(b: Seq<u8>) -> (int, int, int, int) {
    let x = b[0] as int;
    let y = if b.len() > 1 {
        b[1] as int
    } else {
        0
    };
    let z = if b.len() > 2 {
        b[2] as int
    } else {
        0
    };
    (x / 4, x % 4 * 16 + y / 16, y % 16 * 4 + z / 64, z % 64)
}

proof fn lemma_sextets(b: Seq<u8>)
    requires
        b.len() > 0,
    ensures
        ({
            let (p, q, r, s) = sextets(b);
            let t = base64_text(b);
            &&& 0 <= p < 64 && 0 <= q < 64 && 0 <= r < 64 && 0 <= s < 64
            &&& t.len() >= 4
            &&& t[0] == base64_char(p)
            &&& t[1] == base64_char(q)
            &&& b.len() == 1 ==> t[2] == '=' && t[3] == '='
            &&& b.len() == 2 ==> t[2] == base64_char(r) && t[3] == '='
            &&& b.len() >= 3 ==> t[2] == base64_char(r) && t[3] == base64_char(s)
            &&& b[0] == p * 4 + q / 16
            &&& b.len() >= 2 ==> b[1] == q % 16 * 16 + r / 4
            &&& b.len() >= 3 ==> b[2] == r % 4 * 64 + s
            &&& b.len() <= 2 ==> t.len() == 4
        }),
{
}

} // verus!
