//! Small verified string utilities shared across the crate: building strings
//! one character at a time, rendering counters in decimal, and ASCII
//! case-insensitive comparison.

use vstd::prelude::*;

verus! {

/// Relies on `String::push` from std: appends exactly the given character.
pub assume_specification[ String::push ](s: &mut String, c: char)
    ensures
        final(s)@ == old(s)@.push(c),
;

/// Compares two string slices by contents.
pub fn str_equal(a: &str, b: &str) -> (r: bool)
    ensures
        r == (a@ == b@),
{
    a.to_owned() == b.to_owned()
}

/// The decimal digit character for a value below ten.
pub open spec fn digit_char(d: int) -> char {
    if d == 0 {
        '0'
    } else if d == 1 {
        '1'
    } else if d == 2 {
        '2'
    } else if d == 3 {
        '3'
    } else if d == 4 {
        '4'
    } else if d == 5 {
        '5'
    } else if d == 6 {
        '6'
    } else if d == 7 {
        '7'
    } else if d == 8 {
        '8'
    } else {
        '9'
    }
}

/// The decimal rendering of a number, most significant digit first.
pub open spec fn dec_str(n: int) -> Seq<char>
    decreases n,
{
    if n < 10 {
        seq![digit_char(n)]
    } else {
        dec_str(n / 10).push(digit_char(n % 10))
    }
}

fn digit_of(d: u32) -> (r: char)
    requires
        d < 10,
    ensures
        r == digit_char(d as int),
{
    if d == 0 {
        '0'
    } else if d == 1 {
        '1'
    } else if d == 2 {
        '2'
    } else if d == 3 {
        '3'
    } else if d == 4 {
        '4'
    } else if d == 5 {
        '5'
    } else if d == 6 {
        '6'
    } else if d == 7 {
        '7'
    } else if d == 8 {
        '8'
    } else {
        '9'
    }
}

/// Renders a counter in decimal.
pub fn format_u32(n: u32) -> (r: String)
    ensures
        r@ == dec_str(n as int),
    decreases n,
{
    if n < 10 {
        let mut s = String::new();
        s.push(digit_of(n));
        s
    } else {
        let mut s = format_u32(n / 10);
        s.push(digit_of(n % 10));
        s
    }
}

pub proof fn lemma_dec_str_len(n: int)
    requires
        n >= 0,
    ensures
        dec_str(n).len() >= 1,
        n >= 10 ==> dec_str(n).len() >= 2,
    decreases n,
{
    if n >= 10 {
        lemma_dec_str_len(n / 10);
    }
}

proof fn lemma_digit_char_injective(x: int, y: int)
    requires
        0 <= x < 10,
        0 <= y < 10,
        digit_char(x) == digit_char(y),
    ensures
        x == y,
{
}

/// Distinct numbers render to distinct decimal strings.
pub proof fn lemma_dec_str_injective(a: int, b: int)
    requires
        a >= 0,
        b >= 0,
        dec_str(a) == dec_str(b),
    ensures
        a == b,
    decreases a,
{
    if a < 10 && b < 10 {
        assert(dec_str(a)[0] == digit_char(a));
        assert(dec_str(b)[0] == digit_char(b));
        lemma_digit_char_injective(a, b);
    } else if a < 10 {
        lemma_dec_str_len(b / 10);
        assert(dec_str(b).len() >= 2);
        assert(dec_str(a).len() == 1);
    } else if b < 10 {
        lemma_dec_str_len(a / 10);
        assert(dec_str(a).len() >= 2);
        assert(dec_str(b).len() == 1);
    } else {
        assert(dec_str(a).last() == digit_char(a % 10));
        assert(dec_str(b).last() == digit_char(b % 10));
        lemma_digit_char_injective(a % 10, b % 10);
        assert(dec_str(a).drop_last() =~= dec_str(a / 10));
        assert(dec_str(b).drop_last() =~= dec_str(b / 10));
        assert(a / 10 < a) by {
            vstd::arithmetic::div_mod::lemma_div_is_strictly_smaller(a, 10);
        }
        lemma_dec_str_injective(a / 10, b / 10);
        vstd::arithmetic::div_mod::lemma_fundamental_div_mod(a, 10);
        vstd::arithmetic::div_mod::lemma_fundamental_div_mod(b, 10);
    }
}

/// Maps an ASCII upper-case letter to its lower-case form and leaves every
/// other character alone.
pub open spec fn lower_char(c: char) -> char {
    if 'A' <= c && c <= 'Z' {
        ((c as int) + 32) as char
    } else {
        c
    }
}

/// Whether two strings are equal after ASCII-lowercasing both.
pub open spec fn eq_ignore_case_spec(a: Seq<char>, b: Seq<char>) -> bool {
    a.map_values(|c: char| lower_char(c)) == b.map_values(|c: char| lower_char(c))
}

/// Lowers one ASCII character.
fn lower_char_exec(c: char) -> (r: char)
    ensures
        r == lower_char(c),
{
    let v = c as u32;
    if 65 <= v && v <= 90 {
        ((v + 32) as u8) as char
    } else {
        c
    }
}

/// ASCII-lowercases a string.
pub fn lower_ascii(s: &str) -> (r: String)
    ensures
        r@ == s@.map_values(|c: char| lower_char(c)),
{
    let len = s.unicode_len();
    let mut out = String::new();
    let mut i: usize = 0;
    while i < len
        invariant
            i <= len,
            len == s@.len(),
            out@ =~= s@.subrange(0, i as int).map_values(|c: char| lower_char(c)),
        decreases len - i,
    {
        out.push(lower_char_exec(s.get_char(i)));
        proof {
            assert(s@.subrange(0, i + 1).map_values(|c: char| lower_char(c)) =~= s@.subrange(
                0,
                i as int,
            ).map_values(|c: char| lower_char(c)).push(lower_char(s@[i as int])));
        }
        i += 1;
    }
    proof {
        assert(s@.subrange(0, len as int) =~= s@);
    }
    out
}

/// Strict lexicographic order on strings, by character code point: the order
/// a textual key column sorts in.
pub open spec fn str_lt_spec(a: Seq<char>, b: Seq<char>) -> bool
    decreases a.len(),
{
    if b.len() == 0 {
        false
    } else if a.len() == 0 {
        true
    } else if a[0] != b[0] {
        (a[0] as int) < (b[0] as int)
    } else {
        str_lt_spec(a.drop_first(), b.drop_first())
    }
}

proof fn lemma_str_lt_skip(a: Seq<char>, b: Seq<char>, i: int)
    requires
        0 <= i <= a.len(),
        0 <= i <= b.len(),
        forall|j: int| 0 <= j < i ==> a[j] == b[j],
    ensures
        str_lt_spec(a, b) == str_lt_spec(a.skip(i), b.skip(i)),
    decreases i,
{
    if i > 0 {
        assert(a[0] == b[0]);
        let ad = a.drop_first();
        let bd = b.drop_first();
        assert(forall|j: int| 0 <= j < i - 1 ==> ad[j] == bd[j]);
        lemma_str_lt_skip(ad, bd, i - 1);
        assert(ad.skip(i - 1) =~= a.skip(i));
        assert(bd.skip(i - 1) =~= b.skip(i));
    } else {
        assert(a.skip(0) =~= a);
        assert(b.skip(0) =~= b);
    }
}

/// Compares two strings in strict lexicographic order.
pub fn str_lt(a: &str, b: &str) -> (r: bool)
    ensures
        r == str_lt_spec(a@, b@),
{
    let alen = a.unicode_len();
    let blen = b.unicode_len();
    let shorter = if alen < blen {
        alen
    } else {
        blen
    };
    let mut i: usize = 0;
    while i < shorter
        invariant
            i <= shorter,
            alen == a@.len(),
            blen == b@.len(),
            shorter == if alen < blen {
                alen
            } else {
                blen
            },
            forall|j: int| 0 <= j < i ==> a@[j] == b@[j],
        decreases shorter - i,
    {
        let ca = a.get_char(i);
        let cb = b.get_char(i);
        if ca != cb {
            proof {
                lemma_str_lt_skip(a@, b@, i as int);
                assert(a@.skip(i as int)[0] == ca);
                assert(b@.skip(i as int)[0] == cb);
                assert(a@.skip(i as int).len() > 0);
                assert(b@.skip(i as int).len() > 0);
            }
            return (ca as u32) < (cb as u32);
        }
        i += 1;
    }
    proof {
        lemma_str_lt_skip(a@, b@, shorter as int);
        if alen <= blen {
            assert(a@.skip(shorter as int).len() == 0);
        } else {
            assert(b@.skip(shorter as int).len() == 0);
            assert(a@.skip(shorter as int).len() > 0);
        }
    }
    alen < blen
}

fn char_lower_eq(a: char, b: char) -> (r: bool)
    ensures
        r == (lower_char(a) == lower_char(b)),
{
    let av = a as u32;
    let bv = b as u32;
    let al = if 65 <= av && av <= 90 {
        av + 32
    } else {
        av
    };
    let bl = if 65 <= bv && bv <= 90 {
        bv + 32
    } else {
        bv
    };
    al == bl
}

/// Compares two strings ignoring ASCII case.
pub fn eq_ignore_case(a: &str, b: &str) -> (r: bool)
    ensures
        r == eq_ignore_case_spec(a@, b@),
{
    let alen = a.unicode_len();
    let blen = b.unicode_len();
    if alen != blen {
        proof {
            let fa = a@.map_values(|c: char| lower_char(c));
            let fb = b@.map_values(|c: char| lower_char(c));
            assert(fa.len() != fb.len());
        }
        return false;
    }
    let mut i: usize = 0;
    while i < alen
        invariant
            i <= alen,
            alen == a@.len(),
            alen == b@.len(),
            forall|j: int| 0 <= j < i ==> lower_char(a@[j]) == lower_char(b@[j]),
        decreases alen - i,
    {
        let ca = a.get_char(i);
        let cb = b.get_char(i);
        if !char_lower_eq(ca, cb) {
            proof {
                let fa = a@.map_values(|c: char| lower_char(c));
                let fb = b@.map_values(|c: char| lower_char(c));
                assert(fa[i as int] != fb[i as int]);
            }
            return false;
        }
        i += 1;
    }
    proof {
        let fa = a@.map_values(|c: char| lower_char(c));
        let fb = b@.map_values(|c: char| lower_char(c));
        assert(fa =~= fb);
    }
    true
}

} // verus!
