//! Small text helpers the parsers and key builders share: locating
//! characters, reading decimal fields, rendering numbers.

use vstd::prelude::*;

use crate::codec::push_char;

verus! {

// ---------------------------------------------------------------------------
// Decimal fields
// ---------------------------------------------------------------------------

pub open spec fn is_dec_digit(c: char) -> bool {
    '0' <= c && c <= '9'
}

pub open spec fn dec_digit_val(c: char) -> nat {
    if is_dec_digit(c) {
        (c as nat - '0' as nat) as nat
    } else {
        10
    }
}

/// Value of a big-endian string of decimal digits.
pub open spec fn dec_val(s: Seq<char>) -> nat
    decreases s.len(),
{
    if s.len() == 0 {
        0
    } else {
        dec_val(s.drop_last()) * 10 + dec_digit_val(s.last())
    }
}

pub open spec fn all_dec_digits(s: Seq<char>) -> bool {
    forall|j: int| 0 <= j < s.len() ==> is_dec_digit(#[trigger] s[j])
}

/// How a timestamp field reads as a number: its value when it is a nonempty
/// digit string that fits, zero otherwise.
pub open spec fn parse_u16_or_zero(s: Seq<char>) -> u16 {
    if s.len() > 0 && all_dec_digits(s) && dec_val(s) <= 0xffff {
        dec_val(s) as u16
    } else {
        0u16
    }
}

pub proof fn lemma_dec_val_prefix(s: Seq<char>, j: int)
    requires
        0 <= j <= s.len(),
    ensures
        dec_val(s.subrange(0, j)) <= dec_val(s),
    decreases s.len(),
{
    if j == s.len() {
        assert(s.subrange(0, j) =~= s);
    } else {
        let p = s.drop_last();
        assert(s.subrange(0, j) =~= p.subrange(0, j));
        lemma_dec_val_prefix(p, j);
    }
}

// ---------------------------------------------------------------------------
// Finding characters
// ---------------------------------------------------------------------------

/// Index of the first occurrence of `c` in `s`.
pub open spec fn find_idx(s: Seq<char>, c: char) -> Option<int>
    decreases s.len(),
{
    if s.len() == 0 {
        None
    } else if s[0] == c {
        Some(0int)
    } else {
        match find_idx(s.drop_first(), c) {
            Some(i) => Some(i + 1),
            None => None,
        }
    }
}

pub proof fn lemma_find_idx_none(s: Seq<char>, c: char)
    requires
        forall|j: int| 0 <= j < s.len() ==> s[j] != c,
    ensures
        find_idx(s, c) is None,
    decreases s.len(),
{
    if s.len() > 0 {
        lemma_find_idx_none(s.drop_first(), c);
    }
}

pub proof fn lemma_find_idx_complete(s: Seq<char>, c: char, i: int)
    requires
        0 <= i < s.len(),
        s[i] == c,
        forall|j: int| 0 <= j < i ==> s[j] != c,
    ensures
        find_idx(s, c) == Some(i),
    decreases s.len(),
{
    if i > 0 {
        lemma_find_idx_complete(s.drop_first(), c, i - 1);
    }
}

/// First occurrence of `c` in `s` within `[from, to)`, by scanning.
pub fn find_char_in(s: &str, from: usize, to: usize, c: char) -> (r: Option<usize>)
    requires
        from <= to <= s@.len(),
    ensures
        match r {
            Some(i) => from <= i < to && s@[i as int] == c && (forall|j: int|
                from <= j < i ==> s@[j] != c),
            None => forall|j: int| from <= j < to ==> s@[j] != c,
        },
{
    let mut i = from;
    while i < to
        invariant
            from <= i <= to <= s@.len(),
            forall|j: int| from <= j < i ==> s@[j] != c,
        decreases to - i,
    {
        if s.get_char(i) == c {
            return Some(i);
        }
        i = i + 1;
    }
    None
}

/// Reads the digits of `s[from..to]` as a number, zero when the range is
/// empty, holds a non-digit, or overflows.
pub fn parse_digits(s: &str, from: usize, to: usize) -> (r: u16)
    requires
        from <= to <= s@.len(),
    ensures
        r == parse_u16_or_zero(s@.subrange(from as int, to as int)),
{
    let ghost sub = s@.subrange(from as int, to as int);
    if from == to {
        return 0;
    }
    let mut acc: u32 = 0;
    let mut i = from;
    while i < to
        invariant
            from <= i <= to <= s@.len(),
            sub == s@.subrange(from as int, to as int),
            forall|j: int| 0 <= j < i - from ==> is_dec_digit(#[trigger] sub[j]),
            acc == dec_val(sub.subrange(0, i - from)),
            acc <= 0xffff,
        decreases to - i,
    {
        let c = s.get_char(i);
        let u = c as u32;
        if u < 48 || u > 57 {
            proof {
                assert(sub[i - from] == s@[i as int]);
                assert(!is_dec_digit(sub[i - from]));
            }
            return 0;
        }
        proof {
            assert(sub.subrange(0, i + 1 - from).drop_last() =~= sub.subrange(0, i - from));
            assert(sub.subrange(0, i + 1 - from).last() == sub[i - from]);
            assert(sub[i - from] == s@[i as int]);
        }
        acc = acc * 10 + (u - 48);
        if acc > 0xffff {
            proof {
                lemma_dec_val_prefix(sub, i + 1 - from);
            }
            return 0;
        }
        i = i + 1;
    }
    proof {
        assert(sub.subrange(0, to - from) =~= sub);
    }
    acc as u16
}


// ---------------------------------------------------------------------------
// Rendering numbers
// ---------------------------------------------------------------------------

/// Decimal digit character for a value below 10.
pub open spec fn dec_digit_char(v: nat) -> char {
    if v == 0 { '0' } else if v == 1 { '1' } else if v == 2 { '2' } else if v == 3 { '3' }
    else if v == 4 { '4' } else if v == 5 { '5' } else if v == 6 { '6' } else if v == 7 { '7' }
    else if v == 8 { '8' } else { '9' }
}

/// Minimal decimal rendering of a number ("0" for zero).
pub open spec fn dec_rep(n: nat) -> Seq<char>
    decreases n,
{
    if n < 10 {
        seq![dec_digit_char(n)]
    } else {
        dec_rep(n / 10).push(dec_digit_char(n % 10))
    }
}

/// Decimal rendering padded with '0' to at least two digits.
pub open spec fn pad2(n: nat) -> Seq<char> {
    if n < 10 {
        seq!['0'].push(dec_digit_char(n))
    } else {
        dec_rep(n)
    }
}

fn dec_digit(v: u64) -> (c: char)
    requires
        v < 10,
    ensures
        c == dec_digit_char(v as nat),
{
    match v {
        0 => '0', 1 => '1', 2 => '2', 3 => '3', 4 => '4', 5 => '5', 6 => '6', 7 => '7',
        8 => '8', _ => '9',
    }
}

/// Decimal rendering of a number.
pub fn u64_to_string(v: u64) -> (r: String)
    ensures
        r@ == dec_rep(v as nat),
    decreases v,
{
    if v < 10 {
        let mut r = String::new();
        push_char(&mut r, dec_digit(v));
        proof {
            assert(r@ =~= seq![dec_digit_char(v as nat)]);
        }
        r
    } else {
        let mut r = u64_to_string(v / 10);
        push_char(&mut r, dec_digit(v % 10));
        r
    }
}

/// Decimal rendering padded to at least two digits.
pub fn u64_to_string_pad2(v: u64) -> (r: String)
    ensures
        r@ == pad2(v as nat),
{
    if v < 10 {
        let mut r = String::new();
        push_char(&mut r, '0');
        push_char(&mut r, dec_digit(v));
        proof {
            assert(r@ =~= seq!['0'].push(dec_digit_char(v as nat)));
        }
        r
    } else {
        u64_to_string(v)
    }
}

/// Two numbers render to the same decimal string only when they are equal.
pub proof fn lemma_dec_rep_injective(a: nat, b: nat)
    requires
        dec_rep(a) == dec_rep(b),
    ensures
        a == b,
    decreases a,
{
    lemma_dec_rep_len_pos(a);
    lemma_dec_rep_len_pos(b);
    if a < 10 && b < 10 {
        assert(dec_rep(a)[0] == dec_digit_char(a));
        assert(dec_rep(b)[0] == dec_digit_char(b));
    } else if a < 10 {
        assert(dec_rep(b).len() >= 2) by {
            lemma_dec_rep_len_pos(b / 10);
        }
    } else if b < 10 {
        assert(dec_rep(a).len() >= 2) by {
            lemma_dec_rep_len_pos(a / 10);
        }
    } else {
        assert(dec_rep(a).last() == dec_digit_char((a % 10) as nat));
        assert(dec_rep(b).last() == dec_digit_char((b % 10) as nat));
        assert(a % 10 == b % 10);
        assert(dec_rep(a).drop_last() == dec_rep(a / 10));
        assert(dec_rep(b).drop_last() == dec_rep(b / 10));
        lemma_dec_rep_injective(a / 10, b / 10);
    }
}

pub proof fn lemma_dec_rep_len_pos(n: nat)
    ensures
        dec_rep(n).len() >= 1,
    decreases n,
{
    if n >= 10 {
        lemma_dec_rep_len_pos(n / 10);
    }
}

/// Two small numbers render to the same padded string only when equal.
pub proof fn lemma_pad2_injective(a: nat, b: nat)
    requires
        a < 100,
        b < 100,
        pad2(a) == pad2(b),
    ensures
        a == b,
{
    if a >= 10 {
        assert(dec_rep(a) == dec_rep(a / 10).push(dec_digit_char((a % 10) as nat)));
        assert(dec_rep(a / 10) == seq![dec_digit_char((a / 10) as nat)]);
        assert(pad2(a)[0] == dec_digit_char((a / 10) as nat));
        assert(pad2(a)[1] == dec_digit_char((a % 10) as nat));
    } else {
        assert(pad2(a)[0] == '0');
        assert(pad2(a)[1] == dec_digit_char(a));
    }
    if b >= 10 {
        assert(dec_rep(b) == dec_rep(b / 10).push(dec_digit_char((b % 10) as nat)));
        assert(dec_rep(b / 10) == seq![dec_digit_char((b / 10) as nat)]);
        assert(pad2(b)[0] == dec_digit_char((b / 10) as nat));
        assert(pad2(b)[1] == dec_digit_char((b % 10) as nat));
    } else {
        assert(pad2(b)[0] == '0');
        assert(pad2(b)[1] == dec_digit_char(b));
    }
    assert(pad2(a)[0] == pad2(b)[0] && pad2(a)[1] == pad2(b)[1]);
    assert forall|u: nat, v: nat| u < 10 && v < 10 && dec_digit_char(u) == dec_digit_char(v)
        implies u == v by {}
    assert forall|v: nat| 1 <= v < 10 implies dec_digit_char(v) != '0' by {}
}

/// The padded form of a small number has exactly two characters.
pub proof fn lemma_pad2_len(n: nat)
    requires
        n < 100,
    ensures
        pad2(n).len() == 2,
{
    if n >= 10 {
        assert(dec_rep(n) == dec_rep(n / 10).push(dec_digit_char((n % 10) as nat)));
        assert(dec_rep(n / 10) == seq![dec_digit_char((n / 10) as nat)]);
    }
}


/// Whether `s` holds exactly `pat` starting at `at`, by scanning.
pub fn str_eq_at(s: &str, at: usize, pat: &str) -> (r: bool)
    requires
        at + pat@.len() <= s@.len(),
    ensures
        r == (s@.subrange(at as int, at + pat@.len()) == pat@),
{
    let n = pat.unicode_len();
    let total = s.unicode_len();
    let ghost sub = s@.subrange(at as int, at + pat@.len());
    let mut i: usize = 0;
    while i < n
        invariant
            i <= n,
            n == pat@.len(),
            total == s@.len(),
            at + n <= total,
            sub == s@.subrange(at as int, at + pat@.len()),
            forall|j: int| 0 <= j < i ==> sub[j] == pat@[j],
        decreases n - i,
    {
        if s.get_char(at + i) != pat.get_char(i) {
            proof {
                assert(sub[i as int] != pat@[i as int]);
            }
            return false;
        }
        i = i + 1;
    }
    proof {
        assert(sub =~= pat@);
    }
    true
}

} // verus!
