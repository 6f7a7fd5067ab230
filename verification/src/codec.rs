//! Request codec: hexadecimal rendering, the RSA-style key wrapping and the
//! double AES-CBC envelope used for every authenticated request.

use vstd::prelude::*;

verus! {

// ---------------------------------------------------------------------------
// Hexadecimal strings
// ---------------------------------------------------------------------------

/// Value of one hexadecimal digit character, 16 for anything else.
pub open spec fn hex_digit_val(c: char) -> nat {
    if '0' <= c && c <= '9' {
        (c as nat - '0' as nat) as nat
    } else if 'a' <= c && c <= 'f' {
        (c as nat - 'a' as nat + 10) as nat
    } else if 'A' <= c && c <= 'F' {
        (c as nat - 'A' as nat + 10) as nat
    } else {
        16
    }
}

pub open spec fn is_hex_digit(c: char) -> bool {
    hex_digit_val(c) < 16
}

/// Natural number denoted by a big-endian string of hex digits.
pub open spec fn nat_of_hex(s: Seq<char>) -> nat
    decreases s.len(),
{
    if s.len() == 0 {
        0
    } else {
        nat_of_hex(s.drop_last()) * 16 + hex_digit_val(s.last())
    }
}

/// Lowercase hex digit character for a value below 16.
pub open spec fn hex_digit_char(v: nat) -> char {
    if v == 0 { '0' } else if v == 1 { '1' } else if v == 2 { '2' } else if v == 3 { '3' }
    else if v == 4 { '4' } else if v == 5 { '5' } else if v == 6 { '6' } else if v == 7 { '7' }
    else if v == 8 { '8' } else if v == 9 { '9' } else if v == 10 { 'a' } else if v == 11 { 'b' }
    else if v == 12 { 'c' } else if v == 13 { 'd' } else if v == 14 { 'e' } else { 'f' }
}

/// Minimal lowercase hex rendering of a natural number ("0" for zero).
pub open spec fn hex_rep(n: nat) -> Seq<char>
    decreases n,
{
    if n < 16 {
        seq![hex_digit_char(n)]
    } else {
        hex_rep(n / 16).push(hex_digit_char(n % 16))
    }
}

/// Lowercase hex rendering of a byte string, two digits per byte.
pub open spec fn hex_of_bytes(b: Seq<u8>) -> Seq<char>
    decreases b.len(),
{
    if b.len() == 0 {
        Seq::empty()
    } else {
        seq![
            hex_digit_char((b.first() / 16) as nat),
            hex_digit_char((b.first() % 16) as nat),
        ] + hex_of_bytes(b.drop_first())
    }
}

// ---------------------------------------------------------------------------
// Powers and bit lengths
// ---------------------------------------------------------------------------

pub open spec fn pow_nat(b: nat, e: nat) -> nat
    decreases e,
{
    if e == 0 {
        1
    } else {
        b * pow_nat(b, (e - 1) as nat)
    }
}

/// Number of binary digits of `n` (0 for 0).
pub open spec fn bit_len(n: nat) -> nat
    decreases n,
{
    if n == 0 {
        0
    } else {
        1 + bit_len(n / 2)
    }
}

// ---------------------------------------------------------------------------
// Trusted items
// ---------------------------------------------------------------------------

/// Relies on std's String::push: appends exactly the given character.
#[verifier::external_body]
pub(crate) fn push_char(s: &mut String, c: char)
    ensures
        final(s)@ == old(s)@.push(c),
{
    s.push(c);
}

/// Relies on num_bigint's BigUint: `from_str_radix(_, 16)` reads a hex
/// string, `modpow` computes `base ^ exp % modulus` (and panics on a zero
/// modulus), and `{:x}` renders the minimal lowercase hex form.
#[verifier::external_body]
fn big_modpow_hex(base: &str, exp: &str, modulus: &str) -> (r: String)
    requires
        base@.len() > 0,
        exp@.len() > 0,
        modulus@.len() > 0,
        forall|i: int| 0 <= i < base@.len() ==> is_hex_digit(#[trigger] base@[i]),
        forall|i: int| 0 <= i < exp@.len() ==> is_hex_digit(#[trigger] exp@[i]),
        forall|i: int| 0 <= i < modulus@.len() ==> is_hex_digit(#[trigger] modulus@[i]),
        nat_of_hex(modulus@) > 0,
    ensures
        r@ == hex_rep(pow_nat(nat_of_hex(base@), nat_of_hex(exp@)) % nat_of_hex(modulus@)),
{
    let m = <num_bigint::BigUint as num_traits::Num>::from_str_radix(base, 16).unwrap();
    let e = <num_bigint::BigUint as num_traits::Num>::from_str_radix(exp, 16).unwrap();
    let n = <num_bigint::BigUint as num_traits::Num>::from_str_radix(modulus, 16).unwrap();
    format!("{:x}", m.modpow(&e, &n))
}

// ---------------------------------------------------------------------------
// Verified hex encoding
// ---------------------------------------------------------------------------

/// Hex digit character of a value below 16.
pub(crate) fn hex_digit(v: u8) -> (c: char)
    requires
        v < 16,
    ensures
        c == hex_digit_char(v as nat),
{
    match v {
        0 => '0', 1 => '1', 2 => '2', 3 => '3', 4 => '4', 5 => '5', 6 => '6', 7 => '7',
        8 => '8', 9 => '9', 10 => 'a', 11 => 'b', 12 => 'c', 13 => 'd', 14 => 'e', _ => 'f',
    }
}

/// Lowercase hex encoding of a byte string.
pub fn hex_encode(b: &[u8]) -> (r: String)
    ensures
        r@ == hex_of_bytes(b@),
        r@.len() == 2 * b@.len(),
{
    let mut r = String::new();
    let mut i: usize = 0;
    proof {
        assert(b@.skip(0) == b@);
        lemma_hex_of_bytes_len(b@);
    }
    while i < b.len()
        invariant
            i <= b@.len(),
            hex_of_bytes(b@) == r@ + hex_of_bytes(b@.skip(i as int)),
            r@.len() == 2 * i,
        decreases b@.len() - i,
    {
        let byte = b[i];
        push_char(&mut r, hex_digit(byte / 16));
        push_char(&mut r, hex_digit(byte % 16));
        proof {
            assert(b@.skip(i as int).drop_first() =~= b@.skip(i + 1));
            assert(hex_of_bytes(b@.skip(i as int)) == seq![
                hex_digit_char((b@[i as int] / 16) as nat),
                hex_digit_char((b@[i as int] % 16) as nat),
            ] + hex_of_bytes(b@.skip(i + 1)));
            assert(hex_of_bytes(b@) =~= r@ + hex_of_bytes(b@.skip(i + 1)));
        }
        i = i + 1;
    }
    proof {
        assert(b@.skip(b@.len() as int) =~= Seq::<u8>::empty());
        assert(hex_of_bytes(b@) =~= r@);
    }
    r
}

proof fn lemma_hex_of_bytes_len(b: Seq<u8>)
    ensures
        hex_of_bytes(b).len() == 2 * b.len(),
    decreases b.len(),
{
    if b.len() > 0 {
        lemma_hex_of_bytes_len(b.drop_first());
    }
}

/// Every character of a byte string's hex encoding is a hex digit.
proof fn lemma_hex_of_bytes_digits(b: Seq<u8>)
    ensures
        forall|i: int| 0 <= i < hex_of_bytes(b).len() ==> is_hex_digit(#[trigger] hex_of_bytes(b)[i]),
    decreases b.len(),
{
    if b.len() > 0 {
        lemma_hex_of_bytes_digits(b.drop_first());
        let tail = hex_of_bytes(b.drop_first());
        assert forall|i: int| 0 <= i < hex_of_bytes(b).len() implies is_hex_digit(
            #[trigger] hex_of_bytes(b)[i],
        ) by {
            if i >= 2 {
                assert(hex_of_bytes(b)[i] == tail[i - 2]);
            }
        }
    }
}

// ---------------------------------------------------------------------------
// Bit lengths of hex strings
// ---------------------------------------------------------------------------

/// Value of a hex digit character, in executable form.
fn hex_val(c: char) -> (r: u8)
    requires
        is_hex_digit(c),
    ensures
        r as nat == hex_digit_val(c),
{
    let u = c as u32;
    if 48 <= u && u <= 57 {
        (u - 48) as u8
    } else if 97 <= u && u <= 102 {
        (u - 97 + 10) as u8
    } else {
        (u - 65 + 10) as u8
    }
}

/// Number of binary digits of one nonzero hex digit value.
fn digit_bits(v: u8) -> (r: usize)
    requires
        1 <= v < 16,
    ensures
        r == bit_len(v as nat),
        r <= 4,
{
    proof {
        reveal_with_fuel(bit_len, 6);
    }
    if v >= 8 {
        4
    } else if v >= 4 {
        3
    } else if v >= 2 {
        2
    } else {
        1
    }
}

proof fn lemma_hex_prepend_zero(t: Seq<char>)
    ensures
        nat_of_hex(seq!['0'] + t) == nat_of_hex(t),
    decreases t.len(),
{
    if t.len() == 0 {
        assert(seq!['0'] + t =~= seq!['0']);
        assert(seq!['0'].drop_last() =~= Seq::<char>::empty());
        assert(seq!['0'].last() == '0');
        assert(nat_of_hex(seq!['0']) == nat_of_hex(seq!['0'].drop_last()) * 16 + hex_digit_val(
            seq!['0'].last(),
        ));
        assert(hex_digit_val('0') == 0);
        assert(nat_of_hex(Seq::<char>::empty()) == 0);
    } else {
        assert((seq!['0'] + t).drop_last() =~= seq!['0'] + t.drop_last());
        lemma_hex_prepend_zero(t.drop_last());
        assert((seq!['0'] + t).last() == t.last());
    }
}

proof fn lemma_hex_skip_zeros(s: Seq<char>, i: int)
    requires
        0 <= i <= s.len(),
        forall|j: int| 0 <= j < i ==> s[j] == '0',
    ensures
        nat_of_hex(s) == nat_of_hex(s.skip(i)),
    decreases i,
{
    if i > 0 {
        let t = s.skip(1);
        assert(s =~= seq![s[0]] + t);
        lemma_hex_prepend_zero(t);
        lemma_hex_skip_zeros(t, i - 1);
        assert(t.skip(i - 1) =~= s.skip(i));
    } else {
        assert(s.skip(0) =~= s);
    }
}

/// A hex string whose first digit is nonzero denotes a positive number.
proof fn lemma_hex_pos(s: Seq<char>)
    requires
        s.len() > 0,
        hex_digit_val(s[0]) >= 1,
    ensures
        nat_of_hex(s) >= 1,
    decreases s.len(),
{
    if s.len() > 1 {
        lemma_hex_pos(s.drop_last());
    }
}

proof fn lemma_bit_len_mul16(v: nat, w: nat)
    requires
        v >= 1,
        w < 16,
    ensures
        bit_len(16 * v + w) == 4 + bit_len(v),
{
    let n0 = 16 * v + w;
    let n1 = 8 * v + w / 2;
    let n2 = 4 * v + w / 4;
    let n3 = 2 * v + w / 8;
    assert(n0 / 2 == n1 && n1 / 2 == n2 && n2 / 2 == n3 && n3 / 2 == v) by (nonlinear_arith)
        requires
            v >= 1,
            w < 16,
            n0 == 16 * v + w,
            n1 == 8 * v + w / 2,
            n2 == 4 * v + w / 4,
            n3 == 2 * v + w / 8,
    ;
    assert(n0 > 0 && n1 > 0 && n2 > 0 && n3 > 0);
    assert(bit_len(n0) == 1 + bit_len(n1));
    assert(bit_len(n1) == 1 + bit_len(n2));
    assert(bit_len(n2) == 1 + bit_len(n3));
    assert(bit_len(n3) == 1 + bit_len(v));
}

/// Bit length of the number denoted by a hex string with a nonzero first digit.
proof fn lemma_hex_bit_len(s: Seq<char>)
    requires
        s.len() > 0,
        hex_digit_val(s[0]) >= 1,
        forall|i: int| 0 <= i < s.len() ==> is_hex_digit(#[trigger] s[i]),
    ensures
        bit_len(nat_of_hex(s)) == 4 * (s.len() - 1) + bit_len(hex_digit_val(s[0])),
    decreases s.len(),
{
    if s.len() == 1 {
        assert(nat_of_hex(s) == nat_of_hex(s.drop_last()) * 16 + hex_digit_val(s[0]));
    } else {
        let p = s.drop_last();
        assert(forall|i: int| 0 <= i < p.len() ==> is_hex_digit(#[trigger] p[i]));
        lemma_hex_bit_len(p);
        lemma_hex_pos(p);
        assert(is_hex_digit(s.last()));
        lemma_bit_len_mul16(nat_of_hex(p), hex_digit_val(s.last()));
    }
}

proof fn lemma_hex_all_zero(s: Seq<char>)
    requires
        forall|j: int| 0 <= j < s.len() ==> s[j] == '0',
    ensures
        nat_of_hex(s) == 0,
    decreases s.len(),
{
    if s.len() > 0 {
        lemma_hex_all_zero(s.drop_last());
    }
}

/// Bit length of the number a hex string denotes, computed from its digits.
fn hex_bit_len(s: &str) -> (r: usize)
    requires
        s@.len() > 0,
        s@.len() <= usize::MAX / 8,
        forall|i: int| 0 <= i < s@.len() ==> is_hex_digit(#[trigger] s@[i]),
        nat_of_hex(s@) > 0,
    ensures
        r == bit_len(nat_of_hex(s@)),
        r <= 4 * s@.len(),
{
    let n = s.unicode_len();
    let mut i: usize = 0;
    while i < n && s.get_char(i) == '0'
        invariant
            0 <= i <= n,
            n == s@.len(),
            forall|j: int| 0 <= j < i ==> s@[j] == '0',
        decreases n - i,
    {
        i = i + 1;
    }
    proof {
        if i == n {
            lemma_hex_all_zero(s@);
        }
        assert(i < n);
        lemma_hex_skip_zeros(s@, i as int);
    }
    let d = hex_val(s.get_char(i));
    proof {
        // The scan stopped on a character other than '0', and among hex
        // digits only '0' has value zero.
        assert(d >= 1);
        lemma_hex_bit_len(s@.skip(i as int));
    }
    4 * (n - 1 - i) + digit_bits(d)
}

// ---------------------------------------------------------------------------
// Length bounds of hex renderings
// ---------------------------------------------------------------------------

proof fn lemma_pow_nat_pos(b: nat, e: nat)
    requires
        b >= 1,
    ensures
        pow_nat(b, e) >= 1,
    decreases e,
{
    if e > 0 {
        lemma_pow_nat_pos(b, (e - 1) as nat);
        assert(b * pow_nat(b, (e - 1) as nat) >= 1) by (nonlinear_arith)
            requires
                b >= 1,
                pow_nat(b, (e - 1) as nat) >= 1,
        ;
    }
}

proof fn lemma_hex_rep_len_le(v: nat, d: nat)
    requires
        d >= 1,
        v < pow_nat(16, d),
    ensures
        hex_rep(v).len() <= d,
    decreases d,
{
    if v >= 16 {
        assert(pow_nat(16, d) == 16 * pow_nat(16, (d - 1) as nat));
        assert(d >= 2) by {
            if d == 1 {
                assert(pow_nat(16, 1) == 16 * pow_nat(16, 0));
            }
        }
        assert(v / 16 < pow_nat(16, (d - 1) as nat)) by (nonlinear_arith)
            requires
                v < 16 * pow_nat(16, (d - 1) as nat),
        ;
        lemma_hex_rep_len_le(v / 16, (d - 1) as nat);
    }
}

proof fn lemma_nat_lt_pow2_bit_len(n: nat)
    ensures
        n < pow_nat(2, bit_len(n)),
    decreases n,
{
    if n > 0 {
        lemma_nat_lt_pow2_bit_len(n / 2);
        assert(pow_nat(2, bit_len(n)) == 2 * pow_nat(2, bit_len(n / 2)));
    }
}

proof fn lemma_pow16_pow2(d: nat)
    ensures
        pow_nat(16, d) == pow_nat(2, 4 * d),
    decreases d,
{
    if d > 0 {
        lemma_pow16_pow2((d - 1) as nat);
        let e = (4 * d - 4) as nat;
        assert(pow_nat(2, (4 * d) as nat) == 2 * pow_nat(2, (4 * d - 1) as nat));
        assert(pow_nat(2, (4 * d - 1) as nat) == 2 * pow_nat(2, (4 * d - 2) as nat));
        assert(pow_nat(2, (4 * d - 2) as nat) == 2 * pow_nat(2, (4 * d - 3) as nat));
        assert(pow_nat(2, (4 * d - 3) as nat) == 2 * pow_nat(2, e));
    }
}

proof fn lemma_pow2_monotone(a: nat, b: nat)
    requires
        a <= b,
    ensures
        pow_nat(2, a) <= pow_nat(2, b),
    decreases b,
{
    if a < b {
        lemma_pow2_monotone(a, (b - 1) as nat);
        lemma_pow_nat_pos(2, (b - 1) as nat);
    }
}

/// Hex bytes of the wrapped key: `2 * ceil(bit_len(n) / 8)` digits cover any
/// value below the modulus `n`.
pub proof fn lemma_hex_rep_fits_key(c: nat, n: nat)
    requires
        n > 0,
        c < n,
    ensures
        hex_rep(c).len() <= 2 * ((bit_len(n) + 7) / 8),
{
    let bl = bit_len(n);
    let k = ((bl + 7) / 8) as nat;
    assert(bl >= 1);
    assert(k >= 1);
    assert(bl <= 8 * k);
    lemma_nat_lt_pow2_bit_len(n);
    lemma_pow2_monotone(bl, 8 * k);
    lemma_pow16_pow2(2 * k);
    assert(pow_nat(2, (8 * k) as nat) == pow_nat(2, 4 * (2 * k)));
    lemma_hex_rep_len_le(c, 2 * k);
}

// ---------------------------------------------------------------------------
// RSA-style key wrapping
// ---------------------------------------------------------------------------

/// A string left-padded with '0' up to at least `k` characters.
pub open spec fn left_pad_zeros(s: Seq<char>, k: nat) -> Seq<char> {
    if s.len() >= k {
        s
    } else {
        Seq::new((k - s.len()) as nat, |i: int| '0') + s
    }
}

/// The characters a hex rendering is made of.
pub open spec fn is_lower_hex_digit(c: char) -> bool {
    ('0' <= c && c <= '9') || ('a' <= c && c <= 'f')
}

proof fn lemma_hex_rep_lower(n: nat)
    ensures
        forall|i: int|
            0 <= i < hex_rep(n).len() ==> is_lower_hex_digit(#[trigger] hex_rep(n)[i]),
    decreases n,
{
    if n < 16 {
        assert(hex_rep(n)[0] == hex_digit_char(n));
    } else {
        lemma_hex_rep_lower(n / 16);
        let p = hex_rep(n / 16);
        assert forall|i: int| 0 <= i < hex_rep(n).len() implies is_lower_hex_digit(
            #[trigger] hex_rep(n)[i],
        ) by {
            if i < p.len() {
                assert(hex_rep(n)[i] == p[i]);
            } else {
                assert(hex_rep(n)[i] == hex_digit_char(n % 16));
            }
        }
    }
}

/// The textbook RSA operation without padding, as the request envelope uses
/// it: the input bytes reversed, read as a big-endian hex integer `m`, raised
/// to the public exponent modulo `n`, rendered as lowercase hex and
/// left-zero-padded to `2 * ceil(bit_len(n) / 8)` characters.
///
/// The result length never depends on leading zero bytes of the power.
pub fn rsa_no_padding(text: &[u8], pubkey: &str, modulus: &str) -> (r: String)
    requires
        0 < text@.len() <= usize::MAX / 4,
        pubkey@.len() > 0,
        forall|i: int| 0 <= i < pubkey@.len() ==> is_hex_digit(#[trigger] pubkey@[i]),
        0 < modulus@.len() <= usize::MAX / 8,
        forall|i: int| 0 <= i < modulus@.len() ==> is_hex_digit(#[trigger] modulus@[i]),
        nat_of_hex(modulus@) > 0,
    ensures
        r@ == left_pad_zeros(
            hex_rep(
                pow_nat(
                    nat_of_hex(hex_of_bytes(text@.reverse())),
                    nat_of_hex(pubkey@),
                ) % nat_of_hex(modulus@),
            ),
            2 * ((bit_len(nat_of_hex(modulus@)) + 7) / 8),
        ),
        r@.len() == 2 * ((bit_len(nat_of_hex(modulus@)) + 7) / 8),
        forall|i: int| 0 <= i < r@.len() ==> is_lower_hex_digit(#[trigger] r@[i]),
{
    let ghost n_val = nat_of_hex(modulus@);
    let ghost c_val = pow_nat(
        nat_of_hex(hex_of_bytes(text@.reverse())),
        nat_of_hex(pubkey@),
    ) % n_val;

    // Reverse the input bytes.
    let mut rev: Vec<u8> = Vec::new();
    let len = text.len();
    let mut i: usize = 0;
    while i < len
        invariant
            0 <= i <= len,
            len == text@.len(),
            rev@ =~= text@.subrange(len - i, len as int).reverse(),
        decreases len - i,
    {
        rev.push(text[len - 1 - i]);
        proof {
            assert(rev@ =~= text@.subrange(len - 1 - i, len as int).reverse());
        }
        i = i + 1;
    }
    proof {
        assert(text@.subrange(0, len as int) =~= text@);
    }

    let m_hex = hex_encode(rev.as_slice());
    proof {
        lemma_hex_of_bytes_digits(rev@);
    }
    let mut out = big_modpow_hex(m_hex.as_str(), pubkey, modulus);
    proof {
        assert(c_val < n_val);
    }

    let kbits = hex_bit_len(modulus);
    let k2 = 2 * ((kbits + 7) / 8);
    proof {
        lemma_hex_rep_fits_key(c_val, n_val);
    }
    let mut cur = out.as_str().unicode_len();
    while cur < k2
        invariant
            cur == out@.len(),
            out@ =~= Seq::new((cur - hex_rep(c_val).len()) as nat, |i: int| '0') + hex_rep(c_val),
            hex_rep(c_val).len() <= cur,
            cur <= k2 <= usize::MAX - 1,
        decreases k2 - cur,
    {
        proof {
            reveal_strlit("0");
        }
        let mut padded = String::from_str("0");
        padded.append(out.as_str());
        proof {
            assert(padded@ =~= Seq::new(
                (cur + 1 - hex_rep(c_val).len()) as nat,
                |i: int| '0',
            ) + hex_rep(c_val));
        }
        out = padded;
        cur = cur + 1;
    }
    proof {
        assert(out@ =~= left_pad_zeros(hex_rep(c_val), k2 as nat));
        lemma_hex_rep_lower(c_val);
        let hr = hex_rep(c_val);
        assert forall|i: int| 0 <= i < out@.len() implies is_lower_hex_digit(
            #[trigger] out@[i],
        ) by {
            let pad = out@.len() - hr.len();
            if i < pad {
                assert(out@[i] == '0');
            } else {
                assert(out@[i] == hr[i - pad]);
            }
        }
    }
    out
}



// ---------------------------------------------------------------------------
// Fixed envelope parameters
// ---------------------------------------------------------------------------

pub open spec fn rsa_pubkey_spec() -> Seq<char> {
    "010001"@
}

/// The service's fixed RSA public exponent, as a hex string.
pub fn rsa_pubkey() -> (r: &'static str)
    ensures
        r@ == rsa_pubkey_spec(),
{
    "010001"
}

pub open spec fn rsa_modulus_spec() -> Seq<char> {
    "00e0b509f6259df8642dbc35662901477df22677ec152b5ff68ace615bb7b725152b3ab17a876aea8a5aa76d2e417629ec4ee341f56135fccf695280104e0312ecbda92557c93870114af6c9d05c4f7f0c3685b7a46bee255932575cce10b424d813cfe4875d3e82047b97ddef52741d546b8e289dc6935b3ece0462db0a22b8e7"@
}

/// The service's fixed RSA modulus, as a hex string.
pub fn rsa_modulus() -> (r: &'static str)
    ensures
        r@ == rsa_modulus_spec(),
{
    "00e0b509f6259df8642dbc35662901477df22677ec152b5ff68ace615bb7b725152b3ab17a876aea8a5aa76d2e417629ec4ee341f56135fccf695280104e0312ecbda92557c93870114af6c9d05c4f7f0c3685b7a46bee255932575cce10b424d813cfe4875d3e82047b97ddef52741d546b8e289dc6935b3ece0462db0a22b8e7"
}

/// A hex string with some nonzero digit denotes a positive number.
proof fn lemma_hex_digit_nonzero(s: Seq<char>, j: int)
    requires
        0 <= j < s.len(),
        hex_digit_val(s[j]) >= 1,
    ensures
        nat_of_hex(s) >= 1,
    decreases s.len(),
{
    if j == s.len() - 1 {
    } else {
        lemma_hex_digit_nonzero(s.drop_last(), j);
    }
}

/// The fixed RSA parameters are well-formed hex strings, and the modulus has
/// 1024 binary digits, so wrapped keys span 256 hex characters.
pub proof fn lemma_rsa_params_wf()
    ensures
        rsa_pubkey_spec().len() == 6,
        forall|i: int| 0 <= i < rsa_pubkey_spec().len() ==> is_hex_digit(#[trigger] rsa_pubkey_spec()[i]),
        rsa_modulus_spec().len() == 258,
        forall|i: int| 0 <= i < rsa_modulus_spec().len() ==> is_hex_digit(
            #[trigger] rsa_modulus_spec()[i],
        ),
        nat_of_hex(rsa_modulus_spec()) > 0,
        bit_len(nat_of_hex(rsa_modulus_spec())) == 1024,
{
    reveal_strlit("010001");
    reveal_strlit("00e0b509f6259df8642dbc35662901477df22677ec152b5ff68ace615bb7b725152b3ab17a876aea8a5aa76d2e417629ec4ee341f56135fccf695280104e0312ecbda92557c93870114af6c9d05c4f7f0c3685b7a46bee255932575cce10b424d813cfe4875d3e82047b97ddef52741d546b8e289dc6935b3ece0462db0a22b8e7");
    let m = rsa_modulus_spec();
    assert(m.len() == 258);
    assert(forall|i: int| 0 <= i < m.len() ==> is_hex_digit(#[trigger] m[i]));
    assert(m[2] == 'e');
    lemma_hex_digit_nonzero(m, 2);
    lemma_hex_skip_zeros(m, 2);
    let t = m.skip(2);
    assert(hex_digit_val(t[0]) == 14);
    assert(forall|i: int| 0 <= i < t.len() ==> is_hex_digit(#[trigger] t[i]));
    lemma_hex_bit_len(t);
    assert(bit_len(14) == 4) by {
        reveal_with_fuel(bit_len, 5);
    }
}

pub open spec fn weapi_key1_spec() -> Seq<u8> {
    seq![
        0x30u8, 0x43, 0x6f, 0x4a, 0x55, 0x6d, 0x36, 0x51,
        0x79, 0x77, 0x38, 0x57, 0x38, 0x6a, 0x75, 0x64,
    ]
}

/// The fixed first-stage AES key (the bytes of "0CoJUm6Qyw8W8jud").
pub fn weapi_key1() -> (r: Vec<u8>)
    ensures
        r@ == weapi_key1_spec(),
{
    let v = vec![
        0x30u8, 0x43, 0x6f, 0x4a, 0x55, 0x6d, 0x36, 0x51,
        0x79, 0x77, 0x38, 0x57, 0x38, 0x6a, 0x75, 0x64,
    ];
    proof {
        assert(v@ =~= weapi_key1_spec());
    }
    v
}

pub open spec fn weapi_iv_spec() -> Seq<u8> {
    seq![
        0x30u8, 0x31, 0x30, 0x32, 0x30, 0x33, 0x30, 0x34,
        0x30, 0x35, 0x30, 0x36, 0x30, 0x37, 0x30, 0x38,
    ]
}

/// The fixed AES initialisation vector (the bytes of "0102030405060708").
pub fn weapi_iv() -> (r: Vec<u8>)
    ensures
        r@ == weapi_iv_spec(),
{
    let v = vec![
        0x30u8, 0x31, 0x30, 0x32, 0x30, 0x33, 0x30, 0x34,
        0x30, 0x35, 0x30, 0x36, 0x30, 0x37, 0x30, 0x38,
    ];
    proof {
        assert(v@ =~= weapi_iv_spec());
    }
    v
}

pub open spec fn static_session_key_spec() -> Seq<u8> {
    Seq::new(16, |i: int| 0x42u8)
}

/// The fixed fallback session key the service protocol was observed with.
pub fn static_session_key() -> (r: Vec<u8>)
    ensures
        r@ == static_session_key_spec(),
{
    let v = vec![
        0x42u8, 0x42, 0x42, 0x42, 0x42, 0x42, 0x42, 0x42,
        0x42, 0x42, 0x42, 0x42, 0x42, 0x42, 0x42, 0x42,
    ];
    proof {
        assert(v@ =~= static_session_key_spec());
    }
    v
}

/// Relies on fastrand::u8: one byte is drawn; nothing is assumed of it.
#[verifier::external_body]
fn random_byte() -> u8 {
    fastrand::u8(..)
}

/// A fresh 16-byte session key; the values are random, only the length is
/// promised.
pub fn random_session_key() -> (r: Vec<u8>)
    ensures
        r@.len() == 16,
{
    let mut v: Vec<u8> = Vec::new();
    let mut i: usize = 0;
    while i < 16
        invariant
            v@.len() == i,
            i <= 16,
        decreases 16 - i,
    {
        v.push(random_byte());
        i = i + 1;
    }
    v
}

/// The second-stage AES key: fresh and random for each session by default,
/// the observed fixed key when interoperability requires it.
pub fn session_key(compat_static: bool) -> (r: Vec<u8>)
    ensures
        r@.len() == 16,
        compat_static ==> r@ == static_session_key_spec(),
{
    if compat_static {
        static_session_key()
    } else {
        random_session_key()
    }
}

// ---------------------------------------------------------------------------
// The envelope
// ---------------------------------------------------------------------------

/// What AES-128-CBC with PKCS7 padding returns; a fixed function of key,
/// initialisation vector and message.
pub uninterp spec fn aes128_cbc_enc(key: Seq<u8>, iv: Seq<u8>, msg: Seq<u8>) -> Seq<u8>;

/// Relies on cbc::Encryptor<aes::Aes128> (KeyIvInit::new_from_slices, then
/// BlockModeEncrypt::encrypt_padded_vec with Pkcs7): the ciphertext is a
/// function of key, iv and message alone; Pkcs7 always appends one block of
/// one to sixteen padding bytes before encrypting.
#[verifier::external_body]
fn aes128_cbc_encrypt(key: &[u8], iv: &[u8], msg: &[u8]) -> (r: Vec<u8>)
    requires
        key@.len() == 16,
        iv@.len() == 16,
        msg@.len() + 16 <= usize::MAX,
    ensures
        r@ == aes128_cbc_enc(key@, iv@, msg@),
        r@.len() == msg@.len() + (16 - msg@.len() % 16),
{
    let enc = <cbc::Encryptor<aes::Aes128> as aes::cipher::KeyIvInit>::new_from_slices(key, iv)
        .unwrap();
    <cbc::Encryptor<aes::Aes128> as aes::cipher::BlockModeEncrypt>::encrypt_padded_vec::<
        aes::cipher::block_padding::Pkcs7,
    >(enc, msg)
}

/// What the standard padded base64 alphabet encodes a byte string to; a
/// fixed function of the bytes.
pub uninterp spec fn base64_std(bytes: Seq<u8>) -> Seq<char>;

/// Relies on base64's BASE64_STANDARD engine (Engine::encode): the text is a
/// function of the input bytes alone, four characters for every started
/// group of three bytes, all from the ASCII base64 alphabet.
#[verifier::external_body]
fn base64_encode(b: &[u8]) -> (r: String)
    requires
        b@.len() <= usize::MAX / 2,
    ensures
        r@ == base64_std(b@),
        r@.len() == 4 * ((b@.len() + 2) / 3),
        vstd::utf8::is_ascii_chars(r@),
{
    base64::Engine::encode(&base64::prelude::BASE64_STANDARD, b)
}

/// A sequence of ASCII characters, reread as the bytes that encode it.
pub open spec fn ascii_bytes(s: Seq<char>) -> Seq<u8> {
    Seq::new(s.len(), |i: int| s[i] as u8)
}

/// The `params` field of the envelope: the payload bytes AES-encrypted under
/// the fixed first key, base64-rendered, AES-encrypted again under the
/// session key, and base64-rendered again.
pub open spec fn params_spec(payload: Seq<u8>, key2: Seq<u8>) -> Seq<char> {
    base64_std(
        aes128_cbc_enc(
            key2,
            weapi_iv_spec(),
            ascii_bytes(base64_std(aes128_cbc_enc(weapi_key1_spec(), weapi_iv_spec(), payload))),
        ),
    )
}

/// The `encSecKey` field of the envelope: the session key bytes reversed,
/// read as a hex integer, raised to the fixed public exponent modulo the
/// fixed modulus, and rendered as 256 hex characters.
pub open spec fn enc_sec_key_spec(key2: Seq<u8>) -> Seq<char> {
    left_pad_zeros(
        hex_rep(
            pow_nat(
                nat_of_hex(hex_of_bytes(key2.reverse())),
                nat_of_hex(rsa_pubkey_spec()),
            ) % nat_of_hex(rsa_modulus_spec()),
        ),
        256,
    )
}

/// The two form fields of one encoded request.
pub struct EncodedRequest {
    pub params: String,
    pub enc_sec_key: String,
}

/// The session key wrapped for the server: `encSecKey` of the envelope.
pub fn enc_sec_key(sec_key: &[u8]) -> (r: String)
    requires
        sec_key@.len() == 16,
    ensures
        r@ == enc_sec_key_spec(sec_key@),
        r@.len() == 256,
        forall|i: int| 0 <= i < r@.len() ==> is_lower_hex_digit(#[trigger] r@[i]),
{
    proof {
        lemma_rsa_params_wf();
    }
    rsa_no_padding(sec_key, rsa_pubkey(), rsa_modulus())
}

/// Encode one request payload: both envelope fields, from the payload bytes
/// and a 16-byte session key.
pub fn weapi_encode(payload: &[u8], sec_key: &[u8]) -> (r: EncodedRequest)
    requires
        sec_key@.len() == 16,
        payload@.len() <= usize::MAX / 8,
    ensures
        r.params@ == params_spec(payload@, sec_key@),
        r.enc_sec_key@ == enc_sec_key_spec(sec_key@),
        r.enc_sec_key@.len() == 256,
{
    let k1 = weapi_key1();
    let iv = weapi_iv();
    let c1 = aes128_cbc_encrypt(k1.as_slice(), iv.as_slice(), payload);
    let b1 = base64_encode(c1.as_slice());
    let b1_bytes = b1.as_str().as_bytes_vec();
    proof {
        vstd::utf8::is_ascii_chars_encode_utf8(b1@);
        assert(b1_bytes@ =~= ascii_bytes(b1@));
    }
    let c2 = aes128_cbc_encrypt(sec_key, iv.as_slice(), b1_bytes.as_slice());
    let params = base64_encode(c2.as_slice());
    let enc = enc_sec_key(sec_key);
    EncodedRequest { params, enc_sec_key: enc }
}

} // verus!
