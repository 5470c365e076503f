//! Identifier generation and rendering.
//!
//! An identifier is the 128-bit value of a UUID.  A fresh one is drawn from
//! the `uuid` crate; rendering it in the usual hyphenated form is done here
//! and proved against [`uuid_str`].

use vstd::prelude::*;

verus! {

/// The lower-case hexadecimal digit for a value below sixteen.
pub open spec fn hex_digit(n: int) -> char {
    if n == 0 {
        '0'
    } else if n == 1 {
        '1'
    } else if n == 2 {
        '2'
    } else if n == 3 {
        '3'
    } else if n == 4 {
        '4'
    } else if n == 5 {
        '5'
    } else if n == 6 {
        '6'
    } else if n == 7 {
        '7'
    } else if n == 8 {
        '8'
    } else if n == 9 {
        '9'
    } else if n == 10 {
        'a'
    } else if n == 11 {
        'b'
    } else if n == 12 {
        'c'
    } else if n == 13 {
        'd'
    } else if n == 14 {
        'e'
    } else {
        'f'
    }
}

/// `len` hexadecimal digits of `n`, most significant first.
pub open spec fn hex_seq(n: int, len: nat) -> Seq<char>
    decreases len,
{
    if len == 0 {
        Seq::empty()
    } else {
        hex_seq(n / 16, (len - 1) as nat).push(hex_digit(n % 16))
    }
}

/// The hyphenated lower-case rendering of a 128-bit identifier, in the
/// usual 8-4-4-4-12 digit grouping.
pub open spec fn uuid_str(n: u128) -> Seq<char> {
    hex_seq((n >> 96) as int, 8) + seq!['-'] + hex_seq(((n >> 80) & 0xffff) as int, 4)
        + seq!['-'] + hex_seq(((n >> 64) & 0xffff) as int, 4) + seq!['-'] + hex_seq(
        ((n >> 48) & 0xffff) as int,
        4,
    ) + seq!['-'] + hex_seq((n & 0xffff_ffff_ffff) as int, 12)
}

/// The character of one hexadecimal digit.
pub(crate) fn hex_digit_char(d: u8) -> (c: char)
    requires
        d < 16,
    ensures
        c == hex_digit(d as int),
{
    match d {
        0 => '0',
        1 => '1',
        2 => '2',
        3 => '3',
        4 => '4',
        5 => '5',
        6 => '6',
        7 => '7',
        8 => '8',
        9 => '9',
        10 => 'a',
        11 => 'b',
        12 => 'c',
        13 => 'd',
        14 => 'e',
        _ => 'f',
    }
}

/// Appends `len` hexadecimal digits of `n`, most significant first.
fn push_hex(out: &mut Vec<char>, n: u128, len: usize)
    ensures
        final(out)@ == old(out)@ + hex_seq(n as int, len as nat),
    decreases len,
{
    if len == 0 {
        proof {
            assert(old(out)@ + hex_seq(n as int, 0) =~= old(out)@);
        }
    } else {
        push_hex(out, n / 16, len - 1);
        let d: u8 = (n % 16) as u8;
        out.push(hex_digit_char(d));
        proof {
            assert(final(out)@ =~= old(out)@ + hex_seq(n as int, len as nat));
        }
    }
}

/// The hyphenated rendering of an identifier, as characters.
pub fn uuid_chars(id: u128) -> (r: Vec<char>)
    ensures
        r@ == uuid_str(id),
{
    let mut out: Vec<char> = Vec::new();
    push_hex(&mut out, id >> 96, 8);
    out.push('-');
    push_hex(&mut out, (id >> 80) & 0xffff, 4);
    out.push('-');
    push_hex(&mut out, (id >> 64) & 0xffff, 4);
    out.push('-');
    push_hex(&mut out, (id >> 48) & 0xffff, 4);
    out.push('-');
    push_hex(&mut out, id & 0xffff_ffff_ffff, 12);
    proof {
        assert(out@ =~= uuid_str(id));
    }
    out
}

/// The value of a hexadecimal digit, either case; 16 marks a character
/// that is no such digit.
pub open spec fn hex_val(c: char) -> int {
    if 48 <= (c as u32) <= 57 {
        (c as u32) as int - 48
    } else if 97 <= (c as u32) <= 102 {
        (c as u32) as int - 87
    } else if 65 <= (c as u32) <= 70 {
        (c as u32) as int - 55
    } else {
        16
    }
}

/// Whether a hyphenated rendering holds a hyphen at position `i`.
pub open spec fn is_hyphen_pos(i: int) -> bool {
    i == 8 || i == 13 || i == 18 || i == 23
}

/// Reads a hyphenated rendering left to right from position `i`, with the
/// digits so far worth `acc`.
pub open spec fn uuid_parse_at(s: Seq<char>, i: int, acc: int) -> Option<int>
    decreases 36 - i,
{
    if i < 0 || i >= 36 {
        Some(acc)
    } else if is_hyphen_pos(i) {
        if s[i] == '-' {
            uuid_parse_at(s, i + 1, acc)
        } else {
            None
        }
    } else if hex_val(s[i]) < 16 {
        uuid_parse_at(s, i + 1, acc * 16 + hex_val(s[i]))
    } else {
        None
    }
}

/// The identifier spelled by a hyphenated rendering: 36 characters, with
/// hyphens in the 8-4-4-4-12 grouping and hexadecimal digits of either
/// case elsewhere.
pub open spec fn parse_uuid(s: Seq<char>) -> Option<int> {
    if s.len() != 36 {
        None
    } else {
        uuid_parse_at(s, 0, 0)
    }
}

/// Sixteen to the power `d`.
pub open spec fn pow16(d: nat) -> int
    decreases d,
{
    if d == 0 {
        1
    } else {
        16 * pow16((d - 1) as nat)
    }
}

/// `pow16` grows with its argument.
pub proof fn lemma_pow16_le(d1: nat, d2: nat)
    requires
        d1 <= d2,
    ensures
        0 < pow16(d1) <= pow16(d2),
    decreases d2,
{
    if d1 < d2 {
        lemma_pow16_le(d1, (d2 - 1) as nat);
    } else if d2 > 0 {
        lemma_pow16_le((d1 - 1) as nat, (d2 - 1) as nat);
    }
}

/// How many hyphens a hyphenated rendering holds before position `i`.
pub open spec fn hyphens_before(i: int) -> int {
    (if i > 8 {
        1int
    } else {
        0int
    }) + (if i > 13 {
        1int
    } else {
        0int
    }) + (if i > 18 {
        1int
    } else {
        0int
    }) + (if i > 23 {
        1int
    } else {
        0int
    })
}

/// The value of one hexadecimal digit character, or 16.
pub(crate) fn hex_val_char(c: char) -> (r: u8)
    ensures
        r as int == hex_val(c),
{
    let v = c as u32;
    if 48 <= v && v <= 57 {
        (v - 48) as u8
    } else if 97 <= v && v <= 102 {
        (v - 87) as u8
    } else if 65 <= v && v <= 70 {
        (v - 55) as u8
    } else {
        16
    }
}

/// The identifier spelled by a hyphenated rendering, if the rendering is
/// one the grammar of [`parse_uuid`] accepts.
pub fn uuid_of_chars(s: &Vec<char>) -> (r: Option<u128>)
    ensures
        match r {
            Some(v) => parse_uuid(s@) == Some(v as int),
            None => parse_uuid(s@) is None,
        },
{
    if s.len() != 36 {
        return None;
    }
    let mut acc: u128 = 0;
    let mut i: usize = 0;
    while i < 36
        invariant
            i <= 36,
            s@.len() == 36,
            0 <= hyphens_before(i as int) <= 4,
            hyphens_before(i as int) <= i,
            (acc as int) < pow16((i - hyphens_before(i as int)) as nat),
            uuid_parse_at(s@, 0, 0) == uuid_parse_at(s@, i as int, acc as int),
        decreases 36 - i,
    {
        let c = s[i];
        if i == 8 || i == 13 || i == 18 || i == 23 {
            if c != '-' {
                return None;
            }
        } else {
            let v = hex_val_char(c);
            if v >= 16 {
                return None;
            }
            proof {
                let d = (i - hyphens_before(i as int)) as nat;
                assert(d <= 31);
                lemma_pow16_le((d + 1) as nat, 32);
                assert(pow16((d + 1) as nat) == 16 * pow16(d));
                assert(acc as int * 16 + v < pow16((d + 1) as nat));
                reveal_with_fuel(pow16, 33);
                assert(pow16(32) == 0x1_0000_0000_0000_0000_0000_0000_0000_0000);
            }
            acc = acc * 16 + (v as u128);
        }
        i += 1;
    }
    Some(acc)
}

/// A rendering holds as many digits as asked for.
proof fn lemma_hex_seq_len(m: int, len: nat)
    ensures
        hex_seq(m, len).len() == len,
    decreases len,
{
    if len > 0 {
        lemma_hex_seq_len(m / 16, (len - 1) as nat);
    }
}

/// Reading a digit back gives the value it was rendered from.
proof fn lemma_hex_digit_val(v: int)
    requires
        0 <= v < 16,
    ensures
        hex_val(hex_digit(v)) == v,
{
}

/// Reading the digits of `hex_seq(m, len)`, laid out at positions
/// `i .. i + len` away from any hyphen position, multiplies the
/// accumulator by `pow16(len)` and adds `m`.
proof fn lemma_parse_hex_group(s: Seq<char>, i: int, len: nat, m: int, acc: int)
    requires
        0 <= i,
        i + len <= 36,
        forall|t: int| i <= t < i + len ==> !is_hyphen_pos(t),
        0 <= m < pow16(len),
        forall|t: int| i <= t < i + len ==> s[t] == hex_seq(m, len)[t - i],
    ensures
        uuid_parse_at(s, i, acc) == uuid_parse_at(s, i + len, acc * pow16(len) + m),
    decreases len,
{
    if len == 0 {
        assert(pow16(0) == 1);
    } else {
        let m_hi = m / 16;
        let m_lo = m % 16;
        let j = i + len - 1;
        lemma_hex_seq_len(m_hi, (len - 1) as nat);
        assert(hex_seq(m, len) == hex_seq(m_hi, (len - 1) as nat).push(hex_digit(m_lo)));
        assert(s[j] == hex_digit(m_lo));
        assert(forall|t: int|
            i <= t < i + (len - 1) ==> s[t] == hex_seq(m_hi, (len - 1) as nat)[t - i]);
        assert(16 * m_hi <= m);
        lemma_parse_hex_group(s, i, (len - 1) as nat, m_hi, acc);
        lemma_hex_digit_val(m_lo);
        let big_a = acc * pow16((len - 1) as nat) + m_hi;
        assert(uuid_parse_at(s, j, big_a) == uuid_parse_at(s, j + 1, big_a * 16 + m_lo));
        assert(big_a * 16 + m_lo == acc * pow16(len) + m) by (nonlinear_arith)
            requires
                big_a == acc * pow16((len - 1) as nat) + m_hi,
                pow16(len) == 16 * pow16((len - 1) as nat),
                m == 16 * m_hi + m_lo,
        {}
    }
}

/// Rendering an identifier and then parsing the rendering yields the
/// identifier back.
pub proof fn lemma_uuid_round_trip(n: u128)
    ensures
        parse_uuid(uuid_str(n)) == Some(n as int),
{
    let s = uuid_str(n);
    let m1 = (n >> 96) as int;
    let m2 = ((n >> 80) & 0xffff) as int;
    let m3 = ((n >> 64) & 0xffff) as int;
    let m4 = ((n >> 48) & 0xffff) as int;
    let m5 = (n & 0xffff_ffff_ffff) as int;
    let a = hex_seq(m1, 8);
    let b = hex_seq(m2, 4);
    let c = hex_seq(m3, 4);
    let d = hex_seq(m4, 4);
    let e = hex_seq(m5, 12);
    assert(s == a + seq!['-'] + b + seq!['-'] + c + seq!['-'] + d + seq!['-'] + e);
    lemma_hex_seq_len(m1, 8);
    lemma_hex_seq_len(m2, 4);
    lemma_hex_seq_len(m3, 4);
    lemma_hex_seq_len(m4, 4);
    lemma_hex_seq_len(m5, 12);
    assert(s.len() == 36);
    assert(n >> 96 < 0x1_0000_0000) by (bit_vector);
    assert((n >> 80) & 0xffff < 0x10000) by (bit_vector);
    assert((n >> 64) & 0xffff < 0x10000) by (bit_vector);
    assert((n >> 48) & 0xffff < 0x10000) by (bit_vector);
    assert(n & 0xffff_ffff_ffff < 0x1_0000_0000_0000) by (bit_vector);
    reveal_with_fuel(pow16, 13);
    assert(pow16(4) == 0x10000);
    assert(pow16(8) == 0x1_0000_0000);
    assert(pow16(12) == 0x1_0000_0000_0000);
    assert(s[8] == '-');
    assert(s[13] == '-');
    assert(s[18] == '-');
    assert(s[23] == '-');
    assert(forall|t: int| 0 <= t < 8 ==> s[t] == a[t - 0]);
    assert(forall|t: int| 9 <= t < 13 ==> s[t] == b[t - 9]);
    assert(forall|t: int| 14 <= t < 18 ==> s[t] == c[t - 14]);
    assert(forall|t: int| 19 <= t < 23 ==> s[t] == d[t - 19]);
    assert(forall|t: int| 24 <= t < 36 ==> s[t] == e[t - 24]);
    lemma_parse_hex_group(s, 0, 8, m1, 0);
    assert(uuid_parse_at(s, 8, m1) == uuid_parse_at(s, 9, m1));
    lemma_parse_hex_group(s, 9, 4, m2, m1);
    let a2 = m1 * 0x10000 + m2;
    assert(uuid_parse_at(s, 13, a2) == uuid_parse_at(s, 14, a2));
    lemma_parse_hex_group(s, 14, 4, m3, a2);
    let a3 = a2 * 0x10000 + m3;
    assert(uuid_parse_at(s, 18, a3) == uuid_parse_at(s, 19, a3));
    lemma_parse_hex_group(s, 19, 4, m4, a3);
    let a4 = a3 * 0x10000 + m4;
    assert(uuid_parse_at(s, 23, a4) == uuid_parse_at(s, 24, a4));
    lemma_parse_hex_group(s, 24, 12, m5, a4);
    let a5 = a4 * 0x1_0000_0000_0000 + m5;
    assert(uuid_parse_at(s, 36, a5) == Some(a5));
    assert(uuid_parse_at(s, 0, 0) == Some(a5));
    let ni = n as int;
    assert(n >> 96 == n / 0x1000000000000000000000000) by (bit_vector);
    assert((n >> 80) & 0xffff == (n / 0x100000000000000000000) % 0x10000) by (bit_vector);
    assert((n >> 64) & 0xffff == (n / 0x10000000000000000) % 0x10000) by (bit_vector);
    assert((n >> 48) & 0xffff == (n / 0x1000000000000) % 0x10000) by (bit_vector);
    assert(n & 0xffff_ffff_ffff == n % 0x1000000000000) by (bit_vector);
    let x80 = ni / 0x100000000000000000000;
    let x64 = ni / 0x10000000000000000;
    let x48 = ni / 0x1000000000000;
    vstd::arithmetic::div_mod::lemma_div_denominator(ni, 0x100000000000000000000, 0x10000);
    vstd::arithmetic::div_mod::lemma_fundamental_div_mod(x80, 0x10000);
    assert(a2 == x80);
    vstd::arithmetic::div_mod::lemma_div_denominator(ni, 0x10000000000000000, 0x10000);
    vstd::arithmetic::div_mod::lemma_fundamental_div_mod(x64, 0x10000);
    assert(a3 == x64);
    vstd::arithmetic::div_mod::lemma_div_denominator(ni, 0x1000000000000, 0x10000);
    vstd::arithmetic::div_mod::lemma_fundamental_div_mod(x48, 0x10000);
    assert(a4 == x48);
    vstd::arithmetic::div_mod::lemma_fundamental_div_mod(ni, 0x1000000000000);
    assert(a5 == ni);
}

/// Relies on `uuid::Uuid::new_v4`: a randomly generated version-4 UUID,
/// handed on as its 128-bit big-endian value.  Nothing is promised of the
/// value; callers must cope with any outcome, collisions included.
#[verifier::external_body]
pub(crate) fn fresh_id() -> u128 {
    uuid::Uuid::new_v4().as_u128()
}

} // verus!
