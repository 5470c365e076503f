//! Parsing the create/update payload.
//!
//! [`parse_payload`] is the specification: a deterministic recursive parser
//! over the character sequence.  [`parse_new_product`] is the executable
//! parser, proved to return a payload exactly when the specification does,
//! and to report `BadRequest` exactly when it does not.

use vstd::prelude::*;

use crate::ids::hex_val;
use crate::product::{NewProduct, NewProductView, RepoError};

verus! {

/// Blank space between tokens.
pub open spec fn is_ws(c: char) -> bool {
    c == ' ' || c == '\t' || c == '\n' || c == '\r'
}

/// The first position at or after `i` that does not hold blank space.
pub open spec fn skip_ws(s: Seq<char>, i: int) -> int
    decreases s.len() - i,
{
    if 0 <= i < s.len() && is_ws(s[i]) {
        skip_ws(s, i + 1)
    } else {
        i
    }
}

/// What a backslash escape stands for, if it is accepted.
pub open spec fn unescape(c: char) -> Option<char> {
    if c == '"' {
        Some('"')
    } else if c == '\\' {
        Some('\\')
    } else if c == '/' {
        Some('/')
    } else if c == 'n' {
        Some('\n')
    } else if c == 't' {
        Some('\t')
    } else if c == 'r' {
        Some('\r')
    } else if c == 'b' {
        Some('\u{8}')
    } else if c == 'f' {
        Some('\u{c}')
    } else {
        None
    }
}

/// The code point of a `\uXXXX` escape whose `u` stands at `i`, or 16⁴
/// when any of the four digits is missing or is no hexadecimal digit.
pub open spec fn escape_code(s: Seq<char>, i: int) -> int {
    if i + 5 <= s.len() && hex_val(s[i + 1]) < 16 && hex_val(s[i + 2]) < 16 && hex_val(s[i + 3])
        < 16 && hex_val(s[i + 4]) < 16 {
        ((hex_val(s[i + 1]) * 16 + hex_val(s[i + 2])) * 16 + hex_val(s[i + 3])) * 16 + hex_val(
            s[i + 4],
        )
    } else {
        0x10000
    }
}

/// A surrogate code point, which no character carries.
pub open spec fn is_surrogate(code: int) -> bool {
    0xD800 <= code < 0xE000
}

/// The body of a string whose opening quote stands just before `i`: the
/// unescaped content and the position after the closing quote.  Rejected:
/// an unterminated string, an unaccepted escape (`\u` of a surrogate
/// among them), a bare control character.
pub open spec fn parse_string_rest(s: Seq<char>, i: int) -> Option<(Seq<char>, int)>
    decreases s.len() - i,
{
    if i < 0 || i >= s.len() {
        None
    } else if s[i] == '"' {
        Some((Seq::empty(), i + 1))
    } else if s[i] == '\\' {
        if i + 1 < s.len() && s[i + 1] == 'u' {
            if escape_code(s, i + 1) < 0x10000 && !is_surrogate(escape_code(s, i + 1)) {
                match parse_string_rest(s, i + 6) {
                    Some(t) => Some((seq![escape_code(s, i + 1) as char] + t.0, t.1)),
                    None => None,
                }
            } else {
                None
            }
        } else if i + 1 < s.len() {
            match unescape(s[i + 1]) {
                Some(c) => match parse_string_rest(s, i + 2) {
                    Some(t) => Some((seq![c] + t.0, t.1)),
                    None => None,
                },
                None => None,
            }
        } else {
            None
        }
    } else if (s[i] as u32) < 32 {
        None
    } else {
        match parse_string_rest(s, i + 1) {
            Some(t) => Some((seq![s[i]] + t.0, t.1)),
            None => None,
        }
    }
}

/// A decimal digit.
pub open spec fn is_digit(c: char) -> bool {
    48 <= (c as u32) <= 57
}

/// Its value.
pub open spec fn digit_val(c: char) -> int {
    (c as u32) as int - 48
}

/// The first position at or after `i` that does not hold a digit.
pub open spec fn digits_end(s: Seq<char>, i: int) -> int
    decreases s.len() - i,
{
    if 0 <= i < s.len() && is_digit(s[i]) {
        digits_end(s, i + 1)
    } else {
        i
    }
}

/// `digits_end` stays within the input, and everything before it is a digit.
pub proof fn lemma_digits_end(s: Seq<char>, i: int)
    requires
        0 <= i <= s.len(),
    ensures
        i <= digits_end(s, i) <= s.len(),
        forall|t: int| i <= t < digits_end(s, i) ==> is_digit(#[trigger] s[t]),
    decreases s.len() - i,
{
    if i < s.len() && is_digit(s[i]) {
        lemma_digits_end(s, i + 1);
    }
}

/// The value of the digits in `s[i..e)`.
pub open spec fn digits_val(s: Seq<char>, i: int, e: int) -> int
    decreases e - i,
{
    if i >= e {
        0
    } else {
        digits_val(s, i, e - 1) * 10 + digit_val(s[e - 1])
    }
}

/// The digits after a possible sign: their value (signed) and end position.
/// A leading zero before further digits is rejected.
pub open spec fn parse_uint(s: Seq<char>, d0: int, neg: bool) -> Option<(int, int)> {
    if 0 <= d0 < s.len() && is_digit(s[d0]) {
        let e = digits_end(s, d0);
        if s[d0] == '0' && e > d0 + 1 {
            None
        } else {
            let v = digits_val(s, d0, e);
            Some(((if neg { -v } else { v }), e))
        }
    } else {
        None
    }
}

/// An integer at `i`: an optional minus sign and decimal digits.
pub open spec fn parse_int(s: Seq<char>, i: int) -> Option<(int, int)> {
    if i < 0 || i >= s.len() {
        None
    } else if s[i] == '-' {
        parse_uint(s, i + 1, true)
    } else {
        parse_uint(s, i, false)
    }
}

/// One object member starting at or after `i`: its key, its value (a string
/// or an integer), and the position after the value and any blank space.
pub open spec fn parse_member(s: Seq<char>, i: int) -> Option<
    (Seq<char>, Option<Seq<char>>, Option<int>, int),
> {
    let k0 = skip_ws(s, i);
    if !(0 <= k0 < s.len() && s[k0] == '"') {
        None
    } else {
        match parse_string_rest(s, k0 + 1) {
            None => None,
            Some(key) => {
                let c0 = skip_ws(s, key.1);
                if !(c0 < s.len() && s[c0] == ':') {
                    None
                } else {
                    let v0 = skip_ws(s, c0 + 1);
                    if v0 < s.len() && s[v0] == '"' {
                        match parse_string_rest(s, v0 + 1) {
                            None => None,
                            Some(v) => Some((key.0, Some(v.0), None, skip_ws(s, v.1))),
                        }
                    } else if v0 < s.len() && (s[v0] == '-' || is_digit(s[v0])) {
                        match parse_int(s, v0) {
                            None => None,
                            Some(n) => Some((key.0, None, Some(n.0), skip_ws(s, n.1))),
                        }
                    } else {
                        None
                    }
                }
            },
        }
    }
}

/// The key of the `name` member.
pub open spec fn key_name() -> Seq<char> {
    seq!['n', 'a', 'm', 'e']
}

/// The key of the `image` member.
pub open spec fn key_image() -> Seq<char> {
    seq!['i', 'm', 'a', 'g', 'e']
}

/// The key of the `price` member.
pub open spec fn key_price() -> Seq<char> {
    seq!['p', 'r', 'i', 'c', 'e']
}

/// The string value stored under `key`, among three distinct members.
pub open spec fn pick_string(
    key: Seq<char>,
    k1: Seq<char>,
    s1: Option<Seq<char>>,
    k2: Seq<char>,
    s2: Option<Seq<char>>,
    k3: Seq<char>,
    s3: Option<Seq<char>>,
) -> Option<Seq<char>> {
    if k1 == key {
        s1
    } else if k2 == key {
        s2
    } else if k3 == key {
        s3
    } else {
        None
    }
}

/// The integer value stored under `key`, among three distinct members.
pub open spec fn pick_int(
    key: Seq<char>,
    k1: Seq<char>,
    n1: Option<int>,
    k2: Seq<char>,
    n2: Option<int>,
    k3: Seq<char>,
    n3: Option<int>,
) -> Option<int> {
    if k1 == key {
        n1
    } else if k2 == key {
        n2
    } else if k3 == key {
        n3
    } else {
        None
    }
}

/// The accepted create/update payload: one object holding the members
/// `name` (a string), `image` (a string) and `price` (an integer that fits
/// a 32-bit signed value), each exactly once, in any order, and nothing
/// after the closing brace but blank space.
pub open spec fn parse_payload(s: Seq<char>) -> Option<NewProductView> {
    let i0 = skip_ws(s, 0);
    if !(0 <= i0 < s.len() && s[i0] == '{') {
        None
    } else {
        match parse_member(s, i0 + 1) {
            None => None,
            Some(m1) => {
                if !(m1.3 < s.len() && s[m1.3] == ',') {
                    None
                } else {
                    match parse_member(s, m1.3 + 1) {
                        None => None,
                        Some(m2) => {
                            if !(m2.3 < s.len() && s[m2.3] == ',') {
                                None
                            } else {
                                match parse_member(s, m2.3 + 1) {
                                    None => None,
                                    Some(m3) => {
                                        if !(m3.3 < s.len() && s[m3.3] == '}') {
                                            None
                                        } else if skip_ws(s, m3.3 + 1) != s.len() {
                                            None
                                        } else if m1.0 == m2.0 || m1.0 == m3.0 || m2.0 == m3.0 {
                                            None
                                        } else {
                                            payload_of(
                                                pick_string(
                                                    key_name(),
                                                    m1.0,
                                                    m1.1,
                                                    m2.0,
                                                    m2.1,
                                                    m3.0,
                                                    m3.1,
                                                ),
                                                pick_string(
                                                    key_image(),
                                                    m1.0,
                                                    m1.1,
                                                    m2.0,
                                                    m2.1,
                                                    m3.0,
                                                    m3.1,
                                                ),
                                                pick_int(
                                                    key_price(),
                                                    m1.0,
                                                    m1.2,
                                                    m2.0,
                                                    m2.2,
                                                    m3.0,
                                                    m3.2,
                                                ),
                                            )
                                        }
                                    },
                                }
                            }
                        },
                    }
                }
            },
        }
    }
}

/// The payload assembled from the three member values, when all three are
/// present and the price fits a 32-bit signed value.
pub open spec fn payload_of(
    name: Option<Seq<char>>,
    image: Option<Seq<char>>,
    price: Option<int>,
) -> Option<NewProductView> {
    match (name, image, price) {
        (Some(n), Some(im), Some(p)) => {
            if -0x8000_0000 <= p <= 0x7fff_ffff {
                Some(NewProductView { name: n, image: im, price: p })
            } else {
                None
            }
        },
        _ => None,
    }
}

/// The value of an optional character vector.
pub open spec fn opt_view(o: Option<Vec<char>>) -> Option<Seq<char>> {
    match o {
        Some(v) => Some(v@),
        None => None,
    }
}

/// How a scanned number relates to the number the specification parses:
/// a number marked as fitting is exact and within one of a 32-bit signed
/// value's bound; one marked as not fitting stands for a parsed value
/// outside that bound.
pub open spec fn num_matches(e: Option<(i64, bool)>, n: Option<int>) -> bool {
    match (e, n) {
        (None, None) => true,
        (Some(p), Some(v)) => (p.1 ==> p.0 as int == v && -0x8000_0000 <= v <= 0x8000_0000) && (
        !p.1 ==> (v > 0x8000_0000 || v < -0x8000_0000)),
        _ => false,
    }
}

/// The first position at or after `i` that does not hold blank space.
fn ws_end(s: &Vec<char>, i: usize) -> (r: usize)
    requires
        i <= s@.len(),
    ensures
        r as int == skip_ws(s@, i as int),
        i <= r <= s@.len(),
    decreases s@.len() - i,
{
    if i < s.len() {
        let c = s[i];
        if c == ' ' || c == '\t' || c == '\n' || c == '\r' {
            return ws_end(s, i + 1);
        }
    }
    i
}

/// What a backslash escape stands for, if it is accepted.
fn unescape_char(c: char) -> (r: Option<char>)
    ensures
        r == unescape(c),
{
    if c == '"' {
        Some('"')
    } else if c == '\\' {
        Some('\\')
    } else if c == '/' {
        Some('/')
    } else if c == 'n' {
        Some('\n')
    } else if c == 't' {
        Some('\t')
    } else if c == 'r' {
        Some('\r')
    } else if c == 'b' {
        Some('\u{8}')
    } else if c == 'f' {
        Some('\u{c}')
    } else {
        None
    }
}

/// Relies on `char::from_u32`: for a value below 0x10000 that is no
/// surrogate, the character of that Unicode scalar value.
#[verifier::external_body]
fn char_of_code(code: u32) -> (c: char)
    requires
        code < 0x10000,
        !is_surrogate(code as int),
    ensures
        c == code as char,
{
    char::from_u32(code).unwrap_or(' ')
}

/// Scans a string body whose opening quote stands just before `i`.
fn scan_string(s: &Vec<char>, i: usize) -> (r: Option<(Vec<char>, usize)>)
    requires
        i <= s@.len(),
    ensures
        match r {
            Some(p) => parse_string_rest(s@, i as int) == Some((p.0@, p.1 as int)) && i < p.1
                <= s@.len(),
            None => parse_string_rest(s@, i as int) is None,
        },
    decreases s@.len() - i,
{
    if i >= s.len() {
        return None;
    }
    let c = s[i];
    if c == '"' {
        let v: Vec<char> = Vec::new();
        proof {
            assert(v@ =~= Seq::<char>::empty());
        }
        return Some((v, i + 1));
    }
    if c == '\\' {
        if i + 1 < s.len() && s[i + 1] == 'u' {
            if s.len() - i < 6 {
                return None;
            }
            let h1 = crate::ids::hex_val_char(s[i + 2]);
            let h2 = crate::ids::hex_val_char(s[i + 3]);
            let h3 = crate::ids::hex_val_char(s[i + 4]);
            let h4 = crate::ids::hex_val_char(s[i + 5]);
            if h1 >= 16 || h2 >= 16 || h3 >= 16 || h4 >= 16 {
                return None;
            }
            let code: u32 = ((h1 as u32 * 16 + h2 as u32) * 16 + h3 as u32) * 16 + h4 as u32;
            proof {
                assert(code as int == escape_code(s@, i as int + 1));
            }
            if 0xD800 <= code && code < 0xE000 {
                return None;
            }
            match scan_string(s, i + 6) {
                Some(p) => {
                    let mut v = p.0;
                    let ghost tail = v@;
                    let ec = char_of_code(code);
                    v.insert(0, ec);
                    proof {
                        assert(v@ =~= seq![ec] + tail);
                    }
                    Some((v, p.1))
                },
                None => None,
            }
        } else if i + 1 < s.len() {
            match unescape_char(s[i + 1]) {
                Some(ec) => match scan_string(s, i + 2) {
                    Some(p) => {
                        let mut v = p.0;
                        let ghost tail = v@;
                        v.insert(0, ec);
                        proof {
                            assert(v@ =~= seq![ec] + tail);
                        }
                        Some((v, p.1))
                    },
                    None => None,
                },
                None => None,
            }
        } else {
            None
        }
    } else if (c as u32) < 32 {
        None
    } else {
        match scan_string(s, i + 1) {
            Some(p) => {
                let mut v = p.0;
                let ghost tail = v@;
                v.insert(0, c);
                proof {
                    assert(v@ =~= seq![c] + tail);
                }
                Some((v, p.1))
            },
            None => None,
        }
    }
}

/// A decimal digit.
fn is_digit_char(c: char) -> (r: bool)
    ensures
        r == is_digit(c),
{
    let v = c as u32;
    48 <= v && v <= 57
}

/// The first position at or after `i` that does not hold a digit.
fn digits_end_at(s: &Vec<char>, i: usize) -> (r: usize)
    requires
        i <= s@.len(),
    ensures
        r as int == digits_end(s@, i as int),
        i <= r <= s@.len(),
    decreases s@.len() - i,
{
    if i < s.len() && is_digit_char(s[i]) {
        return digits_end_at(s, i + 1);
    }
    i
}

/// Scans an integer at `i`.  The flag says whether the value fits the
/// bound of a 32-bit signed value; when it does, the value is exact.
fn scan_int(s: &Vec<char>, i: usize) -> (r: Option<(i64, bool, usize)>)
    requires
        i <= s@.len(),
    ensures
        match r {
            Some(t) => parse_int(s@, i as int) matches Some(p) && p.1 == t.2 as int && t.2
                <= s@.len() && (t.1 ==> p.0 == t.0 as int && -0x8000_0000 <= p.0 <= 0x8000_0000) && (
            !t.1 ==> (p.0 > 0x8000_0000 || p.0 < -0x8000_0000)),
            None => parse_int(s@, i as int) is None,
        },
{
    if i >= s.len() {
        return None;
    }
    let neg = s[i] == '-';
    let d0 = if neg {
        i + 1
    } else {
        i
    };
    if d0 >= s.len() {
        return None;
    }
    if !is_digit_char(s[d0]) {
        return None;
    }
    proof {
        lemma_digits_end(s@, d0 as int);
    }
    let e = digits_end_at(s, d0);
    if s[d0] == '0' && e > d0 + 1 {
        return None;
    }
    let mut acc: u64 = 0;
    let mut fits = true;
    let mut j = d0;
    while j < e
        invariant
            d0 <= j <= e <= s@.len(),
            e as int == digits_end(s@, d0 as int),
            forall|t: int| d0 <= t < e ==> is_digit(#[trigger] s@[t]),
            acc <= 0x8000_0000,
            fits ==> acc as int == digits_val(s@, d0 as int, j as int),
            !fits ==> digits_val(s@, d0 as int, j as int) > 0x8000_0000,
        decreases e - j,
    {
        let v: u32 = s[j] as u32;
        proof {
            assert(is_digit(s@[j as int]));
        }
        let d: u64 = (v - 48) as u64;
        if fits {
            let next: u64 = acc * 10 + d;
            if next > 0x8000_0000 {
                fits = false;
            } else {
                acc = next;
            }
        } else {
            proof {
                let dv = digits_val(s@, d0 as int, j as int);
                assert(digits_val(s@, d0 as int, j as int + 1) == dv * 10 + digit_val(
                    s@[j as int],
                ));
            }
        }
        j += 1;
    }
    let value: i64 = if neg {
        -(acc as i64)
    } else {
        acc as i64
    };
    Some((value, fits, e))
}

/// Whether two character vectors hold the same characters.
fn chars_eq(a: &Vec<char>, b: &Vec<char>) -> (r: bool)
    ensures
        r == (a@ == b@),
{
    if a.len() != b.len() {
        return false;
    }
    let mut i: usize = 0;
    while i < a.len()
        invariant
            i <= a.len(),
            a@.len() == b@.len(),
            forall|j: int| 0 <= j < i ==> a@[j] == b@[j],
        decreases a.len() - i,
    {
        if a[i] != b[i] {
            return false;
        }
        i += 1;
    }
    proof {
        assert(a@ =~= b@);
    }
    true
}

/// A field-for-field copy of a character vector.
fn dup_chars(v: &Vec<char>) -> (r: Vec<char>)
    ensures
        r@ == v@,
{
    let mut out: Vec<char> = Vec::new();
    let mut i: usize = 0;
    while i < v.len()
        invariant
            i <= v.len(),
            out@ == v@.subrange(0, i as int),
        decreases v.len() - i,
    {
        out.push(v[i]);
        proof {
            assert(out@ =~= v@.subrange(0, i as int + 1));
        }
        i += 1;
    }
    proof {
        assert(out@ =~= v@);
    }
    out
}

/// A copy of an optional character vector.
fn dup_opt(o: &Option<Vec<char>>) -> (r: Option<Vec<char>>)
    ensures
        opt_view(r) == opt_view(*o),
{
    match o {
        Some(v) => Some(dup_chars(v)),
        None => None,
    }
}

/// Scans one object member starting at or after `i`.
fn scan_member(s: &Vec<char>, i: usize) -> (r: Option<
    (Vec<char>, Option<Vec<char>>, Option<(i64, bool)>, usize),
>)
    requires
        i <= s@.len(),
    ensures
        match r {
            Some(m) => parse_member(s@, i as int) matches Some(sm) && sm.0 == m.0@ && sm.1
                == opt_view(m.1) && num_matches(m.2, sm.2) && sm.3 == m.3 as int && m.3 <= s@.len(),
            None => parse_member(s@, i as int) is None,
        },
{
    let k0 = ws_end(s, i);
    if k0 >= s.len() {
        return None;
    }
    if s[k0] != '"' {
        return None;
    }
    match scan_string(s, k0 + 1) {
        None => None,
        Some(kp) => {
            let key = kp.0;
            let c0 = ws_end(s, kp.1);
            if c0 >= s.len() {
                return None;
            }
            if s[c0] != ':' {
                return None;
            }
            let v0 = ws_end(s, c0 + 1);
            if v0 < s.len() && s[v0] == '"' {
                match scan_string(s, v0 + 1) {
                    None => None,
                    Some(vp) => {
                        let e = ws_end(s, vp.1);
                        Some((key, Some(vp.0), None, e))
                    },
                }
            } else if v0 < s.len() && (s[v0] == '-' || is_digit_char(s[v0])) {
                match scan_int(s, v0) {
                    None => None,
                    Some(np) => {
                        let e = ws_end(s, np.2);
                        Some((key, None, Some((np.0, np.1)), e))
                    },
                }
            } else {
                None
            }
        },
    }
}

/// Parses a create/update payload.  The result is the payload that
/// [`parse_payload`] gives on the same input; anything the specification
/// rejects is reported as `BadRequest`.
pub fn parse_new_product(body: &Vec<char>) -> (r: Result<NewProduct, RepoError>)
    ensures
        match r {
            Ok(np) => parse_payload(body@) == Some(np@),
            Err(e) => e == RepoError::BadRequest && parse_payload(body@) is None,
        },
{
    let i0 = ws_end(body, 0);
    if i0 >= body.len() {
        return Err(RepoError::BadRequest);
    }
    if body[i0] != '{' {
        return Err(RepoError::BadRequest);
    }
    let m1 = match scan_member(body, i0 + 1) {
        None => {
            return Err(RepoError::BadRequest);
        },
        Some(m) => m,
    };
    if m1.3 >= body.len() {
        return Err(RepoError::BadRequest);
    }
    if body[m1.3] != ',' {
        return Err(RepoError::BadRequest);
    }
    let m2 = match scan_member(body, m1.3 + 1) {
        None => {
            return Err(RepoError::BadRequest);
        },
        Some(m) => m,
    };
    if m2.3 >= body.len() {
        return Err(RepoError::BadRequest);
    }
    if body[m2.3] != ',' {
        return Err(RepoError::BadRequest);
    }
    let m3 = match scan_member(body, m2.3 + 1) {
        None => {
            return Err(RepoError::BadRequest);
        },
        Some(m) => m,
    };
    if m3.3 >= body.len() {
        return Err(RepoError::BadRequest);
    }
    if body[m3.3] != '}' {
        return Err(RepoError::BadRequest);
    }
    if ws_end(body, m3.3 + 1) != body.len() {
        return Err(RepoError::BadRequest);
    }
    let (k1, s1, n1, _e1) = m1;
    let (k2, s2, n2, _e2) = m2;
    let (k3, s3, n3, _e3) = m3;
    if chars_eq(&k1, &k2) || chars_eq(&k1, &k3) || chars_eq(&k2, &k3) {
        return Err(RepoError::BadRequest);
    }
    let name_key: Vec<char> = vec!['n', 'a', 'm', 'e'];
    let image_key: Vec<char> = vec!['i', 'm', 'a', 'g', 'e'];
    let price_key: Vec<char> = vec!['p', 'r', 'i', 'c', 'e'];
    proof {
        assert(name_key@ =~= key_name());
        assert(image_key@ =~= key_image());
        assert(price_key@ =~= key_price());
    }
    let nv: Option<Vec<char>> = if chars_eq(&k1, &name_key) {
        dup_opt(&s1)
    } else if chars_eq(&k2, &name_key) {
        dup_opt(&s2)
    } else if chars_eq(&k3, &name_key) {
        dup_opt(&s3)
    } else {
        None
    };
    let iv: Option<Vec<char>> = if chars_eq(&k1, &image_key) {
        dup_opt(&s1)
    } else if chars_eq(&k2, &image_key) {
        dup_opt(&s2)
    } else if chars_eq(&k3, &image_key) {
        dup_opt(&s3)
    } else {
        None
    };
    let pv: Option<(i64, bool)> = if chars_eq(&k1, &price_key) {
        n1
    } else if chars_eq(&k2, &price_key) {
        n2
    } else if chars_eq(&k3, &price_key) {
        n3
    } else {
        None
    };
    match (nv, iv, pv) {
        (Some(n), Some(im), Some(p)) => {
            if p.1 && p.0 <= 0x7fff_ffffi64 {
                Ok(NewProduct { name: n, image: im, price: p.0 as i32 })
            } else {
                Err(RepoError::BadRequest)
            }
        },
        _ => Err(RepoError::BadRequest),
    }
}

} // verus!
