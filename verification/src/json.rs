//! The JSON wire format: rendering records, record lists and name lists,
//! and parsing the create/update payload.
//!
//! The accepted payload is one JSON object holding exactly the members
//! `name` (a string), `image` (a string) and `price` (an integer that fits
//! a 32-bit signed value), each once, in any order, with any amount of
//! blank space between tokens.  String escapes are the single-character
//! ones (`\"`, `\\`, `\/`, `\b`, `\f`, `\n`, `\r`, `\t`) and `\uXXXX` of
//! any non-surrogate code point; surrogate pairs are not accepted, so a
//! character beyond 0xFFFF is sent as itself.  Rendering escapes `"`,
//! `\` and the control characters.

use vstd::prelude::*;

use crate::ids::{hex_digit, uuid_chars, uuid_str};
use crate::product::{views_of, Product, ProductView};

verus! {

// ---------------------------------------------------------------- rendering
/// How one character is spelled inside a rendered JSON string.
pub open spec fn json_escape_char(c: char) -> Seq<char> {
    if c == '"' {
        seq!['\\', '"']
    } else if c == '\\' {
        seq!['\\', '\\']
    } else if (c as u32) < 32 {
        seq!['\\', 'u', '0', '0', hex_digit((c as u32) as int / 16), hex_digit((c as u32) as int % 16)]
    } else {
        seq![c]
    }
}

/// The rendered body of a JSON string, escaped character by character.
pub open spec fn json_escape(s: Seq<char>) -> Seq<char>
    decreases s.len(),
{
    if s.len() == 0 {
        Seq::empty()
    } else {
        json_escape(s.drop_last()) + json_escape_char(s.last())
    }
}

/// A rendered JSON string: the escaped body between quotes.
pub open spec fn json_string(s: Seq<char>) -> Seq<char> {
    seq!['"'] + json_escape(s) + seq!['"']
}

/// The decimal digits of a non-negative number, most significant first.
pub open spec fn dec_digits(n: int) -> Seq<char>
    decreases n,
{
    if n < 10 {
        seq![hex_digit(if n < 0 { 0 } else { n })]
    } else {
        dec_digits(n / 10).push(hex_digit(n % 10))
    }
}

/// The decimal rendering of an integer, with a sign when negative.
pub open spec fn int_chars(n: int) -> Seq<char> {
    if n < 0 {
        seq!['-'] + dec_digits(-n)
    } else {
        dec_digits(n)
    }
}

/// The rendered JSON object of one record, fields in declaration order.
pub open spec fn product_json(p: ProductView) -> Seq<char> {
    seq!['{', '"', 'i', 'd', '"', ':', '"'] + uuid_str(p.id) + seq!['"', ',', '"', 'n', 'a', 'm', 'e', '"', ':']
        + json_string(p.name) + seq![',', '"', 'i', 'm', 'a', 'g', 'e', '"', ':'] + json_string(p.image)
        + seq![',', '"', 'p', 'r', 'i', 'c', 'e', '"', ':'] + int_chars(p.price) + seq!['}']
}

/// The first `n` records of `s`, rendered and separated by commas.
pub open spec fn products_upto(s: Seq<ProductView>, n: int) -> Seq<char>
    decreases n,
{
    if n <= 0 {
        Seq::empty()
    } else if n == 1 {
        product_json(s[0])
    } else {
        products_upto(s, n - 1) + seq![','] + product_json(s[n - 1])
    }
}

/// The rendered JSON array of a sequence of records.
pub open spec fn products_json(s: Seq<ProductView>) -> Seq<char> {
    seq!['['] + products_upto(s, s.len() as int) + seq![']']
}

/// The first `n` strings of `s`, rendered and separated by commas.
pub open spec fn strings_upto(s: Seq<Seq<char>>, n: int) -> Seq<char>
    decreases n,
{
    if n <= 0 {
        Seq::empty()
    } else if n == 1 {
        json_string(s[0])
    } else {
        strings_upto(s, n - 1) + seq![','] + json_string(s[n - 1])
    }
}

/// The rendered JSON array of a sequence of strings.
pub open spec fn strings_json(s: Seq<Seq<char>>) -> Seq<char> {
    seq!['['] + strings_upto(s, s.len() as int) + seq![']']
}

/// Appends the rendering of one character of a JSON string body.
fn push_escape_char(out: &mut Vec<char>, c: char)
    ensures
        final(out)@ == old(out)@ + json_escape_char(c),
{
    if c == '"' {
        out.push('\\');
        out.push('"');
    } else if c == '\\' {
        out.push('\\');
        out.push('\\');
    } else if (c as u32) < 32 {
        let v: u32 = c as u32;
        out.push('\\');
        out.push('u');
        out.push('0');
        out.push('0');
        out.push(crate::ids::hex_digit_char((v / 16) as u8));
        out.push(crate::ids::hex_digit_char((v % 16) as u8));
    }
    else {
        out.push(c);
    }
    proof {
        assert(final(out)@ =~= old(out)@ + json_escape_char(c));
    }
}

/// Appends a rendered JSON string.
fn push_json_string(out: &mut Vec<char>, s: &Vec<char>)
    ensures
        final(out)@ == old(out)@ + json_string(s@),
{
    out.push('"');
    let ghost start = out@;
    let mut i: usize = 0;
    while i < s.len()
        invariant
            i <= s.len(),
            out@ == start + json_escape(s@.subrange(0, i as int)),
        decreases s.len() - i,
    {
        proof {
            assert(s@.subrange(0, i as int + 1).drop_last() =~= s@.subrange(0, i as int));
            assert(s@.subrange(0, i as int + 1).last() == s@[i as int]);
        }
        push_escape_char(out, s[i]);
        i += 1;
    }
    proof {
        assert(s@.subrange(0, s@.len() as int) =~= s@);
    }
    out.push('"');
    proof {
        assert(final(out)@ =~= old(out)@ + json_string(s@));
    }
}

/// Appends the decimal digits of a non-negative number.
fn push_dec(out: &mut Vec<char>, n: u64)
    ensures
        final(out)@ == old(out)@ + dec_digits(n as int),
    decreases n,
{
    if n < 10 {
        out.push(crate::ids::hex_digit_char(n as u8));
        proof {
            assert(final(out)@ =~= old(out)@ + dec_digits(n as int));
        }
    } else {
        push_dec(out, n / 10);
        out.push(crate::ids::hex_digit_char((n % 10) as u8));
        proof {
            assert(final(out)@ =~= old(out)@ + dec_digits(n as int));
        }
    }
}

/// Appends the decimal rendering of a 32-bit integer.
fn push_int(out: &mut Vec<char>, n: i32)
    ensures
        final(out)@ == old(out)@ + int_chars(n as int),
{
    let wide: i64 = n as i64;
    if wide < 0 {
        out.push('-');
        push_dec(out, (-wide) as u64);
        proof {
            assert(final(out)@ =~= old(out)@ + int_chars(n as int));
        }
    } else {
        push_dec(out, wide as u64);
    }
}

/// Appends the rendered JSON object of one record.
#[verifier::rlimit(100)]
pub fn push_product_json(out: &mut Vec<char>, p: &Product)
    ensures
        final(out)@ == old(out)@ + product_json(p@),
{
    out.push('{');
    out.push('"');
    out.push('i');
    out.push('d');
    out.push('"');
    out.push(':');
    out.push('"');
    let mut u = uuid_chars(p.id);
    out.append(&mut u);
    out.push('"');
    out.push(',');
    out.push('"');
    out.push('n');
    out.push('a');
    out.push('m');
    out.push('e');
    out.push('"');
    out.push(':');
    push_json_string(out, &p.name);
    out.push(',');
    out.push('"');
    out.push('i');
    out.push('m');
    out.push('a');
    out.push('g');
    out.push('e');
    out.push('"');
    out.push(':');
    push_json_string(out, &p.image);
    out.push(',');
    out.push('"');
    out.push('p');
    out.push('r');
    out.push('i');
    out.push('c');
    out.push('e');
    out.push('"');
    out.push(':');
    push_int(out, p.price);
    out.push('}');
    proof {
        assert(final(out)@ =~= old(out)@ + product_json(p@));
    }
}

/// The rendered JSON object of one record.
pub fn product_to_json(p: &Product) -> (r: Vec<char>)
    ensures
        r@ == product_json(p@),
{
    let mut out: Vec<char> = Vec::new();
    push_product_json(&mut out, p);
    proof {
        assert(out@ =~= product_json(p@));
    }
    out
}

/// The rendered JSON array of a list of records.
pub fn products_to_json(v: &Vec<Product>) -> (r: Vec<char>)
    ensures
        r@ == products_json(views_of(v@)),
{
    let mut out: Vec<char> = Vec::new();
    out.push('[');
    let ghost vs = views_of(v@);
    let mut i: usize = 0;
    while i < v.len()
        invariant
            i <= v.len(),
            vs == views_of(v@),
            vs.len() == v@.len(),
            out@ == seq!['['] + products_upto(vs, i as int),
        decreases v.len() - i,
    {
        if i > 0 {
            out.push(',');
        }
        push_product_json(&mut out, &v[i]);
        proof {
            assert(vs[i as int] == v@[i as int]@);
            assert(out@ =~= seq!['['] + products_upto(vs, i as int + 1));
        }
        i += 1;
    }
    out.push(']');
    proof {
        assert(out@ =~= products_json(vs));
    }
    out
}

/// The values of a list of names, element for element.
pub open spec fn names_of(s: Seq<Vec<char>>) -> Seq<Seq<char>> {
    s.map_values(|v: Vec<char>| v@)
}

/// The rendered JSON array of a list of strings.
pub fn strings_to_json(v: &Vec<Vec<char>>) -> (r: Vec<char>)
    ensures
        r@ == strings_json(names_of(v@)),
{
    let mut out: Vec<char> = Vec::new();
    out.push('[');
    let ghost vs = names_of(v@);
    let mut i: usize = 0;
    while i < v.len()
        invariant
            i <= v.len(),
            vs == names_of(v@),
            vs.len() == v@.len(),
            out@ == seq!['['] + strings_upto(vs, i as int),
        decreases v.len() - i,
    {
        if i > 0 {
            out.push(',');
        }
        push_json_string(&mut out, &v[i]);
        proof {
            assert(vs[i as int] == v@[i as int]@);
            assert(out@ =~= seq!['['] + strings_upto(vs, i as int + 1));
        }
        i += 1;
    }
    out.push(']');
    proof {
        assert(out@ =~= strings_json(vs));
    }
    out
}

} // verus!
