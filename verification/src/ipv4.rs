//! IPv4 addresses as 32-bit values and their dotted-decimal text.
//!
//! An address has exactly one text: four octet numerals without leading
//! zeros, joined by dots. Parsing accepts that text and nothing else, so
//! parsing and formatting are inverse to each other in both directions.

use crate::text::{
    all_digits, capped_value, decimal_text, decimal_value, digits_end, is_digit, is_numeral,
    lemma_decimal_text_is_numeral, lemma_decimal_text_of_value, lemma_decimal_value_bound,
    lemma_digits_end, lemma_digits_end_bounds, lemma_value_of_decimal_text, push_decimal, run_end,
};
use vstd::arithmetic::div_mod::{
    lemma_div_denominator, lemma_fundamental_div_mod, lemma_fundamental_div_mod_converse,
};
use vstd::prelude::*;

verus! {

/// The octets of `a`, the most significant first. `i` runs from 0 to 3.
pub open spec fn octet(a: u32, i: int) -> nat {
    if i == 0 {
        (a / 0x100_0000) as nat
    } else if i == 1 {
        ((a / 0x1_0000) % 256) as nat
    } else if i == 2 {
        ((a / 256) % 256) as nat
    } else {
        (a % 256) as nat
    }
}

/// The address with the given octets, the most significant first.
pub open spec fn from_octets(o0: nat, o1: nat, o2: nat, o3: nat) -> nat {
    o0 * 0x100_0000 + o1 * 0x1_0000 + o2 * 256 + o3
}

/// Four texts joined by dots.
pub open spec fn dotted(t0: Seq<char>, t1: Seq<char>, t2: Seq<char>, t3: Seq<char>) -> Seq<char> {
    t0 + seq!['.'] + t1 + seq!['.'] + t2 + seq!['.'] + t3
}

/// The dotted-decimal text of `a`, such as `10.0.0.1`.
pub open spec fn ipv4_text(a: u32) -> Seq<char> {
    dotted(
        decimal_text(octet(a, 0)),
        decimal_text(octet(a, 1)),
        decimal_text(octet(a, 2)),
        decimal_text(octet(a, 3)),
    )
}

/// The address that `s` is the text of, or `None` where `s` is the text of
/// no address.
pub open spec fn address_of(s: Seq<char>) -> Option<u32> {
    if exists|a: u32| ipv4_text(a) == s {
        Some(choose|a: u32| ipv4_text(a) == s)
    } else {
        None
    }
}

/// The octet that `t` is the numeral of, if it is one.
pub open spec fn octet_of(t: Seq<char>) -> Option<u8> {
    if is_numeral(t) && decimal_value(t) <= 255 {
        Some(decimal_value(t) as u8)
    } else {
        None
    }
}

/// What reading `s` from left to right finds: four runs of digits, each the
/// numeral of an octet, with a dot after each but the last, and nothing
/// else.
pub open spec fn scan(s: Seq<char>) -> Option<u32> {
    let e0 = digits_end(s, 0);
    let e1 = digits_end(s, e0 + 1);
    let e2 = digits_end(s, e1 + 1);
    let e3 = digits_end(s, e2 + 1);
    let o0 = octet_of(s.subrange(0, e0));
    let o1 = octet_of(s.subrange(e0 + 1, e1));
    let o2 = octet_of(s.subrange(e1 + 1, e2));
    let o3 = octet_of(s.subrange(e2 + 1, e3));
    if e0 < s.len() && s[e0] == '.' && e1 < s.len() && s[e1] == '.' && e2 < s.len() && s[e2]
        == '.' && e3 == s.len() && o0 is Some && o1 is Some && o2 is Some && o3 is Some {
        Some(
            from_octets(
                o0.unwrap() as nat,
                o1.unwrap() as nat,
                o2.unwrap() as nat,
                o3.unwrap() as nat,
            ) as u32,
        )
    } else {
        None
    }
}

/// Where each part of a dotted text lies.
pub proof fn lemma_dotted_layout(t0: Seq<char>, t1: Seq<char>, t2: Seq<char>, t3: Seq<char>)
    ensures
        ({
            let s = dotted(t0, t1, t2, t3);
            let e0 = t0.len() as int;
            let e1 = e0 + 1 + t1.len();
            let e2 = e1 + 1 + t2.len();
            let e3 = e2 + 1 + t3.len();
            &&& s.len() == e3
            &&& s.subrange(0, e0) == t0
            &&& s[e0] == '.'
            &&& s.subrange(e0 + 1, e1) == t1
            &&& s[e1] == '.'
            &&& s.subrange(e1 + 1, e2) == t2
            &&& s[e2] == '.'
            &&& s.subrange(e2 + 1, e3) == t3
        }),
{
    let s = dotted(t0, t1, t2, t3);
    let e0 = t0.len() as int;
    let e1 = e0 + 1 + t1.len();
    let e2 = e1 + 1 + t2.len();
    let e3 = e2 + 1 + t3.len();
    assert(s.subrange(0, e0) =~= t0);
    assert(s.subrange(e0 + 1, e1) =~= t1);
    assert(s.subrange(e1 + 1, e2) =~= t2);
    assert(s.subrange(e2 + 1, e3) =~= t3);
}

/// The octets of an address put together give the address.
pub proof fn lemma_octets(a: u32)
    ensures
        octet(a, 0) <= 255,
        octet(a, 1) <= 255,
        octet(a, 2) <= 255,
        octet(a, 3) <= 255,
        from_octets(octet(a, 0), octet(a, 1), octet(a, 2), octet(a, 3)) == a,
{
    let x = a as int;
    lemma_fundamental_div_mod(x, 256);
    lemma_fundamental_div_mod(x / 256, 256);
    lemma_fundamental_div_mod(x / 0x1_0000, 256);
    lemma_div_denominator(x, 256, 256);
    lemma_div_denominator(x, 0x1_0000, 256);
}

/// An address put together from octets has those octets.
pub proof fn lemma_from_octets(o0: nat, o1: nat, o2: nat, o3: nat)
    requires
        o0 <= 255,
        o1 <= 255,
        o2 <= 255,
        o3 <= 255,
    ensures
        from_octets(o0, o1, o2, o3) <= u32::MAX,
        octet(from_octets(o0, o1, o2, o3) as u32, 0) == o0,
        octet(from_octets(o0, o1, o2, o3) as u32, 1) == o1,
        octet(from_octets(o0, o1, o2, o3) as u32, 2) == o2,
        octet(from_octets(o0, o1, o2, o3) as u32, 3) == o3,
{
    let a = from_octets(o0, o1, o2, o3) as int;
    let (b0, b1, b2, b3) = (o0 as int, o1 as int, o2 as int, o3 as int);
    lemma_fundamental_div_mod_converse(a, 0x100_0000, b0, b1 * 0x1_0000 + b2 * 256 + b3);
    lemma_fundamental_div_mod_converse(a, 0x1_0000, b0 * 256 + b1, b2 * 256 + b3);
    lemma_fundamental_div_mod_converse(b0 * 256 + b1, 256, b0, b1);
    lemma_fundamental_div_mod_converse(a, 256, b0 * 0x1_0000 + b1 * 256 + b2, b3);
    lemma_fundamental_div_mod_converse(b0 * 0x1_0000 + b1 * 256 + b2, 256, b0 * 256 + b1, b2);
}

/// The text of an address holds digits and dots only.
pub proof fn lemma_ipv4_text_chars(a: u32)
    ensures
        forall|i: int|
            0 <= i < ipv4_text(a).len() ==> is_digit(#[trigger] ipv4_text(a)[i]) || ipv4_text(
                a,
            )[i] == '.',
{
    let t0 = decimal_text(octet(a, 0));
    let t1 = decimal_text(octet(a, 1));
    let t2 = decimal_text(octet(a, 2));
    let t3 = decimal_text(octet(a, 3));
    let s = ipv4_text(a);
    let e0 = t0.len() as int;
    let e1 = e0 + 1 + t1.len();
    let e2 = e1 + 1 + t2.len();
    let e3 = e2 + 1 + t3.len();
    lemma_dotted_layout(t0, t1, t2, t3);
    lemma_decimal_text_is_numeral(octet(a, 0));
    lemma_decimal_text_is_numeral(octet(a, 1));
    lemma_decimal_text_is_numeral(octet(a, 2));
    lemma_decimal_text_is_numeral(octet(a, 3));
    assert forall|i: int| 0 <= i < s.len() implies is_digit(#[trigger] s[i]) || s[i] == '.' by {
        if i < e0 {
            assert(s[i] == s.subrange(0, e0)[i]);
        } else if e0 < i < e1 {
            assert(s[i] == s.subrange(e0 + 1, e1)[i - (e0 + 1)]);
        } else if e1 < i < e2 {
            assert(s[i] == s.subrange(e1 + 1, e2)[i - (e1 + 1)]);
        } else if e2 < i {
            assert(s[i] == s.subrange(e2 + 1, e3)[i - (e2 + 1)]);
        }
    }
}

/// Reading the text of an address finds that address.
pub proof fn lemma_scan_of_text(a: u32)
    ensures
        scan(ipv4_text(a)) == Some(a),
{
    let t0 = decimal_text(octet(a, 0));
    let t1 = decimal_text(octet(a, 1));
    let t2 = decimal_text(octet(a, 2));
    let t3 = decimal_text(octet(a, 3));
    let s = ipv4_text(a);
    let e0 = t0.len() as int;
    let e1 = e0 + 1 + t1.len();
    let e2 = e1 + 1 + t2.len();
    let e3 = e2 + 1 + t3.len();
    lemma_octets(a);
    lemma_dotted_layout(t0, t1, t2, t3);
    lemma_decimal_text_is_numeral(octet(a, 0));
    lemma_decimal_text_is_numeral(octet(a, 1));
    lemma_decimal_text_is_numeral(octet(a, 2));
    lemma_decimal_text_is_numeral(octet(a, 3));
    lemma_value_of_decimal_text(octet(a, 0));
    lemma_value_of_decimal_text(octet(a, 1));
    lemma_value_of_decimal_text(octet(a, 2));
    lemma_value_of_decimal_text(octet(a, 3));
    assert forall|i: int| 0 <= i < e0 implies is_digit(#[trigger] s[i]) by {
        assert(s[i] == s.subrange(0, e0)[i]);
    }
    lemma_digits_end(s, 0, e0);
    assert forall|i: int| e0 + 1 <= i < e1 implies is_digit(#[trigger] s[i]) by {
        assert(s[i] == s.subrange(e0 + 1, e1)[i - (e0 + 1)]);
    }
    lemma_digits_end(s, e0 + 1, e1);
    assert forall|i: int| e1 + 1 <= i < e2 implies is_digit(#[trigger] s[i]) by {
        assert(s[i] == s.subrange(e1 + 1, e2)[i - (e1 + 1)]);
    }
    lemma_digits_end(s, e1 + 1, e2);
    assert forall|i: int| e2 + 1 <= i < e3 implies is_digit(#[trigger] s[i]) by {
        assert(s[i] == s.subrange(e2 + 1, e3)[i - (e2 + 1)]);
    }
    lemma_digits_end(s, e2 + 1, e3);
}

/// What reading finds is an address whose text is what was read.
pub proof fn lemma_text_of_scan(s: Seq<char>)
    requires
        scan(s) is Some,
    ensures
        ipv4_text(scan(s).unwrap()) == s,
{
    let e0 = digits_end(s, 0);
    let e1 = digits_end(s, e0 + 1);
    let e2 = digits_end(s, e1 + 1);
    let e3 = digits_end(s, e2 + 1);
    let t0 = s.subrange(0, e0);
    let t1 = s.subrange(e0 + 1, e1);
    let t2 = s.subrange(e1 + 1, e2);
    let t3 = s.subrange(e2 + 1, e3);
    let o0 = decimal_value(t0);
    let o1 = decimal_value(t1);
    let o2 = decimal_value(t2);
    let o3 = decimal_value(t3);
    lemma_decimal_text_of_value(t0);
    lemma_decimal_text_of_value(t1);
    lemma_decimal_text_of_value(t2);
    lemma_decimal_text_of_value(t3);
    lemma_from_octets(o0, o1, o2, o3);
    lemma_digits_end_bounds(s, 0);
    lemma_digits_end_bounds(s, e0 + 1);
    lemma_digits_end_bounds(s, e1 + 1);
    lemma_digits_end_bounds(s, e2 + 1);
    assert(s =~= dotted(t0, t1, t2, t3));
}

/// No two addresses share a text.
pub proof fn lemma_ipv4_text_injective(a: u32, b: u32)
    requires
        ipv4_text(a) == ipv4_text(b),
    ensures
        a == b,
{
    lemma_scan_of_text(a);
    lemma_scan_of_text(b);
}

/// Reading finds exactly the address that the text belongs to.
pub proof fn lemma_scan_is_address_of(s: Seq<char>)
    ensures
        scan(s) == address_of(s),
{
    if scan(s) is Some {
        lemma_text_of_scan(s);
        let a = scan(s).unwrap();
        let b = choose|b: u32| ipv4_text(b) == s;
        lemma_ipv4_text_injective(a, b);
    } else if exists|a: u32| ipv4_text(a) == s {
        let a = choose|a: u32| ipv4_text(a) == s;
        lemma_scan_of_text(a);
    }
}

/// Parsing the text of an address gives that address.
pub proof fn lemma_address_of_text(a: u32)
    ensures
        address_of(ipv4_text(a)) == Some(a),
{
    lemma_scan_of_text(a);
    lemma_scan_is_address_of(ipv4_text(a));
}

/// Appends the dotted-decimal text of `a` to `out`.
pub fn push_ipv4(out: &mut String, a: u32)
    ensures
        final(out)@ == old(out)@ + ipv4_text(a),
{
    push_decimal(out, a / 0x100_0000);
    out.push('.');
    push_decimal(out, (a / 0x1_0000) % 256);
    out.push('.');
    push_decimal(out, (a / 256) % 256);
    out.push('.');
    push_decimal(out, a % 256);
    assert(out@ =~= old(out)@ + ipv4_text(a));
}

/// The dotted-decimal text of `a`.
pub fn format_ipv4(a: u32) -> (s: String)
    ensures
        s@ == ipv4_text(a),
{
    let mut s = String::new();
    push_ipv4(&mut s, a);
    assert(s@ =~= ipv4_text(a));
    s
}

/// The octet written in `s[start..end]`.
fn read_octet(s: &[char], start: usize, end: usize) -> (r: Option<u8>)
    requires
        start <= end <= s@.len(),
        all_digits(s@.subrange(start as int, end as int)),
    ensures
        r == octet_of(s@.subrange(start as int, end as int)),
{
    let ghost run = s@.subrange(start as int, end as int);
    if end - start == 0 || end - start > 3 {
        proof {
            if end - start > 3 {
                if is_numeral(run) && decimal_value(run) <= 255 {
                    lemma_decimal_text_of_value(run);
                    lemma_decimal_text_is_numeral(decimal_value(run));
                }
            }
        }
        return None;
    }
    if end - start > 1 && s[start] == '0' {
        assert(run[0] == '0');
        return None;
    }
    let v = capped_value(s, start, end, 256);
    if v > 255 {
        None
    } else {
        proof {
            lemma_decimal_value_bound(run);
        }
        Some(v as u8)
    }
}

/// The address that `s` is the dotted-decimal text of.
///
/// `Some` exactly for the one text of each address: four numerals from 0
/// to 255 without leading zeros, with a dot between neighbours.
pub fn parse_ipv4(s: &[char]) -> (r: Option<u32>)
    ensures
        r == address_of(s@),
        r matches Some(a) ==> ipv4_text(a) == s@,
        r is None ==> forall|a: u32| ipv4_text(a) != s@,
{
    proof {
        lemma_scan_is_address_of(s@);
    }
    let n = s.len();
    let e0 = run_end(s, 0);
    if e0 >= n || s[e0] != '.' {
        return None;
    }
    let e1 = run_end(s, e0 + 1);
    if e1 >= n || s[e1] != '.' {
        return None;
    }
    let e2 = run_end(s, e1 + 1);
    if e2 >= n || s[e2] != '.' {
        return None;
    }
    let e3 = run_end(s, e2 + 1);
    if e3 != n {
        return None;
    }
    let o0 = match read_octet(s, 0, e0) {
        Some(o) => o,
        None => { return None; },
    };
    let o1 = match read_octet(s, e0 + 1, e1) {
        Some(o) => o,
        None => { return None; },
    };
    let o2 = match read_octet(s, e1 + 1, e2) {
        Some(o) => o,
        None => { return None; },
    };
    let o3 = match read_octet(s, e2 + 1, e3) {
        Some(o) => o,
        None => { return None; },
    };
    proof {
        lemma_from_octets(o0 as nat, o1 as nat, o2 as nat, o3 as nat);
    }
    Some(o0 as u32 * 0x100_0000 + o1 as u32 * 0x1_0000 + o2 as u32 * 256 + o3 as u32)
}

} // verus!
