//! Checks on the values that an operator may put into the configuration:
//! an IPv4 address, a host name, an IPv6 address, a port.

use vstd::prelude::*;
use crate::text::{bounded_number, chars_of, is_digit, parse_bounded, same_chars, split,
    split_chars};

verus! {

/// A letter of the ASCII alphabet or a decimal digit.
pub open spec fn is_alphanumeric(c: char) -> bool {
    is_digit(c) || ('a' <= c <= 'z') || ('A' <= c <= 'Z')
}

/// A hexadecimal digit, in either case.
pub open spec fn is_hex_digit(c: char) -> bool {
    is_digit(c) || ('a' <= c <= 'f') || ('A' <= c <= 'F')
}

/// One of the four numbers of an IPv4 address: digits only, at least one,
/// with a value of at most 255.
pub open spec fn is_octet(part: Seq<char>) -> bool {
    bounded_number(part, 255) is Some
}

/// An IPv4 address in dotted notation: nothing but digits and dots, and
/// exactly four parts between the dots, each an octet.
pub open spec fn valid_ipv4(s: Seq<char>) -> bool {
    &&& forall|i: int| 0 <= i < s.len() ==> is_digit(#[trigger] s[i]) || s[i] == '.'
    &&& split(s, '.').len() == 4
    &&& forall|k: int| 0 <= k < split(s, '.').len() ==> is_octet(#[trigger] split(s, '.')[k])
}

/// A label of a host name: not empty, at most 63 characters, and no hyphen
/// at either end.
pub open spec fn valid_label(part: Seq<char>) -> bool {
    &&& 1 <= part.len() <= 63
    &&& part.first() != '-'
    &&& part.last() != '-'
}

/// A host name: at most 253 characters, all of them ASCII letters, digits,
/// dots or hyphens; neither a dot nor a hyphen at either end; and at
/// least two labels between the dots, each of them valid.
pub open spec fn valid_domain(s: Seq<char>) -> bool {
    &&& 1 <= s.len() <= 253
    &&& forall|i: int| 0 <= i < s.len() ==> is_alphanumeric(#[trigger] s[i]) || s[i] == '.' || s[i] == '-'
    &&& s.first() != '.' && s.first() != '-'
    &&& s.last() != '.' && s.last() != '-'
    &&& split(s, '.').len() >= 2
    &&& forall|k: int| 0 <= k < split(s, '.').len() ==> valid_label(#[trigger] split(s, '.')[k])
}

/// The groups of an IPv6 address: at most eight, each of at most four
/// characters, and at most one of them empty.
pub open spec fn valid_groups(parts: Seq<Seq<char>>) -> bool {
    &&& parts.len() <= 8
    &&& forall|k: int| 0 <= k < parts.len() ==> (#[trigger] parts[k]).len() <= 4
    &&& forall|j: int, k: int| 0 <= j < k < parts.len() ==> !((#[trigger] parts[j]).len() == 0 && (#[trigger] parts[k]).len() == 0)
}

/// An IPv6 address as this server accepts it: `::` and `::1` as they
/// stand; otherwise nothing but hexadecimal digits and colons, cut at the
/// colons into valid groups.
pub open spec fn valid_ipv6(s: Seq<char>) -> bool {
    ||| s == seq![':', ':']
    ||| s == seq![':', ':', '1']
    ||| {
        &&& forall|i: int| 0 <= i < s.len() ==> is_hex_digit(#[trigger] s[i]) || s[i] == ':'
        &&& valid_groups(split(s, ':'))
    }
}

/// A port: an optional `+`, then a decimal number from 1 to 65535.
pub open spec fn port_of(s: Seq<char>) -> Option<nat> {
    let digits = if s.len() > 0 && s[0] == '+' {
        s.skip(1)
    } else {
        s
    };
    match bounded_number(digits, 65535) {
        Some(port) => if port > 0 {
            Some(port)
        } else {
            None
        },
        None => None,
    }
}

/// Whether every character of `s` is a digit or a dot.
fn only_digits_and_dots(s: &[char]) -> (ok: bool)
    ensures
        ok == forall|i: int| 0 <= i < s@.len() ==> is_digit(#[trigger] s@[i]) || s@[i] == '.',
{
    let mut i: usize = 0;
    while i < s.len()
        invariant
            i <= s.len(),
            forall|k: int| 0 <= k < i ==> is_digit(#[trigger] s@[k]) || s@[k] == '.',
        decreases s.len() - i,
    {
        let c = s[i];
        if !((c >= '0' && c <= '9') || c == '.') {
            return false;
        }
        i += 1;
    }
    true
}

/// Whether `value` is an IPv4 address in dotted notation.
pub fn is_valid_ip(value: &str) -> (valid: bool)
    ensures
        valid == valid_ipv4(value@),
{
    let chars = chars_of(value);
    if !only_digits_and_dots(chars.as_slice()) {
        return false;
    }
    let parts = split_chars(chars.as_slice(), '.');
    if parts.len() != 4 {
        return false;
    }
    let mut k: usize = 0;
    while k < parts.len()
        invariant
            k <= parts@.len(),
            parts@.len() == split(value@, '.').len(),
            forall|i: int| 0 <= i < parts@.len() ==> (#[trigger] parts@[i])@ == split(value@, '.')[i],
            forall|i: int| 0 <= i < k ==> is_octet(#[trigger] split(value@, '.')[i]),
        decreases parts.len() - k,
    {
        if parse_bounded(parts[k].as_slice(), 255).is_none() {
            assert(!is_octet(split(value@, '.')[k as int]));
            return false;
        }
        k += 1;
    }
    true
}

/// Whether every character of `s` may stand in a host name.
fn only_host_characters(s: &[char]) -> (ok: bool)
    ensures
        ok == forall|i: int| 0 <= i < s@.len() ==> is_alphanumeric(#[trigger] s@[i]) || s@[i] == '.' || s@[i] == '-',
{
    let mut i: usize = 0;
    while i < s.len()
        invariant
            i <= s.len(),
            forall|k: int| 0 <= k < i ==> is_alphanumeric(#[trigger] s@[k]) || s@[k] == '.' || s@[k] == '-',
        decreases s.len() - i,
    {
        let c = s[i];
        let alphanumeric = (c >= '0' && c <= '9') || (c >= 'a' && c <= 'z') || (c >= 'A' && c <= 'Z');
        if !(alphanumeric || c == '.' || c == '-') {
            return false;
        }
        i += 1;
    }
    true
}

/// Whether `part` is a valid label of a host name.
fn is_valid_label(part: &[char]) -> (ok: bool)
    ensures
        ok == valid_label(part@),
{
    let n = part.len();
    n >= 1 && n <= 63 && part[0] != '-' && part[n - 1] != '-'
}

/// Whether `value` is a host name.
pub fn is_valid_domain(value: &str) -> (valid: bool)
    ensures
        valid == valid_domain(value@),
{
    let chars = chars_of(value);
    let n = chars.len();
    if n == 0 || n > 253 {
        return false;
    }
    if !only_host_characters(chars.as_slice()) {
        return false;
    }
    if chars[0] == '.' || chars[0] == '-' || chars[n - 1] == '.' || chars[n - 1] == '-' {
        return false;
    }
    let parts = split_chars(chars.as_slice(), '.');
    if parts.len() < 2 {
        return false;
    }
    let mut k: usize = 0;
    while k < parts.len()
        invariant
            k <= parts@.len(),
            parts@.len() == split(value@, '.').len(),
            forall|i: int| 0 <= i < parts@.len() ==> (#[trigger] parts@[i])@ == split(value@, '.')[i],
            forall|i: int| 0 <= i < k ==> valid_label(#[trigger] split(value@, '.')[i]),
        decreases parts.len() - k,
    {
        if !is_valid_label(parts[k].as_slice()) {
            assert(!valid_label(split(value@, '.')[k as int]));
            return false;
        }
        k += 1;
    }
    true
}

/// Whether every character of `s` is a hexadecimal digit or a colon.
fn only_hex_and_colons(s: &[char]) -> (ok: bool)
    ensures
        ok == forall|i: int| 0 <= i < s@.len() ==> is_hex_digit(#[trigger] s@[i]) || s@[i] == ':',
{
    let mut i: usize = 0;
    while i < s.len()
        invariant
            i <= s.len(),
            forall|k: int| 0 <= k < i ==> is_hex_digit(#[trigger] s@[k]) || s@[k] == ':',
        decreases s.len() - i,
    {
        let c = s[i];
        let hex = (c >= '0' && c <= '9') || (c >= 'a' && c <= 'f') || (c >= 'A' && c <= 'F');
        if !(hex || c == ':') {
            return false;
        }
        i += 1;
    }
    true
}

/// Whether `value` is an IPv6 address as this server accepts it.
pub fn is_valid_ipv6(value: &str) -> (valid: bool)
    ensures
        valid == valid_ipv6(value@),
{
    let chars = chars_of(value);
    let unspecified = [':', ':'];
    let loopback = [':', ':', '1'];
    if same_chars(chars.as_slice(), unspecified.as_slice()) {
        assert(unspecified@ =~= seq![':', ':']);
        return true;
    }
    if same_chars(chars.as_slice(), loopback.as_slice()) {
        assert(loopback@ =~= seq![':', ':', '1']);
        return true;
    }
    assert(value@ != seq![':', ':']) by {
        assert(unspecified@ =~= seq![':', ':']);
    }
    assert(value@ != seq![':', ':', '1']) by {
        assert(loopback@ =~= seq![':', ':', '1']);
    }
    if !only_hex_and_colons(chars.as_slice()) {
        return false;
    }
    let parts = split_chars(chars.as_slice(), ':');
    if parts.len() > 8 {
        return false;
    }
    let ghost groups = split(value@, ':');
    let mut seen_empty = false;
    let mut k: usize = 0;
    while k < parts.len()
        invariant
            k <= parts@.len(),
            value@ != seq![':', ':'],
            value@ != seq![':', ':', '1'],
            groups == split(value@, ':'),
            parts@.len() == groups.len(),
            forall|i: int| 0 <= i < parts@.len() ==> (#[trigger] parts@[i])@ == groups[i],
            forall|i: int| 0 <= i < k ==> (#[trigger] groups[i]).len() <= 4,
            forall|i: int, j: int| 0 <= i < j < k ==> !((#[trigger] groups[i]).len() == 0 && (#[trigger] groups[j]).len() == 0),
            seen_empty == exists|i: int| 0 <= i < k && (#[trigger] groups[i]).len() == 0,
        decreases parts.len() - k,
    {
        let part = &parts[k];
        assert(part@ == groups[k as int]);
        if part.len() == 0 {
            if seen_empty {
                proof {
                    let i = choose|i: int| 0 <= i < k && (#[trigger] groups[i]).len() == 0;
                    assert(groups[i].len() == 0 && groups[k as int].len() == 0);
                    assert(!valid_groups(groups));
                }
                return false;
            }
            seen_empty = true;
        } else if part.len() > 4 {
            assert(!valid_groups(groups));
            return false;
        }
        k += 1;
    }
    true
}

/// Reads a port number.
pub fn parse_port(value: &str) -> (port: Option<u16>)
    ensures
        match port {
            Some(p) => port_of(value@) == Some(p as nat),
            None => port_of(value@) is None,
        },
{
    let chars = chars_of(value);
    let start: usize = if chars.len() > 0 && chars[0] == '+' {
        1
    } else {
        0
    };
    let digits = vstd::slice::slice_subrange(chars.as_slice(), start, chars.len());
    assert(start == 0 ==> digits@ =~= value@);
    match parse_bounded(digits, 65535) {
        Some(p) => if p > 0 {
            Some(p as u16)
        } else {
            None
        },
        None => None,
    }
}

} // verus!
