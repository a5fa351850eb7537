//! The request-target forms the dispatcher understands.
//!
//! A plain forward request carries an absolute URI
//! `scheme "://" [userinfo "@"] host [":" port] [path-query-fragment]`;
//! the dispatcher needs its host and port (default 80). A CONNECT request
//! carries an authority `host ":" port`. Both grammars are stated here as
//! spec functions over character sequences, and the parsers are proved
//! against them. The scheme itself is not validated: the proxy only needs
//! the authority part.

use vstd::prelude::*;
use crate::text::{
    all_digits, dec_val, find_char, first_at_or_after, parse_u16,
};

verus! {

/// A character that ends the authority part of an absolute URI.
pub open spec fn is_break_char(c: char) -> bool {
    c == '/' || c == '?' || c == '#'
}

/// The first index at or after `from` where the authority ends (`s.len()` if never).
pub open spec fn first_break_at_or_after(s: Seq<char>, from: int) -> int
    decreases s.len() - from,
{
    if from >= s.len() {
        s.len() as int
    } else if is_break_char(s[from]) {
        from
    } else {
        first_break_at_or_after(s, from + 1)
    }
}

pub proof fn lemma_first_break_at_or_after_is(s: Seq<char>, from: int, i: int)
    requires
        0 <= from <= i <= s.len(),
        forall|j: int| from <= j < i ==> !is_break_char(#[trigger] s[j]),
        i < s.len() ==> is_break_char(s[i]),
    ensures
        first_break_at_or_after(s, from) == i,
    decreases i - from,
{
    if from < i {
        lemma_first_break_at_or_after_is(s, from + 1, i);
    }
}

/// Finds the end of the authority part: the first `/`, `?` or `#` at or
/// after `from`, or the character length of `s`.
pub fn find_break(s: &str, from: usize) -> (r: usize)
    requires
        from <= s@.len(),
    ensures
        r as int == first_break_at_or_after(s@, from as int),
        from <= r <= s@.len(),
{
    let n = s.unicode_len();
    let mut i: usize = from;
    while i < n
        invariant
            from <= i <= n,
            n == s@.len(),
            forall|j: int| from <= j < i ==> !is_break_char(#[trigger] s@[j]),
        decreases n - i,
    {
        let c = s.get_char(i);
        if c == '/' || c == '?' || c == '#' {
            proof {
                lemma_first_break_at_or_after_is(s@, from as int, i as int);
            }
            return i;
        }
        i += 1;
    }
    proof {
        lemma_first_break_at_or_after_is(s@, from as int, n as int);
    }
    n
}

/// The host and port named by an absolute URI, if it has them.
///
/// `None` stands for a request target without a usable host: no `"://"`,
/// an empty host, or an unusable explicit port.
pub open spec fn spec_forward_target(s: Seq<char>) -> Option<(Seq<char>, u16)> {
    let ci = first_at_or_after(s, ':', 0);
    if ci + 2 >= s.len() {
        None
    } else if s[ci + 1] != '/' || s[ci + 2] != '/' {
        None
    } else {
        let astart = ci + 3;
        let aend = first_break_at_or_after(s, astart);
        let ai = first_at_or_after(s, '@', astart);
        let hstart = if ai < aend { ai + 1 } else { astart };
        let pi = first_at_or_after(s, ':', hstart);
        if pi < aend {
            let host = s.subrange(hstart, pi);
            let portstr = s.subrange(pi + 1, aend);
            if host.len() > 0 && portstr.len() > 0 && all_digits(portstr) && dec_val(portstr)
                <= 65535 {
                Some((host, dec_val(portstr) as u16))
            } else {
                None
            }
        } else {
            let host = s.subrange(hstart, aend);
            if host.len() > 0 {
                Some((host, 80u16))
            } else {
                None
            }
        }
    }
}

/// Extracts the origin to dial for a plain forward request: the URI's host,
/// and its port (80 when none is written).
pub fn forward_target(uri: &str) -> (r: Option<(String, u16)>)
    ensures
        r is Some <==> spec_forward_target(uri@) is Some,
        spec_forward_target(uri@) matches Some(hp) ==> (r matches Some(t) && t.0@ == hp.0
            && t.1 == hp.1),
{
    let n = uri.unicode_len();
    let ci = find_char(uri, ':', 0);
    if n < 3 || ci >= n - 2 {
        return None;
    }
    if uri.get_char(ci + 1) != '/' || uri.get_char(ci + 2) != '/' {
        return None;
    }
    let astart = ci + 3;
    let aend = find_break(uri, astart);
    let ai = find_char(uri, '@', astart);
    let hstart = if ai < aend { ai + 1 } else { astart };
    let pi = find_char(uri, ':', hstart);
    if pi < aend {
        let host = uri.substring_char(hstart, pi);
        let portstr = uri.substring_char(pi + 1, aend);
        if host.unicode_len() == 0 {
            return None;
        }
        match parse_u16(portstr) {
            Some(p) => Some((host.to_owned(), p)),
            None => None,
        }
    } else {
        let host = uri.substring_char(hstart, aend);
        if host.unicode_len() == 0 {
            return None;
        }
        Some((host.to_owned(), 80))
    }
}

/// A character allowed in the host part of a CONNECT authority.
pub open spec fn host_char_ok(c: char) -> bool {
    c != ':' && c != '/' && c != '@' && c != '?' && c != '#' && c != ' '
}

/// The request target of a CONNECT is a socket address `host ":" port`:
/// a nonempty host of plain host characters, then a colon, then a decimal
/// port that fits in sixteen bits.
pub open spec fn spec_connect_ok(s: Seq<char>) -> bool {
    let ci = first_at_or_after(s, ':', 0);
    &&& 0 < ci
    &&& ci < s.len()
    &&& forall|i: int| 0 <= i < ci ==> host_char_ok(#[trigger] s[i])
    &&& {
        let portstr = s.subrange(ci + 1, s.len() as int);
        portstr.len() > 0 && all_digits(portstr) && dec_val(portstr) <= 65535
    }
}

/// Validates the request target of a CONNECT and returns it as the address
/// to dial; `None` when it is not a socket address.
pub fn connect_authority(uri: &str) -> (r: Option<String>)
    ensures
        r is Some <==> spec_connect_ok(uri@),
        r matches Some(a) ==> a@ == uri@,
{
    let n = uri.unicode_len();
    let ci = find_char(uri, ':', 0);
    if ci == 0 || ci >= n {
        return None;
    }
    let mut i: usize = 0;
    while i < ci
        invariant
            i <= ci < n,
            n == uri@.len(),
            ci as int == first_at_or_after(uri@, ':', 0),
            forall|j: int| 0 <= j < ci ==> uri@[j] != ':',
            forall|j: int| 0 <= j < i ==> host_char_ok(#[trigger] uri@[j]),
        decreases ci - i,
    {
        let c = uri.get_char(i);
        if c == '/' || c == '@' || c == '?' || c == '#' || c == ' ' {
            proof {
                assert(!host_char_ok(uri@[i as int]));
            }
            return None;
        }
        i += 1;
    }
    let portstr = uri.substring_char(ci + 1, n);
    match parse_u16(portstr) {
        Some(_) => Some(uri.to_owned()),
        None => None,
    }
}

} // verus!
