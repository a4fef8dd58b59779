//! Extracting a MAC address from neighbor-table tool output.
//!
//! The output is whitespace-delimited text, one entry per line. The MAC of
//! a target address is the first MAC-shaped field — 17 characters holding
//! a colon — found from the third field onward, on the first line that
//! mentions the target address. Anything else yields nothing: a lookup
//! failure is absorbed, never surfaced.

use vstd::prelude::*;
use crate::lines::{split_lines, tokenize};
use crate::text::{contains_seq, contains_sub, contains_char, has_char, lines_of, tokens_of};

verus! {

/// A field shaped like a MAC address: 17 characters with a colon.
pub open spec fn mac_shaped(t: Seq<char>) -> bool {
    t.len() == 17 && has_char(t, ':')
}

/// The first MAC-shaped field of a list.
pub open spec fn first_mac(ts: Seq<Seq<char>>) -> Option<Seq<char>>
    decreases ts.len(),
{
    if ts.len() == 0 {
        None
    } else if mac_shaped(ts[0]) {
        Some(ts[0])
    } else {
        first_mac(ts.skip(1))
    }
}

/// What one line yields: a MAC-shaped field from the third field onward,
/// on a line that mentions the target address.
pub open spec fn line_mac(line: Seq<char>, addr: Seq<char>) -> Option<Seq<char>> {
    if contains_seq(line, addr) && tokens_of(line).len() > 2 {
        first_mac(tokens_of(line).skip(2))
    } else {
        None
    }
}

/// What a list of lines yields: the first line's find.
pub open spec fn mac_of_lines(ls: Seq<Seq<char>>, addr: Seq<char>) -> Option<Seq<char>>
    decreases ls.len(),
{
    if ls.len() == 0 {
        None
    } else if line_mac(ls[0], addr) is Some {
        line_mac(ls[0], addr)
    } else {
        mac_of_lines(ls.skip(1), addr)
    }
}

/// What a whole neighbor-table output yields for one target address.
pub open spec fn arp_mac(text: Seq<char>, addr: Seq<char>) -> Option<Seq<char>> {
    mac_of_lines(lines_of(text), addr)
}

/// Whether a field is MAC-shaped.
fn mac_shaped_str(t: &str) -> (r: bool)
    ensures
        r == mac_shaped(t@),
{
    t.unicode_len() == 17 && contains_char(t, ':')
}

/// Scans one line for the target address and a MAC-shaped field.
fn mac_from_line(line: &str, addr: &str) -> (r: Option<String>)
    ensures
        match line_mac(line@, addr@) {
            None => r is None,
            Some(m) => r is Some && r->0@ == m,
        },
{
    if !contains_sub(line, addr) {
        return None;
    }
    let toks = tokenize(line);
    let n = toks.len();
    if n <= 2 {
        return None;
    }
    let ghost ts = tokens_of(line@);
    let mut k: usize = 2;
    proof {
        assert(toks.deep_view() == ts);
        assert(n == ts.len());
    }
    while k < n
        invariant
            2 <= k <= n,
            n == toks@.len(),
            toks.deep_view() == ts,
            n == ts.len(),
            n > 2,
            line_mac(line@, addr@) == first_mac(ts.skip(2)),
            first_mac(ts.skip(2)) == first_mac(ts.skip(k as int)),
        decreases n - k,
    {
        proof {
            assert(ts.skip(k as int)[0] == ts[k as int]);
            assert(ts[k as int] == toks@[k as int]@);
            assert(ts.skip(k as int).skip(1) =~= ts.skip(k + 1));
        }
        if mac_shaped_str(toks[k].as_str()) {
            proof {
                assert(mac_shaped(ts.skip(k as int)[0]));
                assert(first_mac(ts.skip(k as int)) == Some(ts[k as int]));
                assert(line_mac(line@, addr@) == Some(ts[k as int]));
                assert(ts[k as int] == toks@[k as int]@);
            }
            return Some(toks[k].clone());
        }
        k = k + 1;
    }
    proof {
        assert(ts.skip(n as int) =~= Seq::<Seq<char>>::empty());
    }
    None
}

/// Extracts the MAC address for `addr` from neighbor-table output, or
/// nothing when no line yields one.
pub fn parse_arp_output(text: &str, addr: &str) -> (r: Option<String>)
    ensures
        match arp_mac(text@, addr@) {
            None => r is None,
            Some(m) => r is Some && r->0@ == m,
        },
{
    let lines = split_lines(text);
    let ghost ls = lines_of(text@);
    let n = lines.len();
    let mut i: usize = 0;
    proof {
        assert(lines.deep_view() == ls);
        assert(ls.skip(0) =~= ls);
    }
    while i < n
        invariant
            i <= n,
            n == lines@.len(),
            lines.deep_view() == ls,
            n == ls.len(),
            ls == lines_of(text@),
            mac_of_lines(ls, addr@) == mac_of_lines(ls.skip(i as int), addr@),
        decreases n - i,
    {
        proof {
            assert(ls.skip(i as int)[0] == ls[i as int]);
            assert(ls[i as int] == lines@[i as int]@);
            assert(ls.skip(i as int).skip(1) =~= ls.skip(i + 1));
        }
        let m = mac_from_line(lines[i].as_str(), addr);
        if m.is_some() {
            proof {
                assert(line_mac(ls.skip(i as int)[0], addr@) is Some);
                assert(mac_of_lines(ls.skip(i as int), addr@) == line_mac(
                    ls.skip(i as int)[0],
                    addr@,
                ));
            }
            return m;
        }
        i = i + 1;
    }
    proof {
        assert(ls.skip(n as int) =~= Seq::<Seq<char>>::empty());
    }
    None
}

} // verus!
