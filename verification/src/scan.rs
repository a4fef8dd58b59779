//! The orchestrator's result pipeline.
//!
//! A scan enumerates candidate addresses over every interface's derived
//! /24 block, probes them (in the application, under the admission gate),
//! and folds the surviving host records into the final inventory: sorted
//! ascending by the dotted-quad address compared as a string, with records
//! sharing an address collapsed to the first found.

use vstd::prelude::*;
use vstd::multiset::Multiset;
use vstd::seq_lib::group_to_multiset_ensures;
use crate::host::NetworkHost;
use crate::iface::{derived_range, Interface};
use crate::iface;
use crate::addr::range_seq;
use crate::order::{
    lex_le,
    lex_lt,
    lemma_lex_asymmetric,
    lemma_lex_connected,
    lemma_lex_irreflexive,
    lemma_lex_transitive,
    str_eq,
    str_lt,
};

verus! {

/// Every candidate address of a list of interfaces: the concatenation of
/// each interface's derived /24 block, in interface order. Interfaces with
/// no IPv4 address contribute nothing.
pub open spec fn candidates_of(s: Seq<Interface>) -> Seq<u32>
    decreases s.len(),
{
    if s.len() == 0 {
        Seq::empty()
    } else {
        candidates_of(s.drop_last()) + match derived_range(s.last()) {
            None => Seq::<u32>::empty(),
            Some(base) => range_seq(base),
        }
    }
}

/// Enumerates every candidate address across all interfaces.
pub fn candidate_addresses(ifaces: &Vec<Interface>) -> (r: Vec<u32>)
    ensures
        r@ == candidates_of(ifaces@),
{
    let n = ifaces.len();
    let mut r: Vec<u32> = Vec::new();
    let mut i: usize = 0;
    while i < n
        invariant
            i <= n,
            n == ifaces@.len(),
            r@ == candidates_of(ifaces@.take(i as int)),
        decreases n - i,
    {
        proof {
            assert(ifaces@.take(i + 1).drop_last() =~= ifaces@.take(i as int));
            assert(ifaces@.take(i + 1).last() == ifaces@[i as int]);
        }
        match iface::derive_range(&ifaces[i]) {
            None => {
                proof {
                    assert(r@ =~= candidates_of(ifaces@.take(i + 1)));
                }
            },
            Some(range) => {
                let addrs = range.addresses();
                let ghost before = r@;
                let m = addrs.len();
                let mut j: usize = 0;
                while j < m
                    invariant
                        j <= m,
                        m == addrs@.len(),
                        r@ == before + addrs@.take(j as int),
                    decreases m - j,
                {
                    r.push(addrs[j]);
                    proof {
                        assert(before + addrs@.take(j + 1) =~= (before + addrs@.take(
                            j as int,
                        )).push(addrs@[j as int]));
                    }
                    j = j + 1;
                }
                proof {
                    assert(addrs@.take(m as int) =~= addrs@);
                    assert(r@ =~= candidates_of(ifaces@.take(i + 1)));
                }
            },
        }
        i = i + 1;
    }
    proof {
        assert(ifaces@.take(n as int) =~= ifaces@);
    }
    r
}

/// Records in non-strict ascending order of their address strings.
pub open spec fn hosts_sorted(s: Seq<NetworkHost>) -> bool {
    forall|i: int, j: int| 0 <= i < j < s.len() ==> lex_le(s[i].ip@, s[j].ip@)
}

/// Records in strict ascending order of their address strings: sorted, and
/// no two records share an address.
pub open spec fn hosts_strictly_sorted(s: Seq<NetworkHost>) -> bool {
    forall|i: int, j: int| 0 <= i < j < s.len() ==> lex_lt(s[i].ip@, s[j].ip@)
}

/// Some record of `s` carries the address `ip`.
pub open spec fn has_ip(s: Seq<NetworkHost>, ip: Seq<char>) -> bool {
    exists|i: int| 0 <= i < s.len() && (#[trigger] s[i]).ip@ == ip
}

/// Where a new record must go to keep the list sorted: the first position
/// whose record's address is strictly greater.
fn insertion_point(out: &Vec<NetworkHost>, ip: &str) -> (pos: usize)
    ensures
        pos <= out@.len(),
        forall|k: int| 0 <= k < pos ==> !lex_lt(ip@, (#[trigger] out@[k]).ip@),
        pos < out@.len() ==> lex_lt(ip@, out@[pos as int].ip@),
{
    let n = out.len();
    let mut pos: usize = 0;
    while pos < n
        invariant
            pos <= n,
            n == out@.len(),
            forall|k: int| 0 <= k < pos ==> !lex_lt(ip@, (#[trigger] out@[k]).ip@),
        decreases n - pos,
    {
        if str_lt(ip, out[pos].ip.as_str()) {
            return pos;
        }
        pos = pos + 1;
    }
    pos
}

/// Sorts records ascending by address string. The sort is stable, so of
/// two records with equal addresses the earlier one stays earlier; the
/// result holds exactly the records given, rearranged.
pub fn sort_hosts_by_ip(hosts: Vec<NetworkHost>) -> (r: Vec<NetworkHost>)
    ensures
        hosts_sorted(r@),
        r@.to_multiset() == hosts@.to_multiset(),
{
    broadcast use group_to_multiset_ensures;

    let ghost orig = hosts@;
    let mut rest = hosts;
    let mut out: Vec<NetworkHost> = Vec::new();
    while rest.len() > 0
        invariant
            hosts_sorted(out@),
            orig.to_multiset() == out@.to_multiset().add(rest@.to_multiset()),
        decreases rest@.len(),
    {
        let ghost rest0 = rest@;
        let h = rest.remove(0);
        let pos = insertion_point(&out, h.ip.as_str());
        let ghost out0 = out@;
        proof {
            // The element leaves `rest` and joins `out`: the combined
            // contents stay the same.
            broadcast use vstd::multiset::group_multiset_axioms;

            assert(rest@ == rest0.remove(0));
            vstd::seq_lib::to_multiset_remove::<NetworkHost>(rest0, 0);
            vstd::seq_lib::to_multiset_contains::<NetworkHost>(rest0, h);
            vstd::seq_lib::to_multiset_insert::<NetworkHost>(out0, pos as int, h);
            assert(rest0.contains(h));
            assert(rest0.to_multiset().count(h) > 0);
            assert(rest0.to_multiset().remove(h).insert(h) =~= rest0.to_multiset());
            assert(out0.insert(pos as int, h).to_multiset() == out0.to_multiset().insert(h));
            assert(out0.to_multiset().add(rest0.to_multiset()) =~= out0.insert(
                pos as int,
                h,
            ).to_multiset().add(rest@.to_multiset()));
        }
        out.insert(pos, h);
        proof {
            // Order is kept: everything before `pos` is no greater, and
            // everything from `pos` on is strictly greater.
            assert forall|k: int| 0 <= k < pos implies lex_le(out0[k].ip@, h.ip@) by {
                lemma_lex_connected(h.ip@, out0[k].ip@);
            }
            assert forall|i: int, j: int| 0 <= i < j < out@.len() implies lex_le(
                out@[i].ip@,
                out@[j].ip@,
            ) by {
                out0.insert_ensures(pos as int, h);
                if i < pos && j > pos {
                    assert(lex_le(out@[i].ip@, out@[j].ip@));
                } else if j == pos && i < pos {
                    assert(out@[i] == out0[i]);
                } else if i == pos && j > pos {
                    assert(lex_lt(h.ip@, out0[pos as int].ip@));
                    if j - 1 > pos {
                        assert(lex_le(out0[pos as int].ip@, out0[j - 1].ip@));
                        lemma_lex_transitive(h.ip@, out0[pos as int].ip@, out0[j - 1].ip@);
                    }
                    assert(lex_lt(h.ip@, out0[j - 1].ip@));
                }
            }
        }
    }
    proof {
        assert(rest@.to_multiset() =~= Multiset::<NetworkHost>::empty());
        assert(out@.to_multiset() =~= out@.to_multiset().add(rest@.to_multiset()));
    }
    out
}

/// Collapses runs of records sharing an address, keeping the first record
/// of each run: the retained record decides, and a following record is
/// dropped exactly when its address equals the last retained one.
pub open spec fn dedup_by_ip(s: Seq<NetworkHost>) -> Seq<NetworkHost>
    decreases s.len(),
{
    if s.len() == 0 {
        Seq::empty()
    } else {
        let r = dedup_by_ip(s.drop_last());
        if r.len() > 0 && r.last().ip@ == s.last().ip@ {
            r
        } else {
            r.push(s.last())
        }
    }
}

/// Removes adjacent records sharing an address, keeping the first.
pub fn dedup_hosts_by_ip(hosts: Vec<NetworkHost>) -> (r: Vec<NetworkHost>)
    ensures
        r@ == dedup_by_ip(hosts@),
{
    let ghost orig = hosts@;
    let mut rest = hosts;
    let mut out: Vec<NetworkHost> = Vec::new();
    let ghost i: int = 0;
    while rest.len() > 0
        invariant
            0 <= i <= orig.len(),
            rest@ == orig.skip(i),
            out@ == dedup_by_ip(orig.take(i)),
        decreases rest@.len(),
    {
        let h = rest.remove(0);
        proof {
            assert(h == orig[i]);
            assert(orig.skip(i).skip(1) =~= orig.skip(i + 1));
            assert(orig.take(i + 1).drop_last() =~= orig.take(i));
            assert(orig.take(i + 1).last() == orig[i]);
        }
        let keep: bool = if out.len() == 0 {
            true
        } else {
            !str_eq(out[out.len() - 1].ip.as_str(), h.ip.as_str())
        };
        if keep {
            out.push(h);
        }
        proof {
            i = i + 1;
        }
    }
    proof {
        assert(orig.take(i) =~= orig);
    }
    out
}

/// What deduplication guarantees on sorted input: the result is strictly
/// sorted, every retained record was given, and every given address is
/// still represented.
pub proof fn lemma_dedup_sorted(s: Seq<NetworkHost>)
    requires
        hosts_sorted(s),
    ensures
        hosts_strictly_sorted(dedup_by_ip(s)),
        forall|k: int| 0 <= k < dedup_by_ip(s).len() ==> s.contains(#[trigger] dedup_by_ip(s)[k]),
        forall|j: int| 0 <= j < s.len() ==> has_ip(dedup_by_ip(s), (#[trigger] s[j]).ip@),
        s.len() > 0 ==> dedup_by_ip(s).len() > 0 && dedup_by_ip(s).last().ip@ == s.last().ip@,
    decreases s.len(),
{
    if s.len() > 0 {
        let t = s.drop_last();
        let r = dedup_by_ip(t);
        let d = dedup_by_ip(s);
        assert(hosts_sorted(t)) by {
            assert forall|i: int, j: int| 0 <= i < j < t.len() implies lex_le(
                t[i].ip@,
                t[j].ip@,
            ) by {
                assert(t[i] == s[i] && t[j] == s[j]);
            }
        }
        lemma_dedup_sorted(t);
        assert forall|k: int| 0 <= k < d.len() implies s.contains(#[trigger] d[k]) by {
            if k < r.len() {
                let j = choose|j: int| 0 <= j < t.len() && t[j] == r[k];
                assert(s[j] == d[k]);
            } else {
                assert(d[k] == s[s.len() - 1]);
            }
        }
        if t.len() > 0 {
            // The last retained record carries the greatest address seen,
            // so a strictly greater newcomer exceeds every retained one.
            assert(lex_le(t.last().ip@, s.last().ip@)) by {
                assert(t.last() == s[s.len() - 2] && s.last() == s[s.len() - 1]);
            }
        }
        if !(r.len() > 0 && r.last().ip@ == s.last().ip@) {
            assert(d == r.push(s.last()));
            assert forall|i: int, j: int| 0 <= i < j < d.len() implies lex_lt(
                d[i].ip@,
                d[j].ip@,
            ) by {
                if j == d.len() - 1 {
                    assert(t.len() > 0);
                    assert(lex_lt(r.last().ip@, s.last().ip@)) by {
                        lemma_lex_connected(r.last().ip@, s.last().ip@);
                        lemma_lex_asymmetric(s.last().ip@, r.last().ip@);
                    }
                    if i < d.len() - 2 + 1 - 1 {
                        assert(lex_lt(r[i].ip@, r.last().ip@));
                    }
                    if i < r.len() - 1 {
                        lemma_lex_transitive(r[i].ip@, r.last().ip@, s.last().ip@);
                    }
                } else {
                    assert(d[i] == r[i] && d[j] == r[j]);
                }
            }
        }
        assert forall|j: int| 0 <= j < s.len() implies has_ip(d, (#[trigger] s[j]).ip@) by {
            if j < s.len() - 1 {
                assert(has_ip(r, t[j].ip@));
                let k = choose|k: int| 0 <= k < r.len() && (#[trigger] r[k]).ip@ == t[j].ip@;
                assert(0 <= k < d.len() && d[k].ip@ == s[j].ip@);
            } else {
                assert(d.last().ip@ == s[j].ip@);
                assert(0 <= d.len() - 1 < d.len() && d[d.len() - 1].ip@ == s[j].ip@);
            }
        }
    }
}

/// Folds collected records into the final inventory: sorted ascending by
/// address string, with duplicate addresses collapsed to one record each.
/// Every record in the result was collected, no address appears twice, and
/// every collected address is still represented.
pub fn assemble_scan_result(hosts: Vec<NetworkHost>) -> (r: Vec<NetworkHost>)
    ensures
        hosts_strictly_sorted(r@),
        forall|i: int, j: int| 0 <= i < j < r@.len() ==> r@[i].ip@ != r@[j].ip@,
        forall|k: int| 0 <= k < r@.len() ==> hosts@.contains(#[trigger] r@[k]),
        forall|j: int| 0 <= j < hosts@.len() ==> has_ip(r@, (#[trigger] hosts@[j]).ip@),
{
    broadcast use group_to_multiset_ensures;

    let ghost orig = hosts@;
    let sorted = sort_hosts_by_ip(hosts);
    proof {
        lemma_dedup_sorted(sorted@);
    }
    let r = dedup_hosts_by_ip(sorted);
    proof {
        assert forall|k: int| 0 <= k < r@.len() implies orig.contains(#[trigger] r@[k]) by {
            assert(sorted@.contains(r@[k]));
            assert(sorted@.to_multiset().count(r@[k]) > 0);
        }
        assert forall|j: int| 0 <= j < orig.len() implies has_ip(r@, (#[trigger] orig[j]).ip@) by {
            assert(orig.contains(orig[j]));
            assert(sorted@.to_multiset().count(orig[j]) > 0);
            assert(sorted@.contains(orig[j]));
            let k = choose|k: int| 0 <= k < sorted@.len() && sorted@[k] == orig[j];
            assert(has_ip(r@, sorted@[k].ip@));
        }
        assert forall|i: int, j: int| 0 <= i < j < r@.len() implies r@[i].ip@ != r@[j].ip@ by {
            if r@[i].ip@ == r@[j].ip@ {
                lemma_lex_irreflexive(r@[i].ip@);
            }
        }
    }
    r
}

} // verus!
