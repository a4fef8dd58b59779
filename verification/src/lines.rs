//! Splitting a text into lines and whitespace-separated fields.

use vstd::prelude::*;
use crate::text::{
    first_char_at,
    is_space,
    is_space_char,
    lemma_lines_split,
    lemma_tokens_split,
    lines_of,
    newline_char,
    tokens_of,
};

verus! {

/// Splits a text into its lines.
pub fn split_lines(s: &str) -> (r: Vec<String>)
    ensures
        r.deep_view() == lines_of(s@),
{
    let mut v: Vec<String> = Vec::new();
    let mut rem: String = s.to_owned();
    proof {
        assert(v.deep_view() + lines_of(rem@) =~= lines_of(s@));
    }
    loop
        invariant
            v.deep_view() + lines_of(rem@) == lines_of(s@),
        decreases rem@.len(),
    {
        let n = rem.as_str().unicode_len();
        let i = first_char_at(rem.as_str(), newline_char());
        proof {
            lemma_lines_split(rem@, i as int);
        }
        if i == n {
            v.push(rem);
            proof {
                assert(v.deep_view() =~= lines_of(s@));
            }
            return v;
        }
        let head = rem.as_str().substring_char(0, i).to_owned();
        let rest = rem.as_str().substring_char(i + 1, n).to_owned();
        let ghost rem0 = rem@;
        let ghost v0 = v.deep_view();
        v.push(head);
        rem = rest;
        proof {
            assert(head@ =~= rem0.take(i as int));
            assert(rem@ =~= rem0.skip(i + 1));
            assert(v.deep_view() =~= v0 + seq![rem0.take(i as int)]);
            assert(v.deep_view() + lines_of(rem@) =~= lines_of(s@));
        }
    }
}

/// Where the field starting at the front of `s` ends: the position of the
/// first whitespace character, or the length when there is none.
fn token_end(s: &str, n: usize) -> (e: usize)
    requires
        n == s@.len(),
        n >= 1,
        !is_space(s@[0]),
    ensures
        1 <= e <= n,
        forall|j: int| 0 <= j < e ==> !is_space(s@[j]),
        e < n ==> is_space(s@[e as int]),
{
    let mut e: usize = 1;
    while e < n
        invariant
            1 <= e <= n,
            n == s@.len(),
            forall|j: int| 0 <= j < e ==> !is_space(s@[j]),
        decreases n - e,
    {
        if is_space_char(s.get_char(e)) {
            return e;
        }
        e = e + 1;
    }
    n
}

/// Splits a line into its whitespace-separated fields.
pub fn tokenize(s: &str) -> (r: Vec<String>)
    ensures
        r.deep_view() == tokens_of(s@),
{
    let mut v: Vec<String> = Vec::new();
    let mut rem: String = s.to_owned();
    proof {
        assert(v.deep_view() + tokens_of(rem@) =~= tokens_of(s@));
    }
    loop
        invariant
            v.deep_view() + tokens_of(rem@) == tokens_of(s@),
        decreases rem@.len(),
    {
        let n = rem.as_str().unicode_len();
        if n == 0 {
            proof {
                assert(v.deep_view() =~= tokens_of(s@));
            }
            return v;
        }
        let c0 = rem.as_str().get_char(0);
        if is_space_char(c0) {
            let rest = rem.as_str().substring_char(1, n).to_owned();
            let ghost rem0 = rem@;
            rem = rest;
            proof {
                assert(rem@ =~= rem0.skip(1));
                assert(v.deep_view() + tokens_of(rem@) =~= tokens_of(s@));
            }
        } else {
            let e = token_end(rem.as_str(), n);
            proof {
                lemma_tokens_split(rem@, e as int);
            }
            let head = rem.as_str().substring_char(0, e).to_owned();
            let rest = rem.as_str().substring_char(e, n).to_owned();
            let ghost rem0 = rem@;
            let ghost v0 = v.deep_view();
            v.push(head);
            rem = rest;
            proof {
                assert(head@ =~= rem0.take(e as int));
                assert(rem@ =~= rem0.skip(e as int));
                assert(v.deep_view() =~= v0 + seq![rem0.take(e as int)]);
                assert(v.deep_view() + tokens_of(rem@) =~= tokens_of(s@));
            }
        }
    }
}

} // verus!
