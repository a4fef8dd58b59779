//! Verified text utilities: substring search, prefix tests, splitting and
//! trimming over the character view of strings.

use vstd::prelude::*;

verus! {

/// The line-feed character.
pub open spec fn newline() -> char {
    10u8 as char
}

/// The line-feed character, for runtime comparisons.
pub fn newline_char() -> (c: char)
    ensures
        c == newline(),
{
    10u8 as char
}

/// ASCII whitespace as it separates fields in tool output: space, tab and
/// carriage return.
pub open spec fn is_space(c: char) -> bool {
    c == ' ' || c == (9u8 as char) || c == (13u8 as char)
}

/// Decides whether a character separates fields.
pub fn is_space_char(c: char) -> (r: bool)
    ensures
        r == is_space(c),
{
    c == ' ' || c == (9u8 as char) || c == (13u8 as char)
}

/// `needle` occurs contiguously somewhere in `hay`.
pub open spec fn contains_seq(hay: Seq<char>, needle: Seq<char>) -> bool {
    exists|i: int|
        0 <= i && i + needle.len() <= hay.len() && #[trigger] hay.subrange(
            i,
            i + needle.len(),
        ) == needle
}

/// `p` is a prefix of `s`.
pub open spec fn starts_with(s: Seq<char>, p: Seq<char>) -> bool {
    s.len() >= p.len() && s.take(p.len() as int) == p
}

/// Whether `needle` matches `hay` at position `at`.
fn matches_at(hay: &str, hay_len: usize, needle: &str, needle_len: usize, at: usize) -> (r: bool)
    requires
        hay_len == hay@.len(),
        needle_len == needle@.len(),
        at + needle_len <= hay_len,
    ensures
        r == (hay@.subrange(at as int, at + needle@.len()) == needle@),
{
    let mut j: usize = 0;
    while j < needle_len
        invariant
            j <= needle_len,
            hay_len == hay@.len(),
            needle_len == needle@.len(),
            at + needle_len <= hay_len,
            forall|k: int| 0 <= k < j ==> hay@[at + k] == needle@[k],
        decreases needle_len - j,
    {
        if hay.get_char(at + j) != needle.get_char(j) {
            proof {
                assert(hay@.subrange(at as int, at + needle@.len())[j as int] != needle@[j as int]);
            }
            return false;
        }
        j = j + 1;
    }
    proof {
        assert(hay@.subrange(at as int, at + needle@.len()) =~= needle@);
    }
    true
}

/// Naive substring search.
pub fn contains_sub(hay: &str, needle: &str) -> (r: bool)
    ensures
        r == contains_seq(hay@, needle@),
{
    let hay_len = hay.unicode_len();
    let needle_len = needle.unicode_len();
    if needle_len > hay_len {
        return false;
    }
    if needle_len == 0 {
        proof {
            assert(hay@.subrange(0, 0 + needle@.len() as int) =~= needle@);
        }
        return true;
    }
    let mut i: usize = 0;
    while i <= hay_len - needle_len
        invariant
            1 <= needle_len <= hay_len,
            hay_len == hay@.len(),
            needle_len == needle@.len(),
            i <= hay_len - needle_len + 1,
            forall|k: int|
                0 <= k < i ==> #[trigger] hay@.subrange(k, k + needle@.len()) != needle@,
        decreases hay_len - i,
    {
        if matches_at(hay, hay_len, needle, needle_len, i) {
            return true;
        }
        i = i + 1;
    }
    false
}

/// Prefix test.
pub fn starts_with_str(s: &str, p: &str) -> (r: bool)
    ensures
        r == starts_with(s@, p@),
{
    let s_len = s.unicode_len();
    let p_len = p.unicode_len();
    if p_len > s_len {
        return false;
    }
    let mut j: usize = 0;
    while j < p_len
        invariant
            j <= p_len,
            p_len <= s_len,
            s_len == s@.len(),
            p_len == p@.len(),
            forall|k: int| 0 <= k < j ==> s@[k] == p@[k],
        decreases p_len - j,
    {
        if s.get_char(j) != p.get_char(j) {
            proof {
                assert(s@.take(p@.len() as int)[j as int] != p@[j as int]);
            }
            return false;
        }
        j = j + 1;
    }
    proof {
        assert(s@.take(p@.len() as int) =~= p@);
    }
    true
}

/// `s` holds character `c` somewhere.
pub open spec fn has_char(s: Seq<char>, c: char) -> bool {
    exists|i: int| 0 <= i < s.len() && s[i] == c
}

/// Whether a string holds a character.
pub fn contains_char(s: &str, c: char) -> (r: bool)
    ensures
        r == has_char(s@, c),
{
    let n = s.unicode_len();
    let mut i: usize = 0;
    while i < n
        invariant
            i <= n,
            n == s@.len(),
            forall|k: int| 0 <= k < i ==> s@[k] != c,
        decreases n - i,
    {
        if s.get_char(i) == c {
            return true;
        }
        i = i + 1;
    }
    false
}


/// The position of the first occurrence of `c` in `s`, or the length of
/// `s` when `c` does not occur.
pub fn first_char_at(s: &str, c: char) -> (i: usize)
    ensures
        i <= s@.len(),
        forall|j: int| 0 <= j < i ==> s@[j] != c,
        i < s@.len() ==> s@[i as int] == c,
{
    let n = s.unicode_len();
    let mut i: usize = 0;
    while i < n
        invariant
            i <= n,
            n == s@.len(),
            forall|j: int| 0 <= j < i ==> s@[j] != c,
        decreases n - i,
    {
        if s.get_char(i) == c {
            return i;
        }
        i = i + 1;
    }
    n
}

/// The lines of a text, split on `newline()`. A text without a newline is one
/// line; every newline ends a line, so a trailing newline yields a final
/// empty line.
pub open spec fn lines_of(s: Seq<char>) -> Seq<Seq<char>>
    decreases s.len(),
{
    if s.len() == 0 {
        seq![Seq::<char>::empty()]
    } else if s[0] == newline() {
        seq![Seq::<char>::empty()] + lines_of(s.skip(1))
    } else {
        let r = lines_of(s.skip(1));
        seq![seq![s[0]] + r[0]] + r.skip(1)
    }
}

/// The whitespace-separated fields of a line, in order, with empty fields
/// collapsed: runs of whitespace separate, leading and trailing whitespace
/// is ignored.
pub open spec fn tokens_of(s: Seq<char>) -> Seq<Seq<char>>
    decreases s.len(),
{
    if s.len() == 0 {
        Seq::empty()
    } else if is_space(s[0]) {
        tokens_of(s.skip(1))
    } else {
        let r = tokens_of(s.skip(1));
        if s.len() >= 2 && !is_space(s[1]) {
            seq![seq![s[0]] + r[0]] + r.skip(1)
        } else {
            seq![seq![s[0]]] + r
        }
    }
}

/// Splitting at the end of the first field: when `s` opens with a field of
/// length `e`, the fields of `s` are that field followed by the fields of
/// the rest.
pub proof fn lemma_tokens_split(s: Seq<char>, e: int)
    requires
        1 <= e <= s.len(),
        forall|j: int| 0 <= j < e ==> !is_space(s[j]),
        e < s.len() ==> is_space(s[e]),
    ensures
        tokens_of(s) == seq![s.take(e)] + tokens_of(s.skip(e)),
    decreases e,
{
    let r = tokens_of(s.skip(1));
    if e == 1 {
        if s.len() == 1 {
            assert(s.skip(1) =~= Seq::<char>::empty());
            assert(seq![s[0]] =~= s.take(1));
            assert(tokens_of(s) =~= seq![s.take(1)] + tokens_of(s.skip(1)));
        } else {
            assert(is_space(s[1]));
            assert(seq![s[0]] =~= s.take(1));
            assert(tokens_of(s) =~= seq![s.take(1)] + tokens_of(s.skip(1)));
        }
    } else {
        let t = s.skip(1);
        assert(forall|j: int| 0 <= j < e - 1 ==> !is_space(t[j]));
        lemma_tokens_split(t, e - 1);
        assert(r == seq![t.take(e - 1)] + tokens_of(t.skip(e - 1)));
        assert(r[0] == t.take(e - 1));
        assert(!is_space(s[1]));
        assert(seq![s[0]] + t.take(e - 1) =~= s.take(e));
        assert(r.skip(1) =~= tokens_of(t.skip(e - 1)));
        assert(t.skip(e - 1) =~= s.skip(e));
        assert(tokens_of(s) =~= seq![s.take(e)] + tokens_of(s.skip(e)));
    }
}

/// Splitting at the first newline: the first line is everything before
/// it, and the remaining lines are the lines of everything after it.
pub proof fn lemma_lines_split(s: Seq<char>, i: int)
    requires
        0 <= i <= s.len(),
        forall|j: int| 0 <= j < i ==> s[j] != newline(),
        i < s.len() ==> s[i] == newline(),
    ensures
        i == s.len() ==> lines_of(s) == seq![s],
        i < s.len() ==> lines_of(s) == seq![s.take(i)] + lines_of(s.skip(i + 1)),
    decreases i,
{
    if i == 0 {
        if s.len() == 0 {
            assert(s =~= Seq::<char>::empty());
            assert(lines_of(s) =~= seq![s]);
        } else {
            assert(s.take(0) =~= Seq::<char>::empty());
            assert(lines_of(s) =~= seq![s.take(0)] + lines_of(s.skip(1)));
        }
    } else {
        let t = s.skip(1);
        assert(forall|j: int| 0 <= j < i - 1 ==> t[j] != newline());
        lemma_lines_split(t, i - 1);
        let r = lines_of(t);
        if i == s.len() {
            assert(r == seq![t]);
            assert(seq![s[0]] + r[0] =~= s);
            assert(r.skip(1) =~= Seq::<Seq<char>>::empty());
            assert(lines_of(s) =~= seq![s]);
        } else {
            assert(r == seq![t.take(i - 1)] + lines_of(t.skip(i)));
            assert(r[0] == t.take(i - 1));
            assert(seq![s[0]] + t.take(i - 1) =~= s.take(i));
            assert(r.skip(1) =~= seq![lines_of(t.skip(i))].first());
            assert(t.skip(i) =~= s.skip(i + 1));
            assert(lines_of(s) =~= seq![s.take(i)] + lines_of(s.skip(i + 1)));
        }
    }
}

} // verus!
