//! Character-level text utilities shared by the codec, the environment store
//! and the runtime: conversion between `&str` and `Vec<char>`, splitting,
//! trimming, and their specification-level counterparts.

use vstd::prelude::*;

verus! {

/// Relies on `String: FromIterator<char>`: collects exactly the given
/// characters, in order, into a `String`.
#[verifier::external_body]
pub fn collect_string(v: &Vec<char>) -> (r: String)
    ensures
        r@ == v@,
{
    v.iter().collect()
}

/// Relies on `str` equality: two string slices are equal exactly when their
/// character sequences are.
#[verifier::external_body]
pub fn str_eq(a: &str, b: &str) -> (r: bool)
    ensures
        r == (a@ == b@),
{
    a == b
}

/// Relies on `str::chars`: yields exactly the string's characters, in
/// order.
#[verifier::external_body]
pub fn chars_of(s: &str) -> (r: Vec<char>)
    ensures
        r@ == s@,
{
    s.chars().collect()
}

/// Whether `c` is an ASCII whitespace character; `trim` strips exactly these.
pub open spec fn is_space(c: char) -> bool {
    c == ' ' || c == '\t' || c == '\r' || c == '\n'
}

/// Executable test for `is_space`.
pub fn is_space_char(c: char) -> (r: bool)
    ensures
        r == is_space(c),
{
    c == ' ' || c == '\t' || c == '\r' || c == '\n'
}

/// `s` with leading whitespace removed.
pub open spec fn trim_start_spec(s: Seq<char>) -> Seq<char>
    decreases s.len(),
{
    if s.len() == 0 {
        s
    } else if is_space(s[0]) {
        trim_start_spec(s.skip(1))
    } else {
        s
    }
}

/// `s` with trailing whitespace removed.
pub open spec fn trim_end_spec(s: Seq<char>) -> Seq<char>
    decreases s.len(),
{
    if s.len() == 0 {
        s
    } else if is_space(s[s.len() - 1]) {
        trim_end_spec(s.take(s.len() - 1))
    } else {
        s
    }
}

/// `s` with leading and trailing whitespace removed.
pub open spec fn trim_spec(s: Seq<char>) -> Seq<char> {
    trim_end_spec(trim_start_spec(s))
}

proof fn lemma_trim_start_prefix(s: Seq<char>, k: int)
    requires
        0 <= k <= s.len(),
        forall|j: int| 0 <= j < k ==> is_space(s[j]),
    ensures
        trim_start_spec(s) == trim_start_spec(s.skip(k)),
    decreases k,
{
    if k > 0 {
        assert(is_space(s[0]));
        assert(s.skip(1).skip(k - 1) =~= s.skip(k));
        lemma_trim_start_prefix(s.skip(1), k - 1);
    } else {
        assert(s.skip(0) =~= s);
    }
}

proof fn lemma_trim_end_suffix(s: Seq<char>, k: int)
    requires
        0 <= k <= s.len(),
        forall|j: int| k <= j < s.len() ==> is_space(s[j]),
    ensures
        trim_end_spec(s) == trim_end_spec(s.take(k)),
    decreases s.len() - k,
{
    if k < s.len() {
        assert(is_space(s[s.len() - 1]));
        assert(s.take(s.len() - 1).take(k) =~= s.take(k));
        lemma_trim_end_suffix(s.take(s.len() - 1), k);
    } else {
        assert(s.take(s.len() as int) =~= s);
    }
}

/// The characters of `v` with leading and trailing whitespace removed.
pub fn trim_chars(v: &Vec<char>) -> (r: Vec<char>)
    ensures
        r@ == trim_spec(v@),
{
    let n: usize = v.len();
    let mut start: usize = 0;
    while start < n && is_space_char(v[start])
        invariant
            n == v@.len(),
            start <= n,
            forall|j: int| 0 <= j < start ==> is_space(v@[j]),
        decreases n - start,
    {
        start = start + 1;
    }
    proof {
        lemma_trim_start_prefix(v@, start as int);
        if start < n {
            assert(v@.skip(start as int)[0] == v@[start as int]);
            assert(trim_start_spec(v@.skip(start as int)) == v@.skip(start as int));
        } else {
            assert(v@.skip(start as int) =~= Seq::<char>::empty());
        }
    }
    let mut end: usize = n;
    while end > start && is_space_char(v[end - 1])
        invariant
            n == v@.len(),
            start <= end <= n,
            forall|j: int| end <= j < n ==> is_space(v@[j]),
        decreases end,
    {
        end = end - 1;
    }
    proof {
        let tail = v@.skip(start as int);
        lemma_trim_end_suffix(tail, end - start);
        assert(tail.take(end - start) =~= v@.subrange(start as int, end as int));
        if end > start {
            let mid = v@.subrange(start as int, end as int);
            assert(mid[mid.len() - 1] == v@[end - 1]);
            assert(trim_end_spec(mid) == mid);
        } else {
            assert(v@.subrange(start as int, end as int) =~= Seq::<char>::empty());
        }
    }
    let mut r: Vec<char> = Vec::new();
    let mut i: usize = start;
    while i < end
        invariant
            start <= i <= end <= n,
            n == v@.len(),
            r@ == v@.subrange(start as int, i as int),
        decreases end - i,
    {
        r.push(v[i]);
        i = i + 1;
        proof {
            assert(r@ =~= v@.subrange(start as int, i as int));
        }
    }
    r
}

/// The tokens of `s` separated by `sep`; splitting the empty string yields
/// one empty token, and each separator ends a token, as `str::split` does.
pub open spec fn split_spec(s: Seq<char>, sep: char) -> Seq<Seq<char>>
    decreases s.len(),
{
    if s.len() == 0 {
        seq![Seq::<char>::empty()]
    } else if s[0] == sep {
        seq![Seq::<char>::empty()] + split_spec(s.skip(1), sep)
    } else {
        let rest = split_spec(s.skip(1), sep);
        seq![seq![s[0]] + rest[0]] + rest.skip(1)
    }
}

pub proof fn lemma_split_len(s: Seq<char>, sep: char)
    ensures
        split_spec(s, sep).len() >= 1,
    decreases s.len(),
{
    if s.len() > 0 {
        lemma_split_len(s.skip(1), sep);
    }
}

/// `tokens` with its first token prefixed by `p`.
spec fn prepend_first(p: Seq<char>, tokens: Seq<Seq<char>>) -> Seq<Seq<char>>
    recommends
        tokens.len() >= 1,
{
    seq![p + tokens[0]] + tokens.skip(1)
}

/// Splits `v` at every occurrence of `sep`.
pub fn split_chars(v: &Vec<char>, sep: char) -> (r: Vec<Vec<char>>)
    ensures
        r.deep_view() == split_spec(v@, sep),
{
    let ghost whole = split_spec(v@, sep);
    let n: usize = v.len();
    let mut out: Vec<Vec<char>> = Vec::new();
    let mut cur: Vec<char> = Vec::new();
    let mut i: usize = 0;
    proof {
        lemma_split_len(v@, sep);
        assert(v@.skip(0) =~= v@);
        assert(cur@ + whole[0] =~= whole[0]);
        assert(out.deep_view() + prepend_first(cur@, whole) =~~= whole);
    }
    while i < n
        invariant
            n == v@.len(),
            i <= n,
            split_spec(v@.skip(i as int), sep).len() >= 1,
            whole == split_spec(v@, sep),
            whole == out.deep_view() + prepend_first(cur@, split_spec(v@.skip(i as int), sep)),
        decreases n - i,
    {
        let ghost tail = v@.skip(i as int);
        let ghost tail1 = v@.skip(i + 1);
        proof {
            assert(tail[0] == v@[i as int]);
            assert(tail.skip(1) =~= tail1);
            lemma_split_len(tail1, sep);
        }
        let c = v[i];
        if c == sep {
            let ghost oldout = out.deep_view();
            let ghost donev = cur@;
            let done = cur;
            out.push(done);
            cur = Vec::new();
            proof {
                assert(out.deep_view() =~~= oldout.push(donev));
                assert(split_spec(tail, sep) == seq![Seq::<char>::empty()] + split_spec(
                    tail1,
                    sep,
                ));
                assert(prepend_first(donev, split_spec(tail, sep)) =~= seq![donev] + split_spec(
                    tail1,
                    sep,
                ));
                assert(prepend_first(cur@, split_spec(tail1, sep)) =~= split_spec(tail1, sep));
                assert(out.deep_view() + split_spec(tail1, sep) =~~= oldout + (seq![donev]
                    + split_spec(tail1, sep)));
            }
        } else {
            let ghost oldcur = cur@;
            cur.push(c);
            proof {
                let rest = split_spec(tail1, sep);
                assert(split_spec(tail, sep) == seq![seq![tail[0]] + rest[0]] + rest.skip(1));
                assert(prepend_first(oldcur, split_spec(tail, sep)) =~= seq![oldcur + (seq![
                    v@[i as int],
                ] + rest[0])] + rest.skip(1));
                assert(cur@ =~= oldcur + seq![v@[i as int]]);
                assert(cur@ + rest[0] =~= oldcur + (seq![v@[i as int]] + rest[0]));
                assert(prepend_first(cur@, rest) =~= prepend_first(oldcur, split_spec(tail, sep)));
            }
        }
        i = i + 1;
    }
    proof {
        assert(v@.skip(n as int) =~= Seq::<char>::empty());
        assert(split_spec(Seq::<char>::empty(), sep) == seq![Seq::<char>::empty()]);
        assert(cur@ + Seq::<char>::empty() =~= cur@);
        assert(prepend_first(cur@, seq![Seq::<char>::empty()]) =~= seq![cur@]);
    }
    let ghost oldout = out.deep_view();
    let ghost curv = cur@;
    out.push(cur);
    proof {
        assert(out.deep_view() =~~= oldout.push(curv));
        assert(oldout.push(curv) =~= oldout + seq![curv]);
        assert(out.deep_view() =~~= whole);
    }
    out
}

} // verus!
