//! Small helpers shared across the crate: deep-preserving clones of string
//! collections and a first-match search over sequences.

use vstd::prelude::*;
use vstd::string::{StrSliceExecFns, StringExecFns};

verus! {

/// A copy of a string vector whose contents are provably the same.
pub fn clone_strings(v: &Vec<String>) -> (r: Vec<String>)
    ensures
        r.deep_view() == v.deep_view(),
{
    let mut out: Vec<String> = Vec::new();
    let mut i: usize = 0;
    while i < v.len()
        invariant
            i <= v.len(),
            out.deep_view() == v.deep_view().take(i as int),
        decreases v.len() - i,
    {
        let ghost before = out.deep_view();
        out.push(v[i].clone());
        proof {
            assert(out.deep_view() =~= before.push(v.deep_view()[i as int]));
            assert(before.push(v.deep_view()[i as int]) =~= v.deep_view().take(i + 1));
        }
        i = i + 1;
    }
    proof {
        assert(v.deep_view().take(v.deep_view().len() as int) =~= v.deep_view());
    }
    out
}

/// A copy of an optional string whose contents are provably the same.
pub fn clone_opt_string(o: &Option<String>) -> (r: Option<String>)
    ensures
        r.deep_view() == o.deep_view(),
{
    match o {
        Some(s) => Some(s.clone()),
        None => None,
    }
}

/// A path under `root`: `sub` itself when it is absolute, otherwise `root`
/// and `sub` joined with a single separator.  Paths are modelled as plain
/// strings with `/` as the separator.
pub open spec fn path_join_spec(root: Seq<char>, sub: Seq<char>) -> Seq<char> {
    if sub.len() > 0 && sub[0] == '/' {
        sub
    } else if root.len() == 0 {
        sub
    } else if root.last() == '/' {
        root + sub
    } else {
        root + seq!['/'] + sub
    }
}

/// Joins a working directory onto a root directory.
pub fn path_join(root: &str, sub: &str) -> (r: String)
    ensures
        r@ == path_join_spec(root@, sub@),
{
    proof {
        reveal_strlit("/");
        assert("/"@ =~= seq!['/']);
    }
    if !sub.is_empty() && sub.get_char(0) == '/' {
        sub.to_owned()
    } else if root.is_empty() {
        sub.to_owned()
    } else {
        let rlen = root.unicode_len();
        if root.get_char(rlen - 1) == '/' {
            root.to_owned().concat(sub)
        } else {
            root.to_owned().concat("/").concat(sub)
        }
    }
}

/// An element stays in a sequence when another is pushed after it.
pub proof fn lemma_contains_after_push<T>(s: Seq<T>, x: T, y: T)
    requires
        s.contains(y),
    ensures
        s.push(x).contains(y),
{
    let i = choose|i: int| 0 <= i < s.len() && s[i] == y;
    assert(s.push(x)[i] == y);
}

/// The first element of `s` that satisfies `pred`, if any.
pub open spec fn first_match<T>(s: Seq<T>, pred: spec_fn(T) -> bool) -> Option<T>
    decreases s.len(),
{
    if s.len() == 0 {
        None
    } else if pred(s[0]) {
        Some(s[0])
    } else {
        first_match(s.drop_first(), pred)
    }
}

/// While no element of the prefix matches, the first match is found in the
/// remainder.
pub proof fn lemma_first_match_skip<T>(s: Seq<T>, pred: spec_fn(T) -> bool, i: int)
    requires
        0 <= i <= s.len(),
        forall|j: int| 0 <= j < i ==> !pred(#[trigger] s[j]),
    ensures
        first_match(s, pred) == first_match(s.skip(i), pred),
    decreases i,
{
    if i > 0 {
        assert(s.skip(i) =~= s.drop_first().skip(i - 1));
        lemma_first_match_skip(s.drop_first(), pred, i - 1);
    } else {
        assert(s.skip(0) =~= s);
    }
}

/// A matching element at the head of the remainder is the first match.
pub proof fn lemma_first_match_found<T>(s: Seq<T>, pred: spec_fn(T) -> bool, i: int)
    requires
        0 <= i < s.len(),
        forall|j: int| 0 <= j < i ==> !pred(#[trigger] s[j]),
        pred(s[i]),
    ensures
        first_match(s, pred) == Some(s[i]),
{
    lemma_first_match_skip(s, pred, i);
    assert(s.skip(i)[0] == s[i]);
}

/// When nothing matches, there is no first match.
pub proof fn lemma_first_match_none<T>(s: Seq<T>, pred: spec_fn(T) -> bool)
    requires
        forall|j: int| 0 <= j < s.len() ==> !pred(#[trigger] s[j]),
    ensures
        first_match(s, pred) is None,
{
    lemma_first_match_skip(s, pred, s.len() as int);
    assert(s.skip(s.len() as int) =~= Seq::<T>::empty());
}

} // verus!
