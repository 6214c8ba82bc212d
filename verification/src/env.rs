//! Environment model and shell-style variable expansion.
//!
//! An [`EnvMap`] is an ordered list of `key=value` pairs; a lookup returns
//! the value of the *last* pair with the requested key, so appending one
//! layer after another gives the override order "process < component <
//! call-site" that component execution asks for.
//!
//! Values, working directories, and command lines undergo `%VAR%`
//! expansion.  The expansion grammar is specified here exactly: the string
//! is split on `%`, odd-numbered segments are variable names, and the
//! expansion succeeds only when every `%` is paired, every variable name is
//! well formed, and every named variable is present.  A failed expansion
//! falls back to the original string and never errors the run.

use vstd::prelude::*;

verus! {

/// An ordered environment: later pairs override earlier ones.
#[derive(Debug)]
pub struct EnvMap {
    pub pairs: Vec<(String, String)>,
}

impl View for EnvMap {
    type V = Seq<(Seq<char>, Seq<char>)>;

    open spec fn view(&self) -> Seq<(Seq<char>, Seq<char>)> {
        self.pairs.deep_view()
    }
}

/// The value bound to `k`: the last pair with key `k` wins.
pub open spec fn env_lookup(s: Seq<(Seq<char>, Seq<char>)>, k: Seq<char>) -> Option<Seq<char>>
    decreases s.len(),
{
    if s.len() == 0 {
        None
    } else if s.last().0 == k {
        Some(s.last().1)
    } else {
        env_lookup(s.drop_last(), k)
    }
}

/// Looking a key up in two stacked layers prefers the later layer.
pub proof fn lemma_env_layering(
    lo: Seq<(Seq<char>, Seq<char>)>,
    hi: Seq<(Seq<char>, Seq<char>)>,
    k: Seq<char>,
)
    ensures
        env_lookup(lo + hi, k) == (if env_lookup(hi, k) is Some {
            env_lookup(hi, k)
        } else {
            env_lookup(lo, k)
        }),
    decreases hi.len(),
{
    if hi.len() == 0 {
        assert(lo + hi =~= lo);
    } else {
        assert((lo + hi).drop_last() =~= lo + hi.drop_last());
        lemma_env_layering(lo, hi.drop_last(), k);
    }
}

impl EnvMap {
    /// An empty environment.
    pub fn new() -> (r: EnvMap)
        ensures
            r@ == Seq::<(Seq<char>, Seq<char>)>::empty(),
    {
        let r = EnvMap { pairs: Vec::new() };
        proof {
            assert(r@ =~= Seq::<(Seq<char>, Seq<char>)>::empty());
        }
        r
    }

    /// Binds `key` to `value`, overriding any earlier binding.
    pub fn set(&mut self, key: String, value: String)
        ensures
            final(self)@ == old(self)@.push((key@, value@)),
    {
        let ghost prior = self@;
        let ghost kv = (key@, value@);
        self.pairs.push((key, value));
        proof {
            assert(self@ =~= prior.push(kv));
        }
    }

    /// The value bound to `key`, if any.
    pub fn get(&self, key: &str) -> (r: Option<String>)
        ensures
            match r {
                Some(v) => env_lookup(self@, key@) == Some(v@),
                None => env_lookup(self@, key@) is None,
            },
    {
        let k = key.to_owned();
        let mut i: usize = self.pairs.len();
        proof {
            assert(self@.take(i as int) =~= self@);
        }
        while i > 0
            invariant
                i <= self.pairs.len(),
                k@ == key@,
                env_lookup(self@, key@) == env_lookup(self@.take(i as int), key@),
            decreases i,
        {
            i = i - 1;
            let p = &self.pairs[i];
            proof {
                assert(self@.take(i + 1).last() == self@[i as int]);
                assert(self@.take(i + 1).drop_last() =~= self@.take(i as int));
            }
            if p.0 == k {
                return Some(p.1.clone());
            }
        }
        proof {
            assert(self@.take(0) =~= Seq::<(Seq<char>, Seq<char>)>::empty());
        }
        None
    }

    /// Appends every pair of `other` after the pairs of `self`, so that
    /// `other` becomes the overriding layer.
    pub fn extend(&mut self, other: &EnvMap)
        ensures
            final(self)@ == old(self)@ + other@,
    {
        let ghost base = self@;
        let mut i: usize = 0;
        proof {
            assert(self@ =~= base + other@.take(0));
        }
        while i < other.pairs.len()
            invariant
                i <= other.pairs.len(),
                self@ == base + other@.take(i as int),
            decreases other.pairs.len() - i,
        {
            let ghost before = self@;
            let p = &other.pairs[i];
            self.pairs.push((p.0.clone(), p.1.clone()));
            proof {
                assert(self@ =~= before.push(other@[i as int]));
                assert(before.push(other@[i as int]) =~= base + other@.take(i + 1));
            }
            i = i + 1;
        }
        proof {
            assert(other@.take(other@.len() as int) =~= other@);
        }
    }
}

impl Clone for EnvMap {
    fn clone(&self) -> (r: Self)
        ensures
            r@ == self@,
    {
        let mut pairs: Vec<(String, String)> = Vec::new();
        let mut i: usize = 0;
        while i < self.pairs.len()
            invariant
                i <= self.pairs.len(),
                pairs.deep_view() == self@.take(i as int),
            decreases self.pairs.len() - i,
        {
            let ghost before = pairs.deep_view();
            let p = &self.pairs[i];
            pairs.push((p.0.clone(), p.1.clone()));
            proof {
                assert(pairs.deep_view() =~= before.push(self@[i as int]));
                assert(before.push(self@[i as int]) =~= self@.take(i + 1));
            }
            i = i + 1;
        }
        proof {
            assert(self@.take(self@.len() as int) =~= self@);
        }
        EnvMap { pairs }
    }
}

/// The segments of `s` between occurrences of `sep`.
pub open spec fn split_on(s: Seq<char>, sep: char) -> Seq<Seq<char>>
    decreases s.len(),
{
    if s.len() == 0 {
        seq![Seq::<char>::empty()]
    } else if s[0] == sep {
        seq![Seq::<char>::empty()] + split_on(s.drop_first(), sep)
    } else {
        let rest = split_on(s.drop_first(), sep);
        seq![seq![s[0]] + rest[0]] + rest.drop_first()
    }
}

/// A variable name may not contain an equality sign or a space.
pub open spec fn valid_var_name(v: Seq<char>) -> bool {
    !v.contains('=') && !v.contains(' ')
}

/// `s` expands without error against `env`: every `%` is paired, every
/// variable name is well formed, and every non-empty variable name is
/// bound in `env`.
pub open spec fn expandable(s: Seq<char>, env: Seq<(Seq<char>, Seq<char>)>) -> bool {
    let parts = split_on(s, '%');
    &&& parts.len() % 2 == 1
    &&& forall|i: int| 0 <= i < parts.len() && i % 2 == 1 ==> valid_var_name(#[trigger] parts[i])
    &&& forall|i: int|
        0 <= i < parts.len() && i % 2 == 1 && parts[i].len() > 0 ==> env_lookup(
            env,
            #[trigger] parts[i],
        ) is Some
}

/// The expansion of a segment list: even segments are literal text, odd
/// segments are variable names replaced by their values (an empty variable
/// name contributes nothing).
pub open spec fn expansion_of_parts(
    parts: Seq<Seq<char>>,
    env: Seq<(Seq<char>, Seq<char>)>,
) -> Seq<char>
    decreases parts.len(),
{
    if parts.len() == 0 {
        Seq::<char>::empty()
    } else {
        expansion_of_parts(parts.drop_last(), env) + (if (parts.len() - 1) % 2 == 1 {
            if parts.last().len() == 0 {
                Seq::<char>::empty()
            } else {
                match env_lookup(env, parts.last()) {
                    Some(v) => v,
                    None => Seq::<char>::empty(),
                }
            }
        } else {
            parts.last()
        })
    }
}

/// The successful expansion of `s` against `env`.
pub open spec fn expansion(s: Seq<char>, env: Seq<(Seq<char>, Seq<char>)>) -> Seq<char> {
    expansion_of_parts(split_on(s, '%'), env)
}

/// What expanding `s` against `env` yields: the expansion when `s` is
/// expandable, and `s` itself otherwise.
pub open spec fn expand_spec(s: Seq<char>, env: Seq<(Seq<char>, Seq<char>)>) -> Seq<char> {
    if expandable(s, env) {
        expansion(s, env)
    } else {
        s
    }
}

/// Relies on `expand_str::expand_string_with_values`: the string is split
/// on `%` into alternating literal and variable segments; the call returns
/// the concatenation with variables replaced by the provided values, and an
/// error exactly when a `%` is unpaired, a variable name contains `=` or a
/// space, or a non-empty variable name is unbound.
#[verifier::external_body]
fn expand_with(s: &str, env: &EnvMap) -> (r: Option<String>)
    ensures
        r is Some <==> expandable(s@, env@),
        r matches Some(out) ==> out@ == expansion(s@, env@),
{
    expand_str::expand_string_with_values(s, |k: &str| env.get(k)).ok()
}

/// Expands `%VAR%` tokens in `s` from `env`; a string that does not expand
/// cleanly is returned verbatim.
pub fn expand_env(s: &str, env: &EnvMap) -> (r: String)
    ensures
        r@ == expand_spec(s@, env@),
{
    match expand_with(s, env) {
        Some(out) => out,
        None => s.to_owned(),
    }
}

/// Every value of `e` expanded against `e` itself.
pub open spec fn expand_all_spec(e: Seq<(Seq<char>, Seq<char>)>) -> Seq<(Seq<char>, Seq<char>)> {
    e.map(|i: int, p: (Seq<char>, Seq<char>)| (p.0, expand_spec(p.1, e)))
}

impl EnvMap {
    /// Expands every value against the map itself, leaving keys alone.
    pub fn expand_values(&self) -> (r: EnvMap)
        ensures
            r@ == expand_all_spec(self@),
    {
        let mut pairs: Vec<(String, String)> = Vec::new();
        let mut i: usize = 0;
        while i < self.pairs.len()
            invariant
                i <= self.pairs.len(),
                pairs.deep_view() == expand_all_spec(self@).take(i as int),
            decreases self.pairs.len() - i,
        {
            let ghost before = pairs.deep_view();
            let p = &self.pairs[i];
            let v = expand_env(p.1.as_str(), self);
            pairs.push((p.0.clone(), v));
            proof {
                assert(pairs.deep_view() =~= before.push(
                    (self@[i as int].0, expand_spec(self@[i as int].1, self@)),
                ));
                assert(before.push((self@[i as int].0, expand_spec(self@[i as int].1, self@)))
                    =~= expand_all_spec(self@).take(i + 1));
            }
            i = i + 1;
        }
        proof {
            assert(expand_all_spec(self@).take(self@.len() as int) =~= expand_all_spec(self@));
        }
        EnvMap { pairs }
    }
}

} // verus!
