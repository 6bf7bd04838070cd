//! Pluggable variable-lookup sources for the expander.
//!
//! A source answers `get(key)` with `Some(value)` or `None`; absence and an
//! empty value are distinct.  A source whose answers are fully captured by a
//! mathematical map sets `obeys()` and exposes that map through `model()`;
//! the expander's contract is exact for such sources.  Sources backed by an
//! arbitrary closure or by a hash table keyed by strings give no such
//! guarantee and set `obeys()` to false.

use vstd::prelude::*;
use std::collections::BTreeMap;
use std::collections::HashMap;

verus! {

/// Lookup in a model map: the value when the key is defined, else `None`.
pub open spec fn lookup(env: Map<Seq<char>, Seq<char>>, key: Seq<char>) -> Option<Seq<char>> {
    if env.dom().contains(key) {
        Some(env[key])
    } else {
        None
    }
}

/// Whether an executable answer agrees with a model answer.
pub open spec fn opt_matches(r: Option<String>, m: Option<Seq<char>>) -> bool {
    match (r, m) {
        (Option::Some(v), Option::Some(w)) => v@ == w,
        (Option::None, Option::None) => true,
        _ => false,
    }
}

/// The first-match map of an association list: the earliest pair with a
/// given key wins, as a front-to-back scan of the list would find it.
pub open spec fn pairs_model(pairs: Seq<(Seq<char>, Seq<char>)>) -> Map<Seq<char>, Seq<char>>
    decreases pairs.len(),
{
    if pairs.len() == 0 {
        Map::empty()
    } else {
        pairs_model(pairs.skip(1)).insert(pairs[0].0, pairs[0].1)
    }
}

/// A source of variable values for `$VAR`-style expansion.
pub trait EnvSource {
    /// Whether `model` faithfully describes every answer of `get`.
    spec fn obeys(&self) -> bool;

    /// The mathematical content of the source.
    spec fn model(&self) -> Map<Seq<char>, Seq<char>>;

    /// What a caller must establish before asking for `key`.
    spec fn pre(&self, key: &str) -> bool;

    /// The value of `key`, or `None` when this source does not define it.
    fn get(&self, key: &str) -> (r: Option<String>)
        requires
            self.pre(key),
        ensures
            self.obeys() ==> opt_matches(r, lookup(self.model(), key@)),
    ;
}

impl<T: EnvSource + ?Sized> EnvSource for &T {
    open spec fn obeys(&self) -> bool {
        (**self).obeys()
    }

    open spec fn model(&self) -> Map<Seq<char>, Seq<char>> {
        (**self).model()
    }

    open spec fn pre(&self, key: &str) -> bool {
        (**self).pre(key)
    }

    fn get(&self, key: &str) -> (r: Option<String>) {
        (**self).get(key)
    }
}

/// A constant source: a slice of key/value pairs, earliest match first.
impl EnvSource for [(&str, &str)] {
    open spec fn obeys(&self) -> bool {
        true
    }

    open spec fn model(&self) -> Map<Seq<char>, Seq<char>> {
        pairs_model(self@.map_values(|p: (&str, &str)| (p.0@, p.1@)))
    }

    open spec fn pre(&self, key: &str) -> bool {
        true
    }

    fn get(&self, key: &str) -> (r: Option<String>) {
        slice_pairs_get(self, key)
    }
}

/// Front-to-back scan of a pair slice; the earliest matching key wins.
fn slice_pairs_get(pairs: &[(&str, &str)], key: &str) -> (r: Option<String>)
    ensures
        opt_matches(
            r,
            lookup(pairs_model(pairs@.map_values(|p: (&str, &str)| (p.0@, p.1@))), key@),
        ),
{
    let ghost m = pairs@.map_values(|p: (&str, &str)| (p.0@, p.1@));
    let n = pairs.len();
    let mut i: usize = 0;
    proof {
        assert(m.skip(0) =~= m);
    }
    while i < n
        invariant
            n == pairs@.len(),
            m == pairs@.map_values(|p: (&str, &str)| (p.0@, p.1@)),
            0 <= i <= n,
            lookup(pairs_model(m), key@) == lookup(pairs_model(m.skip(i as int)), key@),
        decreases n - i,
    {
        let (k, v) = pairs[i];
        proof {
            assert(m.skip(i as int)[0] == m[i as int]);
            assert(m.skip(i as int).skip(1) =~= m.skip(i as int + 1));
        }
        if crate::strutil::str_eq(k, key) {
            return Some(v.to_owned());
        }
        i = i + 1;
    }
    proof {
        assert(m.skip(n as int) =~= Seq::<(Seq<char>, Seq<char>)>::empty());
    }
    None
}

/// A hash-table source.  String keys carry no hash-model guarantee, so the
/// answers are not pinned by a model; the table still answers at run time.
impl EnvSource for HashMap<String, String> {
    open spec fn obeys(&self) -> bool {
        false
    }

    open spec fn model(&self) -> Map<Seq<char>, Seq<char>> {
        Map::empty()
    }

    open spec fn pre(&self, key: &str) -> bool {
        true
    }

    fn get(&self, key: &str) -> (r: Option<String>) {
        match self.get(key) {
            Some(v) => Some(v.clone()),
            None => None,
        }
    }
}

/// An ordered-map source.  String keys carry no comparison-model guarantee,
/// so the answers are not pinned by a model.
impl EnvSource for BTreeMap<String, String> {
    open spec fn obeys(&self) -> bool {
        false
    }

    open spec fn model(&self) -> Map<Seq<char>, Seq<char>> {
        Map::empty()
    }

    open spec fn pre(&self, key: &str) -> bool {
        true
    }

    fn get(&self, key: &str) -> (r: Option<String>) {
        match self.get(key) {
            Some(v) => Some(v.clone()),
            None => None,
        }
    }
}

/// An adapter that answers lookups through an arbitrary function or closure.
/// Such answers are not pinned by a model.
pub struct FnEnvSource<F>(pub F);

impl<F: for<'a> Fn(&'a str) -> Option<String>> EnvSource for FnEnvSource<F> {
    open spec fn obeys(&self) -> bool {
        false
    }

    open spec fn model(&self) -> Map<Seq<char>, Seq<char>> {
        Map::empty()
    }

    open spec fn pre(&self, key: &str) -> bool {
        call_requires(self.0, (key,))
    }

    fn get(&self, key: &str) -> (r: Option<String>) {
        (self.0)(key)
    }
}

/// A chained source: the primary source is asked first, and the fallback
/// only when the primary does not define the key at all (an empty value in
/// the primary still wins).
pub struct EnvSourceChain<A, B> {
    /// The source asked first.
    pub primary: A,
    /// The source asked when the primary has no entry.
    pub fallback: B,
}

impl<A: EnvSource, B: EnvSource> EnvSource for EnvSourceChain<A, B> {
    open spec fn obeys(&self) -> bool {
        self.primary.obeys() && self.fallback.obeys()
    }

    open spec fn model(&self) -> Map<Seq<char>, Seq<char>> {
        self.fallback.model().union_prefer_right(self.primary.model())
    }

    open spec fn pre(&self, key: &str) -> bool {
        self.primary.pre(key) && self.fallback.pre(key)
    }

    fn get(&self, key: &str) -> (r: Option<String>) {
        match self.primary.get(key) {
            Some(v) => Some(v),
            None => self.fallback.get(key),
        }
    }
}

} // verus!
