//! An owned key/value store modelling a process environment.
//!
//! The store is an association list scanned front to back, so its
//! mathematical content is the first-match map of its pairs.  `set` keeps
//! keys unique by replacing the first matching pair, so the view behaves
//! exactly like `Map::insert`.

use vstd::prelude::*;
use crate::env_source::{lookup, opt_matches, pairs_model, EnvSource};
use crate::strutil::str_eq;

verus! {

/// An in-memory environment: variable names mapped to values.
pub struct EnvMap {
    pairs: Vec<(String, String)>,
}

impl View for EnvMap {
    type V = Map<Seq<char>, Seq<char>>;

    closed spec fn view(&self) -> Map<Seq<char>, Seq<char>> {
        pairs_model(self.pairs@.map_values(|p: (String, String)| (p.0@, p.1@)))
    }
}

proof fn lemma_pairs_model_update(
    m: Seq<(Seq<char>, Seq<char>)>,
    i: int,
    k: Seq<char>,
    v: Seq<char>,
)
    requires
        0 <= i < m.len(),
        m[i].0 == k,
        forall|j: int| 0 <= j < i ==> (#[trigger] m[j]).0 != k,
    ensures
        pairs_model(m.update(i, (k, v))) =~= pairs_model(m).insert(k, v),
    decreases i,
{
    let mu = m.update(i, (k, v));
    if i == 0 {
        assert(mu.skip(1) =~= m.skip(1));
        assert(pairs_model(mu) =~= pairs_model(m).insert(k, v));
    } else {
        assert(mu.skip(1) =~= m.skip(1).update(i - 1, (k, v)));
        assert(forall|j: int|
            0 <= j < i - 1 ==> (#[trigger] m.skip(1)[j]).0 == m[j + 1].0);
        lemma_pairs_model_update(m.skip(1), i - 1, k, v);
        assert(mu[0] == m[0]);
        assert(m[0].0 != k);
        assert(pairs_model(mu) == pairs_model(mu.skip(1)).insert(mu[0].0, mu[0].1));
        assert(pairs_model(mu) =~= pairs_model(m).insert(k, v));
    }
}

proof fn lemma_pairs_model_push(m: Seq<(Seq<char>, Seq<char>)>, k: Seq<char>, v: Seq<char>)
    requires
        forall|j: int| 0 <= j < m.len() ==> (#[trigger] m[j]).0 != k,
    ensures
        pairs_model(m.push((k, v))) =~= pairs_model(m).insert(k, v),
    decreases m.len(),
{
    let mp = m.push((k, v));
    if m.len() == 0 {
        assert(mp.skip(1) =~= Seq::<(Seq<char>, Seq<char>)>::empty());
        assert(pairs_model(mp) == pairs_model(mp.skip(1)).insert(mp[0].0, mp[0].1));
        assert(mp[0] == (k, v));
        assert(m =~= Seq::<(Seq<char>, Seq<char>)>::empty());
        assert(pairs_model(mp) =~= pairs_model(m).insert(k, v));
    } else {
        assert(mp.skip(1) =~= m.skip(1).push((k, v)));
        assert(forall|j: int|
            0 <= j < m.skip(1).len() ==> (#[trigger] m.skip(1)[j]).0 == m[j + 1].0);
        lemma_pairs_model_push(m.skip(1), k, v);
        assert(mp[0] == m[0]);
        assert(m[0].0 != k);
        assert(pairs_model(mp) == pairs_model(mp.skip(1)).insert(mp[0].0, mp[0].1));
        assert(pairs_model(mp) =~= pairs_model(m).insert(k, v));
    }
}

impl EnvMap {
    /// An environment with no variables.
    pub fn new() -> (r: EnvMap)
        ensures
            r@ == Map::<Seq<char>, Seq<char>>::empty(),
    {
        let r = EnvMap { pairs: Vec::new() };
        proof {
            assert(r.pairs@.map_values(|p: (String, String)| (p.0@, p.1@))
                =~= Seq::<(Seq<char>, Seq<char>)>::empty());
        }
        r
    }

    /// Define or replace a variable.
    pub fn set(&mut self, key: &str, value: &str)
        ensures
            final(self)@ == old(self)@.insert(key@, value@),
    {
        let ghost m0 = self.pairs@.map_values(|p: (String, String)| (p.0@, p.1@));
        let n = self.pairs.len();
        let mut i: usize = 0;
        while i < n
            invariant
                n == self.pairs@.len(),
                m0 == self.pairs@.map_values(|p: (String, String)| (p.0@, p.1@)),
                self == old(self),
                0 <= i <= n,
                forall|j: int| 0 <= j < i ==> (#[trigger] m0[j]).0 != key@,
            decreases n - i,
        {
            if str_eq(self.pairs[i].0.as_str(), key) {
                let pair = (self.pairs[i].0.clone(), value.to_owned());
                self.pairs.set(i, pair);
                proof {
                    let m1 = self.pairs@.map_values(|p: (String, String)| (p.0@, p.1@));
                    assert(m1 =~= m0.update(i as int, (key@, value@)));
                    lemma_pairs_model_update(m0, i as int, key@, value@);
                }
                return ;
            }
            i = i + 1;
        }
        self.pairs.push((key.to_owned(), value.to_owned()));
        proof {
            let m1 = self.pairs@.map_values(|p: (String, String)| (p.0@, p.1@));
            assert(m1 =~= m0.push((key@, value@)));
            lemma_pairs_model_push(m0, key@, value@);
        }
    }
}

impl EnvSource for EnvMap {
    open spec fn obeys(&self) -> bool {
        true
    }

    open spec fn model(&self) -> Map<Seq<char>, Seq<char>> {
        self@
    }

    open spec fn pre(&self, key: &str) -> bool {
        true
    }

    fn get(&self, key: &str) -> (r: Option<String>) {
        let ghost m = self.pairs@.map_values(|p: (String, String)| (p.0@, p.1@));
        let n = self.pairs.len();
        let mut i: usize = 0;
        proof {
            assert(m.skip(0) =~= m);
        }
        while i < n
            invariant
                n == self.pairs@.len(),
                m == self.pairs@.map_values(|p: (String, String)| (p.0@, p.1@)),
                0 <= i <= n,
                lookup(pairs_model(m), key@) == lookup(pairs_model(m.skip(i as int)), key@),
            decreases n - i,
        {
            proof {
                assert(m.skip(i as int)[0] == m[i as int]);
                assert(m.skip(i as int).skip(1) =~= m.skip(i as int + 1));
            }
            if str_eq(self.pairs[i].0.as_str(), key) {
                return Some(self.pairs[i].1.clone());
            }
            i = i + 1;
        }
        proof {
            assert(m.skip(n as int) =~= Seq::<(Seq<char>, Seq<char>)>::empty());
        }
        None
    }
}

} // verus!
