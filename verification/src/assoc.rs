//! A small name-keyed map kept as a vector of pairs, with a `Map` model.
//!
//! The component registry and the sequence state store are both keyed by
//! names that are unique within one map; lookups and inserts are proved
//! against the `Map<Seq<char>, T>` view.

use vstd::prelude::*;

verus! {

/// An insertion-ordered map from names to `T`, with pairwise-distinct keys.
pub struct AssocMap<T> {
    pairs: Vec<(String, T)>,
}

pub open spec fn map_of<T>(s: Seq<(String, T)>) -> Map<Seq<char>, T>
    decreases s.len(),
{
    if s.len() == 0 {
        Map::empty()
    } else {
        map_of(s.drop_last()).insert(s.last().0@, s.last().1)
    }
}

impl<T> AssocMap<T> {
    /// The keys are pairwise distinct, so the `Map` view loses nothing.
    pub closed spec fn wf(&self) -> bool {
        forall|i: int, j: int|
            0 <= i < j < self.pairs@.len() ==> self.pairs@[i].0@ != self.pairs@[j].0@
    }

    pub closed spec fn view_internal(&self) -> Map<Seq<char>, T> {
        map_of(self.pairs@)
    }

    pub fn new() -> (r: AssocMap<T>)
        ensures
            r.wf(),
            r@ == Map::<Seq<char>, T>::empty(),
    {
        AssocMap { pairs: Vec::new() }
    }

    proof fn lemma_map_of_prefix_domain(s: Seq<(String, T)>, k: Seq<char>)
        ensures
            map_of(s).dom().contains(k) <==> exists|i: int| 0 <= i < s.len() && s[i].0@ == k,
        decreases s.len(),
    {
        if s.len() > 0 {
            Self::lemma_map_of_prefix_domain(s.drop_last(), k);
            if exists|i: int| 0 <= i < s.len() && s[i].0@ == k {
                let i = choose|i: int| 0 <= i < s.len() && s[i].0@ == k;
                if i < s.len() - 1 {
                    assert(s.drop_last()[i].0@ == k);
                }
            }
        }
    }

    proof fn lemma_map_of_at(s: Seq<(String, T)>, i: int)
        requires
            0 <= i < s.len(),
            forall|p: int, q: int| 0 <= p < q < s.len() ==> s[p].0@ != s[q].0@,
        ensures
            map_of(s).dom().contains(s[i].0@),
            map_of(s)[s[i].0@] == s[i].1,
        decreases s.len(),
    {
        if i == s.len() - 1 {
            Self::lemma_map_of_prefix_domain(s.drop_last(), s[i].0@);
        } else {
            Self::lemma_map_of_at(s.drop_last(), i);
            assert(s.drop_last()[i] == s[i]);
        }
    }

    /// Look a name up; `Some` exactly when the model contains the key.
    pub fn get(&self, name: &String) -> (r: Option<&T>)
        requires
            self.wf(),
        ensures
            match r {
                Option::Some(v) => self@.dom().contains(name@) && *v == self@[name@],
                Option::None => !self@.dom().contains(name@),
            },
    {
        let n = self.pairs.len();
        let mut i: usize = 0;
        while i < n
            invariant
                self.wf(),
                n == self.pairs@.len(),
                i <= n,
                forall|k: int| 0 <= k < i ==> self.pairs@[k].0@ != name@,
            decreases n - i,
        {
            if self.pairs[i].0 == *name {
                proof {
                    Self::lemma_map_of_at(self.pairs@, i as int);
                }
                return Option::Some(&self.pairs[i].1);
            }
            i = i + 1;
        }
        proof {
            Self::lemma_map_of_prefix_domain(self.pairs@, name@);
        }
        Option::None
    }

    /// Bind a name; an existing binding of the same name is replaced.
    pub fn set(&mut self, name: String, v: T)
        requires
            old(self).wf(),
        ensures
            final(self).wf(),
            final(self)@ == old(self)@.insert(name@, v),
    {
        let n = self.pairs.len();
        let mut i: usize = 0;
        while i < n
            invariant
                self.wf(),
                self.pairs@ == old(self).pairs@,
                n == self.pairs@.len(),
                i <= n,
                forall|k: int| 0 <= k < i ==> self.pairs@[k].0@ != name@,
            decreases n - i,
        {
            if self.pairs[i].0 == name {
                self.pairs[i] = (name, v);
                proof {
                    Self::lemma_set_at(old(self).pairs@, self.pairs@, i as int);
                }
                return ;
            }
            i = i + 1;
        }
        proof {
            Self::lemma_map_of_prefix_domain(self.pairs@, name@);
        }
        let ghost before = self.pairs@;
        self.pairs.push((name, v));
        proof {
            assert(self.pairs@.drop_last() =~= before);
        }
    }

    proof fn lemma_set_at(s0: Seq<(String, T)>, s1: Seq<(String, T)>, i: int)
        requires
            0 <= i < s0.len(),
            s1.len() == s0.len(),
            forall|p: int, q: int| 0 <= p < q < s0.len() ==> s0[p].0@ != s0[q].0@,
            forall|k: int| 0 <= k < s0.len() && k != i ==> s1[k] == s0[k],
            s1[i].0@ == s0[i].0@,
        ensures
            forall|p: int, q: int| 0 <= p < q < s1.len() ==> s1[p].0@ != s1[q].0@,
            map_of(s1) == map_of(s0).insert(s0[i].0@, s1[i].1),
        decreases s0.len(),
    {
        assert forall|p: int, q: int| 0 <= p < q < s1.len() implies s1[p].0@ != s1[q].0@ by {
            assert(s0[p].0@ != s0[q].0@);
        }
        if i == s0.len() - 1 {
            assert(s1.drop_last() =~= s0.drop_last());
            assert(map_of(s1) =~= map_of(s0).insert(s0[i].0@, s1[i].1));
        } else {
            Self::lemma_set_at(s0.drop_last(), s1.drop_last(), i);
            assert(s1.last() == s0.last());
            Self::lemma_map_of_prefix_domain(s0.drop_last(), s0[i].0@);
            assert(map_of(s1) =~= map_of(s0).insert(s0[i].0@, s1[i].1));
        }
    }
}

impl<T> View for AssocMap<T> {
    type V = Map<Seq<char>, T>;

    open spec fn view(&self) -> Map<Seq<char>, T> {
        self.view_internal()
    }
}

} // verus!
