//! Environment-variable maps.
//!
//! The original format accepts a service's `environment` both as a mapping
//! and as a list of `KEY=VALUE` strings; both normalize into this one type.
//! It is a vector of key/value pairs with unique keys, viewed in contracts as
//! a `Map<Seq<char>, Seq<char>>`.

use vstd::prelude::*;

verus! {

/// The mathematical map held by a sequence of key/value pairs, later entries
/// overriding earlier ones.
pub open spec fn assoc_map(s: Seq<(String, String)>) -> Map<Seq<char>, Seq<char>>
    decreases s.len(),
{
    if s.len() == 0 {
        Map::empty()
    } else {
        assoc_map(s.drop_last()).insert(s.last().0@, s.last().1@)
    }
}

/// Whether the keys of `s` are pairwise distinct.
pub open spec fn unique_keys(s: Seq<(String, String)>) -> bool {
    forall|i: int, j: int| 0 <= i < j < s.len() ==> (#[trigger] s[i]).0@ != (#[trigger] s[j]).0@
}

/// A set of environment variables: an insertion-ordered association list
/// with unique keys.
pub struct EnvironmentVars {
    /// The entries, in insertion order; [`EnvironmentVars::wf`] keeps their
    /// keys unique.
    pub entries: Vec<(String, String)>,
}

impl View for EnvironmentVars {
    type V = Map<Seq<char>, Seq<char>>;

    open spec fn view(&self) -> Map<Seq<char>, Seq<char>> {
        assoc_map(self.entries@)
    }
}

pub proof fn lemma_assoc_map_domain(s: Seq<(String, String)>)
    ensures
        forall|k: Seq<char>|
            #[trigger] assoc_map(s).contains_key(k) <==> exists|i: int|
                0 <= i < s.len() && (#[trigger] s[i]).0@ == k,
    decreases s.len(),
{
    if s.len() > 0 {
        lemma_assoc_map_domain(s.drop_last());
        assert(forall|i: int| 0 <= i < s.len() - 1 ==> s[i] == s.drop_last()[i]);
        assert forall|k: Seq<char>| #[trigger]
            assoc_map(s).contains_key(k) implies exists|i: int|
            0 <= i < s.len() && (#[trigger] s[i]).0@ == k by {
            if k == s.last().0@ {
                assert((s[s.len() - 1]).0@ == k);
            } else {
                assert(assoc_map(s.drop_last()).contains_key(k));
                let i = choose|i: int|
                    0 <= i < s.drop_last().len() && (#[trigger] s.drop_last()[i]).0@ == k;
                assert(s[i] == s.drop_last()[i]);
                assert((s[i]).0@ == k);
            }
        }
        assert forall|k: Seq<char>|
            (exists|i: int| 0 <= i < s.len() && (#[trigger] s[i]).0@ == k) implies #[trigger]
            assoc_map(s).contains_key(k) by {
            let i = choose|i: int| 0 <= i < s.len() && (#[trigger] s[i]).0@ == k;
            if i == s.len() - 1 {
            } else {
                assert(s.drop_last()[i] == s[i]);
                assert(assoc_map(s.drop_last()).contains_key(k));
            }
        }
    }
}

/// The value paired with the last entry whose key is `k`.
pub proof fn lemma_assoc_map_last(s: Seq<(String, String)>, i: int)
    requires
        unique_keys(s),
        0 <= i < s.len(),
    ensures
        assoc_map(s).contains_key(s[i].0@),
        assoc_map(s)[s[i].0@] == s[i].1@,
    decreases s.len(),
{
    if i == s.len() - 1 {
    } else {
        assert(forall|j: int| 0 <= j < s.len() - 1 ==> s[j] == s.drop_last()[j]);
        lemma_assoc_map_last(s.drop_last(), i);
        assert(s[i].0@ != s.last().0@);
    }
}

impl EnvironmentVars {
    /// The empty set of variables.
    pub fn new() -> (r: EnvironmentVars)
        ensures
            r@ == Map::<Seq<char>, Seq<char>>::empty(),
            r.wf(),
    {
        EnvironmentVars { entries: Vec::new() }
    }

    /// Key uniqueness, kept by every operation.
    pub open spec fn wf(&self) -> bool {
        unique_keys(self.entries@)
    }

    /// The number of variables held.
    pub fn len(&self) -> (r: usize)
        requires
            self.wf(),
        ensures
            r == self.entries@.len(),
            r == self@.dom().len(),
    {
        proof {
            lemma_assoc_map_len(self.entries@);
        }
        self.entries.len()
    }

    /// Whether a variable of that name is held.
    pub fn contains_key(&self, key: &str) -> (r: bool)
        requires
            self.wf(),
        ensures
            r == self@.contains_key(key@),
    {
        self.get(key).is_some()
    }

    /// The value of the variable of that name, if held.
    pub fn get(&self, key: &str) -> (r: Option<&String>)
        requires
            self.wf(),
        ensures
            match r {
                Some(v) => self@.contains_key(key@) && self@[key@] == v@,
                None => !self@.contains_key(key@),
            },
    {
        let n = self.entries.len();
        let mut i: usize = 0;
        while i < n
            invariant
                i <= n,
                n == self.entries@.len(),
                unique_keys(self.entries@),
                forall|j: int| 0 <= j < i ==> (#[trigger] self.entries@[j]).0@ != key@,
            decreases n - i,
        {
            let e = &self.entries[i];
            if str_eq(e.0.as_str(), key) {
                proof {
                    lemma_assoc_map_last(self.entries@, i as int);
                }
                return Some(&self.entries[i].1);
            }
            i = i + 1;
        }
        proof {
            lemma_assoc_map_domain(self.entries@);
        }
        None
    }

    /// Bind `key` to `value`, overriding any earlier binding.
    pub fn insert(&mut self, key: String, value: String)
        requires
            old(self).wf(),
        ensures
            final(self).wf(),
            final(self)@ == old(self)@.insert(key@, value@),
            final(self).entries@.len() <= old(self).entries@.len() + 1,
    {
        let n = self.entries.len();
        let mut i: usize = 0;
        while i < n
            invariant
                i <= n,
                n == self.entries@.len(),
                unique_keys(self.entries@),
                self.entries@ == old(self).entries@,
                forall|j: int| 0 <= j < i ==> (#[trigger] self.entries@[j]).0@ != key@,
            decreases n - i,
        {
            let e = &self.entries[i];
            if str_eq(e.0.as_str(), key.as_str()) {
                let ghost pre = self.entries@;
                self.entries.set(i, (key, value));
                proof {
                    lemma_assoc_update(pre, self.entries@, i as int);
                }
                return ;
            }
            i = i + 1;
        }
        let ghost pre = self.entries@;
        self.entries.push((key, value));
        proof {
            assert(self.entries@.drop_last() =~= pre);
            lemma_assoc_map_domain(pre);
        }
    }

    /// Bind every entry of `other`, in its order, overriding earlier ones.
    pub fn extend(&mut self, other: &EnvironmentVars)
        requires
            old(self).wf(),
            other.wf(),
        ensures
            final(self).wf(),
            final(self)@ == old(self)@.union_prefer_right(other@),
    {
        let n = other.entries.len();
        let mut i: usize = 0;
        while i < n
            invariant
                i <= n,
                n == other.entries@.len(),
                other.wf(),
                self.wf(),
                self@ == old(self)@.union_prefer_right(
                    assoc_map(other.entries@.subrange(0, i as int)),
                ),
            decreases n - i,
        {
            let e = &other.entries[i];
            let k = clone_string(&e.0);
            let v = clone_string(&e.1);
            self.insert(k, v);
            i = i + 1;
            proof {
                assert(other.entries@.subrange(0, i as int).drop_last() =~= other.entries@
                    .subrange(0, i - 1));
                assert(self@ =~= old(self)@.union_prefer_right(
                    assoc_map(other.entries@.subrange(0, i as int)),
                ));
            }
        }
        proof {
            assert(other.entries@.subrange(0, n as int) =~= other.entries@);
        }
    }

    /// A copy of the entries, in insertion order.
    pub fn iter(&self) -> (r: Vec<(String, String)>)
        requires
            self.wf(),
        ensures
            r@ == self.entries@,
            unique_keys(r@),
            assoc_map(r@) == self@,
            forall|i: int|
                0 <= i < r@.len() ==> self@.contains_key((#[trigger] r@[i]).0@) && self@[r@[i].0@]
                    == r@[i].1@,
    {
        let n = self.entries.len();
        let mut r: Vec<(String, String)> = Vec::new();
        let mut i: usize = 0;
        while i < n
            invariant
                i <= n,
                n == self.entries@.len(),
                r@ == self.entries@.subrange(0, i as int),
            decreases n - i,
        {
            let e = &self.entries[i];
            r.push((clone_string(&e.0), clone_string(&e.1)));
            proof {
                assert(r@ =~= self.entries@.subrange(0, i + 1));
            }
            i = i + 1;
        }
        proof {
            assert(r@ =~= self.entries@);
            assert forall|i: int| 0 <= i < r@.len() implies self@.contains_key(
                (#[trigger] r@[i]).0@,
            ) && self@[r@[i].0@] == r@[i].1@ by {
                lemma_assoc_map_last(self.entries@, i);
            }
        }
        r
    }

    /// Replace the value at position `i`, keeping the key.  Together with
    /// [`EnvironmentVars::iter`] and [`EnvironmentVars::len`] this lets a
    /// caller rewrite every value in place.
    pub fn set_value(&mut self, i: usize, value: String)
        requires
            old(self).wf(),
            i < old(self).entries@.len(),
        ensures
            final(self).wf(),
            final(self).entries@ == old(self).entries@.update(
                i as int,
                (old(self).entries@[i as int].0, value),
            ),
            final(self)@ == old(self)@.insert(old(self).entries@[i as int].0@, value@),
    {
        let ghost pre = self.entries@;
        let k = clone_string(&self.entries[i].0);
        self.entries.set(i, (k, value));
        proof {
            assert(self.entries@[i as int].0@ == pre[i as int].0@);
            lemma_assoc_update(pre, self.entries@, i as int);
        }
    }
}

/// Compare two string slices character for character.
pub fn str_eq(a: &str, b: &str) -> (r: bool)
    ensures
        r == (a@ == b@),
{
    let av = crate::text::chars_of(a);
    let bv = crate::text::chars_of(b);
    crate::text::eq_chars(&av, &bv)
}

/// Clone a string: the clone is the same value.
pub fn clone_string(s: &String) -> (r: String)
    ensures
        r == *s,
        r@ == s@,
{
    s.clone()
}

proof fn lemma_assoc_map_len(s: Seq<(String, String)>)
    requires
        unique_keys(s),
    ensures
        assoc_map(s).dom().finite(),
        assoc_map(s).dom().len() == s.len(),
    decreases s.len(),
{
    if s.len() == 0 {
    } else {
        assert(forall|j: int| 0 <= j < s.len() - 1 ==> s[j] == s.drop_last()[j]);
        lemma_assoc_map_len(s.drop_last());
        lemma_assoc_map_domain(s.drop_last());
        assert(!assoc_map(s.drop_last()).contains_key(s.last().0@));
        assert(assoc_map(s).dom() =~= assoc_map(s.drop_last()).dom().insert(s.last().0@));
        vstd::set::axiom_set_insert_finite(assoc_map(s.drop_last()).dom(), s.last().0@);
        vstd::set::axiom_set_insert_len(assoc_map(s.drop_last()).dom(), s.last().0@);
    }
}

/// Updating entry `i`'s value (keeping its key) updates the map at that key.
proof fn lemma_assoc_update(pre: Seq<(String, String)>, post: Seq<(String, String)>, i: int)
    requires
        unique_keys(pre),
        0 <= i < pre.len(),
        post.len() == pre.len(),
        post[i].0@ == pre[i].0@,
        forall|j: int| 0 <= j < pre.len() && j != i ==> post[j] == pre[j],
    ensures
        unique_keys(post),
        assoc_map(post) == assoc_map(pre).insert(post[i].0@, post[i].1@),
    decreases pre.len(),
{
    assert(unique_keys(post)) by {
        assert forall|a: int, b: int| 0 <= a < b < post.len() implies (#[trigger] post[a]).0@
            != (#[trigger] post[b]).0@ by {
            assert(post[a].0@ == pre[a].0@ && post[b].0@ == pre[b].0@);
        }
    }
    if i == pre.len() - 1 {
        assert(pre.drop_last() =~= post.drop_last());
        assert(assoc_map(post) =~= assoc_map(pre).insert(post[i].0@, post[i].1@));
    } else {
        assert(forall|j: int| 0 <= j < pre.len() - 1 ==> pre.drop_last()[j] == pre[j]);
        assert(forall|j: int| 0 <= j < post.len() - 1 ==> post.drop_last()[j] == post[j]);
        lemma_assoc_update(pre.drop_last(), post.drop_last(), i);
        assert(post.last() == pre.last());
        assert(pre[i].0@ != pre.last().0@);
        assert(assoc_map(post) =~= assoc_map(pre).insert(post[i].0@, post[i].1@));
    }
}


/// Transforming every value in place, keys kept, transforms the map's
/// values pointwise.
pub proof fn lemma_assoc_map_value_transform(
    pre: Seq<(String, String)>,
    post: Seq<(String, String)>,
    f: spec_fn(Seq<char>) -> Seq<char>,
)
    requires
        unique_keys(pre),
        post.len() == pre.len(),
        forall|j: int|
            0 <= j < pre.len() ==> (#[trigger] post[j]).0@ == pre[j].0@ && post[j].1@ == f(
                pre[j].1@,
            ),
    ensures
        unique_keys(post),
        assoc_map(post) == Map::<Seq<char>, Seq<char>>::new(
            |k: Seq<char>| assoc_map(pre).contains_key(k),
            |k: Seq<char>| f(assoc_map(pre)[k]),
        ),
    decreases pre.len(),
{
    assert(unique_keys(post)) by {
        assert forall|a: int, b: int| 0 <= a < b < post.len() implies (#[trigger] post[a]).0@
            != (#[trigger] post[b]).0@ by {
            assert(post[a].0@ == pre[a].0@ && post[b].0@ == pre[b].0@);
        }
    }
    if pre.len() == 0 {
        assert(assoc_map(post) =~= Map::<Seq<char>, Seq<char>>::new(
            |k: Seq<char>| assoc_map(pre).contains_key(k),
            |k: Seq<char>| f(assoc_map(pre)[k]),
        ));
    } else {
        assert(forall|j: int| 0 <= j < pre.len() - 1 ==> pre.drop_last()[j] == pre[j]);
        assert(forall|j: int| 0 <= j < post.len() - 1 ==> post.drop_last()[j] == post[j]);
        lemma_assoc_map_value_transform(pre.drop_last(), post.drop_last(), f);
        lemma_assoc_map_domain(pre.drop_last());
        assert(!assoc_map(pre.drop_last()).contains_key(pre.last().0@));
        assert(post.last().0@ == pre.last().0@ && post.last().1@ == f(pre.last().1@));
        assert(assoc_map(post) =~= Map::<Seq<char>, Seq<char>>::new(
            |k: Seq<char>| assoc_map(pre).contains_key(k),
            |k: Seq<char>| f(assoc_map(pre)[k]),
        ));
    }
}

} // verus!
