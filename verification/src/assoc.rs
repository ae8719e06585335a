//! String-keyed association lists.
//!
//! Several structures of the gateway keep entries under a backend
//! identifier: the live client registry, the connection summaries, the
//! OAuth store. Each is a vector of pairs with distinct keys; the lookup
//! and the lemmas about updating, appending and removing live here.

use vstd::prelude::*;

verus! {

/// Look a key up in an association list; first match wins.
pub open spec fn assoc_lookup<T>(s: Seq<(String, T)>, k: Seq<char>) -> Option<T>
    decreases s,
{
    if s.len() == 0 {
        None
    } else if s[0].0@ == k {
        Some(s[0].1)
    } else {
        assoc_lookup(s.drop_first(), k)
    }
}

/// An association lookup resolves to the first pair whose key matches.
pub proof fn lemma_assoc_lookup_at<T>(s: Seq<(String, T)>, k: Seq<char>, i: int)
    requires
        0 <= i < s.len(),
        s[i].0@ == k,
        forall|j: int| 0 <= j < i ==> s[j].0@ != k,
    ensures
        assoc_lookup(s, k) == Some(s[i].1),
    decreases i,
{
    if i > 0 {
        lemma_assoc_lookup_at(s.drop_first(), k, i - 1);
    }
}

/// An association lookup misses when no pair carries the key.
pub proof fn lemma_assoc_lookup_absent<T>(s: Seq<(String, T)>, k: Seq<char>)
    requires
        forall|j: int| 0 <= j < s.len() ==> s[j].0@ != k,
    ensures
        assoc_lookup(s, k) is None,
    decreases s.len(),
{
    if s.len() > 0 {
        lemma_assoc_lookup_absent(s.drop_first(), k);
    }
}

/// Replacing the value under one key leaves every other lookup as it was.
pub proof fn lemma_assoc_lookup_update_other<T>(s: Seq<(String, T)>, i: int, v: T, k: Seq<char>)
    requires
        0 <= i < s.len(),
        s[i].0@ != k,
    ensures
        assoc_lookup(s.update(i, (s[i].0, v)), k) == assoc_lookup(s, k),
    decreases s.len(),
{
    let t = s.update(i, (s[i].0, v));
    if i == 0 {
        assert(t[0].0 == s[0].0);
        assert(t.drop_first() =~= s.drop_first());
    } else {
        assert(t[0] == s[0]);
        if s[0].0@ != k {
            assert(t.drop_first() =~= s.drop_first().update(i - 1, (s.drop_first()[i - 1].0, v)));
            lemma_assoc_lookup_update_other(s.drop_first(), i - 1, v, k);
        }
    }
}

/// Appending a pair under one key leaves every other lookup as it was.
pub proof fn lemma_assoc_lookup_push_other<T>(s: Seq<(String, T)>, x: (String, T), k: Seq<char>)
    requires
        x.0@ != k,
    ensures
        assoc_lookup(s.push(x), k) == assoc_lookup(s, k),
    decreases s.len(),
{
    if s.len() == 0 {
        assert(s.push(x)[0] == x);
        assert(s.push(x).drop_first() =~= Seq::<(String, T)>::empty());
        assert(assoc_lookup(Seq::<(String, T)>::empty(), k) is None);
    } else {
        assert(s.push(x)[0] == s[0]);
        if s[0].0@ != k {
            assert(s.push(x).drop_first() =~= s.drop_first().push(x));
            lemma_assoc_lookup_push_other(s.drop_first(), x, k);
        }
    }
}

/// Removing the pair under one key leaves every other lookup as it was.
pub proof fn lemma_assoc_lookup_remove_other<T>(s: Seq<(String, T)>, i: int, k: Seq<char>)
    requires
        0 <= i < s.len(),
        s[i].0@ != k,
    ensures
        assoc_lookup(s.remove(i), k) == assoc_lookup(s, k),
    decreases s.len(),
{
    let t = s.remove(i);
    s.remove_ensures(i);
    if i == 0 {
        assert(t =~= s.drop_first());
    } else {
        assert(t[0] == s[0]);
        if s[0].0@ != k {
            assert(t.drop_first() =~= s.drop_first().remove(i - 1));
            lemma_assoc_lookup_remove_other(s.drop_first(), i - 1, k);
        }
    }
}

} // verus!
