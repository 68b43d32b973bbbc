//! Variable tables: association lists from names to values in which every
//! name occurs at most once, read as finite maps.
use vstd::prelude::*;
use crate::text::str_eq;
use crate::vm::value::{Value, ValueModel, entries_model};

verus! {

/// The value of `k` in an association list: its last entry.
pub open spec fn assoc_get(s: Seq<(Seq<char>, ValueModel)>, k: Seq<char>) -> Option<ValueModel>
    decreases s.len(),
{
    if s.len() == 0 {
        None
    } else if s.last().0 == k {
        Some(s.last().1)
    } else {
        assoc_get(s.drop_last(), k)
    }
}

/// An association list read as a map.
pub open spec fn assoc_map(s: Seq<(Seq<char>, ValueModel)>) -> Map<Seq<char>, ValueModel> {
    Map::new(|k: Seq<char>| assoc_get(s, k) is Some, |k: Seq<char>| assoc_get(s, k)->Some_0)
}

/// No name occurs twice.
pub open spec fn keys_unique(s: Seq<(Seq<char>, ValueModel)>) -> bool {
    forall|i: int, j: int| 0 <= i < j < s.len() ==> s[i].0 != s[j].0
}

/// The first position of `k` in an association list.
pub open spec fn assoc_index(s: Seq<(Seq<char>, ValueModel)>, k: Seq<char>) -> Option<int>
    decreases s.len(),
{
    if s.len() == 0 {
        None
    } else if s[0].0 == k {
        Some(0)
    } else {
        match assoc_index(s.drop_first(), k) {
            Some(i) => Some(i + 1),
            None => None,
        }
    }
}

/// `HashMap::insert` on an association list: the entry of `k` gets the
/// value `v`, or an entry is added at the end.
pub open spec fn assoc_set(s: Seq<(Seq<char>, ValueModel)>, k: Seq<char>, v: ValueModel) -> Seq<(Seq<char>, ValueModel)> {
    match assoc_index(s, k) {
        Some(i) => s.update(i, (k, v)),
        None => s.push((k, v)),
    }
}

/// `HashMap::remove` on an association list: the entry of `k` leaves.
pub open spec fn assoc_del(s: Seq<(Seq<char>, ValueModel)>, k: Seq<char>) -> Seq<(Seq<char>, ValueModel)> {
    match assoc_index(s, k) {
        Some(i) => s.remove(i),
        None => s,
    }
}

proof fn lemma_index_first(s: Seq<(Seq<char>, ValueModel)>, k: Seq<char>, i: int)
    requires
        0 <= i < s.len(),
        s[i].0 == k,
        forall|j: int| 0 <= j < i ==> s[j].0 != k,
    ensures
        assoc_index(s, k) == Some(i),
    decreases i,
{
    if i > 0 {
        assert forall|j: int| 0 <= j < i - 1 implies s.drop_first()[j].0 != k by {
            assert(s.drop_first()[j] == s[j + 1]);
        }
        lemma_index_first(s.drop_first(), k, i - 1);
    }
}

proof fn lemma_index_none(s: Seq<(Seq<char>, ValueModel)>, k: Seq<char>)
    requires
        forall|j: int| 0 <= j < s.len() ==> s[j].0 != k,
    ensures
        assoc_index(s, k) is None,
    decreases s.len(),
{
    if s.len() > 0 {
        assert forall|j: int| 0 <= j < s.drop_first().len() implies s.drop_first()[j].0 != k by {
            assert(s.drop_first()[j] == s[j + 1]);
        }
        lemma_index_none(s.drop_first(), k);
    }
}

/// The value of the first entry of `k` in an association list.
pub open spec fn assoc_find(s: Seq<(Seq<char>, ValueModel)>, k: Seq<char>) -> Option<ValueModel> {
    match assoc_index(s, k) {
        Some(i) => Some(s[i].1),
        None => None,
    }
}

/// The map of a variable table.
pub open spec fn env_map(v: Seq<(String, Value)>) -> Map<Seq<char>, ValueModel> {
    assoc_map(entries_model(v))
}

/// A variable table is well formed: no name occurs twice.
pub open spec fn env_wf(v: Seq<(String, Value)>) -> bool {
    keys_unique(entries_model(v))
}

proof fn lemma_get_absent(s: Seq<(Seq<char>, ValueModel)>, k: Seq<char>)
    requires
        forall|i: int| 0 <= i < s.len() ==> s[i].0 != k,
    ensures
        assoc_get(s, k) is None,
    decreases s.len(),
{
    if s.len() > 0 {
        lemma_get_absent(s.drop_last(), k);
    }
}

proof fn lemma_get_at(s: Seq<(Seq<char>, ValueModel)>, i: int)
    requires
        keys_unique(s),
        0 <= i < s.len(),
    ensures
        assoc_get(s, s[i].0) == Some(s[i].1),
    decreases s.len(),
{
    if i < s.len() - 1 {
        lemma_get_at(s.drop_last(), i);
    }
}

proof fn lemma_get_found(s: Seq<(Seq<char>, ValueModel)>, k: Seq<char>)
    requires
        assoc_get(s, k) is Some,
    ensures
        exists|i: int| 0 <= i < s.len() && s[i].0 == k && s[i].1 == assoc_get(s, k)->Some_0,
    decreases s.len(),
{
    if s.last().0 != k {
        lemma_get_found(s.drop_last(), k);
        let i = choose|i: int| 0 <= i < s.drop_last().len() && s.drop_last()[i].0 == k && s.drop_last()[i].1 == assoc_get(s.drop_last(), k)->Some_0;
        assert(s[i] == s.drop_last()[i]);
    } else {
        assert(s[s.len() - 1] == s.last());
    }
}

proof fn lemma_get_update(s: Seq<(Seq<char>, ValueModel)>, i: int, v: ValueModel, k: Seq<char>)
    requires
        keys_unique(s),
        0 <= i < s.len(),
    ensures
        assoc_get(s.update(i, (s[i].0, v)), k) == if k == s[i].0 {
            Some(v)
        } else {
            assoc_get(s, k)
        },
    decreases s.len(),
{
    let t = s.update(i, (s[i].0, v));
    if k == s[i].0 {
        assert(keys_unique(t));
        lemma_get_at(t, i);
    } else if i < s.len() - 1 {
        assert(t.drop_last() =~= s.drop_last().update(i, (s[i].0, v)));
        lemma_get_update(s.drop_last(), i, v, k);
    } else {
        assert(t.drop_last() =~= s.drop_last());
    }
}

proof fn lemma_get_remove(s: Seq<(Seq<char>, ValueModel)>, i: int, k: Seq<char>)
    requires
        keys_unique(s),
        0 <= i < s.len(),
    ensures
        assoc_get(s.remove(i), k) == if k == s[i].0 {
            None
        } else {
            assoc_get(s, k)
        },
    decreases s.len(),
{
    let t = s.remove(i);
    if k == s[i].0 {
        assert forall|j: int| 0 <= j < t.len() implies t[j].0 != k by {
            if j < i {
                assert(t[j] == s[j]);
            } else {
                assert(t[j] == s[j + 1]);
            }
        }
        lemma_get_absent(t, k);
    } else if i < s.len() - 1 {
        assert(t.drop_last() =~= s.drop_last().remove(i));
        assert(t.last() == s.last());
        lemma_get_remove(s.drop_last(), i, k);
    } else {
        assert(t =~= s.drop_last());
    }
}

/// The position of `name` in a variable table.
pub fn env_find(env: &Vec<(String, Value)>, name: &str) -> (r: Option<usize>)
    ensures
        match r {
            Some(i) => i < env@.len() && env@[i as int].0@ == name@ && assoc_index(entries_model(env@), name@) == Some(
                i as int,
            ),
            None => !env_map(env@).contains_key(name@) && assoc_index(entries_model(env@), name@) is None,
        },
{
    let ghost s = entries_model(env@);
    let mut i: usize = 0;
    while i < env.len()
        invariant
            i <= env@.len(),
            s == entries_model(env@),
            forall|j: int| 0 <= j < i ==> s[j].0 != name@,
        decreases env.len() - i,
    {
        if str_eq(env[i].0.as_str(), name) {
            proof {
                lemma_index_first(s, name@, i as int);
            }
            return Some(i);
        }
        i = i + 1;
    }
    proof {
        lemma_get_absent(s, name@);
        lemma_index_none(s, name@);
    }
    None
}

/// The value of `name` in a variable table, copied.
pub fn env_get(env: &Vec<(String, Value)>, name: &str) -> (r: Option<Value>)
    requires
        env_wf(env@),
    ensures
        match r {
            Some(v) => env_map(env@).contains_key(name@) && v@ == env_map(env@)[name@],
            None => !env_map(env@).contains_key(name@),
        },
{
    match env_find(env, name) {
        Some(i) => {
            proof {
                lemma_get_at(entries_model(env@), i as int);
            }
            Some(env[i].1.copy())
        },
        None => None,
    }
}

/// Sets `name` to `value` (`HashMap::insert`): the entry of `name` is
/// replaced, or a new entry is added.
pub fn env_insert(env: &mut Vec<(String, Value)>, name: String, value: Value)
    requires
        env_wf(old(env)@),
    ensures
        env_wf(final(env)@),
        env_map(final(env)@) == env_map(old(env)@).insert(name@, value@),
        entries_model(final(env)@) == assoc_set(entries_model(old(env)@), name@, value@),
{
    let ghost s = entries_model(env@);
    let ghost nm = name@;
    let ghost vm = value@;
    match env_find(env, name.as_str()) {
        Some(i) => {
            env.set(i, (name, value));
            proof {
                assert(entries_model(env@) =~= s.update(i as int, (s[i as int].0, vm)));
                let t = entries_model(env@);
                assert forall|k: Seq<char>| #![auto] assoc_get(t, k) == (if k == nm {
                    Some(vm)
                } else {
                    assoc_get(s, k)
                }) by {
                    lemma_get_update(s, i as int, vm, k);
                }
                assert(s == entries_model(old(env)@));
                assert(t == entries_model(env@));
                assert(assoc_map(t).dom() =~= assoc_map(s).dom().insert(nm));
                assert(assoc_map(t) =~= assoc_map(s).insert(nm, vm));
            }
        },
        None => {
            env.push((name, value));
            proof {
                assert(entries_model(env@) =~= s.push((nm, vm)));
                let t = entries_model(env@);
                assert(t.drop_last() =~= s);
                assert(assoc_map(t) =~= assoc_map(s).insert(nm, vm));
                assert(!(assoc_get(s, nm) is Some));
                assert forall|j: int| 0 <= j < s.len() implies s[j].0 != nm by {
                    if s[j].0 == nm {
                        lemma_get_at(s, j);
                    }
                }
                assert(env_map(env@) =~= env_map(old(env)@).insert(nm, vm));
            }
        },
    }
}

/// Removes `name` (`HashMap::remove`), giving back its value.
pub fn env_remove(env: &mut Vec<(String, Value)>, name: &str) -> (r: Option<Value>)
    requires
        env_wf(old(env)@),
    ensures
        env_wf(final(env)@),
        env_map(final(env)@) == env_map(old(env)@).remove(name@),
        entries_model(final(env)@) == assoc_del(entries_model(old(env)@), name@),
        match r {
            Some(v) => env_map(old(env)@).contains_key(name@) && v@ == env_map(old(env)@)[name@],
            None => !env_map(old(env)@).contains_key(name@),
        },
{
    let ghost s = entries_model(env@);
    match env_find(env, name) {
        Some(i) => {
            proof {
                lemma_get_at(s, i as int);
            }
            let (_, v) = env.remove(i);
            proof {
                assert(entries_model(env@) =~= s.remove(i as int));
                assert forall|k: Seq<char>| #![auto] k != name@ implies assoc_get(entries_model(env@), k) == assoc_get(s, k) by {
                    lemma_get_remove(s, i as int, k);
                }
                lemma_get_remove(s, i as int, name@);
                assert(env_map(env@) =~= env_map(old(env)@).remove(name@));
            }
            Some(v)
        },
        None => {
            assert(env_map(env@) =~= env_map(old(env)@).remove(name@));
            None
        },
    }
}

/// The names of a variable table, in its order.
pub fn env_keys(env: &Vec<(String, Value)>) -> (r: Vec<String>)
    requires
        env_wf(env@),
    ensures
        r@.len() == env@.len(),
        forall|i: int| 0 <= i < r@.len() ==> #[trigger] r@[i]@ == env@[i].0@,
        forall|k: Seq<char>| env_map(env@).contains_key(k) <==> exists|i: int| 0 <= i < r@.len() && #[trigger] r@[i]@ == k,
{
    let ghost s = entries_model(env@);
    let mut r: Vec<String> = Vec::new();
    let mut i: usize = 0;
    while i < env.len()
        invariant
            i <= env@.len(),
            r@.len() == i,
            forall|j: int| 0 <= j < i ==> #[trigger] r@[j]@ == env@[j].0@,
        decreases env.len() - i,
    {
        r.push(env[i].0.clone());
        i = i + 1;
    }
    proof {
        assert forall|k: Seq<char>| env_map(env@).contains_key(k) implies exists|j: int| 0 <= j < r@.len() && #[trigger] r@[j]@ == k by {
            lemma_get_found(s, k);
            let j = choose|j: int| 0 <= j < s.len() && s[j].0 == k && s[j].1 == assoc_get(s, k)->Some_0;
            assert(r@[j]@ == k);
        }
        assert forall|k: Seq<char>| (exists|j: int| 0 <= j < r@.len() && #[trigger] r@[j]@ == k) implies env_map(env@).contains_key(k) by {
            let j = choose|j: int| 0 <= j < r@.len() && #[trigger] r@[j]@ == k;
            lemma_get_at(s, j);
        }
    }
    r
}


proof fn lemma_index_bounds(s: Seq<(Seq<char>, ValueModel)>, k: Seq<char>)
    ensures
        assoc_index(s, k) matches Some(i) ==> 0 <= i < s.len() && s[i].0 == k,
    decreases s.len(),
{
    if s.len() > 0 && s[0].0 != k {
        lemma_index_bounds(s.drop_first(), k);
    }
}

/// The value of the first entry of `name` in an association list, copied.
pub fn assoc_lookup(entries: &Vec<(String, Value)>, name: &str) -> (r: Option<Value>)
    ensures
        match assoc_find(entries_model(entries@), name@) {
            Some(v) => r is Some && r->Some_0@ == v,
            None => r is None,
        },
{
    match env_find(entries, name) {
        Some(i) => Some(entries[i].1.copy()),
        None => None,
    }
}

/// Gives the first entry of `name` the value `value`, or adds an entry.
pub fn assoc_put(entries: &mut Vec<(String, Value)>, name: String, value: Value)
    ensures
        entries_model(final(entries)@) == assoc_set(entries_model(old(entries)@), name@, value@),
{
    let ghost s = entries_model(entries@);
    let ghost nm = name@;
    let ghost vm = value@;
    match env_find(entries, name.as_str()) {
        Some(i) => {
            entries.set(i, (name, value));
            assert(entries_model(entries@) =~= s.update(i as int, (nm, vm)));
        },
        None => {
            entries.push((name, value));
            assert(entries_model(entries@) =~= s.push((nm, vm)));
        },
    }
}

/// Removes the first entry of `name`, if any.
pub fn assoc_remove(entries: &mut Vec<(String, Value)>, name: &str)
    ensures
        entries_model(final(entries)@) == assoc_del(entries_model(old(entries)@), name@),
{
    let ghost s = entries_model(entries@);
    match env_find(entries, name) {
        Some(i) => {
            let _ = entries.remove(i);
            assert(entries_model(entries@) =~= s.remove(i as int));
        },
        None => {},
    }
}

proof fn lemma_index_prefix(s: Seq<(Seq<char>, ValueModel)>, k: Seq<char>)
    ensures
        assoc_index(s, k) matches Some(i) ==> 0 <= i < s.len() && s[i].0 == k && forall|j: int| 0 <= j < i ==> s[j].0 != k,
        assoc_index(s, k) is None ==> forall|j: int| 0 <= j < s.len() ==> s[j].0 != k,
    decreases s.len(),
{
    if s.len() > 0 {
        lemma_index_prefix(s.drop_first(), k);
        if s[0].0 != k {
            assert forall|j: int| 1 <= j < s.len() implies s[j] == s.drop_first()[j - 1] by {}
        }
    }
}

/// After setting `k` to `v`, looking `k` up gives `v`.
pub proof fn lemma_find_after_set(s: Seq<(Seq<char>, ValueModel)>, k: Seq<char>, v: ValueModel)
    ensures
        assoc_find(assoc_set(s, k, v), k) == Some(v),
{
    lemma_index_prefix(s, k);
    match assoc_index(s, k) {
        Some(i) => {
            let t = s.update(i, (k, v));
            assert forall|j: int| 0 <= j < i implies t[j].0 != k by {}
            lemma_index_first(t, k, i);
        },
        None => {
            let t = s.push((k, v));
            assert forall|j: int| 0 <= j < s.len() implies t[j].0 != k by {}
            lemma_index_first(t, k, s.len() as int);
        },
    }
}

/// Setting `k` leaves the entry of every other name as it was.
pub proof fn lemma_find_after_set_other(s: Seq<(Seq<char>, ValueModel)>, k: Seq<char>, v: ValueModel, k2: Seq<char>)
    requires
        k2 != k,
    ensures
        assoc_find(assoc_set(s, k, v), k2) == assoc_find(s, k2),
{
    lemma_index_prefix(s, k);
    lemma_index_prefix(s, k2);
    let t = assoc_set(s, k, v);
    match assoc_index(s, k) {
        Some(i) => {
            assert(t == s.update(i, (k, v)));
            match assoc_index(s, k2) {
                Some(j) => {
                    assert forall|l: int| 0 <= l < j implies t[l].0 != k2 by {}
                    lemma_index_first(t, k2, j);
                },
                None => {
                    assert forall|l: int| 0 <= l < t.len() implies t[l].0 != k2 by {}
                    lemma_index_none(t, k2);
                },
            }
        },
        None => {
            assert(t == s.push((k, v)));
            match assoc_index(s, k2) {
                Some(j) => {
                    assert forall|l: int| 0 <= l < j implies t[l].0 != k2 by {}
                    lemma_index_first(t, k2, j);
                },
                None => {
                    assert forall|l: int| 0 <= l < t.len() implies t[l].0 != k2 by {}
                    lemma_index_none(t, k2);
                },
            }
        },
    }
}
} // verus!
