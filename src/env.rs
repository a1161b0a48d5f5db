//! Environment trees and their merge.
use vstd::prelude::*;
use vstd::string::*;

verus! {

/// Prefix of the per-task markers that a merge never inherits.
pub const CURRENT_TASK_PREFIX: &'static str = "CARGO_MAKE_CURRENT_TASK_";

/// A variable's value: plain text, or a named group of variables.
#[derive(Debug, PartialEq)]
pub enum EnvValue {
    Value(String),
    Profile(Vec<(String, EnvValue)>),
}

/// An environment mapping: entries in insertion order.
pub type EnvMap = Vec<(String, EnvValue)>;

/// The mathematical form of an [`EnvValue`].
pub enum EnvVal {
    Value(Seq<char>),
    Profile(Seq<(Seq<char>, EnvVal)>),
}

pub open spec fn value_view(v: EnvValue) -> EnvVal
    decreases v,
{
    match v {
        EnvValue::Value(s) => EnvVal::Value(s@),
        EnvValue::Profile(m) => EnvVal::Profile(entries_view(m@)),
    }
}

pub open spec fn entries_view(s: Seq<(String, EnvValue)>) -> Seq<(Seq<char>, EnvVal)>
    decreases s,
{
    if s.len() == 0 {
        Seq::empty()
    } else {
        entries_view(s.subrange(0, s.len() - 1)).push(
            (s[s.len() - 1].0@, value_view(s[s.len() - 1].1)),
        )
    }
}

pub open spec fn env_view(m: EnvMap) -> Seq<(Seq<char>, EnvVal)> {
    entries_view(m@)
}

/// Whether `p` is a prefix of `s`.
pub open spec fn is_prefix_of(p: Seq<char>, s: Seq<char>) -> bool {
    p.len() <= s.len() && s.subrange(0, p.len() as int) == p
}

/// Whether a key carries the never-inherited per-task prefix.
pub open spec fn is_reserved(k: Seq<char>) -> bool {
    is_prefix_of(CURRENT_TASK_PREFIX@, k)
}

/// Index of the first entry under `k`, or -1.
pub open spec fn key_index<V>(m: Seq<(Seq<char>, V)>, k: Seq<char>) -> int
    decreases m.len(),
{
    if m.len() == 0 {
        -1
    } else {
        let r = key_index(m.drop_last(), k);
        if r >= 0 {
            r
        } else if m.last().0 == k {
            m.len() - 1
        } else {
            -1
        }
    }
}

/// The value under `k`, if any.
pub open spec fn env_get(m: Seq<(Seq<char>, EnvVal)>, k: Seq<char>) -> Option<EnvVal> {
    let i = key_index(m, k);
    if i >= 0 {
        Some(m[i].1)
    } else {
        None
    }
}

/// Merge of `extended` over `base`: reserved keys of `extended` are skipped,
/// two groups merge recursively, any other pair is replaced by the incoming
/// value, and new keys are appended in order.
pub open spec fn merge_env_spec(
    base: Seq<(Seq<char>, EnvVal)>,
    extended: Seq<(Seq<char>, EnvVal)>,
) -> Seq<(Seq<char>, EnvVal)>
    decreases extended,
{
    if extended.len() == 0 {
        base
    } else {
        let m = merge_env_spec(base, extended.subrange(0, extended.len() - 1));
        merge_entry(m, extended[extended.len() - 1].0, extended[extended.len() - 1].1)
    }
}

/// One step of [`merge_env_spec`]: the entry `(k, v)` merged into `m`.
pub open spec fn merge_entry(m: Seq<(Seq<char>, EnvVal)>, k: Seq<char>, v: EnvVal) -> Seq<
    (Seq<char>, EnvVal),
>
    decreases v,
{
    if is_reserved(k) {
        m
    } else {
        let i = key_index(m, k);
        if i >= 0 {
            match (m[i].1, v) {
                (EnvVal::Profile(x), EnvVal::Profile(y)) => m.update(
                    i,
                    (k, EnvVal::Profile(merge_env_spec(x, y))),
                ),
                _ => m.update(i, (k, v)),
            }
        } else {
            m.push((k, v))
        }
    }
}


pub proof fn lemma_entries_view(s: Seq<(String, EnvValue)>)
    ensures
        entries_view(s).len() == s.len(),
        forall|i: int|
            0 <= i < s.len() ==> #[trigger] entries_view(s)[i] == (s[i].0@, value_view(s[i].1)),
    decreases s.len(),
{
    if s.len() > 0 {
        lemma_entries_view(s.subrange(0, s.len() - 1));
    }
}

pub proof fn lemma_key_index<V>(m: Seq<(Seq<char>, V)>, k: Seq<char>)
    ensures
        -1 <= key_index(m, k) < m.len(),
        key_index(m, k) >= 0 ==> m[key_index(m, k)].0 == k,
        forall|j: int| 0 <= j < m.len() && m[j].0 == k ==> key_index(m, k) >= 0 && key_index(m, k) <= j,
    decreases m.len(),
{
    if m.len() > 0 {
        lemma_key_index(m.drop_last(), k);
        assert forall|j: int| 0 <= j < m.len() && m[j].0 == k implies key_index(m, k) >= 0 && key_index(m, k) <= j by {
            if j < m.len() - 1 {
                assert(m.drop_last()[j] == m[j]);
            }
        }
    }
}

/// Whether a key starts with the per-task prefix.
pub fn is_reserved_key(k: &str) -> (r: bool)
    ensures
        r == is_reserved(k@),
{
    let p: &str = CURRENT_TASK_PREFIX;
    proof {
        reveal_strlit("CARGO_MAKE_CURRENT_TASK_");
    }
    let pl = p.unicode_len();
    let kl = k.unicode_len();
    if kl < pl {
        return false;
    }
    let mut i: usize = 0;
    while i < pl
        invariant
            pl == p@.len(),
            kl == k@.len(),
            pl <= kl,
            i <= pl,
            p@ == CURRENT_TASK_PREFIX@,
            forall|j: int| 0 <= j < i ==> k@[j] == p@[j],
        decreases pl - i,
    {
        if k.get_char(i) != p.get_char(i) {
            assert(k@.subrange(0, pl as int)[i as int] != p@[i as int]);
            return false;
        }
        i = i + 1;
    }
    assert(k@.subrange(0, pl as int) =~= p@);
    true
}

/// A deep copy of a value.
pub fn clone_value(v: &EnvValue) -> (r: EnvValue)
    ensures
        value_view(r) == value_view(*v),
    decreases v,
{
    match v {
        EnvValue::Value(s) => EnvValue::Value(s.clone()),
        EnvValue::Profile(m) => {
            proof {
                assert(decreases_to!(*v => *m));
            }
            EnvValue::Profile(clone_env(m))
        },
    }
}

/// A deep copy of a mapping.
pub fn clone_env(m: &EnvMap) -> (r: EnvMap)
    ensures
        env_view(r) == env_view(*m),
    decreases m,
{
    let mut r: EnvMap = Vec::new();
    let mut i: usize = 0;
    proof {
        lemma_entries_view(m@);
    }
    while i < m.len()
        invariant
            i <= m.len(),
            r@.len() == i,
            entries_view(m@).len() == m@.len(),
            forall|j: int| 0 <= j < m@.len() ==> #[trigger] entries_view(m@)[j] == (m@[j].0@, value_view(m@[j].1)),
            forall|j: int| 0 <= j < i ==> r@[j].0@ == m@[j].0@ && value_view(#[trigger] r@[j].1) == value_view(m@[j].1),
        decreases m.len() - i,
    {
        proof {
            assert(decreases_to!(*m => m@[i as int].1));
        }
        let v = clone_value(&m[i].1);
        r.push((m[i].0.clone(), v));
        i = i + 1;
    }
    proof {
        lemma_entries_view(r@);
        assert(entries_view(r@) =~= entries_view(m@));
    }
    r
}

/// Position of the first entry under `k`.
pub fn find_key(m: &EnvMap, k: &String) -> (r: Option<usize>)
    ensures
        match r {
            Some(j) => j < m.len() && j as int == key_index(env_view(*m), k@),
            None => key_index(env_view(*m), k@) == -1,
        },
{
    proof {
        lemma_entries_view(m@);
        lemma_key_index(env_view(*m), k@);
    }
    let mut i: usize = 0;
    while i < m.len()
        invariant
            i <= m.len(),
            entries_view(m@).len() == m@.len(),
            forall|j: int| 0 <= j < m@.len() ==> #[trigger] entries_view(m@)[j] == (m@[j].0@, value_view(m@[j].1)),
            forall|j: int| 0 <= j < i ==> (#[trigger] m@[j]).0@ != k@,
            -1 <= key_index(env_view(*m), k@) < m.len(),
            key_index(env_view(*m), k@) >= 0 ==> env_view(*m)[key_index(env_view(*m), k@)].0 == k@,
            forall|j: int| 0 <= j < m.len() && (#[trigger] env_view(*m)[j]).0 == k@ ==> key_index(env_view(*m), k@) >= 0 && key_index(env_view(*m), k@) <= j,
        decreases m.len() - i,
    {
        if m[i].0 == *k {
            assert(env_view(*m)[i as int].0 == k@);
            return Some(i);
        }
        i = i + 1;
    }
    proof {
        if key_index(env_view(*m), k@) >= 0 {
            let j = key_index(env_view(*m), k@);
            assert(m@[j].0@ == k@);
        }
    }
    None
}

pub proof fn lemma_entries_view_update(s: Seq<(String, EnvValue)>, j: int, e: (String, EnvValue))
    requires
        0 <= j < s.len(),
    ensures
        entries_view(s.update(j, e)) == entries_view(s).update(j, (e.0@, value_view(e.1))),
{
    lemma_entries_view(s);
    lemma_entries_view(s.update(j, e));
    assert(entries_view(s.update(j, e)) =~= entries_view(s).update(j, (e.0@, value_view(e.1))));
}

pub proof fn lemma_entries_view_push(s: Seq<(String, EnvValue)>, e: (String, EnvValue))
    ensures
        entries_view(s.push(e)) == entries_view(s).push((e.0@, value_view(e.1))),
{
    lemma_entries_view(s);
    lemma_entries_view(s.push(e));
    assert(entries_view(s.push(e)) =~= entries_view(s).push((e.0@, value_view(e.1))));
}

/// Merges `extended` over `base` into a new mapping.
pub fn merge_env(base: &EnvMap, extended: &EnvMap) -> (r: EnvMap)
    ensures
        env_view(r) == merge_env_spec(env_view(*base), env_view(*extended)),
        keys_distinct(env_view(*base)) ==> keys_distinct(env_view(r)),
    decreases extended,
{
    let mut merged = clone_env(base);
    let mut i: usize = 0;
    while i < extended.len()
        invariant
            i <= extended.len(),
            env_view(merged) == merge_env_spec(
                env_view(*base),
                entries_view(extended@.subrange(0, i as int)),
            ),
        decreases extended.len() - i,
    {
        proof {
            let s1 = extended@.subrange(0, i + 1);
            lemma_entries_view(s1);
            lemma_entries_view(extended@.subrange(0, i as int));
            assert(entries_view(s1).subrange(0, i as int) =~= entries_view(
                extended@.subrange(0, i as int),
            ));
            assert(s1[i as int] == extended@[i as int]);
            assert(merge_env_spec(env_view(*base), entries_view(s1)) == merge_entry(
                env_view(merged),
                extended@[i as int].0@,
                value_view(extended@[i as int].1),
            ));
        }
        let key = &extended[i].0;
        if !is_reserved_key(key.as_str()) {
            match find_key(&merged, key) {
                Some(j) => {
                    proof {
                        lemma_entries_view(merged@);
                    }
                    let nv = match (&merged[j].1, &extended[i].1) {
                        (EnvValue::Profile(x), EnvValue::Profile(y)) => {
                            proof {
                                assert(decreases_to!(*extended => extended@[i as int].1));
                                assert(decreases_to!(extended@[i as int].1 => *y));
                            }
                            EnvValue::Profile(merge_env(x, y))
                        },
                        _ => clone_value(&extended[i].1),
                    };
                    let k2 = key.clone();
                    proof {
                        lemma_entries_view_update(merged@, j as int, (k2, nv));
                    }
                    merged.set(j, (k2, nv));
                },
                None => {
                    let nv = clone_value(&extended[i].1);
                    let k2 = key.clone();
                    proof {
                        lemma_entries_view_push(merged@, (k2, nv));
                    }
                    merged.push((k2, nv));
                },
            }
        }
        i = i + 1;
    }
    assert(extended@.subrange(0, extended.len() as int) =~= extended@);
    proof {
        if keys_distinct(env_view(*base)) {
            lemma_merge_env_distinct(env_view(*base), env_view(*extended));
        }
    }
    merged
}

/// Whether no key occurs twice.
pub open spec fn keys_distinct<V>(m: Seq<(Seq<char>, V)>) -> bool {
    forall|i: int, j: int| 0 <= i < j < m.len() ==> m[i].0 != m[j].0
}

/// Whether `k` is a key of `m`.
pub open spec fn has_key<V>(m: Seq<(Seq<char>, V)>, k: Seq<char>) -> bool {
    exists|i: int| 0 <= i < m.len() && m[i].0 == k
}

proof fn lemma_key_index_stable(m: Seq<(Seq<char>, EnvVal)>, m2: Seq<(Seq<char>, EnvVal)>, k: Seq<char>)
    requires
        m.len() <= m2.len(),
        forall|j: int| 0 <= j < m.len() ==> (m2[j].0 == k <==> m[j].0 == k),
        forall|j: int| 0 <= j < m.len() && m[j].0 == k ==> m2[j].1 == m[j].1,
        forall|j: int| m.len() <= j < m2.len() ==> m2[j].0 != k,
    ensures
        key_index(m2, k) == key_index(m, k),
        env_get(m2, k) == env_get(m, k),
{
    lemma_key_index(m, k);
    lemma_key_index(m2, k);
}

/// Merging with an empty mapping leaves the base as it was.
pub proof fn lemma_merge_env_empty(base: Seq<(Seq<char>, EnvVal)>)
    ensures
        merge_env_spec(base, Seq::empty()) == base,
{
}

/// A reserved key reads the same after a merge as in the base: the
/// extended side never contributes one, and the base's own pass through.
pub proof fn lemma_merge_env_reserved(
    base: Seq<(Seq<char>, EnvVal)>,
    extended: Seq<(Seq<char>, EnvVal)>,
    k: Seq<char>,
)
    requires
        is_reserved(k),
    ensures
        env_get(merge_env_spec(base, extended), k) == env_get(base, k),
    decreases extended.len(),
{
    if extended.len() > 0 {
        let prev = extended.subrange(0, extended.len() - 1);
        lemma_merge_env_reserved(base, prev, k);
        let m = merge_env_spec(base, prev);
        let k2 = extended[extended.len() - 1].0;
        let r = merge_env_spec(base, extended);
        assert(r == merge_entry(m, k2, extended[extended.len() - 1].1));
        if !is_reserved(k2) {
            assert(k2 != k);
            lemma_key_index(m, k2);
            lemma_key_index_stable(m, r, k);
        }
    }
}

/// With disjoint key sets, distinct keys and no reserved key on the extended
/// side, a merge is the base followed by the extended entries.
pub proof fn lemma_merge_env_disjoint(
    base: Seq<(Seq<char>, EnvVal)>,
    extended: Seq<(Seq<char>, EnvVal)>,
)
    requires
        keys_distinct(extended),
        forall|i: int| 0 <= i < extended.len() ==> !has_key(base, #[trigger] extended[i].0),
        forall|i: int| 0 <= i < extended.len() ==> !is_reserved(#[trigger] extended[i].0),
    ensures
        merge_env_spec(base, extended) == base + extended,
    decreases extended.len(),
{
    if extended.len() > 0 {
        let n = extended.len() - 1;
        let prev = extended.subrange(0, n);
        assert forall|i: int| 0 <= i < prev.len() implies !has_key(base, #[trigger] prev[i].0) by {
            assert(prev[i] == extended[i]);
        }
        assert forall|i: int| 0 <= i < prev.len() implies !is_reserved(#[trigger] prev[i].0) by {
            assert(prev[i] == extended[i]);
        }
        lemma_merge_env_disjoint(base, prev);
        let m = base + prev;
        let k = extended[n].0;
        lemma_key_index(m, k);
        if key_index(m, k) >= 0 {
            let j = key_index(m, k);
            if j < base.len() {
                assert(m[j] == base[j]);
                assert(has_key(base, k));
            } else {
                assert(m[j] == extended[j - base.len()]);
            }
        }
        assert(merge_env_spec(base, extended) == merge_entry(m, k, extended[n].1));
        assert(m.push(extended[n]) =~= base + extended);
    }
}

/// A merge keeps the base's keys distinct.
pub proof fn lemma_merge_env_distinct(
    base: Seq<(Seq<char>, EnvVal)>,
    extended: Seq<(Seq<char>, EnvVal)>,
)
    requires
        keys_distinct(base),
    ensures
        keys_distinct(merge_env_spec(base, extended)),
    decreases extended.len(),
{
    if extended.len() > 0 {
        let n = extended.len() - 1;
        let m = merge_env_spec(base, extended.subrange(0, n));
        lemma_merge_env_distinct(base, extended.subrange(0, n));
        let k = extended[n].0;
        assert(merge_env_spec(base, extended) == merge_entry(m, k, extended[n].1));
        lemma_key_index(m, k);
    }
}

/// Where the extended side has distinct keys and holds the plain value `v`
/// under a key that is not reserved, the merge holds `v` there, whatever
/// the base held.
pub proof fn lemma_merge_env_sets(
    base: Seq<(Seq<char>, EnvVal)>,
    extended: Seq<(Seq<char>, EnvVal)>,
    k: Seq<char>,
    v: Seq<char>,
    j: int,
)
    requires
        keys_distinct(extended),
        !is_reserved(k),
        0 <= j < extended.len(),
        extended[j] == (k, EnvVal::Value(v)),
    ensures
        env_get(merge_env_spec(base, extended), k) == Some(EnvVal::Value(v)),
    decreases extended.len(),
{
    let n = extended.len() - 1;
    let prev = extended.subrange(0, n);
    let m = merge_env_spec(base, prev);
    let r = merge_env_spec(base, extended);
    assert(r == merge_entry(m, extended[n].0, extended[n].1));
    lemma_key_index(m, k);
    if j == n {
        lemma_key_index(r, k);
        if key_index(m, k) >= 0 {
            let i = key_index(m, k);
            assert(r == m.update(i, (k, EnvVal::Value(v))));
            assert(r[i].0 == k);
            let ir = key_index(r, k);
            assert(r[ir].0 == k);
            if ir != i {
                assert(m[ir] == r[ir]);
            }
            assert(ir == i);
        } else {
            assert(r == m.push((k, EnvVal::Value(v))));
            assert(r[m.len() as int].0 == k);
        }
    } else {
        assert(prev[j] == extended[j]);
        lemma_merge_env_sets(base, prev, k, v, j);
        let k2 = extended[n].0;
        assert(k2 != k);
        if !is_reserved(k2) {
            lemma_key_index(m, k2);
            lemma_key_index_stable(m, r, k);
        }
    }
}

} // verus!
