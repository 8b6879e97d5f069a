//! Query filters: an ordered list of field conditions with one entry per
//! field, as a database filter document holds them.

use vstd::prelude::*;

verus! {

/// A condition on one field of a stored record.
#[derive(Debug, PartialEq, Eq)]
pub enum Cond {
    /// The field equals this object id.
    EqId(u128),
    /// The field equals this text.
    EqStr(String),
    /// The field equals this integer.
    EqInt(i32),
    /// The field is at least this integer.
    GteInt(i32),
    /// The field is a time at or after this timestamp (milliseconds).
    GteTime(i64),
    /// The field differs from this text.
    NeStr(String),
    /// The field is one of these object ids.
    InIds(Vec<u128>),
    /// The field is present (`true`) or absent (`false`).
    Exists(bool),
}

/// The value of a `Cond`: texts and id lists as sequences.
pub enum CondSpec {
    EqId(u128),
    EqStr(Seq<char>),
    EqInt(i32),
    GteInt(i32),
    GteTime(i64),
    NeStr(Seq<char>),
    InIds(Seq<u128>),
    Exists(bool),
}

impl View for Cond {
    type V = CondSpec;

    open spec fn view(&self) -> CondSpec {
        match self {
            Cond::EqId(id) => CondSpec::EqId(*id),
            Cond::EqStr(t) => CondSpec::EqStr(t@),
            Cond::EqInt(n) => CondSpec::EqInt(*n),
            Cond::GteInt(n) => CondSpec::GteInt(*n),
            Cond::GteTime(t) => CondSpec::GteTime(*t),
            Cond::NeStr(t) => CondSpec::NeStr(t@),
            Cond::InIds(ids) => CondSpec::InIds(ids@),
            Cond::Exists(b) => CondSpec::Exists(*b),
        }
    }
}

/// Field conditions in the order in which they were first set.
pub struct Filter {
    entries: Vec<(String, Cond)>,
}

/// Position of the entry for `key`, or -1.
pub open spec fn key_index(s: Seq<(Seq<char>, CondSpec)>, key: Seq<char>) -> int
    decreases s.len(),
{
    if s.len() == 0 {
        -1
    } else if s.last().0 == key {
        s.len() - 1
    } else {
        key_index(s.drop_last(), key)
    }
}

/// No field has two entries.
pub open spec fn unique_keys(s: Seq<(Seq<char>, CondSpec)>) -> bool {
    forall|i: int, j: int| 0 <= i < j < s.len() ==> (#[trigger] s[i]).0 != (#[trigger] s[j]).0
}

/// The condition set for `key`.
pub open spec fn cond_of(s: Seq<(Seq<char>, CondSpec)>, key: Seq<char>) -> Option<CondSpec> {
    if key_index(s, key) >= 0 {
        Some(s[key_index(s, key)].1)
    } else {
        None
    }
}

/// Setting `key` to `cond`: a field already present keeps its place and
/// takes the new condition; a new field goes last.
pub open spec fn set_cond(s: Seq<(Seq<char>, CondSpec)>, key: Seq<char>, cond: CondSpec) -> Seq<(Seq<char>, CondSpec)> {
    if key_index(s, key) >= 0 {
        s.update(key_index(s, key), (key, cond))
    } else {
        s.push((key, cond))
    }
}

pub proof fn lemma_key_index(s: Seq<(Seq<char>, CondSpec)>, key: Seq<char>)
    ensures
        -1 <= key_index(s, key) < s.len(),
        key_index(s, key) >= 0 ==> s[key_index(s, key)].0 == key,
        key_index(s, key) < 0 ==> forall|i: int| 0 <= i < s.len() ==> (#[trigger] s[i]).0 != key,
        unique_keys(s) ==> forall|i: int|
            0 <= i < s.len() && (#[trigger] s[i]).0 == key ==> key_index(s, key) == i,
    decreases s.len(),
{
    if s.len() > 0 {
        let t = s.drop_last();
        lemma_key_index(t, key);
        assert forall|i: int| 0 <= i < t.len() implies #[trigger] t[i] == s[i] by {}
        if key_index(s, key) < 0 {
            assert forall|i: int| 0 <= i < s.len() implies (#[trigger] s[i]).0 != key by {
                if i < t.len() {
                    assert(t[i] == s[i]);
                }
            }
        }
        if unique_keys(s) {
            assert forall|i: int, j: int| 0 <= i < j < t.len() implies (#[trigger] t[i]).0 != (#[trigger] t[j]).0 by {
                assert(t[i] == s[i] && t[j] == s[j]);
            }
            assert forall|i: int| 0 <= i < s.len() && (#[trigger] s[i]).0 == key implies key_index(s, key) == i by {
                if i < t.len() {
                    assert(t[i] == s[i]);
                    if s.last().0 == key {
                        assert(s[s.len() - 1].0 == key);
                    }
                }
            }
        }
    }
}

impl View for Filter {
    type V = Seq<(Seq<char>, CondSpec)>;

    closed spec fn view(&self) -> Seq<(Seq<char>, CondSpec)> {
        self.entries@.map_values(|e: (String, Cond)| (e.0@, e.1@))
    }
}

impl Filter {
    /// The filter with no condition: every record passes.
    pub fn new() -> (f: Filter)
        ensures
            f@ == Seq::<(Seq<char>, CondSpec)>::empty(),
    {
        let f = Filter { entries: Vec::new() };
        assert(f@ =~= Seq::<(Seq<char>, CondSpec)>::empty());
        f
    }

    /// No field has two entries.
    pub open spec fn wf(&self) -> bool {
        unique_keys(self@)
    }

    /// Number of fields with a condition.
    pub fn len(&self) -> (n: usize)
        ensures
            n == self@.len(),
    {
        self.entries.len()
    }

    /// Name of the `i`-th field.
    pub fn key_at(&self, i: usize) -> (k: &String)
        requires
            i < self@.len(),
        ensures
            k@ == self@[i as int].0,
    {
        &self.entries[i].0
    }

    /// Condition on the `i`-th field.
    pub fn cond_at(&self, i: usize) -> (c: &Cond)
        requires
            i < self@.len(),
        ensures
            c@ == self@[i as int].1,
    {
        &self.entries[i].1
    }

    /// Position of the entry for `key`, if any.
    pub fn find(&self, key: &str) -> (r: Option<usize>)
        ensures
            match r {
                Some(i) => i == key_index(self@, key@),
                None => key_index(self@, key@) < 0,
            },
    {
        let k = String::from_str(key);
        let mut i: usize = self.entries.len();
        assert(self@.take(i as int) == self@);
        while i > 0
            invariant
                i <= self.entries@.len(),
                self@.len() == self.entries@.len(),
                k@ == key@,
                key_index(self@, key@) == key_index(self@.take(i as int), key@),
            decreases i,
        {
            let ghost t = self@.take(i as int);
            assert(t.last() == self@[i - 1]);
            assert(t.drop_last() == self@.take(i - 1));
            assert(self@[i - 1].0 == self.entries@[i - 1].0@);
            if self.entries[i - 1].0 == k {
                return Some(i - 1);
            }
            i = i - 1;
        }
        None
    }

    /// The condition set for `key`, if any.
    pub fn get(&self, key: &str) -> (r: Option<&Cond>)
        ensures
            match r {
                Some(c) => cond_of(self@, key@) == Some(c@),
                None => cond_of(self@, key@) is None,
            },
    {
        match self.find(key) {
            Some(i) => {
                proof {
                    lemma_key_index(self@, key@);
                }
                Some(&self.entries[i].1)
            },
            None => None,
        }
    }

    /// Sets the condition on `key` (a document's `insert`): a field already
    /// present keeps its place and takes the new condition; a new field goes
    /// last.
    pub fn insert(&mut self, key: &str, cond: Cond)
        requires
            old(self).wf(),
        ensures
            final(self).wf(),
            final(self)@ == set_cond(old(self)@, key@, cond@),
    {
        proof {
            lemma_key_index(self@, key@);
        }
        let ghost before = self@;
        let k = String::from_str(key);
        match self.find(key) {
            Some(i) => {
                self.entries.set(i, (k, cond));
                assert(self@ =~= before.update(i as int, (key@, cond@)));
            },
            None => {
                self.entries.push((k, cond));
                assert(self@ =~= before.push((key@, cond@)));
            },
        }
    }
}

/// After setting a field, reading it gives what was set.
pub proof fn lemma_get_after_set(s: Seq<(Seq<char>, CondSpec)>, key: Seq<char>, cond: CondSpec)
    requires
        unique_keys(s),
    ensures
        cond_of(set_cond(s, key, cond), key) == Some(cond),
{
    lemma_key_index(s, key);
    let t = set_cond(s, key, cond);
    assert(unique_keys(t)) by {
        lemma_set_keeps_unique(s, key, cond);
    }
    lemma_key_index(t, key);
    if key_index(s, key) >= 0 {
        assert(t[key_index(s, key)].0 == key);
    } else {
        assert(t[s.len() as int].0 == key);
    }
}

/// Setting a condition never gives a field two entries.
pub proof fn lemma_set_keeps_unique(s: Seq<(Seq<char>, CondSpec)>, key: Seq<char>, cond: CondSpec)
    requires
        unique_keys(s),
    ensures
        unique_keys(set_cond(s, key, cond)),
{
    lemma_key_index(s, key);
    let t = set_cond(s, key, cond);
    assert forall|i: int, j: int| 0 <= i < j < t.len() implies (#[trigger] t[i]).0 != (#[trigger] t[j]).0 by {
        if key_index(s, key) >= 0 {
            let p = key_index(s, key);
            if i == p {
                assert(s[j].0 != s[p].0);
            } else if j == p {
                assert(s[i].0 != s[p].0);
            } else {
                assert(t[i] == s[i] && t[j] == s[j]);
            }
        } else {
            if j == s.len() {
                assert(t[i] == s[i]);
            } else {
                assert(t[i] == s[i] && t[j] == s[j]);
            }
        }
    }
}

/// Setting one field leaves every other field's condition as it was.
pub proof fn lemma_set_other_unchanged(s: Seq<(Seq<char>, CondSpec)>, key: Seq<char>, cond: CondSpec, other: Seq<char>)
    requires
        unique_keys(s),
        other != key,
    ensures
        cond_of(set_cond(s, key, cond), other) == cond_of(s, other),
{
    lemma_key_index(s, key);
    lemma_key_index(s, other);
    lemma_set_keeps_unique(s, key, cond);
    let t = set_cond(s, key, cond);
    lemma_key_index(t, other);
    if key_index(s, other) >= 0 {
        let q = key_index(s, other);
        assert(t[q] == s[q]);
    } else {
        assert forall|i: int| 0 <= i < t.len() implies (#[trigger] t[i]).0 != other by {
            if i < s.len() && t[i] == s[i] {
            } else {
                assert(t[i].0 == key);
            }
        }
    }
}

/// Setting a field twice is setting it once, to the second condition.
pub proof fn lemma_set_twice(s: Seq<(Seq<char>, CondSpec)>, key: Seq<char>, c1: CondSpec, c2: CondSpec)
    requires
        unique_keys(s),
    ensures
        set_cond(set_cond(s, key, c1), key, c2) == set_cond(s, key, c2),
{
    lemma_key_index(s, key);
    lemma_set_keeps_unique(s, key, c1);
    let t = set_cond(s, key, c1);
    lemma_key_index(t, key);
    if key_index(s, key) >= 0 {
        let p = key_index(s, key);
        assert(t[p].0 == key);
        assert(set_cond(t, key, c2) =~= set_cond(s, key, c2));
    } else {
        assert(t[s.len() as int].0 == key);
        assert(set_cond(t, key, c2) =~= set_cond(s, key, c2));
    }
}

} // verus!

verus! {

/// Setting a field that has no entry yet appends it.
pub proof fn lemma_set_new_key(s: Seq<(Seq<char>, CondSpec)>, key: Seq<char>, cond: CondSpec)
    requires
        forall|i: int| 0 <= i < s.len() ==> (#[trigger] s[i]).0 != key,
    ensures
        set_cond(s, key, cond) == s.push((key, cond)),
{
    lemma_key_index(s, key);
    if key_index(s, key) >= 0 {
        assert(s[key_index(s, key)].0 == key);
    }
}

} // verus!
