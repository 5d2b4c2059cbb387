//! The check registry: which check codes a project has switched off.

use crate::text::text_eq;
use vstd::prelude::*;

verus! {

/// Name of the optional configuration file in a project's root.
pub const CONFIG_FILE_NAME: &'static str = ".cargo-dokita.toml";

/// The value stored under `name`, if any entry has that name.
pub open spec fn lookup<V>(pairs: Seq<(Seq<char>, V)>, name: Seq<char>) -> Option<V>
    decreases pairs.len(),
{
    if pairs.len() == 0 {
        None
    } else if pairs[0].0 == name {
        Some(pairs[0].1)
    } else {
        lookup(pairs.drop_first(), name)
    }
}

/// The position of the first entry that carries the name, or the number
/// of entries where none does.
pub open spec fn first_index<V>(pairs: Seq<(Seq<char>, V)>, name: Seq<char>) -> int
    decreases pairs.len(),
{
    if pairs.len() == 0 {
        0
    } else if pairs[0].0 == name {
        0
    } else {
        1 + first_index(pairs.drop_first(), name)
    }
}

/// An entry before which no entry carries its name stands at the first index of that name.
pub proof fn lemma_first_index<V>(pairs: Seq<(Seq<char>, V)>, i: int)
    requires
        0 <= i < pairs.len(),
        forall|k: int| 0 <= k < i ==> pairs[k].0 != pairs[i].0,
    ensures
        first_index(pairs, pairs[i].0) == i,
    decreases i,
{
    if i > 0 {
        let rest = pairs.drop_first();
        assert(pairs[0].0 != pairs[i].0);
        assert forall|k: int| 0 <= k < i - 1 implies (#[trigger] rest[k]).0 != rest[i - 1].0 by {
            assert(rest[k] == pairs[k + 1]);
        }
        assert(rest[i - 1] == pairs[i]);
        lemma_first_index(rest, i - 1);
    }
}

/// No name occurs twice.
pub open spec fn distinct_names<V>(pairs: Seq<(Seq<char>, V)>) -> bool {
    forall|i: int, j: int| 0 <= i < j < pairs.len() ==> pairs[i].0 != pairs[j].0
}

/// A lookup finds the first entry that carries the name.
pub proof fn lemma_lookup_first<V>(pairs: Seq<(Seq<char>, V)>, i: int)
    requires
        0 <= i < pairs.len(),
        forall|k: int| 0 <= k < i ==> pairs[k].0 != pairs[i].0,
    ensures
        lookup(pairs, pairs[i].0) == Some(pairs[i].1),
    decreases i,
{
    if i > 0 {
        let rest = pairs.drop_first();
        assert(pairs[0].0 != pairs[i].0);
        assert forall|k: int| 0 <= k < i - 1 implies (#[trigger] rest[k]).0 != rest[i - 1].0 by {
            assert(rest[k] == pairs[k + 1]);
        }
        assert(rest[i - 1] == pairs[i]);
        lemma_lookup_first(rest, i - 1);
    }
}

/// A name that no entry carries is not found.
pub proof fn lemma_lookup_absent<V>(pairs: Seq<(Seq<char>, V)>, name: Seq<char>)
    requires
        forall|i: int| 0 <= i < pairs.len() ==> pairs[i].0 != name,
    ensures
        lookup(pairs, name) is None,
    decreases pairs.len(),
{
    if pairs.len() > 0 {
        let rest = pairs.drop_first();
        assert forall|i: int| 0 <= i < rest.len() implies rest[i].0 != name by {
            assert(rest[i] == pairs[i + 1]);
        }
        lemma_lookup_absent(rest, name);
    }
}

/// Appending an entry changes the lookup of its own name only, and of that
/// only when the name was absent.
pub proof fn lemma_lookup_push<V>(pairs: Seq<(Seq<char>, V)>, entry: (Seq<char>, V), name: Seq<char>)
    ensures
        lookup(pairs.push(entry), name) == (if lookup(pairs, name) is Some {
            lookup(pairs, name)
        } else if entry.0 == name {
            Some(entry.1)
        } else {
            None
        }),
    decreases pairs.len(),
{
    let all = pairs.push(entry);
    if pairs.len() == 0 {
        assert(all.drop_first() =~= pairs);
    } else {
        assert(all[0] == pairs[0]);
        assert(all.drop_first() =~= pairs.drop_first().push(entry));
        lemma_lookup_push(pairs.drop_first(), entry, name);
    }
}

/// Replacing the value of the first entry of a name changes the lookup of
/// that name only.
pub proof fn lemma_lookup_update<V>(pairs: Seq<(Seq<char>, V)>, i: int, value: V, name: Seq<char>)
    requires
        0 <= i < pairs.len(),
        forall|k: int| 0 <= k < i ==> pairs[k].0 != pairs[i].0,
    ensures
        lookup(pairs.update(i, (pairs[i].0, value)), name) == (if name == pairs[i].0 {
            Some(value)
        } else {
            lookup(pairs, name)
        }),
    decreases i,
{
    let changed = pairs.update(i, (pairs[i].0, value));
    if i == 0 {
        assert(changed.drop_first() =~= pairs.drop_first());
    } else {
        let rest = pairs.drop_first();
        assert(pairs[0].0 != pairs[i].0);
        assert forall|k: int| 0 <= k < i - 1 implies (#[trigger] rest[k]).0 != rest[i - 1].0 by {
            assert(rest[k] == pairs[k + 1]);
        }
        assert(rest[i - 1] == pairs[i]);
        assert(changed.drop_first() =~= rest.update(i - 1, (rest[i - 1].0, value)));
        assert(changed[0] == pairs[0]);
        lemma_lookup_update(rest, i - 1, value, name);
    }
}

/// A map from names to values, kept in insertion order. A map that was built
/// by `new` and `insert` holds no name twice.
#[derive(Debug, Clone)]
pub struct NameMap<V> {
    entries: Vec<(String, V)>,
}

impl<V> NameMap<V> {
    /// The entries in insertion order, each name as its characters.
    pub closed spec fn pairs(&self) -> Seq<(Seq<char>, V)> {
        self.entries@.map_values(|e: (String, V)| (e.0@, e.1))
    }

    /// No name occurs twice.
    pub open spec fn wf(&self) -> bool {
        distinct_names(self.pairs())
    }

    /// The value stored under `name`.
    pub open spec fn value_of(&self, name: Seq<char>) -> Option<V> {
        lookup(self.pairs(), name)
    }

    /// A map without entries.
    pub fn new() -> (m: Self)
        ensures
            m.pairs() == Seq::<(Seq<char>, V)>::empty(),
            m.wf(),
    {
        let m = NameMap { entries: Vec::new() };
        assert(m.pairs() =~= Seq::<(Seq<char>, V)>::empty());
        m
    }

    /// The number of entries.
    pub fn len(&self) -> (n: usize)
        ensures
            n == self.pairs().len(),
    {
        self.entries.len()
    }

    /// Whether the map has no entry.
    pub fn is_empty(&self) -> (b: bool)
        ensures
            b == (self.pairs().len() == 0),
    {
        self.entries.len() == 0
    }

    /// The name of the entry at position `i`.
    pub fn name_at(&self, i: usize) -> (name: &str)
        requires
            i < self.pairs().len(),
        ensures
            name@ == self.pairs()[i as int].0,
    {
        self.entries[i].0.as_str()
    }

    /// The value of the entry at position `i`.
    pub fn value_at(&self, i: usize) -> (value: &V)
        requires
            i < self.pairs().len(),
        ensures
            *value == self.pairs()[i as int].1,
    {
        &self.entries[i].1
    }

    /// Position of the first entry named `name`.
    fn position(&self, name: &str) -> (at: Option<usize>)
        ensures
            match at {
                Some(i) => i < self.pairs().len() && self.pairs()[i as int].0 == name@
                    && forall|k: int| 0 <= k < i ==> self.pairs()[k].0 != name@,
                None => forall|i: int| 0 <= i < self.pairs().len() ==> self.pairs()[i].0 != name@,
            },
    {
        let mut i: usize = 0;
        while i < self.entries.len()
            invariant
                i <= self.entries.len(),
                forall|k: int| 0 <= k < i ==> self.pairs()[k].0 != name@,
            decreases self.entries.len() - i,
        {
            if text_eq(self.entries[i].0.as_str(), name) {
                return Some(i);
            }
            i = i + 1;
        }
        None
    }

    /// The value stored under `name`, if there is one.
    pub fn get(&self, name: &str) -> (found: Option<&V>)
        ensures
            match found {
                Some(v) => self.value_of(name@) == Some(*v),
                None => self.value_of(name@) is None,
            },
    {
        match self.position(name) {
            Some(i) => {
                proof {
                    lemma_lookup_first(self.pairs(), i as int);
                }
                Some(&self.entries[i].1)
            },
            None => {
                proof {
                    lemma_lookup_absent(self.pairs(), name@);
                }
                None
            },
        }
    }

    /// Stores `value` under `name`: the entry of that name gets the new
    /// value where it stands, and a new name goes to the end.
    pub fn insert(&mut self, name: String, value: V)
        ensures
            final(self).value_of(name@) == Some(value),
            forall|other: Seq<char>|
                other != name@ ==> final(self).value_of(other) == old(self).value_of(other),
            old(self).value_of(name@) is Some ==> final(self).pairs() == old(self).pairs().update(
                first_index(old(self).pairs(), name@),
                (name@, value),
            ) && 0 <= first_index(old(self).pairs(), name@) < old(self).pairs().len(),
            old(self).value_of(name@) is None ==> final(self).pairs() == old(self).pairs().push(
                (name@, value),
            ),
            old(self).wf() ==> final(self).wf(),
    {
        let ghost before = self.pairs();
        match self.position(name.as_str()) {
            Some(i) => {
                proof {
                    lemma_lookup_first(before, i as int);
                    lemma_first_index(before, i as int);
                }
                self.entries.set(i, (name, value));
                proof {
                    assert(self.pairs() =~= before.update(i as int, (before[i as int].0, value)));
                    assert forall|other: Seq<char>| true implies self.value_of(other) == (if other
                        == name@ {
                        Some(value)
                    } else {
                        lookup(before, other)
                    }) by {
                        lemma_lookup_update(before, i as int, value, other);
                    }
                }
            },
            None => {
                proof {
                    lemma_lookup_absent(before, name@);
                }
                self.entries.push((name, value));
                proof {
                    assert(self.pairs() =~= before.push((name@, value)));
                    assert forall|other: Seq<char>| true implies self.value_of(other) == (if other
                        == name@ {
                        Some(value)
                    } else {
                        lookup(before, other)
                    }) by {
                        lemma_lookup_push(before, (name@, value), other);
                        if other != name@ {
                        } else {
                        }
                    }
                }
            },
        }
    }
}

/// Settings that apply to the whole run. None are defined yet.
#[derive(Debug, Clone)]
pub struct GeneralConfig {}

/// Per-check settings.
#[derive(Debug, Clone)]
pub struct ChecksConfig {
    /// Check code to enabled; a code that is absent is enabled.
    pub enabled: NameMap<bool>,
}

/// The configuration of one run.
#[derive(Debug, Clone)]
pub struct Config {
    pub general: GeneralConfig,
    pub checks: ChecksConfig,
}

impl Default for GeneralConfig {
    fn default() -> (c: Self) {
        GeneralConfig {  }
    }
}

impl Default for ChecksConfig {
    fn default() -> (c: Self)
        ensures
            c.enabled.pairs().len() == 0,
            c.enabled.wf(),
    {
        ChecksConfig { enabled: NameMap::new() }
    }
}

impl Default for Config {
    fn default() -> (c: Self)
        ensures
            c.checks.enabled.pairs().len() == 0,
            c.checks.enabled.wf(),
            forall|code: Seq<char>| c.enabled(code),
    {
        let c = Config { general: GeneralConfig {  }, checks: ChecksConfig { enabled: NameMap::new() } };
        assert forall|code: Seq<char>| c.enabled(code) by {
            lemma_lookup_absent(c.checks.enabled.pairs(), code);
        }
        c
    }
}

impl Config {
    /// Whether the check with this code runs: only an explicit `false` switches it off.
    pub open spec fn enabled(&self, code: Seq<char>) -> bool {
        match self.checks.enabled.value_of(code) {
            Some(on) => on,
            None => true,
        }
    }

    /// Whether the check with this code runs.
    pub fn is_check_enabled(&self, check_code: &str) -> (on: bool)
        ensures
            on == self.enabled(check_code@),
    {
        match self.checks.enabled.get(check_code) {
            Some(on) => *on,
            None => true,
        }
    }
}

} // verus!
