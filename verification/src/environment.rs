//! Environment variables.

use vstd::prelude::*;

verus! {

/// The variables that result from setting `entries` in order: a later setting
/// of a name replaces an earlier one.
pub open spec fn settings(entries: Seq<(String, String)>) -> Map<Seq<char>, Seq<char>>
    decreases entries.len(),
{
    if entries.len() == 0 {
        Map::empty()
    } else {
        settings(entries.drop_last()).insert(entries.last().0@, entries.last().1@)
    }
}

/// No name occurs twice.
pub open spec fn distinct_names(entries: Seq<(String, String)>) -> bool {
    forall|i: int, j: int|
        0 <= i < j < entries.len() ==> #[trigger] entries[i].0@ != #[trigger] entries[j].0@
}

proof fn lemma_settings_domain(entries: Seq<(String, String)>, name: Seq<char>)
    ensures
        settings(entries).dom().contains(name) <==> exists|i: int|
            0 <= i < entries.len() && #[trigger] entries[i].0@ == name,
    decreases entries.len(),
{
    if entries.len() > 0 {
        let rest = entries.drop_last();
        lemma_settings_domain(rest, name);
        if settings(rest).dom().contains(name) {
            let i = choose|i: int| 0 <= i < rest.len() && #[trigger] rest[i].0@ == name;
            assert(entries[i].0@ == name);
        }
        if exists|i: int| 0 <= i < entries.len() && #[trigger] entries[i].0@ == name {
            let i = choose|i: int| 0 <= i < entries.len() && #[trigger] entries[i].0@ == name;
            if i < rest.len() {
                assert(rest[i].0@ == name);
            }
        }
    }
}

proof fn lemma_settings_value(entries: Seq<(String, String)>, i: int)
    requires
        distinct_names(entries),
        0 <= i < entries.len(),
    ensures
        settings(entries).dom().contains(entries[i].0@),
        settings(entries)[entries[i].0@] == entries[i].1@,
    decreases entries.len(),
{
    let rest = entries.drop_last();
    assert(distinct_names(rest)) by {
        assert forall|a: int, b: int| 0 <= a < b < rest.len() implies #[trigger] rest[a].0@
            != #[trigger] rest[b].0@ by {
            assert(entries[a].0@ != entries[b].0@);
        }
    }
    if i < rest.len() {
        lemma_settings_value(rest, i);
        assert(rest[i] == entries[i]);
        assert(entries[i].0@ != entries[entries.len() - 1].0@);
    }
}

/// A table of environment variables in which each name has one value.
pub struct EnvTable {
    entries: Vec<(String, String)>,
}

impl View for EnvTable {
    type V = Map<Seq<char>, Seq<char>>;

    closed spec fn view(&self) -> Map<Seq<char>, Seq<char>> {
        settings(self.entries@)
    }
}

impl EnvTable {
    #[verifier::type_invariant]
    spec fn wf(self) -> bool {
        distinct_names(self.entries@)
    }

    pub fn new() -> (table: Self)
        ensures
            table@ == Map::<Seq<char>, Seq<char>>::empty(),
    {
        EnvTable { entries: Vec::new() }
    }

    fn position(&self, name: &str) -> (position: Option<usize>)
        ensures
            match position {
                Some(i) => i < self.entries.len() && self.entries@[i as int].0@ == name@,
                None => forall|i: int|
                    0 <= i < self.entries.len() ==> #[trigger] self.entries@[i].0@ != name@,
            },
    {
        let wanted = name.to_owned();
        let mut i: usize = 0;
        while i < self.entries.len()
            invariant
                wanted@ == name@,
                i <= self.entries.len(),
                forall|j: int| 0 <= j < i ==> #[trigger] self.entries@[j].0@ != name@,
            decreases self.entries.len() - i,
        {
            if self.entries[i].0 == wanted {
                return Some(i);
            }
            i += 1;
        }
        None
    }

    pub fn contains_key(&self, name: &str) -> (found: bool)
        ensures
            found == self@.dom().contains(name@),
    {
        proof {
            lemma_settings_domain(self.entries@, name@);
        }
        self.position(name).is_some()
    }

    pub fn get(&self, name: &str) -> (value: Option<String>)
        ensures
            value is Some <==> self@.dom().contains(name@),
            value matches Some(v) ==> v@ == self@[name@],
    {
        proof {
            use_type_invariant(self);
            lemma_settings_domain(self.entries@, name@);
        }
        match self.position(name) {
            Some(i) => {
                proof {
                    lemma_settings_value(self.entries@, i as int);
                }
                Some(self.entries[i].1.clone())
            },
            None => None,
        }
    }

    /// Sets `name` to `value`, in place of the value that it had.
    pub fn insert(&mut self, name: String, value: String)
        ensures
            final(self)@ == old(self)@.insert(name@, value@),
    {
        proof {
            use_type_invariant(&*self);
        }
        let position = self.position(name.as_str());
        let ghost before = self.entries@;
        let ghost entry = (name, value);
        let mut entries: Vec<(String, String)> = Vec::new();
        std::mem::swap(&mut entries, &mut self.entries);
        match position {
            Some(i) => {
                entries[i] = (name, value);
                proof {
                    let after = entries@;
                    assert(after == before.update(i as int, entry));
                    assert(distinct_names(after)) by {
                        assert forall|a: int, b: int|
                            0 <= a < b < after.len() implies #[trigger] after[a].0@
                            != #[trigger] after[b].0@ by {
                            assert(before[a].0@ != before[b].0@);
                        }
                    }
                    lemma_settings_update(before, i as int, entry);
                }
            },
            None => {
                entries.push((name, value));
                proof {
                    let after = entries@;
                    assert(distinct_names(after)) by {
                        assert forall|a: int, b: int|
                            0 <= a < b < after.len() implies #[trigger] after[a].0@
                            != #[trigger] after[b].0@ by {
                            assert(before[a].0@ != name@);
                            if b < before.len() {
                                assert(before[a].0@ != before[b].0@);
                            }
                        }
                    }
                    assert(after.drop_last() == before);
                }
            },
        }
        self.entries = entries;
    }

    /// The variables with their values.
    pub fn entries(&self) -> (entries: &Vec<(String, String)>)
        ensures
            settings(entries@) == self@,
            distinct_names(entries@),
    {
        proof {
            use_type_invariant(self);
        }
        &self.entries
    }
}

proof fn lemma_settings_update(entries: Seq<(String, String)>, i: int, entry: (String, String))
    requires
        distinct_names(entries),
        distinct_names(entries.update(i, entry)),
        0 <= i < entries.len(),
        entries[i].0@ == entry.0@,
    ensures
        settings(entries.update(i, entry)) == settings(entries).insert(entry.0@, entry.1@),
{
    let after = entries.update(i, entry);
    let expected = settings(entries).insert(entry.0@, entry.1@);
    assert forall|name: Seq<char>|
        settings(after).dom().contains(name) <==> expected.dom().contains(name) by {
        lemma_settings_domain(entries, name);
        lemma_settings_domain(after, name);
        if exists|k: int| 0 <= k < entries.len() && #[trigger] entries[k].0@ == name {
            let k = choose|k: int| 0 <= k < entries.len() && #[trigger] entries[k].0@ == name;
            assert(after[k].0@ == name);
        }
        if exists|k: int| 0 <= k < after.len() && #[trigger] after[k].0@ == name {
            let k = choose|k: int| 0 <= k < after.len() && #[trigger] after[k].0@ == name;
            assert(entries[k].0@ == name);
        }
    }
    assert forall|name: Seq<char>|
        settings(after).dom().contains(name) implies settings(after)[name] == expected[name] by {
        lemma_settings_domain(after, name);
        let k = choose|k: int| 0 <= k < after.len() && #[trigger] after[k].0@ == name;
        lemma_settings_value(after, k);
        lemma_settings_value(entries, k);
    }
    assert(settings(after) =~= expected);
}

/// The last setting of a name counts, and a name that is never set has no
/// value.
pub proof fn law_last_setting_counts(entries: Seq<(String, String)>, name: Seq<char>, i: int)
    ensures
        0 <= i < entries.len() && entries[i].0@ == name && (forall|j: int|
            i < j < entries.len() ==> #[trigger] entries[j].0@ != name) ==> settings(
            entries,
        ).dom().contains(name) && settings(entries)[name] == entries[i].1@,
        settings(entries).dom().contains(name) <==> exists|k: int|
            0 <= k < entries.len() && #[trigger] entries[k].0@ == name,
    decreases entries.len(),
{
    lemma_settings_domain(entries, name);
    if 0 <= i < entries.len() - 1 {
        let rest = entries.drop_last();
        law_last_setting_counts(rest, name, i);
        assert(rest[i] == entries[i]);
        if forall|j: int| i < j < entries.len() ==> #[trigger] entries[j].0@ != name {
            assert forall|j: int| i < j < rest.len() implies #[trigger] rest[j].0@ != name by {
                assert(entries[j].0@ != name);
            }
            assert(entries[entries.len() - 1].0@ != name);
        }
    }
}

} // verus!
