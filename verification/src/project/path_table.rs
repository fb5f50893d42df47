//! A small table keyed by project paths, where inserting a path again replaces its value.

use vstd::prelude::*;
use crate::project::path::{ComponentView, ProjectPath};

verus! {

/// The map that a sequence of entries stands for: later entries win.
pub open spec fn entries_map<V>(s: Seq<(ProjectPath, V)>) -> Map<Seq<ComponentView>, V>
    decreases s.len(),
{
    if s.len() == 0 {
        Map::empty()
    } else {
        entries_map(s.drop_last()).insert(s.last().0@, s.last().1)
    }
}

/// No two entries have the same path.
pub open spec fn unique_keys<V>(s: Seq<(ProjectPath, V)>) -> bool {
    forall|i: int, j: int| 0 <= i < j < s.len() ==> (#[trigger] s[i]).0@ != (#[trigger] s[j]).0@
}

/// A path is a key of the map exactly when some entry has it.
pub proof fn lemma_entries_map_dom<V>(s: Seq<(ProjectPath, V)>, k: Seq<ComponentView>)
    ensures
        entries_map(s).dom().contains(k) <==> exists|i: int| 0 <= i < s.len() && (#[trigger] s[i]).0@ == k,
    decreases s.len(),
{
    if s.len() > 0 {
        lemma_entries_map_dom(s.drop_last(), k);
        if entries_map(s.drop_last()).dom().contains(k) {
            let i = choose|i: int| 0 <= i < s.drop_last().len() && (#[trigger] s.drop_last()[i]).0@ == k;
            assert(s[i] == s.drop_last()[i]);
        }
        if exists|i: int| 0 <= i < s.len() && (#[trigger] s[i]).0@ == k {
            let i = choose|i: int| 0 <= i < s.len() && (#[trigger] s[i]).0@ == k;
            if i < s.len() - 1 {
                assert(s.drop_last()[i] == s[i]);
            }
        }
    }
}

/// With distinct keys, the value of an entry's path is that entry's value.
pub proof fn lemma_entries_map_value<V>(s: Seq<(ProjectPath, V)>, j: int)
    requires
        unique_keys(s),
        0 <= j < s.len(),
    ensures
        entries_map(s).dom().contains(s[j].0@),
        entries_map(s)[s[j].0@] == s[j].1,
    decreases s.len(),
{
    if j < s.len() - 1 {
        assert(unique_keys(s.drop_last())) by {
            assert forall|a: int, b: int| 0 <= a < b < s.drop_last().len() implies (#[trigger] s.drop_last()[a]).0@ != (#[trigger] s.drop_last()[b]).0@ by {
                assert(s.drop_last()[a] == s[a]);
                assert(s.drop_last()[b] == s[b]);
            }
        }
        lemma_entries_map_value(s.drop_last(), j);
        assert(s.drop_last()[j] == s[j]);
        assert(s[j].0@ != s[s.len() - 1].0@);
    }
}

/// Replacing the value of an existing entry updates the map at that path.
pub proof fn lemma_entries_map_update<V>(s: Seq<(ProjectPath, V)>, j: int, p: ProjectPath, v: V)
    requires
        unique_keys(s),
        0 <= j < s.len(),
        s[j].0@ == p@,
    ensures
        entries_map(s.update(j, (p, v))) == entries_map(s).insert(p@, v),
        unique_keys(s.update(j, (p, v))),
    decreases s.len(),
{
    let t = s.update(j, (p, v));
    assert(unique_keys(t)) by {
        assert forall|a: int, b: int| 0 <= a < b < t.len() implies (#[trigger] t[a]).0@ != (#[trigger] t[b]).0@ by {
            assert(t[a].0@ == s[a].0@);
            assert(t[b].0@ == s[b].0@);
        }
    }
    if j == s.len() - 1 {
        assert(t.drop_last() =~= s.drop_last());
        assert(entries_map(t) =~= entries_map(s).insert(p@, v));
    } else {
        let d = s.drop_last();
        assert(unique_keys(d)) by {
            assert forall|a: int, b: int| 0 <= a < b < d.len() implies (#[trigger] d[a]).0@ != (#[trigger] d[b]).0@ by {
                assert(d[a] == s[a]);
                assert(d[b] == s[b]);
            }
        }
        lemma_entries_map_update(d, j, p, v);
        assert(t.drop_last() =~= d.update(j, (p, v)));
        assert(s.last().0@ != p@);
        assert(entries_map(t) =~= entries_map(s).insert(p@, v));
    }
}

/// With distinct keys, the map has as many paths as there are entries.
pub proof fn lemma_entries_map_card<V>(s: Seq<(ProjectPath, V)>)
    requires
        unique_keys(s),
    ensures
        entries_map(s).dom().finite(),
        entries_map(s).dom().len() == s.len(),
    decreases s.len(),
{
    if s.len() > 0 {
        let d = s.drop_last();
        assert(unique_keys(d)) by {
            assert forall|a: int, b: int| 0 <= a < b < d.len() implies (#[trigger] d[a]).0@ != (#[trigger] d[b]).0@ by {
                assert(d[a] == s[a]);
                assert(d[b] == s[b]);
            }
        }
        lemma_entries_map_card(d);
        lemma_entries_map_dom(d, s.last().0@);
        if entries_map(d).dom().contains(s.last().0@) {
            let i = choose|i: int| 0 <= i < d.len() && (#[trigger] d[i]).0@ == s.last().0@;
            assert(d[i] == s[i]);
        }
    }
}

/// A table of values keyed by project path.
#[derive(Debug)]
pub struct PathTable<V> {
    entries: Vec<(ProjectPath, V)>,
}

impl<V> PathTable<V> {
    /// The map the table holds.
    pub closed spec fn spec_map(&self) -> Map<Seq<ComponentView>, V> {
        entries_map(self.entries@)
    }

    /// No path occurs twice.
    pub closed spec fn wf(&self) -> bool {
        unique_keys(self.entries@)
    }

    /// The empty table.
    pub fn new() -> (t: PathTable<V>)
        ensures
            t.wf(),
            t.spec_map() == Map::<Seq<ComponentView>, V>::empty(),
    {
        PathTable { entries: Vec::new() }
    }

    /// The index of the entry for `path`, if any.
    fn position(&self, path: &ProjectPath) -> (r: Option<usize>)
        requires
            self.wf(),
        ensures
            r matches Some(j) ==> j < self.entries@.len() && self.entries@[j as int].0@ == path@,
            r is None ==> !self.spec_map().dom().contains(path@),
    {
        let mut i: usize = 0;
        while i < self.entries.len()
            invariant
                0 <= i <= self.entries@.len(),
                forall|j: int| 0 <= j < i ==> (#[trigger] self.entries@[j]).0@ != path@,
            decreases self.entries@.len() - i,
        {
            if self.entries[i].0.same_as(path) {
                return Some(i);
            }
            i = i + 1;
        }
        proof {
            lemma_entries_map_dom(self.entries@, path@);
        }
        None
    }

    /// The value for `path`, if any.
    pub fn get(&self, path: &ProjectPath) -> (r: Option<&V>)
        requires
            self.wf(),
        ensures
            self.spec_map().dom().contains(path@) ==> r == Some(&self.spec_map()[path@]),
            !self.spec_map().dom().contains(path@) ==> r is None,
    {
        match self.position(path) {
            Some(j) => {
                proof {
                    lemma_entries_map_value(self.entries@, j as int);
                }
                Some(&self.entries[j].1)
            },
            None => None,
        }
    }

    /// Whether `path` has a value.
    pub fn contains(&self, path: &ProjectPath) -> (b: bool)
        requires
            self.wf(),
        ensures
            b == self.spec_map().dom().contains(path@),
    {
        match self.position(path) {
            Some(j) => {
                proof {
                    lemma_entries_map_value(self.entries@, j as int);
                }
                true
            },
            None => false,
        }
    }

    /// Sets the value of `path`, replacing any previous one.
    pub fn insert(&mut self, path: ProjectPath, value: V)
        requires
            old(self).wf(),
        ensures
            final(self).wf(),
            final(self).spec_map() == old(self).spec_map().insert(path@, value),
    {
        match self.position(&path) {
            Some(j) => {
                proof {
                    lemma_entries_map_update(self.entries@, j as int, path, value);
                }
                self.entries.set(j, (path, value));
            },
            None => {
                let ghost before = self.entries@;
                proof {
                    lemma_entries_map_dom(before, path@);
                }
                self.entries.push((path, value));
                proof {
                    assert(self.entries@.drop_last() =~= before);
                    assert forall|a: int, b: int| 0 <= a < b < self.entries@.len() implies (#[trigger] self.entries@[a]).0@ != (#[trigger] self.entries@[b]).0@ by {
                        if b == before.len() {
                            assert(self.entries@[a] == before[a]);
                        } else {
                            assert(self.entries@[a] == before[a]);
                            assert(self.entries@[b] == before[b]);
                        }
                    }
                }
            },
        }
    }

    /// The number of paths with a value.
    pub fn len(&self) -> (n: usize)
        requires
            self.wf(),
        ensures
            n == self.spec_map().dom().len(),
    {
        proof {
            lemma_entries_map_card(self.entries@);
        }
        self.entries.len()
    }
}

} // verus!
