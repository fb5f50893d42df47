//! The set of loaded sources, and the only issuer of source ids.

use vstd::prelude::*;
use crate::failures::{Failures, collect_in_input_order, errs, lemma_no_errs_all_oks, oks};
use crate::project::config::{select, texts};
use crate::project::path::ProjectPath;
use crate::project::source::{ProjectSource, SourceReadError};
use crate::strs::to_owned_string;

verus! {

/// The id of a loaded source: its position in the set, in registration order.
#[derive(Debug, Clone, Copy, PartialEq, Eq, PartialOrd, Ord, Hash, Structural)]
pub struct SourceId {
    index: usize,
}

impl SourceId {
    /// The position of the source.
    pub closed spec fn spec_index(self) -> nat {
        self.index as nat
    }

    /// The id of the source at position `index`.
    pub fn new(index: usize) -> (id: SourceId)
        ensures
            id.spec_index() == index,
    {
        SourceId { index }
    }

    /// The position of the source.
    pub fn index(self) -> (i: usize)
        ensures
            i == self.spec_index(),
    {
        self.index
    }
}

/// One loaded source: its display name and its text.
#[derive(Debug)]
pub struct SourceEntry {
    /// The path as written in the configuration.
    pub name: String,
    /// The text of the source.
    pub content: String,
}

/// A source that could not be read, with the path it was read from.
#[derive(Debug)]
pub struct SourceSetReadError {
    /// The path as written in the configuration.
    pub path: String,
    /// Why it could not be read.
    pub source: SourceReadError,
}

/// The loaded sources, in registration order.
#[derive(Debug)]
pub struct SourceSet {
    entries: Vec<SourceEntry>,
}

impl SourceSet {
    /// The names and texts of the sources, in registration order.
    pub closed spec fn spec_entries(&self) -> Seq<(Seq<char>, Seq<char>)> {
        self.entries@.map_values(|e: SourceEntry| (e.name@, e.content@))
    }

    /// The empty set.
    pub fn new() -> (s: SourceSet)
        ensures
            s.spec_entries() == Seq::<(Seq<char>, Seq<char>)>::empty(),
    {
        let s = SourceSet { entries: Vec::new() };
        assert(s.spec_entries() =~= Seq::<(Seq<char>, Seq<char>)>::empty());
        s
    }

    /// Adds a source and returns its id, the next position in order.
    pub fn register(&mut self, name: String, content: String) -> (id: SourceId)
        ensures
            id.spec_index() == old(self).spec_entries().len(),
            final(self).spec_entries() == old(self).spec_entries().push((name@, content@)),
    {
        let ghost before = self.spec_entries();
        let id = SourceId::new(self.entries.len());
        self.entries.push(SourceEntry { name, content });
        assert(self.spec_entries() =~= before.push((name@, content@)));
        id
    }

    /// The number of sources.
    pub fn len(&self) -> (n: usize)
        ensures
            n == self.spec_entries().len(),
    {
        self.entries.len()
    }

    /// The source with id `id`, which this set issued.
    pub fn get(&self, id: SourceId) -> (e: &SourceEntry)
        requires
            id.spec_index() < self.spec_entries().len(),
        ensures
            (e.name@, e.content@) == self.spec_entries()[id.spec_index() as int],
    {
        &self.entries[id.index()]
    }

    /// The ids and sources, in registration order.
    pub fn iter(&self) -> (v: Vec<(SourceId, &SourceEntry)>)
        ensures
            v@.len() == self.spec_entries().len(),
            forall|i: int|
                0 <= i < v@.len() ==> (#[trigger] v@[i]).0.spec_index() == i && (v@[i].1.name@, v@[i].1.content@)
                    == self.spec_entries()[i],
    {
        let mut v: Vec<(SourceId, &SourceEntry)> = Vec::new();
        let mut i: usize = 0;
        while i < self.entries.len()
            invariant
                0 <= i <= self.entries@.len(),
                v@.len() == i,
                forall|j: int|
                    0 <= j < i ==> (#[trigger] v@[j]).0.spec_index() == j && (v@[j].1.name@, v@[j].1.content@)
                        == self.spec_entries()[j],
            decreases self.entries@.len() - i,
        {
            v.push((SourceId::new(i), &self.entries[i]));
            i = i + 1;
        }
        v
    }

    /// Reads every source through `source`, in order, and builds the set from what came back
    /// (see [`SourceSet::from_reads`]). What the source gives back is its own answer; whatever
    /// it is, the set holds what was read, and the failures are the reads that failed, each
    /// with its path and the error the source gave.
    pub fn read<S: ProjectSource>(source: &mut S, sources: &[String]) -> (r: Result<
        SourceSet,
        Failures<SourceSetReadError>,
    >)
        ensures
            exists|reads: Seq<Result<String, SourceReadError>>| #[trigger] read_outcome(sources@, reads, r),
    {
        let mut reads: Vec<Result<String, SourceReadError>> = Vec::new();
        let mut i: usize = 0;
        while i < sources.len()
            invariant
                0 <= i <= sources@.len(),
                reads@.len() == i,
            decreases sources@.len() - i,
        {
            let path = ProjectPath::new(sources[i].as_str());
            reads.push(source.read_text(&path));
            i = i + 1;
        }
        Self::from_reads(sources, reads)
    }

    /// The set of the sources `sources`, `reads[i]` being what reading `sources[i]` gave (see
    /// [`read_outcome`]): when every read succeeded, the texts in order, named by their paths;
    /// otherwise every failed read, in order, with its path.
    pub fn from_reads(sources: &[String], reads: Vec<Result<String, SourceReadError>>) -> (r: Result<
        SourceSet,
        Failures<SourceSetReadError>,
    >)
        requires
            reads@.len() == sources@.len(),
        ensures
            read_outcome(sources@, reads@, r),
    {
        let ghost rd = reads@;
        let ghost tg = tagged(sources@, rd);
        let mut rest = reads;
        let mut rev: Vec<Result<String, SourceReadError>> = Vec::new();
        while rest.len() > 0
            invariant
                rest@.len() + rev@.len() == rd.len(),
                rest@ == rd.take(rest@.len() as int),
                forall|k: int| 0 <= k < rev@.len() ==> #[trigger] rev@[k] == rd[rd.len() - 1 - k],
            decreases rest@.len(),
        {
            let x = rest.pop().unwrap();
            proof {
                assert(rest@ =~= rd.take(rest@.len() as int));
            }
            rev.push(x);
        }
        let mut results: Vec<Result<(String, String), SourceSetReadError>> = Vec::new();
        let mut i: usize = 0;
        while i < sources.len()
            invariant
                0 <= i <= sources@.len(),
                rd.len() == sources@.len(),
                tg == tagged(sources@, rd),
                rev@.len() + i == rd.len(),
                forall|k: int| 0 <= k < rev@.len() ==> #[trigger] rev@[k] == rd[rd.len() - 1 - k],
                results@.len() == i,
                forall|j: int| 0 <= j < i ==> entry_read(sources@[j], rd[j], #[trigger] results@[j]),
                errs(results@).map_values(|e: SourceSetReadError| (e.path@, e.source)) == errs(tg.take(i as int)),
            decreases sources@.len() - i,
        {
            proof {
                assert(rev@[rev@.len() - 1] == rd[i as int]);
            }
            let read = rev.pop().unwrap();
            let name = to_owned_string(sources[i].as_str());
            let r = match read {
                Ok(content) => Ok((name, content)),
                Err(error) => Err(SourceSetReadError { path: name, source: error }),
            };
            let ghost before = results@;
            results.push(r);
            proof {
                assert(results@.drop_last() =~= before);
                assert(tg.take(i + 1).drop_last() =~= tg.take(i as int));
                assert(tg.take(i + 1).last() == tg[i as int]);
                if rd[i as int] is Ok {
                    assert(errs(results@) == errs(before));
                } else {
                    assert(errs(results@) == errs(before).push(results@.last()->Err_0));
                    assert(errs(results@).map_values(|e: SourceSetReadError| (e.path@, e.source)) =~= errs(before).map_values(
                        |e: SourceSetReadError| (e.path@, e.source)).push((sources@[i as int]@, rd[i as int]->Err_0)));
                }
            }
            i = i + 1;
        }
        proof {
            assert(tg.take(i as int) =~= tg);
        }
        let ghost rs = results@;
        match collect_in_input_order(results) {
            Ok(loaded) => {
                proof {
                    lemma_no_errs_all_oks(rs);
                    lemma_no_tagged_errs(sources@, rd);
                }
                let mut set = SourceSet::new();
                let mut rest = loaded;
                let mut reversed: Vec<(String, String)> = Vec::new();
                proof {
                    assert forall|j: int| 0 <= j < rest@.len() implies entry_pair(sources@[j], rd[j], #[trigger] rest@[j]) by {
                        assert(rs[j] == Ok::<(String, String), SourceSetReadError>(oks(rs)[j]));
                        assert(entry_read(sources@[j], rd[j], rs[j]));
                    }
                }
                while rest.len() > 0
                    invariant
                        rest@.len() + reversed@.len() == rs.len(),
                        forall|j: int| 0 <= j < rest@.len() ==> entry_pair(sources@[j], rd[j], #[trigger] rest@[j]),
                        forall|j: int| 0 <= j < reversed@.len() ==> entry_pair(sources@[rs.len() - 1 - j], rd[rs.len() - 1 - j], #[trigger] reversed@[j]),
                        rs.len() == sources@.len(),
                        rd.len() == sources@.len(),
                    decreases rest@.len(),
                {
                    let x = rest.pop().unwrap();
                    reversed.push(x);
                }
                while reversed.len() > 0
                    invariant
                        set.spec_entries().len() + reversed@.len() == rs.len(),
                        forall|j: int| 0 <= j < reversed@.len() ==> entry_pair(sources@[rs.len() - 1 - j], rd[rs.len() - 1 - j], #[trigger] reversed@[j]),
                        forall|j: int| 0 <= j < set.spec_entries().len() ==> entry_from(#[trigger] set.spec_entries()[j], sources@[j], rd[j]),
                        rs.len() == sources@.len(),
                        rd.len() == sources@.len(),
                    decreases reversed@.len(),
                {
                    proof {
                        let k = reversed@.len() - 1;
                        assert(entry_pair(sources@[rs.len() - 1 - k], rd[rs.len() - 1 - k], reversed@[k]));
                    }
                    let ghost k = reversed@.len() - 1;
                    let ghost last = reversed@[k];
                    let ghost before = set.spec_entries();
                    let (name, content) = reversed.pop().unwrap();
                    proof {
                        assert(name == last.0 && content == last.1);
                    }
                    set.register(name, content);
                    proof {
                        assert(set.spec_entries() == before.push((name@, content@)));
                        assert(before.len() == rs.len() - 1 - k);
                        assert(entry_pair(sources@[rs.len() - 1 - k], rd[rs.len() - 1 - k], last));
                        assert forall|j: int| 0 <= j < set.spec_entries().len() implies entry_from(#[trigger] set.spec_entries()[j], sources@[j], rd[j]) by {
                            if j < before.len() {
                                assert(set.spec_entries()[j] == before[j]);
                            }
                        }
                    }
                }
                let r = Ok(set);
                proof {
                    assert forall|j: int| 0 <= j < rd.len() implies #[trigger] rd[j] is Ok by {
                        assert(set.spec_entries()[j] == set.spec_entries()[j]);
                    }
                }
                r
            },
            Err(f) => {
                let r = Err(f);
                proof {
                    if forall|j: int| 0 <= j < rd.len() ==> #[trigger] rd[j] is Ok {
                        lemma_no_tagged_errs(sources@, rd);
                        assert(errs(rs).len() == 0);
                    }
                }
                r
            },
        }
    }
}

/// The entry `e` made from the source `path` is what the read `r` gave.
pub open spec fn entry_read(path: String, r: Result<String, SourceReadError>, e: Result<(String, String), SourceSetReadError>) -> bool {
    match r {
        Ok(c) => e matches Ok(p) && p.0@ == path@ && p.1@ == c@,
        Err(x) => e matches Err(f) && f.path@ == path@ && f.source == x,
    }
}

/// The named text `p` of the source `path` is what the successful read `r` gave.
pub open spec fn entry_pair(path: String, r: Result<String, SourceReadError>, p: (String, String)) -> bool {
    r is Ok && p.0@ == path@ && p.1@ == r->Ok_0@
}

/// The entry `e` holds the path `path` and the text the successful read `r` gave.
pub open spec fn entry_from(e: (Seq<char>, Seq<char>), path: String, r: Result<String, SourceReadError>) -> bool {
    r is Ok && e == (path@, r->Ok_0@)
}

/// The reads, each failure labelled with the path of its source.
pub open spec fn tagged(srcs: Seq<String>, reads: Seq<Result<String, SourceReadError>>) -> Seq<Result<Seq<char>, (Seq<char>, SourceReadError)>> {
    Seq::new(reads.len(), |i: int| match reads[i] {
        Ok(c) => Ok(c@),
        Err(e) => Err((srcs[i]@, e)),
    })
}

/// When every read succeeded, no labelled failure remains.
proof fn lemma_no_tagged_errs(srcs: Seq<String>, reads: Seq<Result<String, SourceReadError>>)
    ensures
        (forall|i: int| 0 <= i < reads.len() ==> #[trigger] reads[i] is Ok) <==> errs(tagged(srcs, reads)).len() == 0,
    decreases reads.len(),
{
    let t = tagged(srcs, reads);
    if reads.len() > 0 {
        let r2 = reads.drop_last();
        lemma_no_tagged_errs(srcs, r2);
        assert(t.drop_last() =~= tagged(srcs, r2));
        if !(reads.last() is Ok) {
            assert(errs(t).len() > 0);
        }
        if errs(t).len() == 0 {
            assert(errs(t.drop_last()).len() == 0);
            assert forall|i: int| 0 <= i < reads.len() implies #[trigger] reads[i] is Ok by {
                if i < reads.len() - 1 {
                    assert(r2[i] == reads[i]);
                }
            }
        }
        if forall|i: int| 0 <= i < reads.len() ==> #[trigger] reads[i] is Ok {
            assert forall|i: int| 0 <= i < r2.len() implies #[trigger] r2[i] is Ok by {
                assert(r2[i] == reads[i]);
            }
            assert(reads[reads.len() - 1] is Ok);
        }
    } else {
        assert(t =~= Seq::<Result<Seq<char>, (Seq<char>, SourceReadError)>>::empty());
    }
}

/// The paths of read failures, in order.
pub open spec fn error_paths(es: Seq<SourceSetReadError>) -> Seq<Seq<char>> {
    es.map_values(|e: SourceSetReadError| e.path@)
}

/// The outcome of reading the sources `srcs`, `reads[i]` being what reading `srcs[i]` gave:
/// when every read succeeded, the set holds the texts read, in order, named by their paths;
/// otherwise the failures are the reads that failed, in order, each with its path and error.
pub open spec fn read_outcome(
    srcs: Seq<String>,
    reads: Seq<Result<String, SourceReadError>>,
    r: Result<SourceSet, Failures<SourceSetReadError>>,
) -> bool {
    &&& reads.len() == srcs.len()
    &&& match r {
        Ok(set) => {
            &&& forall|i: int| 0 <= i < reads.len() ==> #[trigger] reads[i] is Ok
            &&& set.spec_entries().len() == srcs.len()
            &&& forall|i: int| 0 <= i < srcs.len() ==> #[trigger] set.spec_entries()[i] == (srcs[i]@, reads[i]->Ok_0@)
        },
        Err(f) => {
            &&& f.wf()
            &&& exists|i: int| 0 <= i < reads.len() && #[trigger] reads[i] is Err
            &&& f.spec_items().map_values(|e: SourceSetReadError| (e.path@, e.source)) == errs(tagged(srcs, reads))
        },
    }
}

} // verus!
