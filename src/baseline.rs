//! Named baselines: benchmark records keyed by the canonical text of their ids.

use vstd::prelude::*;

use crate::output::{kept_for_baseline, CachegrindOutput};

verus! {

/// Model of a baseline: entries of id text and record, one per id, in order of insertion.
pub type BaselineView = Seq<(Seq<char>, CachegrindOutput)>;

/// Index of the entry for `id` in `b` at or after `j`, or -1.
pub open spec fn find_id(b: BaselineView, id: Seq<char>, j: int) -> int
    decreases b.len() - j,
{
    if j < 0 || j >= b.len() {
        -1
    } else if b[j].0 == id {
        j
    } else {
        find_id(b, id, j + 1)
    }
}

proof fn lemma_find_id(b: BaselineView, id: Seq<char>, j: int)
    requires
        0 <= j <= b.len(),
    ensures
        find_id(b, id, j) == -1 || (j <= find_id(b, id, j) < b.len() && b[find_id(b, id, j)].0
            == id),
        find_id(b, id, j) == -1 ==> forall|k: int| j <= k < b.len() ==> b[k].0 != id,
        find_id(b, id, j) >= 0 ==> forall|k: int| j <= k < find_id(b, id, j) ==> b[k].0 != id,
    decreases b.len() - j,
{
    if j < b.len() && b[j].0 != id {
        lemma_find_id(b, id, j + 1);
    }
}

/// The record stored for `id`, if any.
pub open spec fn baseline_get(b: BaselineView, id: Seq<char>) -> Option<CachegrindOutput> {
    let i = find_id(b, id, 0);
    if 0 <= i < b.len() {
        Some(b[i].1)
    } else {
        None
    }
}

/// `b` with the record of `id` set to `output`: in place where `id` has one, else at the end.
pub open spec fn baseline_insert(b: BaselineView, id: Seq<char>, output: CachegrindOutput) -> BaselineView {
    let i = find_id(b, id, 0);
    if 0 <= i < b.len() {
        b.update(i, (id, output))
    } else {
        b.push((id, output))
    }
}

pub open spec fn ids_unique(b: BaselineView) -> bool {
    forall|i: int, j: int| 0 <= i < j < b.len() ==> b[i].0 != b[j].0
}

/// Benchmark records keyed by id text.
///
/// The entries are a `Vec` with one entry per id (see [`BaselineStore::spec_entries`]) rather
/// than a `HashMap`: with `String` keys, vstd's map specifications let Verus prove nothing about
/// lookups or inserts. Callers that need key order sort when writing the baseline out.
#[derive(Debug, Clone)]
pub struct BaselineStore {
    entries: Vec<(String, CachegrindOutput)>,
}

impl BaselineStore {
    pub closed spec fn spec_entries(&self) -> BaselineView {
        Seq::new(self.entries@.len(), |i: int| (self.entries@[i].0@, self.entries@[i].1))
    }

    pub closed spec fn wf(&self) -> bool {
        ids_unique(self.spec_entries())
    }

    /// An empty baseline.
    pub fn new() -> (r: Self)
        ensures
            r.wf(),
            r.spec_entries() == Seq::<(Seq<char>, CachegrindOutput)>::empty(),
    {
        let r = BaselineStore { entries: Vec::new() };
        assert(r.spec_entries() =~= seq![]);
        r
    }

    /// Number of ids with a record.
    pub fn len(&self) -> (r: usize)
        ensures
            r == self.spec_entries().len(),
    {
        self.entries.len()
    }

    /// Id text and record of entry `i`.
    pub fn entry(&self, i: usize) -> (r: (&str, &CachegrindOutput))
        requires
            i < self.spec_entries().len(),
        ensures
            r.0@ == self.spec_entries()[i as int].0,
            *r.1 == self.spec_entries()[i as int].1,
    {
        (self.entries[i].0.as_str(), &self.entries[i].1)
    }

    /// The record stored for `id`.
    pub fn get(&self, id: &str) -> (r: Option<&CachegrindOutput>)
        ensures
            match baseline_get(self.spec_entries(), id@) {
                Some(o) => r is Some && *r->0 == o,
                None => r is None,
            },
    {
        let ghost b = self.spec_entries();
        let key = id.to_owned();
        let mut j: usize = 0;
        while j < self.entries.len()
            invariant
                j <= self.entries.len(),
                b == self.spec_entries(),
                key@ == id@,
                forall|k: int| 0 <= k < j ==> b[k].0 != id@,
            decreases self.entries.len() - j,
        {
            assert(b[j as int].0 == self.entries@[j as int].0@);
            if self.entries[j].0 == key {
                proof {
                    lemma_find_id(b, id@, 0);
                }
                return Some(&self.entries[j].1);
            }
            j = j + 1;
        }
        proof {
            lemma_find_id(b, id@, 0);
        }
        None
    }

    /// Sets the record of `id`, replacing an earlier one.
    pub fn insert(&mut self, id: String, output: CachegrindOutput)
        ensures
            old(self).wf() ==> final(self).wf(),
            final(self).spec_entries() == baseline_insert(old(self).spec_entries(), id@, output),
    {
        let ghost b = self.spec_entries();
        let ghost idv = id@;
        proof {
            lemma_find_id(b, idv, 0);
            if ids_unique(b) {
                lemma_insert_then_get(b, idv, output);
            }
        }
        let mut j: usize = 0;
        while j < self.entries.len()
            invariant
                j <= self.entries.len(),
                b == self.spec_entries(),
                b == old(self).spec_entries(),
                idv == id@,
                forall|k: int| 0 <= k < j ==> b[k].0 != idv,
            decreases self.entries.len() - j,
        {
            assert(b[j as int].0 == self.entries@[j as int].0@);
            if self.entries[j].0 == id {
                proof {
                    lemma_find_id(b, idv, 0);
                }
                assert(find_id(b, idv, 0) == j as int);
                self.entries.set(j, (id, output));
                assert(self.spec_entries() =~= b.update(j as int, (idv, output)));
                return;
            }
            j = j + 1;
        }
        proof {
            lemma_find_id(b, idv, 0);
        }
        self.entries.push((id, output));
        assert(self.spec_entries() =~= b.push((idv, output)));
    }

    /// Records a benchmark's stats as a named baseline keeps them (see
    /// [`CachegrindOutput::for_baseline`]).
    pub fn record(&mut self, id: String, output: &CachegrindOutput, breakdown: bool)
        ensures
            old(self).wf() ==> final(self).wf(),
            exists|kept: CachegrindOutput|
                kept_for_baseline(kept, *output, breakdown) && final(self).spec_entries()
                    == baseline_insert(old(self).spec_entries(), id@, kept),
    {
        let kept = output.for_baseline(breakdown);
        let ghost k = kept;
        self.insert(id, kept);
        assert(kept_for_baseline(k, *output, breakdown));
    }
}

/// After a record is set, reading it back gives that record.
pub proof fn lemma_insert_then_get(b: BaselineView, id: Seq<char>, output: CachegrindOutput)
    requires
        ids_unique(b),
    ensures
        baseline_get(baseline_insert(b, id, output), id) == Some(output),
        ids_unique(baseline_insert(b, id, output)),
{
    lemma_find_id(b, id, 0);
    let i = find_id(b, id, 0);
    let nb = baseline_insert(b, id, output);
    lemma_find_id(nb, id, 0);
    if 0 <= i < b.len() {
        assert(nb[i].0 == id);
        assert forall|k: int| 0 <= k < i implies nb[k].0 != id by {
            assert(nb[k] == b[k]);
        }
        assert(find_id(nb, id, 0) == i);
        assert forall|p: int, q: int| 0 <= p < q < nb.len() implies nb[p].0 != nb[q].0 by {
            if p != i && q != i {
                assert(nb[p] == b[p] && nb[q] == b[q]);
            } else if p == i {
                assert(nb[q] == b[q]);
            } else {
                assert(nb[p] == b[p]);
            }
        }
    } else {
        assert(nb[b.len() as int].0 == id);
        assert forall|k: int| 0 <= k < b.len() implies nb[k].0 != id by {
            assert(nb[k] == b[k]);
        }
        assert(find_id(nb, id, 0) == b.len());
        assert forall|p: int, q: int| 0 <= p < q < nb.len() implies nb[p].0 != nb[q].0 by {
            assert(nb[p] == b[p]);
            if q < b.len() {
                assert(nb[q] == b[q]);
            }
        }
    }
}

} // verus!
