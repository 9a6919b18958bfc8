//! The location index: at most one retained diagnostic per physical source
//! line, across one whole checker invocation.
//!
//! Diagnostics are addressed by their file name and 1-based start line, and
//! the first diagnostic seen for a line wins: later diagnostics on an
//! already-seen line are dropped for the pass. The index lives for one pass
//! only and is rebuilt from scratch for the next.

use vstd::prelude::*;

verus! {

use crate::diag::DiagnosticRecord;

/// One retained diagnostic, addressed by file and line.
struct IndexEntry {
    file: String,
    line: usize,
    record: DiagnosticRecord,
}

/// The diagnostics retained in one pass, at most one per file and line.
pub struct PerFileIndex {
    entries: Vec<IndexEntry>,
}

impl PerFileIndex {
    /// No two retained diagnostics share a file and line.
    #[verifier::type_invariant]
    spec fn wf(self) -> bool {
        forall|k1: int, k2: int|
            0 <= k1 < k2 < self.entries@.len() ==> !(self.entries@[k1].file@
                == self.entries@[k2].file@ && self.entries@[k1].line == self.entries@[k2].line)
    }

    /// A diagnostic is retained for this file and line.
    pub closed spec fn contains(self, f: Seq<char>, l: int) -> bool {
        exists|k: int|
            0 <= k < self.entries@.len() && self.entries@[k].file@ == f && self.entries@[k].line
                == l
    }

    spec fn idx_of(self, f: Seq<char>, l: int) -> int {
        choose|k: int|
            0 <= k < self.entries@.len() && self.entries@[k].file@ == f && self.entries@[k].line
                == l
    }

    /// Some diagnostic is retained for a line of this file.
    pub closed spec fn has_file(self, f: Seq<char>) -> bool {
        exists|k: int| 0 <= k < self.entries@.len() && self.entries@[k].file@ == f
    }

    /// A file has a retained diagnostic exactly when one of its lines does.
    pub proof fn lemma_has_file(self, f: Seq<char>)
        ensures
            self.has_file(f) == (exists|l: int| self.contains(f, l)),
    {
        if self.has_file(f) {
            let k = choose|k: int| 0 <= k < self.entries@.len() && self.entries@[k].file@ == f;
            assert(self.contains(f, self.entries@[k].line as int));
        }
        if exists|l: int| self.contains(f, l) {
            let l = choose|l: int| self.contains(f, l);
            let k = self.idx_of(f, l);
            assert(0 <= k < self.entries@.len() && self.entries@[k].file@ == f);
        }
    }

    /// The one diagnostic retained for this file and line.
    pub closed spec fn record_at(self, f: Seq<char>, l: int) -> DiagnosticRecord
        recommends
            self.contains(f, l),
    {
        self.entries@[self.idx_of(f, l)].record
    }

    /// The entry at `k` is what `record_at` yields for its file and line.
    proof fn lemma_record_at_idx(self, k: int)
        requires
            self.wf(),
            0 <= k < self.entries@.len(),
        ensures
            self.contains(self.entries@[k].file@, self.entries@[k].line as int),
            self.record_at(self.entries@[k].file@, self.entries@[k].line as int)
                == self.entries@[k].record,
    {
        let f = self.entries@[k].file@;
        let l = self.entries@[k].line as int;
        assert(self.contains(f, l));
        let k2 = self.idx_of(f, l);
        assert(0 <= k2 < self.entries@.len() && self.entries@[k2].file@ == f
            && self.entries@[k2].line == l);
        if k2 < k {
            assert(false);
        } else if k < k2 {
            assert(false);
        }
    }

    /// An index with nothing retained.
    pub fn new() -> (r: PerFileIndex)
        ensures
            forall|f: Seq<char>, l: int| !r.contains(f, l),
    {
        PerFileIndex { entries: Vec::new() }
    }

    /// Whether nothing is retained.
    pub fn is_empty(&self) -> (r: bool)
        ensures
            r == !(exists|f: Seq<char>, l: int| self.contains(f, l)),
    {
        let r = self.entries.len() == 0;
        proof {
            if !r {
                let e0 = self.entries@[0];
                assert(self.contains(e0.file@, e0.line as int));
            }
        }
        r
    }

    /// Retain a diagnostic for a file and line, unless one is already
    /// retained there: the first diagnostic seen for a line wins, and a
    /// later one changes nothing.
    pub fn insert(&mut self, file: String, line: usize, record: DiagnosticRecord)
        ensures
            final(self).contains(file@, line as int),
            old(self).contains(file@, line as int) ==> *final(self) == *old(self),
            !old(self).contains(file@, line as int) ==> {
                &&& final(self).record_at(file@, line as int) == record
                &&& forall|f: Seq<char>, l: int|
                    #![auto]
                    final(self).contains(f, l) <==> (old(self).contains(f, l) || (f == file@ && l
                        == line as int))
                &&& forall|f: Seq<char>, l: int|
                    #![auto]
                    old(self).contains(f, l) ==> final(self).record_at(f, l) == old(self).record_at(
                        f,
                        l,
                    )
            },
    {
        proof {
            use_type_invariant(&*self);
        }
        let n = self.entries.len();
        let mut k: usize = 0;
        while k < n
            invariant
                0 <= k <= n,
                n == self.entries@.len(),
                forall|j: int|
                    0 <= j < k ==> !(self.entries@[j].file@ == file@ && self.entries@[j].line
                        == line),
            decreases n - k,
        {
            let e = &self.entries[k];
            if e.line == line && e.file == file {
                proof {
                    assert(self.contains(file@, line as int));
                }
                return ;
            }
            k += 1;
        }
        assert(!self.contains(file@, line as int));
        let mut entries: Vec<IndexEntry> = Vec::new();
        core::mem::swap(&mut entries, &mut self.entries);
        entries.push(IndexEntry { file, line, record });
        proof {
            assert forall|k1: int, k2: int| 0 <= k1 < k2 < entries@.len() implies !(entries@[k1].file@
                == entries@[k2].file@ && entries@[k1].line == entries@[k2].line) by {
                if k2 < entries@.len() - 1 {
                    assert(entries@[k1] == old(self).entries@[k1]);
                    assert(entries@[k2] == old(self).entries@[k2]);
                } else {
                    assert(entries@[k1] == old(self).entries@[k1]);
                }
            }
        }
        self.entries = entries;
        proof {
            use_type_invariant(&*self);
            let news = *self;
            let olds = *old(self);
            assert(news.entries@.len() == n + 1);
            assert(forall|j: int| 0 <= j < n ==> news.entries@[j] == olds.entries@[j]);
            news.lemma_record_at_idx(n as int);
            assert(news.contains(file@, line as int));
            assert(news.record_at(file@, line as int) == record);
            assert forall|f: Seq<char>, l: int| #![auto] news.contains(f, l) implies (olds.contains(
                f,
                l,
            ) || (f == file@ && l == line as int)) by {
                let k3 = news.idx_of(f, l);
                assert(0 <= k3 < news.entries@.len() && news.entries@[k3].file@ == f
                    && news.entries@[k3].line == l);
                if k3 < n {
                    assert(olds.contains(f, l));
                }
            }
            assert forall|f: Seq<char>, l: int| #![auto] olds.contains(f, l) implies (news.contains(
                f,
                l,
            ) && news.record_at(f, l) == olds.record_at(f, l)) by {
                let k3 = olds.idx_of(f, l);
                assert(0 <= k3 < n && olds.entries@[k3].file@ == f && olds.entries@[k3].line == l);
                olds.lemma_record_at_idx(k3);
                news.lemma_record_at_idx(k3);
            }
        }
    }

    /// The diagnostic retained for a file and line, if any.
    pub fn get_record(&self, file: &String, line: usize) -> (r: Option<&DiagnosticRecord>)
        ensures
            match r {
                Some(rec) => self.contains(file@, line as int) && *rec == self.record_at(
                    file@,
                    line as int,
                ),
                None => !self.contains(file@, line as int),
            },
    {
        proof {
            use_type_invariant(self);
        }
        let n = self.entries.len();
        let mut k: usize = 0;
        while k < n
            invariant
                0 <= k <= n,
                n == self.entries@.len(),
                forall|j: int|
                    0 <= j < k ==> !(self.entries@[j].file@ == file@ && self.entries@[j].line
                        == line),
            decreases n - k,
        {
            let e = &self.entries[k];
            if e.line == line && e.file == *file {
                proof {
                    use_type_invariant(self);
                    self.lemma_record_at_idx(k as int);
                }
                return Some(&self.entries[k].record);
            }
            k += 1;
        }
        None
    }

    /// The names of the files with at least one retained diagnostic, each
    /// once, in the order first seen.
    pub fn file_names(&self) -> (r: Vec<String>)
        ensures
            forall|k1: int, k2: int| 0 <= k1 < k2 < r@.len() ==> r@[k1]@ != r@[k2]@,
            forall|k: int| #![trigger r@[k]] 0 <= k < r@.len() ==> self.has_file(r@[k]@),
            forall|f: Seq<char>, l: int| self.contains(f, l) ==> exists|k: int|
                #![auto]
                0 <= k < r@.len() && r@[k]@ == f,
    {
        proof {
            use_type_invariant(self);
        }
        let n = self.entries.len();
        let mut r: Vec<String> = Vec::new();
        let mut k: usize = 0;
        while k < n
            invariant
                0 <= k <= n,
                n == self.entries@.len(),
                forall|k1: int, k2: int| 0 <= k1 < k2 < r@.len() ==> r@[k1]@ != r@[k2]@,
                forall|m: int| #![trigger r@[m]] 0 <= m < r@.len() ==> self.has_file(r@[m]@),
                forall|j: int|
                    #![trigger self.entries@[j]]
                    0 <= j < k ==> exists|m: int|
                        #![trigger r@[m]]
                        0 <= m < r@.len() && r@[m]@ == self.entries@[j].file@,
            decreases n - k,
        {
            let name = &self.entries[k].file;
            let mut seen: bool = false;
            let rn = r.len();
            let mut m: usize = 0;
            while m < rn
                invariant
                    0 <= m <= rn,
                    rn == r@.len(),
                    name@ == self.entries@[k as int].file@,
                    k < n == self.entries@.len(),
                    seen ==> exists|m2: int| 0 <= m2 < rn && r@[m2]@ == name@,
                    !seen ==> forall|m2: int| 0 <= m2 < m ==> r@[m2]@ != name@,
                decreases rn - m,
            {
                if r[m] == *name {
                    seen = true;
                    proof {
                        assert(r@[m as int]@ == name@);
                    }
                }
                m += 1;
            }
            if !seen {
                let ghost rold = r@;
                proof {
                    assert(self.has_file(name@));
                }
                r.push(name.clone());
                proof {
                    assert(r@.len() == rold.len() + 1);
                    assert(r@[rold.len() as int]@ == name@);
                    assert(forall|m2: int| 0 <= m2 < rold.len() ==> r@[m2] == rold[m2]);
                    assert forall|m2: int| #![trigger r@[m2]] 0 <= m2 < r@.len() implies self.has_file(
                        r@[m2]@,
                    ) by {
                        if m2 < rold.len() {
                            assert(rold[m2] == r@[m2]);
                        } else {
                            assert(r@[m2]@ == name@);
                        }
                    }
                    assert forall|k1: int, k2: int| 0 <= k1 < k2 < r@.len() implies r@[k1]@
                        != r@[k2]@ by {
                        if k2 < rold.len() {
                            assert(rold[k1] == r@[k1] && rold[k2] == r@[k2]);
                        } else {
                            assert(rold[k1] == r@[k1]);
                        }
                    }
                }
            }
            proof {
                assert forall|j: int| #![trigger self.entries@[j]] 0 <= j < k + 1 implies exists|
                    m2: int,
                |
                    #![trigger r@[m2]]
                    0 <= m2 < r@.len() && r@[m2]@ == self.entries@[j].file@ by {
                    if j == k {
                        if seen {
                            let m2 = choose|m2: int| 0 <= m2 < rn && r@[m2]@ == name@;
                            assert(0 <= m2 < r@.len() && r@[m2]@ == self.entries@[j].file@);
                        } else {
                            let m2 = r@.len() - 1;
                            assert(0 <= m2 < r@.len() && r@[m2]@ == self.entries@[j].file@);
                        }
                    }
                }
            }
            k += 1;
        }
        proof {
            assert forall|f: Seq<char>, l: int| self.contains(f, l) implies exists|m: int|
                #![auto]
                0 <= m < r@.len() && r@[m]@ == f by {
                let j = self.idx_of(f, l);
                assert(0 <= j < n && self.entries@[j].file@ == f);
                assert(0 <= j < k);
            }
        }
        r
    }
}

} // verus!
