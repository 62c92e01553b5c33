//! The multi-version store: a versioned mapping from key to write
//! records, keyed additionally by transaction index.
//!
//! Speculative reads scan for the record with the greatest index strictly
//! below the reader, folding delta records on the way down; an estimate
//! placeholder turns the read into a dependency on the index that
//! installed it. Nothing published at or above the reader's own index is
//! ever visible to it.

use vstd::prelude::*;
use crate::transaction::WriteOp;
use crate::transaction::wrap_add_spec;
use crate::transaction::wrap_add;

verus! {

/// One versioned record for a key at a transaction index.
#[derive(Clone, Copy, PartialEq, Eq, Structural, Debug)]
pub enum VersionEntry {
    /// A write is coming from this index but is not yet known; readers
    /// above must treat it as a dependency.
    Estimate,
    /// A published write: a concrete value or a deletion marker.
    Concrete(WriteOp),
    /// A published commutative addition against an aggregate key.
    DeltaAdd(u64),
}

/// A record together with the incarnation that produced it.
#[derive(Clone, Copy, PartialEq, Eq, Structural, Debug)]
pub struct StoreRecord {
    /// The incarnation of the writer that produced this record.
    pub incarnation: u64,
    /// The record itself.
    pub entry: VersionEntry,
}

/// One cell of the store's log: a binding, or a tombstone when `rec` is
/// `None`.
#[derive(Clone, Copy, PartialEq, Eq, Structural, Debug)]
pub struct StoreCell {
    /// The key written.
    pub key: u64,
    /// The index of the writing transaction.
    pub idx: usize,
    /// The record, or `None` to erase an earlier one.
    pub rec: Option<StoreRecord>,
}

/// The versioned map a store log denotes: later entries win, a tombstone
/// removes the record at its (key, index) slot.
pub open spec fn mv_view(s: Seq<StoreCell>) -> Map<(u64, int), StoreRecord>
    decreases s.len(),
{
    if s.len() == 0 {
        Map::empty()
    } else {
        let m = mv_view(s.drop_last());
        match s.last().rec {
            Some(r) => m.insert((s.last().key, s.last().idx as int), r),
            None => m.remove((s.last().key, s.last().idx as int)),
        }
    }
}

/// What a speculative read observes.
#[derive(Clone, Copy, PartialEq, Eq, Structural, Debug)]
pub enum MvReadResult {
    /// No record below the reader: fall back to the base state.
    FromBase,
    /// A concrete outcome: the value (with any deltas above it folded
    /// in), or `None` for a plain deletion.
    Resolved(Option<u64>),
    /// Only delta records lie below the reader: add this folded sum to
    /// the base value of the key (an absent key counts as 0).
    BaseDeltas(u64),
    /// The scan hit an estimate installed by this index: the caller must
    /// stall or abort rather than read stale data.
    Dependency(usize),
}

/// The downward scan: the result of reading `k` starting just below `j`,
/// with `acc` holding the deltas already folded (`has_acc` says whether
/// any were).
pub open spec fn mv_read_from(
    m: Map<(u64, int), StoreRecord>,
    k: u64,
    j: int,
    acc: u64,
    has_acc: bool,
) -> MvReadResult
    decreases j,
{
    if j <= 0 {
        if has_acc {
            MvReadResult::BaseDeltas(acc)
        } else {
            MvReadResult::FromBase
        }
    } else {
        let jj = j - 1;
        if m.dom().contains((k, jj)) {
            match m[(k, jj)].entry {
                VersionEntry::Estimate => MvReadResult::Dependency(jj as usize),
                VersionEntry::Concrete(WriteOp::Put(v)) => MvReadResult::Resolved(
                    Some(
                        if has_acc {
                            wrap_add_spec(v, acc)
                        } else {
                            v
                        },
                    ),
                ),
                VersionEntry::Concrete(WriteOp::Delete) => if has_acc {
                    MvReadResult::Resolved(Some(acc))
                } else {
                    MvReadResult::Resolved(None)
                },
                VersionEntry::DeltaAdd(d) => mv_read_from(
                    m,
                    k,
                    jj,
                    if has_acc {
                        wrap_add_spec(d, acc)
                    } else {
                        d
                    },
                    true,
                ),
            }
        } else {
            mv_read_from(m, k, jj, acc, has_acc)
        }
    }
}

/// What a read of `k` by the transaction at index `reader` observes.
pub open spec fn mv_read_spec(m: Map<(u64, int), StoreRecord>, k: u64, reader: int) -> MvReadResult {
    mv_read_from(m, k, reader, 0, false)
}

/// The downward scan consults records strictly below the reader only.
proof fn lemma_mv_read_from_below(
    m1: Map<(u64, int), StoreRecord>,
    m2: Map<(u64, int), StoreRecord>,
    k: u64,
    j: int,
    acc: u64,
    has_acc: bool,
)
    requires
        forall|q: int|
            0 <= q < j ==> (#[trigger] m1.dom().contains((k, q))) == m2.dom().contains((k, q)),
        forall|q: int|
            0 <= q < j && m1.dom().contains((k, q)) ==> #[trigger] m1[(k, q)] == m2[(k, q)],
    ensures
        mv_read_from(m1, k, j, acc, has_acc) == mv_read_from(m2, k, j, acc, has_acc),
    decreases j,
{
    if j > 0 {
        let jj = j - 1;
        assert(m1.dom().contains((k, jj)) == m2.dom().contains((k, jj)));
        if m1.dom().contains((k, jj)) {
            assert(m1[(k, jj)] == m2[(k, jj)]);
            match m1[(k, jj)].entry {
                VersionEntry::DeltaAdd(d) => {
                    lemma_mv_read_from_below(
                        m1,
                        m2,
                        k,
                        jj,
                        if has_acc {
                            wrap_add_spec(d, acc)
                        } else {
                            d
                        },
                        true,
                    );
                },
                _ => {},
            }
        } else {
            lemma_mv_read_from_below(m1, m2, k, jj, acc, has_acc);
        }
    }
}

/// Law: no stale visibility. What a reader at index `i` observes is a
/// function of the records strictly below `i` alone: a write published at
/// index `i` or above, whatever it is, cannot change the outcome of the
/// read.
pub proof fn lemma_no_stale_visibility(
    m1: Map<(u64, int), StoreRecord>,
    m2: Map<(u64, int), StoreRecord>,
    k: u64,
    i: int,
)
    requires
        forall|q: int|
            0 <= q < i ==> (#[trigger] m1.dom().contains((k, q))) == m2.dom().contains((k, q)),
        forall|q: int|
            0 <= q < i && m1.dom().contains((k, q)) ==> #[trigger] m1[(k, q)] == m2[(k, q)],
    ensures
        mv_read_spec(m1, k, i) == mv_read_spec(m2, k, i),
{
    lemma_mv_read_from_below(m1, m2, k, i, 0, false);
}

/// The multi-version store.
pub struct MvStore {
    log: Vec<StoreCell>,
}

impl MvStore {
    /// The versioned map this store denotes.
    pub closed spec fn view(&self) -> Map<(u64, int), StoreRecord> {
        mv_view(self.log@)
    }

    /// An empty store.
    pub fn new() -> (r: Self)
        ensures
            r@ == Map::<(u64, int), StoreRecord>::empty(),
    {
        MvStore { log: Vec::new() }
    }

    /// Publishes a record for `k` at `idx`, replacing any record the same
    /// index held for the key.
    pub fn publish(&mut self, k: u64, idx: usize, incarnation: u64, entry: VersionEntry)
        ensures
            final(self)@ == old(self)@.insert((k, idx as int), StoreRecord { incarnation, entry }),
    {
        self.log.push(StoreCell { key: k, idx, rec: Some(StoreRecord { incarnation, entry }) });
        proof {
            assert(self.log@.drop_last() =~= old(self).log@);
        }
    }

    /// Installs an estimate placeholder for `k` at `idx`, so that readers
    /// above observe a dependency instead of a stale value.
    pub fn mark_estimate(&mut self, k: u64, idx: usize, incarnation: u64)
        ensures
            final(self)@ == old(self)@.insert(
                (k, idx as int),
                StoreRecord { incarnation, entry: VersionEntry::Estimate },
            ),
    {
        self.publish(k, idx, incarnation, VersionEntry::Estimate);
    }

    /// Removes the record for `k` at `idx`: used when a re-execution's
    /// new write set no longer touches a key it previously wrote.
    pub fn remove_entry(&mut self, k: u64, idx: usize)
        ensures
            final(self)@ == old(self)@.remove((k, idx as int)),
    {
        self.log.push(StoreCell { key: k, idx, rec: None });
        proof {
            assert(self.log@.drop_last() =~= old(self).log@);
        }
    }

    /// The record for `k` at exactly `idx`, if any.
    pub fn get_record(&self, k: u64, idx: usize) -> (r: Option<StoreRecord>)
        ensures
            r == if self@.dom().contains((k, idx as int)) {
                Some(self@[(k, idx as int)])
            } else {
                None::<StoreRecord>
            },
    {
        let ghost full = self.log@;
        let mut i: usize = self.log.len();
        proof {
            assert(full.subrange(0, i as int) =~= full);
        }
        while i > 0
            invariant
                i <= self.log@.len(),
                self.log@ == full,
                mv_view(full).dom().contains((k, idx as int)) == mv_view(
                    full.subrange(0, i as int),
                ).dom().contains((k, idx as int)),
                mv_view(full).dom().contains((k, idx as int)) ==> mv_view(full)[(k, idx as int)]
                    == mv_view(full.subrange(0, i as int))[(k, idx as int)],
            decreases i,
        {
            let ghost pre = full.subrange(0, i as int);
            proof {
                assert(pre.drop_last() =~= full.subrange(0, i as int - 1));
                assert(pre.last() == full[i as int - 1]);
            }
            let cell = self.log[i - 1];
            if cell.key == k && cell.idx == idx {
                return cell.rec;
            }
            i = i - 1;
        }
        proof {
            assert(full.subrange(0, 0) =~= Seq::<StoreCell>::empty());
        }
        None
    }

    /// Scans the records for `k` strictly below `reader` from the top:
    /// returns the outcome named by the greatest such index, with any
    /// delta records on the way folded in, or the dependency installed by
    /// an estimate, or the instruction to fall back to the base state.
    pub fn read(&self, k: u64, reader: usize) -> (r: MvReadResult)
        ensures
            r == mv_read_spec(self@, k, reader as int),
    {
        let mut j: usize = reader;
        let mut acc: u64 = 0;
        let mut has_acc: bool = false;
        while j > 0
            invariant
                mv_read_from(self@, k, reader as int, 0, false) == mv_read_from(
                    self@,
                    k,
                    j as int,
                    acc,
                    has_acc,
                ),
            decreases j,
        {
            let jj = j - 1;
            match self.get_record(k, jj) {
                Some(r) => {
                    match r.entry {
                        VersionEntry::Estimate => {
                            return MvReadResult::Dependency(jj);
                        },
                        VersionEntry::Concrete(WriteOp::Put(v)) => {
                            return MvReadResult::Resolved(
                                Some(
                                    if has_acc {
                                        wrap_add(v, acc)
                                    } else {
                                        v
                                    },
                                ),
                            );
                        },
                        VersionEntry::Concrete(WriteOp::Delete) => {
                            if has_acc {
                                return MvReadResult::Resolved(Some(acc));
                            } else {
                                return MvReadResult::Resolved(None);
                            }
                        },
                        VersionEntry::DeltaAdd(d) => {
                            acc = if has_acc {
                                wrap_add(d, acc)
                            } else {
                                d
                            };
                            has_acc = true;
                        },
                    }
                },
                None => {},
            }
            j = jj;
        }
        if has_acc {
            MvReadResult::BaseDeltas(acc)
        } else {
            MvReadResult::FromBase
        }
    }
}

} // verus!
