//! The sequential semantics of a block.
//!
//! Everything the engine promises is stated against these definitions: the
//! state reached after a prefix of the block, the read values each
//! transaction observes there, and the committed output owed for each
//! index. A parallel run is correct exactly when its committed output
//! sequence equals this one.

use vstd::prelude::*;
use crate::transaction::Transaction;
use crate::transaction::TxnResult;
use crate::transaction::VmStatus;
use crate::transaction::WriteOp;
use crate::transaction::vm_writes_spec;
use crate::transaction::wrap_add_spec;

verus! {

/// One write applied to a state.
pub open spec fn apply_write(s: Map<u64, u64>, k: u64, op: WriteOp) -> Map<u64, u64> {
    match op {
        WriteOp::Put(v) => s.insert(k, v),
        WriteOp::Delete => s.remove(k),
    }
}

/// A write sequence applied in order.
pub open spec fn apply_writes(s: Map<u64, u64>, ws: Seq<(u64, WriteOp)>) -> Map<u64, u64>
    decreases ws.len(),
{
    if ws.len() == 0 {
        s
    } else {
        apply_writes(apply_write(s, ws[0].0, ws[0].1), ws.drop_first())
    }
}

/// One delta applied to a state: an absent key counts as 0, and the sum
/// wraps modulo 2^64.
pub open spec fn apply_delta(s: Map<u64, u64>, k: u64, d: u64) -> Map<u64, u64> {
    s.insert(
        k,
        wrap_add_spec(
            if s.dom().contains(k) {
                s[k]
            } else {
                0
            },
            d,
        ),
    )
}

/// A delta sequence applied in order.
pub open spec fn apply_deltas(s: Map<u64, u64>, ds: Seq<(u64, u64)>) -> Map<u64, u64>
    decreases ds.len(),
{
    if ds.len() == 0 {
        s
    } else {
        apply_deltas(apply_delta(s, ds[0].0, ds[0].1), ds.drop_first())
    }
}

/// Applying deltas never removes a key, and binds every delta key.
pub proof fn lemma_apply_deltas_dom(s: Map<u64, u64>, ds: Seq<(u64, u64)>)
    ensures
        forall|k: u64| s.dom().contains(k) ==> #[trigger] apply_deltas(s, ds).dom().contains(k),
        forall|i: int|
            0 <= i < ds.len() ==> apply_deltas(s, ds).dom().contains(#[trigger] ds[i].0),
    decreases ds.len(),
{
    if ds.len() > 0 {
        let s1 = apply_delta(s, ds[0].0, ds[0].1);
        lemma_apply_deltas_dom(s1, ds.drop_first());
        assert(apply_deltas(s, ds) == apply_deltas(s1, ds.drop_first()));
        assert forall|k: u64| s.dom().contains(k) implies #[trigger] apply_deltas(
            s,
            ds,
        ).dom().contains(k) by {
            assert(s1.dom().contains(k));
        }
        assert forall|i: int| 0 <= i < ds.len() implies apply_deltas(s, ds).dom().contains(
            #[trigger] ds[i].0,
        ) by {
            if i == 0 {
                assert(s1.dom().contains(ds[0].0));
            } else {
                assert(ds.drop_first()[i - 1] == ds[i]);
            }
        }
    }
}

/// The value of a key in a state, or `None` when it is absent.
pub open spec fn lookup(s: Map<u64, u64>, k: u64) -> Option<u64> {
    if s.dom().contains(k) {
        Some(s[k])
    } else {
        None
    }
}

/// The values a transaction's declared reads observe in a state, in the
/// order of its read list.
pub open spec fn read_vals_of(t: Transaction, s: Map<u64, u64>) -> Seq<Option<u64>> {
    Seq::new(t.reads@.len(), |i: int| lookup(s, t.reads@[i]))
}

/// Whether a status lets the transaction's writes and deltas take effect.
pub open spec fn takes_effect(st: VmStatus) -> bool {
    st == VmStatus::Success || st == VmStatus::Halt
}

/// The state after a transaction executes against `s`.
pub open spec fn txn_effect(t: Transaction, s: Map<u64, u64>) -> Map<u64, u64> {
    if takes_effect(t.status) {
        apply_deltas(apply_writes(s, vm_writes_spec(t, read_vals_of(t, s))), t.deltas@)
    } else {
        s
    }
}

/// The materialized delta writes of a transaction executed against `s`:
/// one concrete `Put` per delta, carrying the key's resolved value.
pub open spec fn delta_puts(t: Transaction, s: Map<u64, u64>) -> Seq<(u64, WriteOp)> {
    let post = txn_effect(t, s);
    Seq::new(t.deltas@.len(), |i: int| (t.deltas@[i].0, WriteOp::Put(post[t.deltas@[i].0])))
}

/// The full committed write set of a transaction executed against `s`:
/// its resolved writes followed by its materialized deltas, or nothing
/// when the status voids its effects.
pub open spec fn committed_writes_of(t: Transaction, s: Map<u64, u64>) -> Seq<(u64, WriteOp)> {
    if takes_effect(t.status) {
        vm_writes_spec(t, read_vals_of(t, s)) + delta_puts(t, s)
    } else {
        Seq::empty()
    }
}

/// The events a committed transaction carries.
pub open spec fn committed_events_of(t: Transaction) -> Seq<u64> {
    if takes_effect(t.status) {
        t.events@
    } else {
        Seq::empty()
    }
}

/// Whether a transaction halts the block.
pub open spec fn is_halt(t: Transaction) -> bool {
    t.status == VmStatus::Halt
}

/// Whether some transaction strictly below `i` halts the block.
pub open spec fn halted_before(txns: Seq<Transaction>, i: int) -> bool {
    exists|j: int| 0 <= j < i && #[trigger] is_halt(txns[j])
}

/// The sequential state after the first `i` transactions: each one that is
/// not cut off by an earlier halt applies its effect in index order.
pub open spec fn seq_state_at(txns: Seq<Transaction>, base: Map<u64, u64>, i: int) -> Map<
    u64,
    u64,
>
    decreases i,
{
    if i <= 0 {
        base
    } else {
        let s = seq_state_at(txns, base, i - 1);
        if halted_before(txns, i - 1) {
            s
        } else {
            txn_effect(txns[i - 1], s)
        }
    }
}

/// Whether index `i` is the block-fatal point: it is reached (no halt
/// below), reports `FatalError`, and is of an infallible kind.
pub open spec fn fatal_at(txns: Seq<Transaction>, i: int) -> bool {
    &&& !halted_before(txns, i)
    &&& txns[i].status == VmStatus::FatalError
    &&& txns[i].infallible
}

/// Whether the block aborts as a whole.
pub open spec fn block_has_fatal(txns: Seq<Transaction>) -> bool {
    exists|i: int| 0 <= i < txns.len() && #[trigger] fatal_at(txns, i)
}

impl TxnResult {
    /// Whether this result is exactly what sequential execution owes for
    /// index `i` of the block.
    pub open spec fn result_matches(self, txns: Seq<Transaction>, base: Map<u64, u64>, i: int) -> bool {
        if halted_before(txns, i) {
            self == TxnResult::Skipped
        } else {
            match self {
                TxnResult::Committed { writes, events, status } => {
                    &&& writes@ == committed_writes_of(txns[i], seq_state_at(txns, base, i))
                    &&& events@ == committed_events_of(txns[i])
                    &&& status == txns[i].status
                },
                TxnResult::Skipped => false,
            }
        }
    }
}

/// Whether `res` is the committed output of `t` executed against the
/// state `s`.
pub open spec fn committed_result_of(res: TxnResult, t: Transaction, s: Map<u64, u64>) -> bool {
    match res {
        TxnResult::Committed { writes, events, status } => {
            &&& writes@ == committed_writes_of(t, s)
            &&& events@ == committed_events_of(t)
            &&& status == t.status
        },
        TxnResult::Skipped => false,
    }
}

/// Whether a committed result sequence, or a fatal abort, is exactly what
/// sequential execution owes for the whole block.
pub open spec fn block_result_matches(
    results: Seq<TxnResult>,
    txns: Seq<Transaction>,
    base: Map<u64, u64>,
) -> bool {
    &&& !block_has_fatal(txns)
    &&& results.len() == txns.len()
    &&& forall|i: int|
        0 <= i < txns.len() ==> (#[trigger] results[i]).result_matches(txns, base, i)
}

/// Whether two per-index results carry the same output: both skipped, or
/// both committed with the same writes, events and status.
pub open spec fn results_agree(a: TxnResult, b: TxnResult) -> bool {
    match (a, b) {
        (
            TxnResult::Committed { writes: w1, events: e1, status: s1 },
            TxnResult::Committed { writes: w2, events: e2, status: s2 },
        ) => w1@ == w2@ && e1@ == e2@ && s1 == s2,
        (TxnResult::Skipped, TxnResult::Skipped) => true,
        _ => false,
    }
}

/// Law: equivalence. Any two committed output sequences that satisfy the
/// block contract — whatever schedule, worker count or speculation
/// produced them — agree index by index. In particular a parallel run's
/// output equals the sequential one's.
pub proof fn lemma_equivalence(
    results1: Seq<TxnResult>,
    results2: Seq<TxnResult>,
    txns: Seq<Transaction>,
    base: Map<u64, u64>,
)
    requires
        block_result_matches(results1, txns, base),
        block_result_matches(results2, txns, base),
    ensures
        results1.len() == results2.len(),
        forall|i: int| 0 <= i < results1.len() ==> results_agree(results1[i], #[trigger] results2[i]),
{
    assert forall|i: int| 0 <= i < results1.len() implies results_agree(
        results1[i],
        #[trigger] results2[i],
    ) by {
        assert(results1[i].result_matches(txns, base, i));
        assert(results2[i].result_matches(txns, base, i));
    }
}

/// Whether a fatal abort names the first block-fatal index.
pub open spec fn fatal_matches(index: int, txns: Seq<Transaction>) -> bool {
    &&& 0 <= index < txns.len()
    &&& fatal_at(txns, index)
    &&& forall|j: int| 0 <= j < index ==> !#[trigger] fatal_at(txns, j)
}

} // verus!
