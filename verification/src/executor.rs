//! The engine: speculative parallel execution with commit in index order.
//!
//! Worker steps execute transactions optimistically against the
//! multi-version store and record what they read and wrote; validations
//! re-check recorded reads and re-queue an index whose reads went stale.
//! The finalizer commits indices in order: it accepts a recorded execution
//! only after re-checking its reads against the fully committed prefix,
//! and otherwise re-executes the index right there against that prefix.
//! Every committed output is therefore exactly the sequential one,
//! whatever the speculation did, and the engine always terminates with a
//! complete output.

use vstd::prelude::*;
use crate::semantics::block_result_matches;
use crate::semantics::committed_result_of;
use crate::semantics::fatal_at;
use crate::semantics::fatal_matches;
use crate::semantics::halted_before;
use crate::semantics::is_halt;
use crate::semantics::lookup;
use crate::semantics::read_vals_of;
use crate::semantics::seq_state_at;
use crate::semantics::txn_effect;
use crate::sequential::apply_and_materialize;
use crate::sequential::collect_read_vals;
use crate::sequential::fill_skipped;
use crate::state::StateMap;
use crate::transaction::FatalAbort;
use crate::transaction::Transaction;
use crate::transaction::TxnOutput;
use crate::transaction::TxnResult;
use crate::transaction::VmStatus;
use crate::transaction::copy_vec;
use crate::transaction::execute_transaction;
use crate::transaction::vm_writes_spec;

verus! {

/// What one completed execution of an index recorded: the values its
/// reads observed and the output computed from them.
pub struct ExecRecord {
    /// The observed read values, aligned with the transaction's read
    /// list.
    pub vals: Vec<Option<u64>>,
    /// The output computed from those values.
    pub out: TxnOutput,
}

/// A record is sound when its output is exactly the evaluation of the
/// transaction under its recorded read values.
pub open spec fn record_ok(rec: ExecRecord, t: Transaction) -> bool {
    &&& rec.vals@.len() == t.reads@.len()
    &&& rec.out.writes@ == vm_writes_spec(t, rec.vals@)
    &&& rec.out.deltas@ == t.deltas@
    &&& rec.out.events@ == t.events@
    &&& rec.out.status == t.status
}

/// Every present record is sound for its transaction.
pub open spec fn records_ok(records: Seq<Option<ExecRecord>>, txns: Seq<Transaction>) -> bool {
    &&& records.len() == txns.len()
    &&& forall|i: int|
        0 <= i < records.len() ==> ((#[trigger] records[i]) matches Some(rec) ==> record_ok(
            rec,
            txns[i],
        ))
}

/// Checks the recorded read values of a transaction against a state:
/// true exactly when every declared read would observe its recorded
/// value there.
pub fn validate_against(state: &StateMap, reads: &Vec<u64>, vals: &Vec<Option<u64>>) -> (ok: bool)
    requires
        vals@.len() == reads@.len(),
    ensures
        ok <==> forall|j: int|
            0 <= j < reads@.len() ==> vals@[j] == lookup(state@, #[trigger] reads@[j]),
{
    let mut j: usize = 0;
    while j < reads.len()
        invariant
            j <= reads@.len(),
            vals@.len() == reads@.len(),
            forall|q: int| 0 <= q < j ==> vals@[q] == lookup(state@, #[trigger] reads@[q]),
        decreases reads@.len() - j,
    {
        let cur = state.get(reads[j]);
        let same = match (vals[j], cur) {
            (Some(a), Some(b)) => a == b,
            (None, None) => true,
            _ => false,
        };
        if !same {
            proof {
                assert(vals@[j as int] != lookup(state@, reads@[j as int]));
            }
            return false;
        }
        j = j + 1;
    }
    true
}

/// What committing one index produced.
enum CommitStep {
    /// The index committed; the flag says whether a recorded speculative
    /// execution was accepted (true) or the index had to be re-executed
    /// against the committed prefix (false).
    Output(TxnResult, bool),
    /// The transaction is block-fatal; nothing was applied.
    FatalStop,
}

/// Commits one index against the committed prefix state. A recorded
/// execution is accepted only if every one of its recorded reads still
/// holds in that state; otherwise the index is re-executed against it,
/// which always succeeds since the whole prefix is final.
fn commit_one(
    t: &Transaction,
    committed: &mut StateMap,
    records: &Vec<Option<ExecRecord>>,
    c: usize,
) -> (r: CommitStep)
    requires
        c < records@.len(),
        records@[c as int] matches Some(rec) ==> record_ok(rec, *t),
    ensures
        match r {
            CommitStep::Output(res, used) => {
                &&& final(committed)@ == txn_effect(*t, old(committed)@)
                &&& committed_result_of(res, *t, old(committed)@)
                &&& !(t.status == VmStatus::FatalError && t.infallible)
            },
            CommitStep::FatalStop => {
                &&& t.status == VmStatus::FatalError
                &&& t.infallible
                &&& final(committed)@ == old(committed)@
            },
        },
{
    let mut used: bool = false;
    let mut vals: Vec<Option<u64>> = Vec::new();
    match &records[c] {
        Some(rec) => {
            if validate_against(committed, &t.reads, &rec.vals) {
                vals = copy_vec(&rec.vals);
                used = true;
            }
        },
        None => {},
    }
    if !used {
        vals = collect_read_vals(t, committed);
    }
    proof {
        assert(vals@ =~= read_vals_of(*t, committed@));
    }
    let out = execute_transaction(t, &vals);
    let is_fatal = match out.status {
        VmStatus::FatalError => t.infallible,
        _ => false,
    };
    if is_fatal {
        return CommitStep::FatalStop;
    }
    let res = apply_and_materialize(t, &out, committed);
    CommitStep::Output(res, used)
}

/// An execution completed by a worker but not yet published.
struct PendingExec {
    /// The transaction index.
    idx: usize,
    /// The incarnation this execution ran at.
    incarnation: u64,
    /// What it read and computed.
    rec: ExecRecord,
}

/// Every held execution is in range and sound for its transaction.
spec fn pending_wf(pending: Seq<PendingExec>, txns: Seq<Transaction>) -> bool {
    forall|a: int|
        0 <= a < pending.len() ==> (#[trigger] pending[a]).idx < txns.len() && record_ok(
            pending[a].rec,
            txns[pending[a].idx as int],
        )
}

/// Installs estimate placeholders for a set of keys at one index.
fn mark_all_estimates(
    store: &mut crate::mv_store::MvStore,
    keys: &Vec<u64>,
    idx: usize,
    incarnation: u64,
)
{
    let mut q: usize = 0;
    while q < keys.len()
        decreases keys@.len() - q,
    {
        store.mark_estimate(keys[q], idx, incarnation);
        q = q + 1;
    }
}

/// What one speculative read of `k` by `reader` observes through the
/// store with the base state behind it: the value (or its absence), or
/// `None` for a dependency on an in-progress lower index.
pub open spec fn view_read_spec(
    m: Map<(u64, int), crate::mv_store::StoreRecord>,
    base: Map<u64, u64>,
    k: u64,
    reader: int,
) -> Option<Option<u64>> {
    match crate::mv_store::mv_read_spec(m, k, reader) {
        crate::mv_store::MvReadResult::FromBase => Some(lookup(base, k)),
        crate::mv_store::MvReadResult::Resolved(ov) => Some(ov),
        crate::mv_store::MvReadResult::BaseDeltas(acc) => Some(
            Some(crate::transaction::wrap_add_spec(crate::transaction::or_zero(lookup(base, k)), acc)),
        ),
        crate::mv_store::MvReadResult::Dependency(_) => None,
    }
}

/// Reads every key of the transaction's read list through the store,
/// falling back to the base state, or reports a dependency hit.
fn speculative_reads(
    t: &Transaction,
    store: &crate::mv_store::MvStore,
    base: &StateMap,
    reader: usize,
) -> (r: Option<Vec<Option<u64>>>)
    ensures
        r matches Some(vals) ==> {
            &&& vals@.len() == t.reads@.len()
            &&& forall|j: int|
                0 <= j < vals@.len() ==> Some(#[trigger] vals@[j]) == view_read_spec(
                    store@,
                    base@,
                    t.reads@[j],
                    reader as int,
                )
        },
        r is None ==> exists|j: int|
            0 <= j < t.reads@.len() && view_read_spec(store@, base@, #[trigger] t.reads@[j], reader as int)
                is None,
{
    let mut vals: Vec<Option<u64>> = Vec::new();
    let mut j: usize = 0;
    while j < t.reads.len()
        invariant
            j <= t.reads@.len(),
            vals@.len() == j,
            forall|q: int|
                0 <= q < j ==> Some(#[trigger] vals@[q]) == view_read_spec(
                    store@,
                    base@,
                    t.reads@[q],
                    reader as int,
                ),
        decreases t.reads@.len() - j,
    {
        let k = t.reads[j];
        match store.read(k, reader) {
            crate::mv_store::MvReadResult::FromBase => {
                vals.push(base.get(k));
            },
            crate::mv_store::MvReadResult::Resolved(ov) => {
                vals.push(ov);
            },
            crate::mv_store::MvReadResult::BaseDeltas(acc) => {
                let b: u64 = match base.get(k) {
                    Some(x) => x,
                    None => 0,
                };
                vals.push(Some(crate::transaction::wrap_add(b, acc)));
            },
            crate::mv_store::MvReadResult::Dependency(_) => {
                proof {
                    assert(view_read_spec(store@, base@, t.reads@[j as int], reader as int) is None);
                }
                return None;
            },
        }
        j = j + 1;
    }
    Some(vals)
}

/// Whether two read-value vectors are identical.
fn vals_equal(a: &Vec<Option<u64>>, b: &Vec<Option<u64>>) -> (r: bool)
    ensures
        r == (a@ == b@),
{
    if a.len() != b.len() {
        proof {
            assert(a@ != b@);
        }
        return false;
    }
    let mut j: usize = 0;
    while j < a.len()
        invariant
            j <= a@.len(),
            a@.len() == b@.len(),
            forall|q: int| 0 <= q < j ==> a@[q] == b@[q],
        decreases a@.len() - j,
    {
        let same = match (a[j], b[j]) {
            (Some(x), Some(y)) => x == y,
            (None, None) => true,
            _ => false,
        };
        if !same {
            proof {
                assert(a@[j as int] != b@[j as int]);
            }
            return false;
        }
        j = j + 1;
    }
    proof {
        assert(a@ =~= b@);
    }
    true
}

/// Re-checks a recorded execution against the current store contents:
/// true exactly when every declared read observes its recorded value
/// again right now (a dependency counts as a failure).
fn revalidate(
    t: &Transaction,
    store: &crate::mv_store::MvStore,
    base: &StateMap,
    rec: &ExecRecord,
    reader: usize,
) -> (ok: bool)
    requires
        rec.vals@.len() == t.reads@.len(),
    ensures
        ok <==> forall|j: int|
            0 <= j < t.reads@.len() ==> view_read_spec(store@, base@, #[trigger] t.reads@[j], reader as int)
                == Some(rec.vals@[j]),
{
    match speculative_reads(t, store, base, reader) {
        Some(cur) => {
            let eq = vals_equal(&cur, &rec.vals);
            proof {
                if !eq {
                    if forall|j: int|
                        0 <= j < t.reads@.len() ==> view_read_spec(
                            store@,
                            base@,
                            #[trigger] t.reads@[j],
                            reader as int,
                        ) == Some(rec.vals@[j]) {
                        assert forall|j: int| 0 <= j < cur@.len() implies #[trigger] cur@[j]
                            == rec.vals@[j] by {
                            assert(Some(cur@[j]) == view_read_spec(
                                store@,
                                base@,
                                t.reads@[j],
                                reader as int,
                            ));
                        }
                        assert(cur@ =~= rec.vals@);
                    }
                }
            }
            eq
        },
        None => {
            proof {
                let j = choose|j: int|
                    0 <= j < t.reads@.len() && view_read_spec(
                        store@,
                        base@,
                        #[trigger] t.reads@[j],
                        reader as int,
                    ) is None;
                assert(view_read_spec(store@, base@, t.reads@[j], reader as int) != Some(
                    rec.vals@[j],
                ));
            }
            false
        },
    }
}

/// One worker step of an `Execute` task: installs estimate placeholders
/// for the keys the index published before, performs the speculative
/// reads, and either holds the computed record for publishing or, on a
/// dependency, abandons the attempt and re-queues the index.
fn worker_execute(
    txns: &Vec<Transaction>,
    base: &StateMap,
    store: &mut crate::mv_store::MvStore,
    sched: &mut crate::scheduler::Scheduler,
    last_keys: &Vec<Vec<u64>>,
    pending: &mut Vec<PendingExec>,
    i: usize,
    inc: u64,
)
    requires
        i < txns@.len(),
        i < last_keys@.len(),
        i < old(sched)@.len(),
        old(sched)@[i as int].phase == crate::scheduler::Phase::Executing,
        pending_wf(old(pending)@, txns@),
    ensures
        final(sched)@.len() == old(sched)@.len(),
        pending_wf(final(pending)@, txns@),
{
    mark_all_estimates(store, &last_keys[i], i, inc);
    match speculative_reads(&txns[i], store, base, i) {
        Some(vals) => {
            let out = execute_transaction(&txns[i], &vals);
            let rec = ExecRecord { vals, out };
            proof {
                assert(record_ok(rec, txns@[i as int]));
            }
            pending.push(PendingExec { idx: i, incarnation: inc, rec });
            proof {
                assert forall|a: int| 0 <= a < pending@.len() implies (
                #[trigger] pending@[a]).idx < txns@.len() && record_ok(
                    pending@[a].rec,
                    txns@[pending@[a].idx as int],
                ) by {
                    if a < pending@.len() - 1 {
                        assert(pending@[a] == old(pending)@[a]);
                    }
                }
            }
        },
        None => {
            sched.abort_execution(i);
        },
    }
}

/// One worker step of a `Validate` task: re-checks the recorded reads of
/// the index against the current store contents; a failure re-queues the
/// index at the next incarnation and turns its published writes into
/// estimate placeholders.
fn worker_validate(
    txns: &Vec<Transaction>,
    base: &StateMap,
    store: &mut crate::mv_store::MvStore,
    sched: &mut crate::scheduler::Scheduler,
    records: &Vec<Option<ExecRecord>>,
    last_keys: &Vec<Vec<u64>>,
    i: usize,
    inc: u64,
)
    requires
        i < txns@.len(),
        i < last_keys@.len(),
        i < old(sched)@.len(),
        records_ok(records@, txns@),
    ensures
        final(sched)@.len() == old(sched)@.len(),
{
    let ok = match &records[i] {
        Some(rec) => revalidate(&txns[i], store, base, rec, i),
        None => false,
    };
    let st = sched.get_state(i);
    if st.phase == crate::scheduler::Phase::Executed {
        if ok {
            sched.finish_validation(i, true);
        } else {
            if st.incarnation < u64::MAX {
                sched.finish_validation(i, false);
                mark_all_estimates(store, &last_keys[i], i, inc);
            }
        }
    }
}

/// Whether two key lists share a key.
fn keys_intersect(a: &Vec<u64>, b: &Vec<u64>) -> bool {
    let mut i: usize = 0;
    while i < a.len()
        invariant
            i <= a@.len(),
        decreases a@.len() - i,
    {
        let mut j: usize = 0;
        while j < b.len()
            invariant
                i < a@.len(),
                j <= b@.len(),
            decreases b@.len() - j,
        {
            if a[i] == b[j] {
                return true;
            }
            j = j + 1;
        }
        i = i + 1;
    }
    false
}

/// Publishes one held execution: clears the records of the keys the
/// index wrote before, publishes the new writes and deltas tagged with
/// the incarnation, stores the execution record, and schedules every
/// executed index above whose declared reads touch a key now written
/// for re-validation.
fn publish_pending(
    txns: &Vec<Transaction>,
    store: &mut crate::mv_store::MvStore,
    sched: &mut crate::scheduler::Scheduler,
    records: &mut Vec<Option<ExecRecord>>,
    last_keys: &mut Vec<Vec<u64>>,
    p: PendingExec,
)
    requires
        p.idx < txns@.len(),
        record_ok(p.rec, txns@[p.idx as int]),
        old(sched)@.len() == txns@.len(),
        old(records)@.len() == txns@.len(),
        old(last_keys)@.len() == txns@.len(),
        records_ok(old(records)@, txns@),
    ensures
        final(sched)@.len() == old(sched)@.len(),
        final(records)@.len() == old(records)@.len(),
        final(last_keys)@.len() == old(last_keys)@.len(),
        records_ok(final(records)@, txns@),
{
    let old_keys = &last_keys[p.idx];
    let mut q: usize = 0;
    while q < old_keys.len()
        decreases old_keys@.len() - q,
    {
        store.remove_entry(old_keys[q], p.idx);
        q = q + 1;
    }
    let mut q: usize = 0;
    while q < p.rec.out.writes.len()
        decreases p.rec.out.writes@.len() - q,
    {
        let (k, op) = p.rec.out.writes[q];
        store.publish(k, p.idx, p.incarnation, crate::mv_store::VersionEntry::Concrete(op));
        q = q + 1;
    }
    let mut q: usize = 0;
    while q < p.rec.out.deltas.len()
        decreases p.rec.out.deltas@.len() - q,
    {
        let (k, d) = p.rec.out.deltas[q];
        store.publish(k, p.idx, p.incarnation, crate::mv_store::VersionEntry::DeltaAdd(d));
        q = q + 1;
    }
    let mut nk: Vec<u64> = Vec::new();
    let mut q: usize = 0;
    while q < p.rec.out.writes.len()
        decreases p.rec.out.writes@.len() - q,
    {
        nk.push(p.rec.out.writes[q].0);
        q = q + 1;
    }
    let mut q: usize = 0;
    while q < p.rec.out.deltas.len()
        decreases p.rec.out.deltas@.len() - q,
    {
        nk.push(p.rec.out.deltas[q].0);
        q = q + 1;
    }
    let lk = &mut last_keys[p.idx];
    *lk = nk;
    let idx = p.idx;
    let rr = &mut records[idx];
    *rr = Some(p.rec);
    proof {
        assert(records@ == old(records)@.update(idx as int, records@[idx as int]));
        assert forall|i: int| 0 <= i < records@.len() implies ((#[trigger] records@[i]) matches Some(
            rec,
        ) ==> record_ok(rec, txns@[i])) by {
            if i != idx {
                assert(records@[i] == old(records)@[i]);
            }
        }
    }
    let st = sched.get_state(idx);
    if st.phase == crate::scheduler::Phase::Executing {
        sched.finish_execution(idx);
    }
    let wrote = &last_keys[idx];
    let n = txns.len();
    let mut j: usize = idx + 1;
    while j < n
        invariant
            n == txns@.len(),
            sched@.len() == n,
        decreases n - j,
    {
        if keys_intersect(&txns[j].reads, wrote) {
            sched.invalidate(j);
        }
        j = j + 1;
    }
}

/// One cooperative round of the worker loop: up to `num_workers` workers
/// in lockstep pull tasks (executions run against the store before any
/// of the batch publishes, as concurrent workers would), publish their
/// results, and perform validations, until the work runs dry or the
/// round's step budget is spent. Speculation only ever touches the
/// store, the scheduler and the execution records — never the committed
/// prefix.
fn speculative_round(
    txns: &Vec<Transaction>,
    base: &StateMap,
    store: &mut crate::mv_store::MvStore,
    sched: &mut crate::scheduler::Scheduler,
    records: &mut Vec<Option<ExecRecord>>,
    last_keys: &mut Vec<Vec<u64>>,
    num_workers: usize,
)
    requires
        num_workers >= 1,
        old(sched)@.len() == txns@.len(),
        old(last_keys)@.len() == txns@.len(),
        records_ok(old(records)@, txns@),
    ensures
        final(sched)@.len() == txns@.len(),
        final(last_keys)@.len() == txns@.len(),
        records_ok(final(records)@, txns@),
{
    let n = txns.len();
    let mut fuel: usize = if n < 16384 {
        8 * n + 8
    } else {
        131072
    };
    while fuel > 0
        invariant
            n == txns@.len(),
            sched@.len() == n,
            last_keys@.len() == n,
            records_ok(records@, txns@),
        decreases fuel,
    {
        fuel = fuel - 1;
        let mut did_work = false;
        let mut pending: Vec<PendingExec> = Vec::new();
        let mut w: usize = 0;
        while w < num_workers
            invariant
                n == txns@.len(),
                sched@.len() == n,
                last_keys@.len() == n,
                records_ok(records@, txns@),
                pending_wf(pending@, txns@),
            decreases num_workers - w,
        {
            let ghost pre = sched@;
            let task = sched.next_task();
            let mut stop = false;
            match task {
                crate::scheduler::Task::Execute(i, inc) => {
                    did_work = true;
                    proof {
                        crate::scheduler::lemma_first_pending_is_pending(pre, 0, i as int);
                    }
                    worker_execute(txns, base, store, sched, last_keys, &mut pending, i, inc);
                },
                crate::scheduler::Task::Validate(i, inc) => {
                    did_work = true;
                    proof {
                        crate::scheduler::lemma_first_unvalidated_is_executed(pre, 0, i as int);
                    }
                    worker_validate(txns, base, store, sched, records, last_keys, i, inc);
                },
                crate::scheduler::Task::Wait => {
                    stop = true;
                },
                crate::scheduler::Task::Done => {
                    stop = true;
                },
            }
            if stop {
                w = num_workers;
            } else {
                w = w + 1;
            }
        }
        while pending.len() > 0
            invariant
                n == txns@.len(),
                sched@.len() == n,
                last_keys@.len() == n,
                records_ok(records@, txns@),
                pending_wf(pending@, txns@),
            decreases pending@.len(),
        {
            let p = match pending.pop() {
                Some(p) => p,
                None => {
                    proof {
                        assert(false);
                    }
                    return ;
                },
            };
            publish_pending(txns, store, sched, records, last_keys, p);
        }
        if !did_work {
            fuel = 0;
        }
    }
}

/// The block's committed output together with scheduling statistics.
#[derive(Debug)]
pub struct BlockOutput {
    /// One result per transaction index, in order.
    pub results: Vec<TxnResult>,
    /// The final incarnation of each index: how many times it was
    /// re-executed after its first execution.
    pub incarnations: Vec<u64>,
}

/// Law: equivalence. Executes the block with the given number of
/// cooperative workers; the committed output sequence is exactly the
/// output of executing the same transactions one at a time in index
/// order against the same base state, whatever the degree of parallelism
/// did to the speculative schedule. The engine always returns a complete
/// output (or the first block-fatal index): every loop in it is bounded.
pub fn execute_block(txns: &Vec<Transaction>, base: &StateMap, num_workers: usize) -> (r: Result<
    BlockOutput,
    FatalAbort,
>)
    requires
        num_workers >= 1,
    ensures
        match r {
            Ok(out) => {
                &&& block_result_matches(out.results@, txns@, base@)
                &&& out.incarnations@.len() == txns@.len()
            },
            Err(e) => fatal_matches(e.index as int, txns@),
        },
{
    let n = txns.len();
    let mut store = crate::mv_store::MvStore::new();
    let mut sched = crate::scheduler::Scheduler::new(n);
    let mut records: Vec<Option<ExecRecord>> = Vec::new();
    let mut last_keys: Vec<Vec<u64>> = Vec::new();
    let mut i: usize = 0;
    while i < n
        invariant
            i <= n,
            records@.len() == i,
            last_keys@.len() == i,
            forall|q: int| 0 <= q < i ==> (#[trigger] records@[q]) is None,
        decreases n - i,
    {
        records.push(None);
        last_keys.push(Vec::new());
        i = i + 1;
    }
    let mut committed = base.duplicate();
    let mut results: Vec<TxnResult> = Vec::new();
    let mut c: usize = 0;
    while c < n
        invariant
            n == txns@.len(),
            c <= n,
            results@.len() == c,
            committed@ == seq_state_at(txns@, base@, c as int),
            !halted_before(txns@, c as int),
            forall|q: int|
                0 <= q < c ==> (#[trigger] results@[q]).result_matches(txns@, base@, q),
            forall|q: int| 0 <= q < c ==> !#[trigger] fatal_at(txns@, q),
            records_ok(records@, txns@),
            sched@.len() == n,
            last_keys@.len() == n,
            num_workers >= 1,
        decreases n - c,
    {
        speculative_round(txns, base, &mut store, &mut sched, &mut records, &mut last_keys, num_workers);
        let t = &txns[c];
        let step = commit_one(t, &mut committed, &records, c);
        match step {
            CommitStep::FatalStop => {
                return Err(FatalAbort { index: c });
            },
            CommitStep::Output(res, used) => {
                if !used {
                    let st = sched.get_state(c);
                    if st.incarnation < u64::MAX {
                        sched.bump_incarnation(c);
                    }
                }
                sched.set_committed(c);
                let halting = match t.status {
                    VmStatus::Halt => true,
                    _ => false,
                };
                results.push(res);
                proof {
                    assert(res.result_matches(txns@, base@, c as int));
                    assert(committed@ == seq_state_at(txns@, base@, c as int + 1));
                    assert(!fatal_at(txns@, c as int));
                }
                c = c + 1;
                if halting {
                    proof {
                        assert(is_halt(txns@[c as int - 1]));
                        assert forall|q: int| c <= q < n implies halted_before(txns@, q) by {
                            assert(0 <= c - 1 < q && is_halt(txns@[c as int - 1]));
                        }
                        assert forall|q: int| 0 <= q < n implies !#[trigger] fatal_at(
                            txns@,
                            q,
                        ) by {
                            if q >= c {
                                assert(halted_before(txns@, q));
                            }
                        }
                    }
                    fill_skipped(&mut results, n);
                    let incarnations = collect_incarnations(&sched);
                    return Ok(BlockOutput { results, incarnations });
                }
                proof {
                    assert(!halted_before(txns@, c as int)) by {
                        if halted_before(txns@, c as int) {
                            let j = choose|j: int| 0 <= j < c && is_halt(txns@[j]);
                            if j < c - 1 {
                                assert(halted_before(txns@, c as int - 1));
                            }
                        }
                    }
                }
            },
        }
    }
    let incarnations = collect_incarnations(&sched);
    Ok(BlockOutput { results, incarnations })
}

/// Reads off the final incarnation of every index.
fn collect_incarnations(sched: &crate::scheduler::Scheduler) -> (r: Vec<u64>)
    ensures
        r@.len() == sched@.len(),
        forall|i: int| 0 <= i < r@.len() ==> r@[i] == sched@[i].incarnation,
{
    let n = sched.len();
    let mut r: Vec<u64> = Vec::new();
    let mut i: usize = 0;
    while i < n
        invariant
            i <= n,
            n == sched@.len(),
            r@.len() == i,
            forall|q: int| 0 <= q < i ==> r@[q] == sched@[q].incarnation,
        decreases n - i,
    {
        r.push(sched.get_state(i).incarnation);
        i = i + 1;
    }
    r
}

} // verus!
