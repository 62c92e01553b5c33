//! The reference executor: one transaction at a time, in index order.
//!
//! Its output is proved equal to the sequential semantics of the block,
//! and the parallel engine's output is proved equal to the same
//! semantics — that shared contract is the equivalence guarantee.

use vstd::prelude::*;
use crate::semantics::apply_delta;
use crate::semantics::apply_deltas;
use crate::semantics::apply_write;
use crate::semantics::apply_writes;
use crate::semantics::block_result_matches;
use crate::semantics::committed_events_of;
use crate::semantics::committed_result_of;
use crate::semantics::committed_writes_of;
use crate::semantics::delta_puts;
use crate::semantics::fatal_at;
use crate::semantics::fatal_matches;
use crate::semantics::halted_before;
use crate::semantics::is_halt;
use crate::semantics::lemma_apply_deltas_dom;
use crate::semantics::read_vals_of;
use crate::semantics::seq_state_at;
use crate::semantics::takes_effect;
use crate::semantics::txn_effect;
use crate::state::StateMap;
use crate::transaction::FatalAbort;
use crate::transaction::Transaction;
use crate::transaction::TxnOutput;
use crate::transaction::TxnResult;
use crate::transaction::VmStatus;
use crate::transaction::WriteOp;
use crate::transaction::copy_vec;
use crate::transaction::execute_transaction;
use crate::transaction::vm_writes_spec;
use crate::transaction::wrap_add;

verus! {

/// Collects the values a transaction's declared reads observe in a state.
pub fn collect_read_vals(t: &Transaction, state: &StateMap) -> (vals: Vec<Option<u64>>)
    ensures
        vals@ == read_vals_of(*t, state@),
{
    let ghost goal = read_vals_of(*t, state@);
    let mut vals: Vec<Option<u64>> = Vec::new();
    proof {
        assert(vals@ =~= goal.subrange(0, 0));
    }
    let mut i: usize = 0;
    while i < t.reads.len()
        invariant
            i <= t.reads@.len(),
            goal == read_vals_of(*t, state@),
            vals@ == goal.subrange(0, i as int),
        decreases t.reads@.len() - i,
    {
        vals.push(state.get(t.reads[i]));
        i = i + 1;
        proof {
            assert(vals@ =~= goal.subrange(0, i as int));
        }
    }
    proof {
        assert(vals@ =~= goal);
    }
    vals
}

/// Applies a transaction's output to the state and assembles its
/// committed result, resolving each delta into a concrete write. A status
/// that voids the transaction's effects leaves the state unchanged and
/// commits an empty write set.
pub fn apply_and_materialize(t: &Transaction, out: &TxnOutput, state: &mut StateMap) -> (res:
    TxnResult)
    requires
        out.writes@ == vm_writes_spec(*t, read_vals_of(*t, old(state)@)),
        out.deltas@ == t.deltas@,
        out.events@ == t.events@,
        out.status == t.status,
    ensures
        final(state)@ == txn_effect(*t, old(state)@),
        committed_result_of(res, *t, old(state)@),
{
    let ghost s0 = state@;
    let effect = match t.status {
        VmStatus::Success => true,
        VmStatus::Halt => true,
        _ => false,
    };
    proof {
        assert(effect == takes_effect(t.status));
    }
    if !effect {
        return TxnResult::Committed { writes: Vec::new(), events: Vec::new(), status: out.status };
    }
    let ghost ws = out.writes@;
    let ghost ds = out.deltas@;

    let mut i: usize = 0;
    proof {
        assert(ws.skip(0) =~= ws);
    }
    while i < out.writes.len()
        invariant
            i <= ws.len(),
            out.writes@ == ws,
            apply_writes(state@, ws.skip(i as int)) == apply_writes(s0, ws),
        decreases ws.len() - i,
    {
        let (k, op) = out.writes[i];
        let ghost sb = state@;
        proof {
            assert(ws.skip(i as int).drop_first() =~= ws.skip(i as int + 1));
            assert(ws.skip(i as int)[0] == ws[i as int]);
        }
        match op {
            WriteOp::Put(v) => state.insert(k, v),
            WriteOp::Delete => state.remove(k),
        }
        proof {
            assert(state@ == apply_write(sb, k, op));
            assert(apply_writes(sb, ws.skip(i as int)) == apply_writes(state@, ws.skip(i as int + 1)));
        }
        i = i + 1;
    }
    proof {
        assert(ws.skip(ws.len() as int) =~= Seq::<(u64, WriteOp)>::empty());
        assert(state@ == apply_writes(s0, ws));
    }
    let ghost mid = state@;

    let mut j: usize = 0;
    proof {
        assert(ds.skip(0) =~= ds);
    }
    while j < out.deltas.len()
        invariant
            j <= ds.len(),
            out.deltas@ == ds,
            apply_deltas(state@, ds.skip(j as int)) == apply_deltas(mid, ds),
        decreases ds.len() - j,
    {
        let (k, d) = out.deltas[j];
        let ghost sb = state@;
        proof {
            assert(ds.skip(j as int).drop_first() =~= ds.skip(j as int + 1));
            assert(ds.skip(j as int)[0] == ds[j as int]);
        }
        let cur: u64 = match state.get(k) {
            Some(x) => x,
            None => 0,
        };
        let nv = wrap_add(cur, d);
        state.insert(k, nv);
        proof {
            assert(state@ == apply_delta(sb, k, d));
            assert(apply_deltas(sb, ds.skip(j as int)) == apply_deltas(state@, ds.skip(j as int + 1)));
        }
        j = j + 1;
    }
    proof {
        assert(ds.skip(ds.len() as int) =~= Seq::<(u64, u64)>::empty());
        assert(state@ == apply_deltas(mid, ds));
        assert(state@ == txn_effect(*t, s0));
    }
    let ghost post = state@;

    let mut result_writes: Vec<(u64, WriteOp)> = copy_vec(&out.writes);
    let ghost puts = delta_puts(*t, s0);
    proof {
        lemma_apply_deltas_dom(mid, ds);
        assert(result_writes@ =~= ws + puts.subrange(0, 0));
    }
    let mut m: usize = 0;
    while m < out.deltas.len()
        invariant
            m <= ds.len(),
            out.deltas@ == ds,
            state@ == post,
            post == txn_effect(*t, s0),
            puts == delta_puts(*t, s0),
            ds == t.deltas@,
            result_writes@ == ws + puts.subrange(0, m as int),
            forall|q: int| 0 <= q < ds.len() ==> post.dom().contains(#[trigger] ds[q].0),
        decreases ds.len() - m,
    {
        let (k, _d) = out.deltas[m];
        let got = state.get(k);
        proof {
            assert(post.dom().contains(ds[m as int].0));
        }
        let v: u64 = match got {
            Some(x) => x,
            None => 0,
        };
        proof {
            assert(v == post[k]);
            assert(puts[m as int] == (k, WriteOp::Put(post[k])));
        }
        result_writes.push((k, WriteOp::Put(v)));
        m = m + 1;
        proof {
            assert(result_writes@ =~= ws + puts.subrange(0, m as int));
        }
    }
    proof {
        assert(puts.subrange(0, puts.len() as int) =~= puts);
        assert(result_writes@ == committed_writes_of(*t, s0));
    }
    TxnResult::Committed {
        writes: result_writes,
        events: copy_vec(&out.events),
        status: out.status,
    }
}

/// Appends `Skipped` markers until the result vector covers the block.
pub fn fill_skipped(results: &mut Vec<TxnResult>, n: usize)
    requires
        old(results)@.len() <= n,
    ensures
        final(results)@.len() == n,
        forall|i: int|
            0 <= i < old(results)@.len() ==> final(results)@[i] == old(results)@[i],
        forall|i: int|
            old(results)@.len() <= i < n ==> final(results)@[i] == TxnResult::Skipped,
{
    while results.len() < n
        invariant
            old(results)@.len() <= results@.len() <= n,
            forall|i: int|
                0 <= i < old(results)@.len() ==> results@[i] == old(results)@[i],
            forall|i: int|
                old(results)@.len() <= i < results@.len() ==> results@[i] == TxnResult::Skipped,
        decreases n - results@.len(),
    {
        results.push(TxnResult::Skipped);
    }
}

/// Executes the block one transaction at a time, strictly in index order,
/// against the base state. Returns the committed output for every index
/// (with a skipped suffix after a halting transaction), or the first
/// block-fatal index.
pub fn execute_block_sequential(txns: &Vec<Transaction>, base: &StateMap) -> (r: Result<
    Vec<TxnResult>,
    FatalAbort,
>)
    ensures
        match r {
            Ok(results) => block_result_matches(results@, txns@, base@),
            Err(e) => fatal_matches(e.index as int, txns@),
        },
{
    let n = txns.len();
    let mut state = base.duplicate();
    let mut results: Vec<TxnResult> = Vec::new();
    let mut c: usize = 0;
    while c < n
        invariant
            n == txns@.len(),
            c <= n,
            results@.len() == c,
            state@ == seq_state_at(txns@, base@, c as int),
            !halted_before(txns@, c as int),
            forall|i: int| 0 <= i < c ==> (#[trigger] results@[i]).result_matches(txns@, base@, i),
            forall|i: int| 0 <= i < c ==> !#[trigger] fatal_at(txns@, i),
        decreases n - c,
    {
        let t = &txns[c];
        let vals = collect_read_vals(t, &state);
        let out = execute_transaction(t, &vals);
        let is_fatal = match out.status {
            VmStatus::FatalError => t.infallible,
            _ => false,
        };
        if is_fatal {
            return Err(FatalAbort { index: c });
        }
        let halting = match t.status {
            VmStatus::Halt => true,
            _ => false,
        };
        let ghost sc = state@;
        let res = apply_and_materialize(t, &out, &mut state);
        results.push(res);
        proof {
            assert(res.result_matches(txns@, base@, c as int));
            assert(state@ == seq_state_at(txns@, base@, c as int + 1));
            assert(!fatal_at(txns@, c as int));
        }
        c = c + 1;
        if halting {
            proof {
                assert(is_halt(txns@[c as int - 1]));
                assert forall|i: int| c <= i < n implies halted_before(txns@, i) by {
                    assert(0 <= c - 1 < i && is_halt(txns@[c as int - 1]));
                }
                assert forall|i: int| 0 <= i < n implies !#[trigger] fatal_at(txns@, i) by {
                    if i >= c {
                        assert(halted_before(txns@, i));
                    }
                }
            }
            fill_skipped(&mut results, n);
            return Ok(results);
        }
        proof {
            assert(!halted_before(txns@, c as int)) by {
                if halted_before(txns@, c as int) {
                    let j = choose|j: int| 0 <= j < c && is_halt(txns@[j]);
                    if j < c - 1 {
                        assert(halted_before(txns@, c as int - 1));
                    }
                }
            }
        }
    }
    Ok(results)
}

} // verus!
