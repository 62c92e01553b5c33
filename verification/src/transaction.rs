//! Transactions and the evaluation contract they execute under.
//!
//! A transaction is a small deterministic program: it declares the keys it
//! reads, the writes it performs (whose values may depend on the values
//! read), commutative delta updates against aggregate keys, the events it
//! emits, and its outcome status. Evaluation is a pure function of the
//! transaction and the values its reads observed; that determinism is what
//! the conflict-detection protocol relies on.

use vstd::prelude::*;

verus! {

/// A resolved write as it lands in the store: a concrete value or a
/// deletion marker.
#[derive(Clone, Copy, PartialEq, Eq, Structural, Debug)]
pub enum WriteOp {
    /// Store this concrete value under the key.
    Put(u64),
    /// Remove the key.
    Delete,
}

/// The value side of a write before evaluation. `ReadVal` and `ReadPlus`
/// refer to an entry of the transaction's declared read list by position,
/// so a write may carry a value derived from what was read.
#[derive(Clone, Copy, PartialEq, Eq, Structural, Debug)]
pub enum ValueExpr {
    /// A literal value.
    Lit(u64),
    /// The value observed by the read at this position (0 when the key was
    /// absent, or when the position is out of range).
    ReadVal(usize),
    /// The value observed by the read at this position, plus a constant,
    /// wrapping modulo 2^64.
    ReadPlus(usize, u64),
}

/// A write command of a transaction, resolved against the observed read
/// values into a [`WriteOp`].
#[derive(Clone, Copy, PartialEq, Eq, Structural, Debug)]
pub enum WriteCmd {
    /// Store the value of the expression.
    Put(ValueExpr),
    /// Remove the key.
    Delete,
}

/// The status a transaction's execution reports.
#[derive(Clone, Copy, PartialEq, Eq, Structural, Debug)]
pub enum VmStatus {
    /// The transaction succeeded; its writes and deltas take effect.
    Success,
    /// A user-level abort: not an engine error, committed as an output with
    /// no writes and no events.
    UserAbort,
    /// The block must be truncated: this transaction commits, every
    /// higher-indexed transaction is skipped.
    Halt,
    /// An error that must never occur for transaction kinds marked
    /// infallible; block-fatal there, and treated like a user abort
    /// elsewhere.
    FatalError,
}

/// One transaction of a block.
#[derive(Clone, Debug)]
pub struct Transaction {
    /// The keys this transaction reads, in order.
    pub reads: Vec<u64>,
    /// The writes it performs, in order; later writes to the same key win.
    pub writes: Vec<(u64, WriteCmd)>,
    /// Commutative additions against aggregate keys, applied after the
    /// writes; an absent key counts as 0.
    pub deltas: Vec<(u64, u64)>,
    /// The events it emits on success.
    pub events: Vec<u64>,
    /// Its outcome status.
    pub status: VmStatus,
    /// Whether this transaction kind must never report `FatalError`.
    pub infallible: bool,
}

/// What executing one transaction produces: the resolved write set, the
/// delta set, the events, and the status.
#[derive(Clone, Debug)]
pub struct TxnOutput {
    /// The resolved writes, in the transaction's write order.
    pub writes: Vec<(u64, WriteOp)>,
    /// The delta updates, unchanged from the transaction.
    pub deltas: Vec<(u64, u64)>,
    /// The events emitted.
    pub events: Vec<u64>,
    /// The reported status.
    pub status: VmStatus,
}

/// The finalized, per-index outcome of a block: a committed output, or a
/// marker that the index was cut off by a halt below it and must be
/// resubmitted by the caller.
#[derive(Clone, Debug)]
pub enum TxnResult {
    /// The transaction committed: its concrete write set (delayed values
    /// already resolved), its events, and its reported status.
    Committed {
        /// The concrete writes, including one `Put` per delta with the
        /// resolved aggregate value.
        writes: Vec<(u64, WriteOp)>,
        /// The events emitted.
        events: Vec<u64>,
        /// The status the execution reported.
        status: VmStatus,
    },
    /// The index lies above a halting transaction and was not executed.
    Skipped,
}

/// A block-fatal abort: an infallible transaction reported `FatalError`,
/// so no output of the block is exposed.
#[derive(Clone, Copy, PartialEq, Eq, Structural, Debug)]
pub struct FatalAbort {
    /// The lowest index at which the fatal error occurred.
    pub index: usize,
}

/// The value a read observed, with absence mapped to 0.
pub open spec fn or_zero(v: Option<u64>) -> u64 {
    match v {
        Some(x) => x,
        None => 0,
    }
}

/// Addition modulo 2^64.
pub open spec fn wrap_add_spec(a: u64, b: u64) -> u64 {
    ((a + b) % 0x1_0000_0000_0000_0000) as u64
}

/// Addition modulo 2^64, executably.
pub fn wrap_add(a: u64, b: u64) -> (r: u64)
    ensures
        r == wrap_add_spec(a, b),
{
    if b <= u64::MAX - a {
        a + b
    } else {
        let r = a - (u64::MAX - b) - 1;
        proof {
            assert(r == a + b - 0x1_0000_0000_0000_0000);
        }
        r
    }
}

/// The value of an expression under the observed read values.
pub open spec fn eval_expr_spec(e: ValueExpr, vals: Seq<Option<u64>>) -> u64 {
    match e {
        ValueExpr::Lit(c) => c,
        ValueExpr::ReadVal(j) => if j < vals.len() {
            or_zero(vals[j as int])
        } else {
            0
        },
        ValueExpr::ReadPlus(j, c) => if j < vals.len() {
            wrap_add_spec(or_zero(vals[j as int]), c)
        } else {
            c
        },
    }
}

/// A write command resolved against the observed read values.
pub open spec fn resolve_write_spec(w: WriteCmd, vals: Seq<Option<u64>>) -> WriteOp {
    match w {
        WriteCmd::Put(e) => WriteOp::Put(eval_expr_spec(e, vals)),
        WriteCmd::Delete => WriteOp::Delete,
    }
}

/// The resolved write set of a transaction under the observed read values:
/// evaluation is a pure function of the transaction and those values.
pub open spec fn vm_writes_spec(t: Transaction, vals: Seq<Option<u64>>) -> Seq<(u64, WriteOp)> {
    Seq::new(t.writes@.len(), |i: int| (t.writes@[i].0, resolve_write_spec(t.writes@[i].1, vals)))
}

/// The value of an expression under the observed read values, executably.
pub fn eval_expr(e: &ValueExpr, vals: &Vec<Option<u64>>) -> (r: u64)
    ensures
        r == eval_expr_spec(*e, vals@),
{
    match e {
        ValueExpr::Lit(c) => *c,
        ValueExpr::ReadVal(j) => {
            if *j < vals.len() {
                match vals[*j] {
                    Some(x) => x,
                    None => 0,
                }
            } else {
                0
            }
        },
        ValueExpr::ReadPlus(j, c) => {
            if *j < vals.len() {
                let base: u64 = match vals[*j] {
                    Some(x) => x,
                    None => 0,
                };
                wrap_add(base, *c)
            } else {
                *c
            }
        },
    }
}

/// Copies a vector of plain values.
pub fn copy_vec<T: Copy>(v: &Vec<T>) -> (r: Vec<T>)
    ensures
        r@ == v@,
{
    let mut r: Vec<T> = Vec::new();
    let mut i: usize = 0;
    while i < v.len()
        invariant
            i <= v@.len(),
            r@ == v@.subrange(0, i as int),
        decreases v@.len() - i,
    {
        r.push(v[i]);
        i = i + 1;
        proof {
            assert(r@ =~= v@.subrange(0, i as int));
        }
    }
    proof {
        assert(r@ =~= v@);
    }
    r
}

/// Executes one transaction against the values its declared reads observed.
/// The output is exactly the evaluation of the transaction under those
/// values; nothing else flows in.
pub fn execute_transaction(t: &Transaction, vals: &Vec<Option<u64>>) -> (out: TxnOutput)
    ensures
        out.writes@ == vm_writes_spec(*t, vals@),
        out.deltas@ == t.deltas@,
        out.events@ == t.events@,
        out.status == t.status,
{
    let mut writes: Vec<(u64, WriteOp)> = Vec::new();
    let mut i: usize = 0;
    while i < t.writes.len()
        invariant
            i <= t.writes@.len(),
            writes@ == vm_writes_spec(*t, vals@).subrange(0, i as int),
        decreases t.writes@.len() - i,
    {
        let (k, cmd) = t.writes[i];
        let op = match cmd {
            WriteCmd::Put(e) => WriteOp::Put(eval_expr(&e, vals)),
            WriteCmd::Delete => WriteOp::Delete,
        };
        writes.push((k, op));
        i = i + 1;
        proof {
            assert(writes@ =~= vm_writes_spec(*t, vals@).subrange(0, i as int));
        }
    }
    proof {
        assert(writes@ =~= vm_writes_spec(*t, vals@));
    }
    TxnOutput {
        writes,
        deltas: copy_vec(&t.deltas),
        events: copy_vec(&t.events),
        status: t.status,
    }
}

/// Law: re-execution is idempotent. Re-executing a transaction whose
/// effective read environment is unchanged resolves a byte-identical write
/// set: the write set is a function of the transaction and the observed
/// read values alone.
pub proof fn lemma_reexecution_idempotent(
    t: Transaction,
    vals1: Seq<Option<u64>>,
    vals2: Seq<Option<u64>>,
)
    requires
        vals1 == vals2,
    ensures
        vm_writes_spec(t, vals1) == vm_writes_spec(t, vals2),
{
}

} // verus!
