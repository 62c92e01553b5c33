//! Digests for pipeline items.
//!
//! Stages of the commit pipeline key their bookkeeping by a digest of the
//! item they carry. `Hashable` names the capability; the digest of a
//! transaction result is pinned down exactly, so equal results always
//! hash alike.

use vstd::prelude::*;
use crate::transaction::TxnResult;
use crate::transaction::VmStatus;
use crate::transaction::WriteOp;
use crate::transaction::wrap_add_spec;
use crate::transaction::wrap_add;

verus! {

/// The multiplier of the digest mix step.
pub const DIGEST_MULTIPLIER: u64 = 0x100000001b3;

/// A digest, condensed to one machine word in this in-memory model.
#[derive(Clone, Copy, PartialEq, Eq, Structural, Debug)]
pub struct HashValue {
    /// The digest word.
    pub value: u64,
}

/// Something the pipeline can key by a digest.
pub trait Hashable {
    /// The digest this value denotes.
    spec fn hash_spec(&self) -> HashValue;

    /// Computes the digest.
    fn hash(&self) -> (h: HashValue)
        ensures
            h == self.hash_spec(),
    ;
}

/// Multiplication modulo 2^64.
pub open spec fn wrap_mul_spec(a: u64, b: u64) -> u64 {
    ((a * b) % 0x1_0000_0000_0000_0000) as u64
}

/// Multiplication modulo 2^64, executably.
pub fn wrap_mul(a: u64, b: u64) -> (r: u64)
    ensures
        r == wrap_mul_spec(a, b),
{
    proof {
        assert((a as int) * (b as int) < 0x1_0000_0000_0000_0000 * 0x1_0000_0000_0000_0000) by (nonlinear_arith)
            requires
                a <= 0xffff_ffff_ffff_ffffu64,
                b <= 0xffff_ffff_ffff_ffffu64,
        ;
    }
    let p: u128 = (a as u128) * (b as u128);
    (p % 0x1_0000_0000_0000_0000u128) as u64
}

/// One mix step of the digest.
pub open spec fn mix_spec(acc: u64, x: u64) -> u64 {
    wrap_add_spec(wrap_mul_spec(acc, DIGEST_MULTIPLIER), x)
}

/// One mix step of the digest, executably.
pub fn mix(acc: u64, x: u64) -> (r: u64)
    ensures
        r == mix_spec(acc, x),
{
    wrap_add(wrap_mul(acc, DIGEST_MULTIPLIER), x)
}

/// A code for each write variant.
pub open spec fn write_word_spec(op: WriteOp) -> u64 {
    match op {
        WriteOp::Put(v) => v,
        WriteOp::Delete => 0,
    }
}

/// A code for each status.
pub open spec fn status_word_spec(st: VmStatus) -> u64 {
    match st {
        VmStatus::Success => 1,
        VmStatus::UserAbort => 2,
        VmStatus::Halt => 3,
        VmStatus::FatalError => 4,
    }
}

/// The digest of a write sequence folded onto an accumulator.
pub open spec fn hash_writes_spec(acc: u64, ws: Seq<(u64, WriteOp)>) -> u64
    decreases ws.len(),
{
    if ws.len() == 0 {
        acc
    } else {
        hash_writes_spec(mix_spec(mix_spec(acc, ws[0].0), write_word_spec(ws[0].1)), ws.drop_first())
    }
}

impl Hashable for TxnResult {
    /// The digest of a result: its status, its writes and its event
    /// count folded together; a skipped index hashes to zero.
    open spec fn hash_spec(&self) -> HashValue {
        match *self {
            TxnResult::Committed { writes, events, status } => HashValue {
                value: mix_spec(
                    hash_writes_spec(mix_spec(1, status_word_spec(status)), writes@),
                    events@.len() as u64,
                ),
            },
            TxnResult::Skipped => HashValue { value: 0 },
        }
    }

    fn hash(&self) -> (h: HashValue) {
        match self {
            TxnResult::Committed { writes, events, status } => {
                let sw: u64 = match status {
                    VmStatus::Success => 1,
                    VmStatus::UserAbort => 2,
                    VmStatus::Halt => 3,
                    VmStatus::FatalError => 4,
                };
                let mut acc = mix(1, sw);
                let ghost ws = writes@;
                let ghost acc0 = acc;
                let mut i: usize = 0;
                proof {
                    assert(ws.skip(0) =~= ws);
                }
                while i < writes.len()
                    invariant
                        i <= ws.len(),
                        writes@ == ws,
                        hash_writes_spec(acc, ws.skip(i as int)) == hash_writes_spec(acc0, ws),
                    decreases ws.len() - i,
                {
                    let (k, op) = writes[i];
                    let ww: u64 = match op {
                        WriteOp::Put(v) => v,
                        WriteOp::Delete => 0,
                    };
                    proof {
                        assert(ws.skip(i as int).drop_first() =~= ws.skip(i as int + 1));
                        assert(ws.skip(i as int)[0] == ws[i as int]);
                    }
                    acc = mix(mix(acc, k), ww);
                    i = i + 1;
                }
                proof {
                    assert(ws.skip(ws.len() as int) =~= Seq::<(u64, WriteOp)>::empty());
                }
                HashValue { value: mix(acc, events.len() as u64) }
            },
            TxnResult::Skipped => HashValue { value: 0 },
        }
    }
}

} // verus!
