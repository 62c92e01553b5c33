use creditchain_core::executor::execute_block;
use creditchain_core::sequential::execute_block_sequential;
use creditchain_core::state::StateMap;
use creditchain_core::transaction::Transaction;
use creditchain_core::transaction::TxnResult;
use creditchain_core::transaction::ValueExpr;
use creditchain_core::transaction::VmStatus;
use creditchain_core::transaction::WriteCmd;
use creditchain_core::transaction::WriteOp;
use creditchain_core::transaction::wrap_add;
use creditchain_core::transaction::execute_transaction;

fn plain_txn() -> Transaction {
    Transaction {
        reads: Vec::new(),
        writes: Vec::new(),
        deltas: Vec::new(),
        events: Vec::new(),
        status: VmStatus::Success,
        infallible: false,
    }
}

fn committed_writes(r: &TxnResult) -> Vec<(u64, WriteOp)> {
    match r {
        TxnResult::Committed { writes, .. } => writes.clone(),
        TxnResult::Skipped => panic!("expected a committed result"),
    }
}

fn committed_events(r: &TxnResult) -> Vec<u64> {
    match r {
        TxnResult::Committed { events, .. } => events.clone(),
        TxnResult::Skipped => panic!("expected a committed result"),
    }
}

fn is_skipped(r: &TxnResult) -> bool {
    matches!(r, TxnResult::Skipped)
}

fn same_results(a: &Vec<TxnResult>, b: &Vec<TxnResult>) -> bool {
    if a.len() != b.len() {
        return false;
    }
    for i in 0..a.len() {
        let same = match (&a[i], &b[i]) {
            (
                TxnResult::Committed { writes: w1, events: e1, status: s1 },
                TxnResult::Committed { writes: w2, events: e2, status: s2 },
            ) => w1 == w2 && e1 == e2 && s1 == s2,
            (TxnResult::Skipped, TxnResult::Skipped) => true,
            _ => false,
        };
        if !same {
            return false;
        }
    }
    true
}

#[test]
fn scenario_lower_writer_unaffected_by_higher() {
    // One key written by transactions 0 and 2, read by transaction 1:
    // transaction 1 commits on the first try, unaffected by transaction 2.
    let k: u64 = 10;
    let l: u64 = 20;
    let mut t0 = plain_txn();
    t0.writes = vec![(k, WriteCmd::Put(ValueExpr::Lit(7)))];
    let mut t1 = plain_txn();
    t1.reads = vec![k];
    t1.writes = vec![(l, WriteCmd::Put(ValueExpr::ReadVal(0)))];
    let mut t2 = plain_txn();
    t2.writes = vec![(k, WriteCmd::Put(ValueExpr::Lit(9)))];
    let txns = vec![t0, t1, t2];
    let mut base = StateMap::new();
    base.insert(k, 1);

    let out = execute_block(&txns, &base, 1).unwrap();
    assert_eq!(out.incarnations, vec![0, 0, 0]);
    assert_eq!(committed_writes(&out.results[1]), vec![(l, WriteOp::Put(7))]);

    // The committed output is the same under any worker count.
    let seq = execute_block_sequential(&txns, &base).unwrap();
    assert!(same_results(&out.results, &seq));
    let out4 = execute_block(&txns, &base, 4).unwrap();
    assert!(same_results(&out4.results, &seq));
    assert_eq!(committed_writes(&out4.results[1]), vec![(l, WriteOp::Put(7))]);
}

#[test]
fn scenario_read_before_publish_reexecutes() {
    // Transaction 1 reads the key before transaction 0 publishes: it is
    // re-executed at least once and its final value reflects 0's write.
    let k: u64 = 1;
    let l: u64 = 2;
    let mut t0 = plain_txn();
    t0.writes = vec![(k, WriteCmd::Put(ValueExpr::Lit(5)))];
    let mut t1 = plain_txn();
    t1.reads = vec![k];
    t1.writes = vec![(l, WriteCmd::Put(ValueExpr::ReadVal(0)))];
    let txns = vec![t0, t1];
    let base = StateMap::new();

    let out = execute_block(&txns, &base, 4).unwrap();
    assert!(out.incarnations[1] >= 1);
    assert_eq!(committed_writes(&out.results[1]), vec![(l, WriteOp::Put(5))]);

    let seq = execute_block_sequential(&txns, &base).unwrap();
    assert!(same_results(&out.results, &seq));
}

#[test]
fn scenario_halt_truncates_block() {
    // Transaction 5 halts: indices 0..=5 commit normally, the rest are
    // reported as skipped.
    let mut txns = Vec::new();
    for i in 0..8u64 {
        let mut t = plain_txn();
        t.writes = vec![(100 + i, WriteCmd::Put(ValueExpr::Lit(i)))];
        if i == 5 {
            t.status = VmStatus::Halt;
        }
        txns.push(t);
    }
    let base = StateMap::new();
    let out = execute_block(&txns, &base, 3).unwrap();
    assert_eq!(out.results.len(), 8);
    for i in 0..6 {
        assert_eq!(committed_writes(&out.results[i]), vec![(100 + i as u64, WriteOp::Put(i as u64))]);
    }
    assert!(is_skipped(&out.results[6]));
    assert!(is_skipped(&out.results[7]));

    let seq = execute_block_sequential(&txns, &base).unwrap();
    assert!(same_results(&out.results, &seq));
}

#[test]
fn scenario_delta_aggregate_without_conflicts() {
    // Ten transactions each add 1 to a shared aggregate through delayed
    // deltas and none reads the concrete sum: no conflicts at all, and
    // the resolved sum is 10.
    let k: u64 = 77;
    let mut txns = Vec::new();
    for _ in 0..10 {
        let mut t = plain_txn();
        t.deltas = vec![(k, 1)];
        txns.push(t);
    }
    let base = StateMap::new();
    let out = execute_block(&txns, &base, 4).unwrap();
    assert_eq!(out.incarnations, vec![0; 10]);
    for i in 0..10 {
        assert_eq!(committed_writes(&out.results[i]), vec![(k, WriteOp::Put(i as u64 + 1))]);
    }
    assert_eq!(committed_writes(&out.results[9]), vec![(k, WriteOp::Put(10))]);

    let seq = execute_block_sequential(&txns, &base).unwrap();
    assert!(same_results(&out.results, &seq));
}

#[test]
fn equivalence_under_conflicts() {
    // A chain of dependent counters: each transaction reads the previous
    // key and writes its successor one more. Any worker count commits
    // the same output as sequential execution.
    let n = 12u64;
    let mut txns = Vec::new();
    for i in 0..n {
        let mut t = plain_txn();
        t.reads = vec![i];
        t.writes = vec![(i + 1, WriteCmd::Put(ValueExpr::ReadPlus(0, 1)))];
        t.events = vec![i];
        txns.push(t);
    }
    let mut base = StateMap::new();
    base.insert(0, 100);
    let seq = execute_block_sequential(&txns, &base).unwrap();
    for workers in [1usize, 2, 3, 8] {
        let out = execute_block(&txns, &base, workers).unwrap();
        assert!(same_results(&out.results, &seq));
    }
    assert_eq!(
        committed_writes(&seq[11]),
        vec![(12, WriteOp::Put(112))]
    );
    assert_eq!(committed_events(&seq[3]), vec![3]);
}

#[test]
fn fatal_on_infallible_aborts_block() {
    let mut txns = Vec::new();
    for _ in 0..4 {
        txns.push(plain_txn());
    }
    txns[2].status = VmStatus::FatalError;
    txns[2].infallible = true;
    let base = StateMap::new();
    let err = execute_block(&txns, &base, 2).unwrap_err();
    assert_eq!(err.index, 2);
    let err_seq = execute_block_sequential(&txns, &base).unwrap_err();
    assert_eq!(err_seq.index, 2);
}

#[test]
fn fatal_on_fallible_commits_empty_output() {
    let mut txns = vec![plain_txn(), plain_txn()];
    txns[1].status = VmStatus::FatalError;
    txns[1].writes = vec![(5, WriteCmd::Put(ValueExpr::Lit(1)))];
    txns[1].events = vec![9];
    let base = StateMap::new();
    let out = execute_block(&txns, &base, 2).unwrap();
    assert_eq!(committed_writes(&out.results[1]), Vec::new());
    assert_eq!(committed_events(&out.results[1]), Vec::new());
}

#[test]
fn user_abort_commits_without_effects() {
    let k: u64 = 3;
    let mut txns = vec![plain_txn(), plain_txn(), plain_txn()];
    txns[1].status = VmStatus::UserAbort;
    txns[1].writes = vec![(k, WriteCmd::Put(ValueExpr::Lit(50)))];
    txns[2].reads = vec![k];
    txns[2].writes = vec![(9, WriteCmd::Put(ValueExpr::ReadVal(0)))];
    let mut base = StateMap::new();
    base.insert(k, 4);
    let out = execute_block(&txns, &base, 2).unwrap();
    assert_eq!(committed_writes(&out.results[1]), Vec::new());
    // The aborted write never became visible: transaction 2 sees the base value.
    assert_eq!(committed_writes(&out.results[2]), vec![(9, WriteOp::Put(4))]);
}

#[test]
fn halt_below_fatal_skips_the_fatal_index() {
    let mut txns = vec![plain_txn(), plain_txn(), plain_txn(), plain_txn()];
    txns[1].status = VmStatus::Halt;
    txns[3].status = VmStatus::FatalError;
    txns[3].infallible = true;
    let base = StateMap::new();
    let out = execute_block(&txns, &base, 2).unwrap();
    assert!(is_skipped(&out.results[3]));
}

#[test]
fn delete_then_read_sees_absence() {
    let k: u64 = 8;
    let l: u64 = 9;
    let mut t0 = plain_txn();
    t0.writes = vec![(k, WriteCmd::Delete)];
    let mut t1 = plain_txn();
    t1.reads = vec![k];
    t1.writes = vec![(l, WriteCmd::Put(ValueExpr::ReadPlus(0, 4)))];
    let txns = vec![t0, t1];
    let mut base = StateMap::new();
    base.insert(k, 33);
    let out = execute_block(&txns, &base, 1).unwrap();
    // The deleted key reads as absent, which counts as 0.
    assert_eq!(committed_writes(&out.results[1]), vec![(l, WriteOp::Put(4))]);
}

#[test]
fn reexecution_with_same_reads_is_byte_identical() {
    // Idempotence of re-execution: the same transaction evaluated twice
    // against the same read values yields identical outputs.
    let mut t = plain_txn();
    t.reads = vec![1, 2];
    t.writes = vec![
        (3, WriteCmd::Put(ValueExpr::ReadPlus(0, 10))),
        (4, WriteCmd::Put(ValueExpr::ReadVal(1))),
        (5, WriteCmd::Delete),
    ];
    t.deltas = vec![(6, 2)];
    let vals = vec![Some(7u64), None];
    let out1 = execute_transaction(&t, &vals);
    let out2 = execute_transaction(&t, &vals);
    assert_eq!(out1.writes, out2.writes);
    assert_eq!(out1.deltas, out2.deltas);
    assert_eq!(out1.events, out2.events);
    assert_eq!(out1.writes, vec![
        (3, WriteOp::Put(17)),
        (4, WriteOp::Put(0)),
        (5, WriteOp::Delete),
    ]);
}

#[test]
fn empty_block_commits_nothing() {
    let txns: Vec<Transaction> = Vec::new();
    let base = StateMap::new();
    let out = execute_block(&txns, &base, 3).unwrap();
    assert_eq!(out.results.len(), 0);
    assert_eq!(out.incarnations.len(), 0);
    let seq = execute_block_sequential(&txns, &base).unwrap();
    assert_eq!(seq.len(), 0);
}

#[test]
fn duplicate_writes_to_one_key_last_wins() {
    let k: u64 = 4;
    let mut t0 = plain_txn();
    t0.writes = vec![
        (k, WriteCmd::Put(ValueExpr::Lit(1))),
        (k, WriteCmd::Put(ValueExpr::Lit(2))),
    ];
    let mut t1 = plain_txn();
    t1.reads = vec![k];
    t1.writes = vec![(5, WriteCmd::Put(ValueExpr::ReadVal(0)))];
    let txns = vec![t0, t1];
    let base = StateMap::new();
    let out = execute_block(&txns, &base, 2).unwrap();
    assert_eq!(
        committed_writes(&out.results[0]),
        vec![(k, WriteOp::Put(1)), (k, WriteOp::Put(2))]
    );
    assert_eq!(committed_writes(&out.results[1]), vec![(5, WriteOp::Put(2))]);
}

#[test]
fn halt_at_first_index_skips_the_rest() {
    let mut txns = vec![plain_txn(), plain_txn(), plain_txn()];
    txns[0].status = VmStatus::Halt;
    txns[0].writes = vec![(1, WriteCmd::Put(ValueExpr::Lit(9)))];
    let base = StateMap::new();
    let out = execute_block(&txns, &base, 2).unwrap();
    assert_eq!(committed_writes(&out.results[0]), vec![(1, WriteOp::Put(9))]);
    assert!(is_skipped(&out.results[1]));
    assert!(is_skipped(&out.results[2]));
}

#[test]
fn wrap_add_wraps() {
    assert_eq!(wrap_add(2, 3), 5);
    assert_eq!(wrap_add(u64::MAX, 1), 0);
    assert_eq!(wrap_add(u64::MAX, 5), 4);
    assert_eq!(wrap_add(0, 0), 0);
}

#[test]
fn delta_wraps_modulo() {
    let k: u64 = 1;
    let mut t0 = plain_txn();
    t0.deltas = vec![(k, 3)];
    let txns = vec![t0];
    let mut base = StateMap::new();
    base.insert(k, u64::MAX);
    let out = execute_block(&txns, &base, 1).unwrap();
    assert_eq!(committed_writes(&out.results[0]), vec![(k, WriteOp::Put(2))]);
}
