use creditchain_core::coins::AccountAddress;
use creditchain_core::coins::CoinModule;
use creditchain_core::coins::CoinType;
use creditchain_core::coins::CreditChainCoinType;
use creditchain_core::coins::DummyCoinType;
use creditchain_core::errors::CreditChainDbError;
use creditchain_core::flags::FeatureFlag;
use creditchain_core::flags::Features;
use creditchain_core::mv_store::MvReadResult;
use creditchain_core::mv_store::MvStore;
use creditchain_core::mv_store::VersionEntry;
use creditchain_core::observability::LogEvent;
use creditchain_core::pipeline::Hashable;
use creditchain_core::scheduler::Phase;
use creditchain_core::scheduler::Scheduler;
use creditchain_core::scheduler::Task;
use creditchain_core::state::StateMap;
use creditchain_core::transaction::TxnResult;
use creditchain_core::transaction::VmStatus;
use creditchain_core::transaction::WriteOp;

#[test]
fn state_map_basic_operations() {
    let mut s = StateMap::new();
    assert_eq!(s.get(1), None);
    s.insert(1, 10);
    s.insert(2, 20);
    assert_eq!(s.get(1), Some(10));
    assert_eq!(s.get(2), Some(20));
    s.insert(1, 11);
    assert_eq!(s.get(1), Some(11));
    s.remove(2);
    assert_eq!(s.get(2), None);
    let d = s.duplicate();
    assert_eq!(d.get(1), Some(11));
    assert_eq!(d.get(2), None);
}

#[test]
fn mv_store_read_sees_greatest_lower_index() {
    let mut m = MvStore::new();
    m.publish(5, 1, 0, VersionEntry::Concrete(WriteOp::Put(100)));
    m.publish(5, 3, 0, VersionEntry::Concrete(WriteOp::Put(300)));
    // A reader at index 2 sees the write of index 1, not index 3.
    assert_eq!(m.read(5, 2), MvReadResult::Resolved(Some(100)));
    // A reader at index 4 sees the write of index 3.
    assert_eq!(m.read(5, 4), MvReadResult::Resolved(Some(300)));
    // A reader at index 1 sees nothing: its own index does not count.
    assert_eq!(m.read(5, 1), MvReadResult::FromBase);
}

#[test]
fn mv_store_estimate_signals_dependency() {
    let mut m = MvStore::new();
    m.mark_estimate(5, 2, 0);
    assert_eq!(m.read(5, 4), MvReadResult::Dependency(2));
    // Publishing the real write clears the dependency.
    m.publish(5, 2, 1, VersionEntry::Concrete(WriteOp::Put(9)));
    assert_eq!(m.read(5, 4), MvReadResult::Resolved(Some(9)));
}

#[test]
fn mv_store_folds_deltas() {
    let mut m = MvStore::new();
    m.publish(5, 1, 0, VersionEntry::Concrete(WriteOp::Put(10)));
    m.publish(5, 2, 0, VersionEntry::DeltaAdd(4));
    m.publish(5, 3, 0, VersionEntry::DeltaAdd(6));
    assert_eq!(m.read(5, 4), MvReadResult::Resolved(Some(20)));
    // Deltas with no concrete write below fall through to the base.
    let mut m2 = MvStore::new();
    m2.publish(5, 1, 0, VersionEntry::DeltaAdd(4));
    assert_eq!(m2.read(5, 2), MvReadResult::BaseDeltas(4));
    // A deletion under a delta counts as zero.
    let mut m3 = MvStore::new();
    m3.publish(5, 1, 0, VersionEntry::Concrete(WriteOp::Delete));
    m3.publish(5, 2, 0, VersionEntry::DeltaAdd(4));
    assert_eq!(m3.read(5, 3), MvReadResult::Resolved(Some(4)));
    assert_eq!(m3.read(5, 2), MvReadResult::Resolved(None));
}

#[test]
fn mv_store_remove_entry_clears_record() {
    let mut m = MvStore::new();
    m.publish(5, 1, 0, VersionEntry::Concrete(WriteOp::Put(10)));
    m.remove_entry(5, 1);
    assert_eq!(m.read(5, 2), MvReadResult::FromBase);
}

#[test]
fn scheduler_prefers_lowest_index_and_locks_it() {
    let mut s = Scheduler::new(3);
    // The lowest pending index is handed out first, at incarnation 0.
    assert_eq!(s.next_task(), Task::Execute(0, 0));
    // Index 0 is now executing, so the next hand-out is index 1: no
    // index is executed concurrently more than once.
    assert_eq!(s.next_task(), Task::Execute(1, 0));
    s.finish_execution(0);
    s.finish_execution(1);
    assert_eq!(s.next_task(), Task::Execute(2, 0));
    s.finish_execution(2);
    // With nothing pending, validations are handed out, lowest first.
    assert_eq!(s.next_task(), Task::Validate(0, 0));
}

#[test]
fn scheduler_failed_validation_increments_incarnation() {
    let mut s = Scheduler::new(2);
    assert_eq!(s.next_task(), Task::Execute(0, 0));
    s.finish_execution(0);
    // Monotonic incarnations: the failed validation re-queues index 0
    // at exactly the next incarnation.
    s.finish_validation(0, false);
    assert_eq!(s.get_state(0).incarnation, 1);
    assert_eq!(s.get_state(0).phase, Phase::PendingExecution);
    assert_eq!(s.next_task(), Task::Execute(0, 1));
    s.finish_execution(0);
    s.finish_validation(0, true);
    assert_eq!(s.get_state(0).incarnation, 1);
    assert!(s.get_state(0).validated);
}

#[test]
fn scheduler_dependency_abort_keeps_incarnation() {
    let mut s = Scheduler::new(1);
    assert_eq!(s.next_task(), Task::Execute(0, 0));
    s.abort_execution(0);
    assert_eq!(s.get_state(0).incarnation, 0);
    assert_eq!(s.next_task(), Task::Execute(0, 0));
}

#[test]
fn scheduler_reports_done_when_all_committed() {
    let mut s = Scheduler::new(2);
    s.set_committed(0);
    assert!(matches!(s.next_task(), Task::Execute(1, 0)));
    s.finish_execution(1);
    s.finish_validation(1, true);
    s.set_committed(1);
    assert_eq!(s.next_task(), Task::Done);
}

fn has(v: &Vec<FeatureFlag>, f: FeatureFlag) -> bool {
    v.iter().any(|x| *x == f)
}

#[test]
fn features_empty_and_is_empty() {
    let f = Features::empty();
    assert!(f.is_empty());
    let g = Features { enabled: vec![FeatureFlag::ModuleEvent], disabled: vec![] };
    assert!(!g.is_empty());
}

#[test]
fn features_squash_set_semantics() {
    let mut f = Features {
        enabled: vec![FeatureFlag::ModuleEvent, FeatureFlag::ResourceGroups],
        disabled: vec![FeatureFlag::JwkConsensus],
    };
    let rhs = Features {
        enabled: vec![FeatureFlag::JwkConsensus],
        disabled: vec![FeatureFlag::ResourceGroups, FeatureFlag::KeylessAccounts],
    };
    f.squash(rhs);
    // Enabled: what was or became enabled, minus what the newer proposal
    // disables.
    assert!(has(&f.enabled, FeatureFlag::ModuleEvent));
    assert!(has(&f.enabled, FeatureFlag::JwkConsensus));
    assert!(!has(&f.enabled, FeatureFlag::ResourceGroups));
    assert!(!has(&f.enabled, FeatureFlag::KeylessAccounts));
    // Disabled: what the newer proposal disables, plus what stayed
    // disabled.
    assert!(has(&f.disabled, FeatureFlag::ResourceGroups));
    assert!(has(&f.disabled, FeatureFlag::KeylessAccounts));
    assert!(!has(&f.disabled, FeatureFlag::JwkConsensus));
    assert!(!has(&f.disabled, FeatureFlag::ModuleEvent));
}

#[test]
fn db_error_classification() {
    let e = CreditChainDbError::NotFound(String::from("state value"));
    assert!(e.is_not_found());
    let o = CreditChainDbError::TooManyRequested(10, 5);
    assert!(!o.is_not_found());
    match o {
        CreditChainDbError::TooManyRequested(req, max) => {
            assert_eq!(req, 10);
            assert_eq!(max, 5);
        },
        _ => panic!("wrong variant"),
    }
}

#[test]
fn coin_types_name_their_modules() {
    let t = CreditChainCoinType::type_tag();
    assert_eq!(t.address, AccountAddress { value: 1 });
    assert_eq!(t.module, CoinModule::CreditChainCoin);
    let d = DummyCoinType::type_tag();
    assert_eq!(d.module, CoinModule::DummyCoin);
    assert_eq!(CreditChainCoinType::coin_info_address(), AccountAddress { value: 1 });
    assert_eq!(DummyCoinType::coin_info_address(), AccountAddress { value: 1 });
}

#[test]
fn log_events_compare() {
    assert_eq!(LogEvent::EpochStart, LogEvent::EpochStart);
    assert_ne!(LogEvent::Vote, LogEvent::ReceiveVote);
}

#[test]
fn equal_results_hash_alike() {
    let a = TxnResult::Committed {
        writes: vec![(1, WriteOp::Put(5)), (2, WriteOp::Delete)],
        events: vec![7],
        status: VmStatus::Success,
    };
    let b = TxnResult::Committed {
        writes: vec![(1, WriteOp::Put(5)), (2, WriteOp::Delete)],
        events: vec![7],
        status: VmStatus::Success,
    };
    let c = TxnResult::Committed {
        writes: vec![(1, WriteOp::Put(6)), (2, WriteOp::Delete)],
        events: vec![7],
        status: VmStatus::Success,
    };
    assert_eq!(a.hash(), b.hash());
    assert_ne!(a.hash(), c.hash());
    assert_eq!(TxnResult::Skipped.hash().value, 0);
}
