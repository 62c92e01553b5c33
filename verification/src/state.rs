//! A key-value state map with a mathematical `Map` view.
//!
//! The engine uses it for the base state of a block and for the committed
//! state that the finalizer maintains. It is kept as a log of bindings and
//! tombstones; the view folds the log so that the latest binding for a key
//! wins.

use vstd::prelude::*;

verus! {

/// The map a binding log denotes: later entries win, a `None` entry
/// removes the key.
pub open spec fn log_view(s: Seq<(u64, Option<u64>)>) -> Map<u64, u64>
    decreases s.len(),
{
    if s.len() == 0 {
        Map::empty()
    } else {
        let m = log_view(s.drop_last());
        match s.last().1 {
            Some(x) => m.insert(s.last().0, x),
            None => m.remove(s.last().0),
        }
    }
}

/// A key-value map over `u64` keys and values, with deletion.
pub struct StateMap {
    log: Vec<(u64, Option<u64>)>,
}

impl StateMap {
    /// The mathematical map this state denotes.
    pub closed spec fn view(&self) -> Map<u64, u64> {
        log_view(self.log@)
    }

    /// An empty state.
    pub fn new() -> (r: Self)
        ensures
            r@ == Map::<u64, u64>::empty(),
    {
        StateMap { log: Vec::new() }
    }

    /// Binds `k` to `v`, replacing any earlier binding.
    pub fn insert(&mut self, k: u64, v: u64)
        ensures
            final(self)@ == old(self)@.insert(k, v),
    {
        self.log.push((k, Some(v)));
        proof {
            assert(self.log@.drop_last() =~= old(self).log@);
        }
    }

    /// Removes any binding of `k`.
    pub fn remove(&mut self, k: u64)
        ensures
            final(self)@ == old(self)@.remove(k),
    {
        self.log.push((k, None));
        proof {
            assert(self.log@.drop_last() =~= old(self).log@);
        }
    }

    /// The current binding of `k`, or `None` when the key is absent.
    pub fn get(&self, k: u64) -> (r: Option<u64>)
        ensures
            r == if self@.dom().contains(k) {
                Some(self@[k])
            } else {
                None::<u64>
            },
    {
        let ghost full = self.log@;
        let mut i: usize = self.log.len();
        proof {
            assert(full.subrange(0, i as int) =~= full);
        }
        while i > 0
            invariant
                i <= self.log@.len(),
                self.log@ == full,
                log_view(full).dom().contains(k) == log_view(full.subrange(0, i as int)).dom().contains(k),
                log_view(full).dom().contains(k) ==> log_view(full)[k] == log_view(
                    full.subrange(0, i as int),
                )[k],
            decreases i,
        {
            let ghost pre = full.subrange(0, i as int);
            proof {
                assert(pre.drop_last() =~= full.subrange(0, i as int - 1));
                assert(pre.last() == full[i as int - 1]);
            }
            let (ek, ev) = self.log[i - 1];
            if ek == k {
                match ev {
                    Some(x) => {
                        return Some(x);
                    },
                    None => {
                        return None;
                    },
                }
            }
            i = i - 1;
        }
        proof {
            assert(full.subrange(0, 0) =~= Seq::<(u64, Option<u64>)>::empty());
        }
        None
    }

    /// A copy denoting the same map.
    pub fn duplicate(&self) -> (r: Self)
        ensures
            r@ == self@,
    {
        let r = StateMap { log: crate::transaction::copy_vec(&self.log) };
        r
    }
}

} // verus!
