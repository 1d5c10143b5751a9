//! The log of operations. Records are added at the end and never changed;
//! the oldest leave first.

use crate::models::log::{OperationLog, OperationLogView};
use crate::repository::model::AppConfigView;
use crate::repository::store::DataStore;
use vstd::prelude::*;

verus! {

/// How many records the log keeps.
pub const MAX_LOGS: usize = 1000;

/// The last `n` of `records`, or all of them where there are no more than
/// `n`.
pub open spec fn keep_last<T>(records: Seq<T>, n: nat) -> Seq<T> {
    if records.len() <= n {
        records
    } else {
        records.skip(records.len() - n)
    }
}

/// The records that a reader asked for: the most recent `limit`, or all.
pub open spec fn recent(records: Seq<OperationLogView>, limit: Option<usize>) -> Seq<
    OperationLogView,
> {
    match limit {
        Some(n) => keep_last(records, n as nat),
        None => records,
    }
}

impl DataStore {
    /// Copies of the most recent `limit` records, oldest first; of all
    /// records where no limit is given.
    pub fn get_logs(&self, limit: Option<usize>) -> (logs: Vec<OperationLog>)
        ensures
            logs.deep_view() == recent(self@.logs, limit),
    {
        let all = &self.config().logs;
        let start: usize = match limit {
            Some(n) => if all.len() <= n {
                0
            } else {
                all.len() - n
            },
            None => 0,
        };
        let mut logs: Vec<OperationLog> = Vec::new();
        let mut i: usize = start;
        while i < all.len()
            invariant
                start <= i <= all.len(),
                logs.len() == i - start,
                forall|k: int| 0 <= k < logs.len() ==> (#[trigger] logs@[k])@ == all@[start + k]@,
            decreases all.len() - i,
        {
            logs.push(all[i].clone());
            i = i + 1;
        }
        proof {
            assert(logs.deep_view() =~= all.deep_view().skip(start as int));
            assert(all.deep_view().skip(0) =~= all.deep_view());
        }
        logs
    }

    /// Adds `entry` at the end of the log. Where the log then holds more
    /// than `MAX_LOGS` records, the oldest leave.
    pub fn add_log(&mut self, entry: OperationLog)
        ensures
            final(self)@ == (AppConfigView {
                logs: keep_last(old(self)@.logs.push(entry@), MAX_LOGS as nat),
                ..old(self)@
            }),
    {
        let mut config = self.take();
        let ghost before = config.logs.deep_view();
        let ghost all = before.push(entry@);
        config.logs.push(entry);
        assert(config.logs.deep_view() =~= all);
        assert(all.skip(0) =~= all);
        while config.logs.len() > MAX_LOGS
            invariant
                config.logs@.len() <= all.len(),
                config.logs@.len() == all.len() || config.logs@.len() >= MAX_LOGS,
                config.logs.deep_view() == all.skip(all.len() - config.logs@.len()),
                config@ == (AppConfigView { logs: config.logs.deep_view(), ..old(self)@ }),
            decreases config.logs.len(),
        {
            let ghost held = config.logs.deep_view();
            config.logs.remove(0);
            proof {
                assert(config.logs.deep_view() =~= held.remove(0));
                assert(held.remove(0) =~= all.skip(all.len() - config.logs@.len()));
            }
        }
        self.put(config);
    }

    /// Empties the log.
    pub fn clear_logs(&mut self)
        ensures
            final(self)@ == (AppConfigView { logs: Seq::empty(), ..old(self)@ }),
    {
        let mut config = self.take();
        config.logs = Vec::new();
        assert(config.logs.deep_view() =~= Seq::empty());
        self.put(config);
    }
}

} // verus!
