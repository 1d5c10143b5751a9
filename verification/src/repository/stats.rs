//! Figures on the store: how many accounts, how many operations of which
//! outcome.

use crate::models::account::{AccountStatus, AccountView};
use crate::models::log::{OperationLogView, OperationStatus, OperationType};
use crate::repository::store::DataStore;
use vstd::prelude::*;

verus! {

/// Figures on the store. A rate is the share of one count in another; it is
/// left to the reader of the counts.
#[derive(Clone, Copy, Debug, PartialEq, Eq, Structural)]
pub struct StoreStats {
    pub total_accounts: usize,
    pub active_accounts: usize,
    pub total_operations: usize,
    pub successful_operations: usize,
    pub failed_operations: usize,
    pub total_resets: usize,
    pub successful_resets: usize,
    pub failed_resets: usize,
    /// When the last operation in the log took place.
    pub last_operation: Option<i64>,
    pub groups: usize,
}

/// How many accounts are in use.
pub open spec fn count_active(accounts: Seq<AccountView>) -> nat
    decreases accounts.len(),
{
    if accounts.len() == 0 {
        0
    } else {
        count_active(accounts.drop_last()) + if accounts.last().status == AccountStatus::Active {
            1nat
        } else {
            0nat
        }
    }
}

/// Whether a record counts: `reset_only` leaves out all but the resets of
/// credits, and `status`, where given, all with another status.
pub open spec fn log_counts(log: OperationLogView, reset_only: bool, status: Option<OperationStatus>) -> bool {
    &&& reset_only ==> log.operation_type == OperationType::ResetCredits
    &&& status matches Some(wanted) ==> log.status == wanted
}

/// How many records count.
pub open spec fn count_logs(
    logs: Seq<OperationLogView>,
    reset_only: bool,
    status: Option<OperationStatus>,
) -> nat
    decreases logs.len(),
{
    if logs.len() == 0 {
        0
    } else {
        count_logs(logs.drop_last(), reset_only, status) + if log_counts(
            logs.last(),
            reset_only,
            status,
        ) {
            1nat
        } else {
            0nat
        }
    }
}

impl DataStore {
    /// Counts the accounts, the groups and the operations in the log: all
    /// operations and the resets of credits, each in total, with success and
    /// with failure. A reset counts as failed where it did not succeed.
    pub fn get_stats(&self) -> (stats: StoreStats)
        ensures
            stats.total_accounts == self@.accounts.len(),
            stats.active_accounts == count_active(self@.accounts),
            stats.total_operations == self@.logs.len(),
            stats.successful_operations == count_logs(
                self@.logs,
                false,
                Some(OperationStatus::Success),
            ),
            stats.failed_operations == count_logs(self@.logs, false, Some(OperationStatus::Failed)),
            stats.total_resets == count_logs(self@.logs, true, None),
            stats.successful_resets == count_logs(self@.logs, true, Some(OperationStatus::Success)),
            stats.failed_resets == stats.total_resets - stats.successful_resets,
            stats.last_operation == (if self@.logs.len() == 0 {
                None
            } else {
                Some(self@.logs.last().timestamp)
            }),
            stats.groups == self@.groups.len(),
    {
        let config = self.config();
        let ghost accounts = config.accounts.deep_view();
        let ghost logs = config.logs.deep_view();
        let mut active: usize = 0;
        let mut i: usize = 0;
        while i < config.accounts.len()
            invariant
                i <= config.accounts.len(),
                accounts == config.accounts.deep_view(),
                active == count_active(accounts.take(i as int)),
                active <= i,
            decreases config.accounts.len() - i,
        {
            proof {
                let next = accounts.take(i as int + 1);
                assert(next.drop_last() =~= accounts.take(i as int));
                assert(next.last() == config.accounts@[i as int]@);
            }
            match config.accounts[i].status {
                AccountStatus::Active => {
                    active = active + 1;
                },
                AccountStatus::Disabled => {},
            }
            i = i + 1;
        }
        let mut successful: usize = 0;
        let mut failed: usize = 0;
        let mut resets: usize = 0;
        let mut successful_resets: usize = 0;
        let mut k: usize = 0;
        while k < config.logs.len()
            invariant
                k <= config.logs.len(),
                logs == config.logs.deep_view(),
                successful == count_logs(logs.take(k as int), false, Some(OperationStatus::Success)),
                failed == count_logs(logs.take(k as int), false, Some(OperationStatus::Failed)),
                resets == count_logs(logs.take(k as int), true, None),
                successful_resets == count_logs(
                    logs.take(k as int),
                    true,
                    Some(OperationStatus::Success),
                ),
                successful <= k,
                failed <= k,
                successful_resets <= resets <= k,
            decreases config.logs.len() - k,
        {
            proof {
                let next = logs.take(k as int + 1);
                assert(next.drop_last() =~= logs.take(k as int));
                assert(next.last() == config.logs@[k as int]@);
            }
            let log = &config.logs[k];
            let is_reset = match log.operation_type {
                OperationType::ResetCredits => true,
                _ => false,
            };
            match log.status {
                OperationStatus::Success => {
                    successful = successful + 1;
                    if is_reset {
                        successful_resets = successful_resets + 1;
                    }
                },
                OperationStatus::Failed => {
                    failed = failed + 1;
                },
                _ => {},
            }
            if is_reset {
                resets = resets + 1;
            }
            k = k + 1;
        }
        proof {
            assert(accounts.take(config.accounts.len() as int) =~= accounts);
            assert(logs.take(config.logs.len() as int) =~= logs);
        }
        let last_operation = if config.logs.len() == 0 {
            None
        } else {
            Some(config.logs[config.logs.len() - 1].timestamp)
        };
        StoreStats {
            total_accounts: config.accounts.len(),
            active_accounts: active,
            total_operations: config.logs.len(),
            successful_operations: successful,
            failed_operations: failed,
            total_resets: resets,
            successful_resets,
            failed_resets: resets - successful_resets,
            last_operation,
            groups: config.groups.len(),
        }
    }
}

} // verus!
