//! The log of operations.

use crate::outside::{current_millis, is_random_uuid, random_uuid};
use vstd::prelude::*;
use vstd::string::StringExecFns;

verus! {

/// What an operation did.
#[derive(Clone, Copy, Debug, PartialEq, Eq, Structural)]
pub enum OperationType {
    Login,
    RefreshToken,
    ResetCredits,
    UpdateSeats,
    GetBilling,
    UpdatePlan,
    GetAccountInfo,
    AddAccount,
    DeleteAccount,
    EditAccount,
    BatchOperation,
}

/// How an operation ended, or how far it has come.
#[derive(Clone, Copy, Debug, PartialEq, Eq, Structural)]
pub enum OperationStatus {
    Success,
    Failed,
    Pending,
    Processing,
}

/// The record of one operation. A record does not change once it is in the
/// log.
#[derive(Debug, PartialEq, Eq)]
pub struct OperationLog {
    /// The record's identifier: the 128 bits of a UUID.
    pub id: u128,
    /// Milliseconds since the epoch.
    pub timestamp: i64,
    pub account_id: Option<u128>,
    pub account_email: Option<String>,
    pub operation_type: OperationType,
    pub status: OperationStatus,
    pub message: String,
    /// Structured detail, carried as it was given.
    pub details: Option<serde_json::Value>,
}

/// A record as plain values.
pub struct OperationLogView {
    pub id: u128,
    pub timestamp: i64,
    pub account_id: Option<u128>,
    pub account_email: Option<Seq<char>>,
    pub operation_type: OperationType,
    pub status: OperationStatus,
    pub message: Seq<char>,
    pub details: Option<serde_json::Value>,
}

impl View for OperationLog {
    type V = OperationLogView;

    open spec fn view(&self) -> OperationLogView {
        OperationLogView {
            id: self.id,
            timestamp: self.timestamp,
            account_id: self.account_id,
            account_email: self.account_email.deep_view(),
            operation_type: self.operation_type,
            status: self.status,
            message: self.message@,
            details: self.details,
        }
    }
}

impl DeepView for OperationLog {
    type V = OperationLogView;

    open spec fn deep_view(&self) -> OperationLogView {
        self.view()
    }
}

impl Clone for OperationLog {
    fn clone(&self) -> (copy: Self)
        ensures
            copy@ == self@,
    {
        let details = match &self.details {
            Some(value) => Some(value.clone()),
            None => None,
        };
        OperationLog {
            id: self.id,
            timestamp: self.timestamp,
            account_id: self.account_id,
            account_email: self.account_email.clone(),
            operation_type: self.operation_type,
            status: self.status,
            message: self.message.clone(),
            details,
        }
    }
}

/// What the record of an attempt to fetch a user's details says.
pub open spec fn account_info_message(success: bool, email: Seq<char>) -> Seq<char> {
    if success {
        "获取用户详细信息成功: "@ + email
    } else {
        "获取用户详细信息失败: "@ + email
    }
}

/// The record of an attempt to fetch a user's details.
pub open spec fn account_info_spec(
    id: u128,
    timestamp: i64,
    success: bool,
    account_id: u128,
    account_email: Seq<char>,
) -> OperationLogView {
    OperationLogView {
        id,
        timestamp,
        account_id: Some(account_id),
        account_email: Some(account_email),
        operation_type: OperationType::GetAccountInfo,
        status: if success {
            OperationStatus::Success
        } else {
            OperationStatus::Failed
        },
        message: account_info_message(success, account_email),
        details: None,
    }
}

impl OperationLog {
    /// A record of an operation, made now under a fresh random identifier,
    /// with no account and no details.
    pub fn new(operation_type: OperationType, status: OperationStatus, message: String) -> (log:
        Self)
        ensures
            is_random_uuid(log.id),
            log@ == (OperationLogView {
                id: log.id,
                timestamp: log.timestamp,
                account_id: None,
                account_email: None,
                operation_type,
                status,
                message: message@,
                details: None,
            }),
    {
        let id = random_uuid();
        let timestamp = current_millis();
        OperationLog::with_identity(id, timestamp, operation_type, status, message)
    }

    /// A record under the identifier `id`, made at `timestamp`, with no
    /// account and no details.
    pub fn with_identity(
        id: u128,
        timestamp: i64,
        operation_type: OperationType,
        status: OperationStatus,
        message: String,
    ) -> (log: Self)
        ensures
            log@ == (OperationLogView {
                id,
                timestamp,
                account_id: None,
                account_email: None,
                operation_type,
                status,
                message: message@,
                details: None,
            }),
    {
        OperationLog {
            id,
            timestamp,
            account_id: None,
            account_email: None,
            operation_type,
            status,
            message,
            details: None,
        }
    }

    /// The record of an attempt to fetch the details of the account's user:
    /// made now under a fresh random identifier, with the outcome as its
    /// status and in its message.
    pub fn account_info(success: bool, account_id: u128, account_email: String) -> (log: Self)
        ensures
            is_random_uuid(log.id),
            log@ == account_info_spec(
                log.id,
                log.timestamp,
                success,
                account_id,
                account_email@,
            ),
    {
        OperationLog::account_info_at(
            random_uuid(),
            current_millis(),
            success,
            account_id,
            account_email,
        )
    }

    /// The record of an attempt to fetch the details of the account's user,
    /// made at `timestamp` under the identifier `id`.
    pub fn account_info_at(
        id: u128,
        timestamp: i64,
        success: bool,
        account_id: u128,
        account_email: String,
    ) -> (log: Self)
        ensures
            log@ == account_info_spec(id, timestamp, success, account_id, account_email@),
    {
        let status = if success {
            OperationStatus::Success
        } else {
            OperationStatus::Failed
        };
        let opening = if success {
            "获取用户详细信息成功: "
        } else {
            "获取用户详细信息失败: "
        };
        let message = String::from_str(opening).concat(account_email.as_str());
        OperationLog::with_identity(
            id,
            timestamp,
            OperationType::GetAccountInfo,
            status,
            message,
        ).with_account(account_id, account_email)
    }

    /// The record with the account that the operation was about.
    pub fn with_account(self, account_id: u128, account_email: String) -> (log: Self)
        ensures
            log@ == (OperationLogView {
                account_id: Some(account_id),
                account_email: Some(account_email@),
                ..self@
            }),
    {
        let mut log = self;
        log.account_id = Some(account_id);
        log.account_email = Some(account_email);
        log
    }

    /// The record with structured details.
    pub fn with_details(self, details: serde_json::Value) -> (log: Self)
        ensures
            log@ == (OperationLogView { details: Some(details), ..self@ }),
    {
        let mut log = self;
        log.details = Some(details);
        log
    }
}

/// A copy of `logs`.
pub fn clone_logs(logs: &Vec<OperationLog>) -> (copy: Vec<OperationLog>)
    ensures
        copy.deep_view() == logs.deep_view(),
{
    let mut copy: Vec<OperationLog> = Vec::new();
    let mut i: usize = 0;
    while i < logs.len()
        invariant
            i <= logs.len(),
            copy.len() == i,
            forall|k: int| 0 <= k < i ==> copy@[k]@ == logs@[k]@,
        decreases logs.len() - i,
    {
        copy.push(logs[i].clone());
        i = i + 1;
    }
    assert(copy.deep_view() =~= logs.deep_view());
    copy
}

} // verus!
