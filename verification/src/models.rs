//! The data that the repository holds.

pub mod account;
pub mod config;
pub mod log;
pub mod reset_record;

pub use self::account::{Account, AccountStatus};
pub use self::config::{GlobalTag, Settings, SortConfig, SortDirection, SortField};
pub use self::log::{OperationLog, OperationStatus, OperationType};
pub use self::reset_record::{AccountResetStats, ResetRecord};
