//! The account repository: the one store of accounts, groups, tags, settings
//! and logs, as it stands in memory.

pub mod backups;
pub mod groups;
pub mod history;
pub mod listing;
pub mod logs;
pub mod merge;
pub mod model;
pub mod names;
pub mod order;
pub mod settings;
pub mod snapshot;
pub mod stats;
pub mod store;
pub mod tags;

pub use self::backups::BackupInfo;
pub use self::model::AppConfig;
pub use self::snapshot::{ImportResult, LoadedDocument};
pub use self::store::DataStore;
