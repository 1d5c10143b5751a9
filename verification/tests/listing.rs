use account_manager::error::AppError;
use account_manager::models::account::{Account, AccountStatus};
use account_manager::models::config::{SortDirection, SortField};
use account_manager::repository::backups::{list_backups, BackupInfo};
use account_manager::repository::snapshot::{backup_file_name, backup_name};
use account_manager::repository::store::DataStore;

fn listed_account(id: u128, email: &str, order: u64, created: i64, active: bool) -> Account {
    Account {
        id,
        email: email.to_string(),
        nickname: String::new(),
        token: None,
        windsurf_api_key: None,
        status: if active { AccountStatus::Active } else { AccountStatus::Disabled },
        group: None,
        tags: Vec::new(),
        sort_order: order,
        created_at: created,
        updated_at: 0,
    }
}

fn listing_store() -> DataStore {
    let mut store = DataStore::empty();
    store.add_account(listed_account(1, "carol@example.com", 2, 30, true)).unwrap();
    store.add_account(listed_account(2, "alice@example.com", 1, 20, false)).unwrap();
    store.add_account(listed_account(3, "bob@example.com", 1, 10, true)).unwrap();
    store.add_account(listed_account(4, "Bob@example.com", 0, 40, false)).unwrap();
    store
}

fn ids_of(accounts: &[Account]) -> Vec<u128> {
    accounts.iter().map(|a| a.id).collect()
}

fn uuid_of(id: u128) -> String {
    uuid::Uuid::from_u128(id).to_string()
}

#[test]
fn accounts_sorted_by_creation() {
    let store = listing_store();
    let up = store.get_sorted_accounts(&SortField::CreatedAt, &SortDirection::Asc);
    assert_eq!(ids_of(&up), vec![3, 2, 1, 4]);
    let down = store.get_sorted_accounts(&SortField::CreatedAt, &SortDirection::Desc);
    assert_eq!(ids_of(&down), vec![4, 1, 2, 3]);
    assert_eq!(up[0], listed_account(3, "bob@example.com", 1, 10, true));
}

#[test]
fn accounts_sorted_by_email() {
    let store = listing_store();
    let up = store.get_sorted_accounts(&SortField::Email, &SortDirection::Asc);
    assert_eq!(ids_of(&up), vec![4, 2, 3, 1]);
    let down = store.get_sorted_accounts(&SortField::Email, &SortDirection::Desc);
    assert_eq!(ids_of(&down), vec![1, 3, 2, 4]);
}

#[test]
fn accounts_sorted_by_status_keep_their_order_within_one_status() {
    let store = listing_store();
    let up = store.get_sorted_accounts(&SortField::Status, &SortDirection::Asc);
    assert_eq!(ids_of(&up), vec![1, 3, 2, 4]);
    let down = store.get_sorted_accounts(&SortField::Status, &SortDirection::Desc);
    assert_eq!(ids_of(&down), vec![2, 4, 1, 3]);
}

#[test]
fn manual_order_breaks_ties_by_creation() {
    let store = listing_store();
    let up = store.get_sorted_accounts(&SortField::Manual, &SortDirection::Asc);
    assert_eq!(ids_of(&up), vec![4, 3, 2, 1]);
    let down = store.get_sorted_accounts(&SortField::Manual, &SortDirection::Desc);
    assert_eq!(ids_of(&down), vec![1, 2, 3, 4]);
}

#[test]
fn sorting_nothing_gives_nothing() {
    let store = DataStore::empty();
    assert!(store.get_sorted_accounts(&SortField::Email, &SortDirection::Asc).is_empty());
}

#[test]
fn sorting_leaves_the_store_as_it_is() {
    let store = listing_store();
    let _ = store.get_sorted_accounts(&SortField::Email, &SortDirection::Asc);
    assert_eq!(ids_of(&store.get_all_accounts()), vec![1, 2, 3, 4]);
}

#[test]
fn listed_accounts_come_first_in_the_given_order() {
    let mut store = listing_store();
    assert_eq!(store.update_accounts_order(vec![uuid_of(2), uuid_of(1)]), Ok(()));
    let accounts = store.get_all_accounts();
    assert_eq!(ids_of(&accounts), vec![1, 2, 3, 4]);
    assert_eq!(accounts[1].sort_order, 0);
    assert_eq!(accounts[0].sort_order, 1);
    assert_eq!(accounts[3].sort_order, 2);
    assert_eq!(accounts[2].sort_order, 3);
    let manual = store.get_sorted_accounts(&SortField::Manual, &SortDirection::Asc);
    assert_eq!(ids_of(&manual), vec![2, 1, 4, 3]);
    assert_eq!(accounts[0].email, "carol@example.com");
    assert_eq!(accounts[0].created_at, 30);
}

#[test]
fn listing_every_account_numbers_them_as_listed() {
    let mut store = listing_store();
    let order = vec![uuid_of(3), uuid_of(4), uuid_of(1), uuid_of(2)];
    assert_eq!(store.update_accounts_order(order), Ok(()));
    let manual = store.get_sorted_accounts(&SortField::Manual, &SortDirection::Asc);
    assert_eq!(ids_of(&manual), vec![3, 4, 1, 2]);
    assert_eq!(manual.iter().map(|a| a.sort_order).collect::<Vec<_>>(), vec![0, 1, 2, 3]);
}

#[test]
fn empty_order_keeps_the_manual_order() {
    let mut store = listing_store();
    assert_eq!(store.update_accounts_order(Vec::new()), Ok(()));
    let manual = store.get_sorted_accounts(&SortField::Manual, &SortDirection::Asc);
    assert_eq!(ids_of(&manual), vec![4, 3, 2, 1]);
    assert_eq!(manual.iter().map(|a| a.sort_order).collect::<Vec<_>>(), vec![0, 1, 2, 3]);
}

#[test]
fn unknown_identifier_in_an_order_changes_nothing() {
    let mut store = listing_store();
    let before = store.get_all_accounts();
    assert_eq!(
        store.update_accounts_order(vec![uuid_of(2), uuid_of(77)]),
        Err(AppError::AccountNotFound(uuid_of(77)))
    );
    assert_eq!(store.get_all_accounts(), before);
}

#[test]
fn malformed_identifier_in_an_order_changes_nothing() {
    let mut store = listing_store();
    let before = store.get_all_accounts();
    let why = uuid::Uuid::parse_str("zz").unwrap_err().to_string();
    assert_eq!(
        store.update_accounts_order(vec![uuid_of(2), "zz".to_string()]),
        Err(AppError::Validation(why))
    );
    assert_eq!(store.get_all_accounts(), before);
}

#[test]
fn backup_file_is_named_by_its_time() {
    assert_eq!(backup_file_name(0), Some("backup_19700101_000000.json".to_string()));
    assert_eq!(
        backup_file_name(1_700_000_000_123),
        Some("backup_20231114_221320.json".to_string())
    );
    assert_eq!(backup_file_name(i64::MAX), None);
}

#[test]
fn backups_are_listed_newest_first() {
    let entry = |path: &str, created_at: i64| BackupInfo {
        path: path.to_string(),
        created_at,
        size: 10,
    };
    let listing = list_backups(vec![entry("a", 10), entry("b", 30), entry("c", 20), entry("d", 30)]);
    let paths: Vec<&str> = listing.iter().map(|b| b.path.as_str()).collect();
    assert_eq!(paths, vec!["b", "d", "c", "a"]);
    assert_eq!(listing[3], entry("a", 10));
    assert!(list_backups(Vec::new()).is_empty());
}

#[test]
fn accounts_are_reordered_by_identifier() {
    let mut store = listing_store();
    assert_eq!(store.reorder_accounts(vec![Ok(1), Ok(3)]), Ok(()));
    let manual = store.get_sorted_accounts(&SortField::Manual, &SortDirection::Asc);
    assert_eq!(ids_of(&manual), vec![1, 3, 4, 2]);
    let before = store.get_all_accounts();
    assert_eq!(
        store.reorder_accounts(vec![Ok(2), Err("bad".to_string()), Ok(99)]),
        Err(AppError::Validation("bad".to_string()))
    );
    assert_eq!(
        store.reorder_accounts(vec![Ok(99), Err("bad".to_string())]),
        Err(AppError::AccountNotFound(uuid_of(99)))
    );
    assert_eq!(store.get_all_accounts(), before);
}

#[test]
fn repeated_identifier_counts_where_it_comes_first() {
    let mut store = listing_store();
    assert_eq!(store.reorder_accounts(vec![Ok(2), Ok(1), Ok(2)]), Ok(()));
    let manual = store.get_sorted_accounts(&SortField::Manual, &SortDirection::Asc);
    assert_eq!(ids_of(&manual), vec![2, 1, 4, 3]);
    assert_eq!(manual.iter().map(|a| a.sort_order).collect::<Vec<_>>(), vec![0, 1, 2, 3]);
}

#[test]
fn backup_name_wraps_the_stamp() {
    assert_eq!(backup_name(Some("x".to_string())), Some("backup_x.json".to_string()));
    assert_eq!(backup_name(None), None);
}
