use account_manager::error::AppError;
use account_manager::models::account::{Account, AccountStatus};
use account_manager::models::config::GlobalTag;
use account_manager::repository::store::DataStore;

fn grouped_account(id: u128, group: Option<&str>, tags: &[&str]) -> Account {
    Account {
        id,
        email: format!("user{}@example.com", id),
        nickname: String::new(),
        token: None,
        windsurf_api_key: None,
        status: AccountStatus::Active,
        group: group.map(|g| g.to_string()),
        tags: tags.iter().map(|t| t.to_string()).collect(),
        sort_order: 0,
        created_at: 0,
        updated_at: 0,
    }
}

fn text_of(id: u128) -> String {
    uuid::Uuid::from_u128(id).to_string()
}

fn tag(name: &str, color: &str) -> GlobalTag {
    GlobalTag { name: name.to_string(), color: color.to_string() }
}

fn names(list: &[&str]) -> Vec<String> {
    list.iter().map(|t| t.to_string()).collect()
}

#[test]
fn group_names_are_unique() {
    let mut store = DataStore::empty();
    assert_eq!(store.add_group("team".to_string()), Ok(()));
    assert_eq!(
        store.add_group("team".to_string()),
        Err(AppError::DuplicateName("team".to_string()))
    );
    assert_eq!(store.add_group("Team".to_string()), Ok(()));
    assert_eq!(store.get_groups(), names(&["team", "Team"]));
}

#[test]
fn deleting_a_group_keeps_its_accounts() {
    let mut store = DataStore::empty();
    store.add_group("a".to_string()).unwrap();
    store.add_group("b".to_string()).unwrap();
    store.add_account(grouped_account(1, Some("a"), &[])).unwrap();
    store.add_account(grouped_account(2, Some("b"), &[])).unwrap();
    store.add_account(grouped_account(3, None, &[])).unwrap();
    assert_eq!(store.delete_group("a".to_string()), Ok(()));
    assert_eq!(store.get_groups(), names(&["b"]));
    let accounts = store.get_all_accounts();
    assert_eq!(accounts.len(), 3);
    assert_eq!(accounts[0], grouped_account(1, None, &[]));
    assert_eq!(accounts[1], grouped_account(2, Some("b"), &[]));
    assert_eq!(accounts[2], grouped_account(3, None, &[]));
}

#[test]
fn deleting_an_unknown_group_fails() {
    let mut store = DataStore::empty();
    store.add_group("a".to_string()).unwrap();
    assert_eq!(store.delete_group("b".to_string()), Err(AppError::NotFound("b".to_string())));
    assert_eq!(store.get_groups(), names(&["a"]));
}

#[test]
fn renaming_a_group_moves_every_member() {
    let mut store = DataStore::empty();
    store.add_group("old".to_string()).unwrap();
    store.add_group("other".to_string()).unwrap();
    store.add_account(grouped_account(1, Some("old"), &[])).unwrap();
    store.add_account(grouped_account(2, Some("old"), &[])).unwrap();
    store.add_account(grouped_account(3, Some("other"), &[])).unwrap();
    assert_eq!(store.rename_group("old".to_string(), "new".to_string()), Ok(()));
    assert_eq!(store.get_groups(), names(&["new", "other"]));
    let accounts = store.get_all_accounts();
    assert_eq!(accounts[0].group, Some("new".to_string()));
    assert_eq!(accounts[1].group, Some("new".to_string()));
    assert_eq!(accounts[2].group, Some("other".to_string()));
    assert!(accounts.iter().all(|a| a.group != Some("old".to_string())));
}

#[test]
fn renaming_fails_on_unknown_or_taken_names() {
    let mut store = DataStore::empty();
    store.add_group("a".to_string()).unwrap();
    store.add_group("b".to_string()).unwrap();
    store.add_account(grouped_account(1, Some("a"), &[])).unwrap();
    assert_eq!(
        store.rename_group("missing".to_string(), "c".to_string()),
        Err(AppError::NotFound("missing".to_string()))
    );
    assert_eq!(
        store.rename_group("a".to_string(), "b".to_string()),
        Err(AppError::DuplicateName("b".to_string()))
    );
    assert_eq!(
        store.rename_group("a".to_string(), "a".to_string()),
        Err(AppError::DuplicateName("a".to_string()))
    );
    assert_eq!(store.get_groups(), names(&["a", "b"]));
    assert_eq!(store.get_all_accounts()[0].group, Some("a".to_string()));
}

#[test]
fn tag_names_are_unique() {
    let mut store = DataStore::empty();
    assert_eq!(store.add_tag(tag("vip", "red")), Ok(()));
    assert_eq!(store.add_tag(tag("vip", "blue")), Err(AppError::DuplicateName("vip".to_string())));
    assert_eq!(store.get_tags(), vec![tag("vip", "red")]);
}

#[test]
fn updating_a_tag_renames_it_on_every_account() {
    let mut store = DataStore::empty();
    store.add_tag(tag("vip", "red")).unwrap();
    store.add_tag(tag("new", "red")).unwrap();
    store.add_account(grouped_account(1, None, &["vip", "new"])).unwrap();
    store.add_account(grouped_account(2, None, &["new"])).unwrap();
    assert_eq!(store.update_tag("vip".to_string(), tag("gold", "yellow")), Ok(()));
    assert_eq!(store.get_tags(), vec![tag("gold", "yellow"), tag("new", "red")]);
    let accounts = store.get_all_accounts();
    assert_eq!(accounts[0].tags, names(&["gold", "new"]));
    assert_eq!(accounts[1].tags, names(&["new"]));
}

#[test]
fn recoloring_a_tag_keeps_its_name() {
    let mut store = DataStore::empty();
    store.add_tag(tag("vip", "red")).unwrap();
    store.add_account(grouped_account(1, None, &["vip"])).unwrap();
    assert_eq!(store.update_tag("vip".to_string(), tag("vip", "blue")), Ok(()));
    assert_eq!(store.get_tags(), vec![tag("vip", "blue")]);
    assert_eq!(store.get_all_accounts()[0].tags, names(&["vip"]));
}

#[test]
fn updating_a_tag_fails_on_unknown_or_taken_names() {
    let mut store = DataStore::empty();
    store.add_tag(tag("a", "red")).unwrap();
    store.add_tag(tag("b", "red")).unwrap();
    assert_eq!(
        store.update_tag("missing".to_string(), tag("c", "red")),
        Err(AppError::NotFound("missing".to_string()))
    );
    assert_eq!(
        store.update_tag("a".to_string(), tag("b", "blue")),
        Err(AppError::DuplicateName("b".to_string()))
    );
    assert_eq!(store.get_tags(), vec![tag("a", "red"), tag("b", "red")]);
}

#[test]
fn deleting_a_tag_takes_it_from_every_account() {
    let mut store = DataStore::empty();
    store.add_tag(tag("a", "red")).unwrap();
    store.add_tag(tag("b", "red")).unwrap();
    store.add_account(grouped_account(1, None, &["a", "b"])).unwrap();
    store.add_account(grouped_account(2, None, &["b", "a", "c"])).unwrap();
    assert_eq!(store.delete_tag("a".to_string()), Ok(()));
    assert_eq!(store.get_tags(), vec![tag("b", "red")]);
    let accounts = store.get_all_accounts();
    assert_eq!(accounts[0].tags, names(&["b"]));
    assert_eq!(accounts[1].tags, names(&["b", "c"]));
    assert_eq!(store.delete_tag("a".to_string()), Err(AppError::NotFound("a".to_string())));
}

#[test]
fn tag_in_add_and_remove_ends_up_removed() {
    let mut store = DataStore::empty();
    store.add_account(grouped_account(1, None, &[])).unwrap();
    store.add_account(grouped_account(2, None, &["a", "keep"])).unwrap();
    let counts = store.batch_update_account_tags(
        vec![text_of(1), text_of(2)],
        names(&["a"]),
        names(&["a"]),
    );
    assert_eq!(counts, (2, 0));
    let accounts = store.get_all_accounts();
    assert!(accounts[0].tags.is_empty());
    assert_eq!(accounts[1].tags, names(&["keep"]));
}

#[test]
fn batch_adds_then_removes() {
    let mut store = DataStore::empty();
    store.add_account(grouped_account(1, None, &["x", "y"])).unwrap();
    store.add_account(grouped_account(2, None, &["z"])).unwrap();
    store.add_account(grouped_account(3, None, &["x"])).unwrap();
    let counts = store.batch_update_account_tags(
        vec![text_of(1), text_of(2)],
        names(&["y", "n", "m", "n"]),
        names(&["x", "m"]),
    );
    assert_eq!(counts, (2, 0));
    let accounts = store.get_all_accounts();
    assert_eq!(accounts[0].tags, names(&["y", "n"]));
    assert_eq!(accounts[1].tags, names(&["z", "y", "n"]));
    assert_eq!(accounts[2].tags, names(&["x"]));
}

#[test]
fn batch_counts_what_it_does_not_find() {
    let mut store = DataStore::empty();
    store.add_account(grouped_account(1, None, &[])).unwrap();
    let counts = store.batch_update_account_tags(
        vec![text_of(9), "garbage".to_string(), text_of(1), text_of(1)],
        names(&["t"]),
        Vec::new(),
    );
    assert_eq!(counts, (2, 2));
    assert_eq!(store.get_all_accounts()[0].tags, names(&["t"]));
}

#[test]
fn batch_on_nothing_changes_nothing() {
    let mut store = DataStore::empty();
    store.add_account(grouped_account(1, None, &["a"])).unwrap();
    assert_eq!(store.batch_update_account_tags(Vec::new(), names(&["t"]), names(&["a"])), (0, 0));
    assert_eq!(store.get_all_accounts()[0].tags, names(&["a"]));
}

#[test]
fn accounts_are_retagged_by_identifier() {
    let mut store = DataStore::empty();
    store.add_account(grouped_account(1, None, &["x"])).unwrap();
    store.add_account(grouped_account(2, None, &[])).unwrap();
    let counts =
        store.retag_accounts(vec![Some(2), None, Some(5), Some(2)], names(&["a", "b"]), names(&["b"]));
    assert_eq!(counts, (2, 2));
    let accounts = store.get_all_accounts();
    assert_eq!(accounts[0].tags, names(&["x"]));
    assert_eq!(accounts[1].tags, names(&["a"]));
}

#[test]
fn renaming_a_tag_onto_one_that_an_account_holds_keeps_it_once() {
    let mut store = DataStore::empty();
    store.add_tag(tag("a", "red")).unwrap();
    store.add_account(grouped_account(1, None, &["a", "c", "b"])).unwrap();
    store.add_account(grouped_account(2, None, &["x", "a"])).unwrap();
    assert_eq!(store.update_tag("a".to_string(), tag("c", "red")), Ok(()));
    let accounts = store.get_all_accounts();
    assert_eq!(accounts[0].tags, names(&["c", "b"]));
    assert_eq!(accounts[1].tags, names(&["x", "c"]));
}

#[test]
fn account_that_holds_a_tag_twice_is_refused() {
    let mut store = DataStore::empty();
    store.add_account(grouped_account(1, None, &["a"])).unwrap();
    let refused = AppError::Validation("an account holds a tag twice".to_string());
    assert_eq!(store.add_account(grouped_account(2, None, &["a", "b", "a"])), Err(refused));
    assert_eq!(
        store.update_account(grouped_account(1, None, &["b", "b"])),
        Err(AppError::Validation("an account holds a tag twice".to_string()))
    );
    assert_eq!(
        store.add_account(grouped_account(1, None, &["b", "b"])),
        Err(AppError::Validation(text_of(1)))
    );
    assert_eq!(store.get_all_accounts(), vec![grouped_account(1, None, &["a"])]);
}
