//! The store's document and what makes one valid.

use crate::models::account::{clone_accounts, Account, AccountView};
use crate::models::config::{clone_names, clone_tags, GlobalTag, GlobalTagView, Settings, SettingsView};
use crate::models::log::{clone_logs, OperationLog, OperationLogView};
use vstd::prelude::*;

verus! {

/// Everything that the store holds. A snapshot, a backup and an export are
/// copies of this document.
#[derive(Debug, PartialEq, Eq)]
pub struct AppConfig {
    pub accounts: Vec<Account>,
    pub groups: Vec<String>,
    pub tags: Vec<GlobalTag>,
    pub settings: Settings,
    pub logs: Vec<OperationLog>,
}

/// The document as plain values.
pub struct AppConfigView {
    pub accounts: Seq<AccountView>,
    pub groups: Seq<Seq<char>>,
    pub tags: Seq<GlobalTagView>,
    pub settings: SettingsView,
    pub logs: Seq<OperationLogView>,
}

impl View for AppConfig {
    type V = AppConfigView;

    open spec fn view(&self) -> AppConfigView {
        AppConfigView {
            accounts: self.accounts.deep_view(),
            groups: self.groups.deep_view(),
            tags: self.tags.deep_view(),
            settings: self.settings@,
            logs: self.logs.deep_view(),
        }
    }
}

impl Clone for AppConfig {
    fn clone(&self) -> (copy: Self)
        ensures
            copy@ == self@,
    {
        AppConfig {
            accounts: clone_accounts(&self.accounts),
            groups: clone_names(&self.groups),
            tags: clone_tags(&self.tags),
            settings: self.settings.clone(),
            logs: clone_logs(&self.logs),
        }
    }
}

/// No two accounts share an identifier.
pub open spec fn ids_unique(accounts: Seq<AccountView>) -> bool {
    forall|i: int, j: int|
        0 <= i < j < accounts.len() ==> (#[trigger] accounts[i]).id != (#[trigger] accounts[j]).id
}

/// No name occurs twice.
pub open spec fn names_unique(names: Seq<Seq<char>>) -> bool {
    forall|i: int, j: int| 0 <= i < j < names.len() ==> #[trigger] names[i] != #[trigger] names[j]
}

/// The names of `tags`, in their order.
pub open spec fn tag_names(tags: Seq<GlobalTagView>) -> Seq<Seq<char>> {
    Seq::new(tags.len(), |i: int| tags[i].name)
}

/// Each account's tags are a set: none holds a tag twice.
pub open spec fn tags_are_sets(accounts: Seq<AccountView>) -> bool {
    forall|i: int| 0 <= i < accounts.len() ==> names_unique((#[trigger] accounts[i]).tags)
}

/// What the store keeps true of its document: identifiers, group names and
/// tag names are unique, and no account holds a tag twice.
pub open spec fn valid_config(c: AppConfigView) -> bool {
    &&& ids_unique(c.accounts)
    &&& tags_are_sets(c.accounts)
    &&& names_unique(c.groups)
    &&& names_unique(tag_names(c.tags))
}

/// Accounts that have, place by place, the identifiers of valid accounts,
/// and tags that are sets, are valid too.
pub proof fn lemma_same_ids(before: Seq<AccountView>, after: Seq<AccountView>)
    requires
        ids_unique(before),
        after.len() == before.len(),
        forall|i: int|
            0 <= i < before.len() ==> (#[trigger] after[i]).id == before[i].id && names_unique(
                after[i].tags,
            ),
    ensures
        ids_unique(after),
        tags_are_sets(after),
{
    assert forall|i: int, j: int| 0 <= i < j < after.len() implies (#[trigger] after[i]).id != (
    #[trigger] after[j]).id by {
        assert(before[i].id != before[j].id);
    }
}

/// Accounts that have the identifiers and the tags of valid accounts, place
/// by place, are valid too.
pub proof fn lemma_same_ids_and_tags(before: Seq<AccountView>, after: Seq<AccountView>)
    requires
        ids_unique(before),
        tags_are_sets(before),
        after.len() == before.len(),
        forall|i: int|
            0 <= i < before.len() ==> (#[trigger] after[i]).id == before[i].id && after[i].tags
                == before[i].tags,
    ensures
        ids_unique(after),
        tags_are_sets(after),
{
    assert forall|i: int, j: int| 0 <= i < j < after.len() implies (#[trigger] after[i]).id != (
    #[trigger] after[j]).id by {
        assert(before[i].id != before[j].id);
    }
    assert forall|i: int| 0 <= i < after.len() implies names_unique((#[trigger] after[i]).tags) by {
        assert(names_unique(before[i].tags));
    }
}

impl AppConfig {
    /// A document without accounts, groups, tags or logs, and with the
    /// default settings.
    pub fn empty() -> (config: Self)
        ensures
            config@ == Self::empty_view(),
            config.accounts@.len() == 0,
            config.groups@.len() == 0,
            config.tags@.len() == 0,
    {
        let config = AppConfig {
            accounts: Vec::new(),
            groups: Vec::new(),
            tags: Vec::new(),
            settings: Settings::default(),
            logs: Vec::new(),
        };
        assert(config.accounts.deep_view() =~= Seq::empty());
        assert(config.groups.deep_view() =~= Seq::empty());
        assert(config.tags.deep_view() =~= Seq::empty());
        assert(config.logs.deep_view() =~= Seq::empty());
        config
    }

    /// The empty document.
    pub open spec fn empty_view() -> AppConfigView {
        AppConfigView {
            accounts: Seq::empty(),
            groups: Seq::empty(),
            tags: Seq::empty(),
            settings: Settings::default_view(),
            logs: Seq::empty(),
        }
    }

    /// The document is valid.
    pub open spec fn well_formed(&self) -> bool {
        valid_config(self@)
    }
}

/// Whether an account has the identifier `id`.
pub open spec fn has_account(accounts: Seq<AccountView>, id: u128) -> bool {
    exists|i: int| 0 <= i < accounts.len() && (#[trigger] accounts[i]).id == id
}

/// The place of the first account with the identifier `id`, or the number of
/// accounts where there is none.
pub open spec fn account_index(accounts: Seq<AccountView>, id: u128) -> int
    decreases accounts.len(),
{
    if accounts.len() == 0 {
        0
    } else if accounts[0].id == id {
        0
    } else {
        1 + account_index(accounts.skip(1), id)
    }
}

/// The place of the first occurrence of `name`, or the number of names where
/// it does not occur.
pub open spec fn name_index(names: Seq<Seq<char>>, name: Seq<char>) -> int
    decreases names.len(),
{
    if names.len() == 0 {
        0
    } else if names[0] == name {
        0
    } else {
        1 + name_index(names.skip(1), name)
    }
}

/// `account_index` finds the first account with the identifier, if there is
/// one.
pub proof fn lemma_account_index(accounts: Seq<AccountView>, id: u128)
    ensures
        0 <= account_index(accounts, id) <= accounts.len(),
        forall|k: int| 0 <= k < account_index(accounts, id) ==> (#[trigger] accounts[k]).id != id,
        account_index(accounts, id) < accounts.len() ==> accounts[account_index(
            accounts,
            id,
        )].id == id,
        has_account(accounts, id) <==> account_index(accounts, id) < accounts.len(),
    decreases accounts.len(),
{
    if accounts.len() > 0 && accounts[0].id != id {
        let rest = accounts.skip(1);
        lemma_account_index(rest, id);
        let at = account_index(rest, id);
        assert forall|k: int| 0 <= k < 1 + at implies (#[trigger] accounts[k]).id != id by {
            if k > 0 {
                assert(accounts[k] == rest[k - 1]);
            }
        }
        if at < rest.len() {
            assert(accounts[1 + at] == rest[at]);
        }
        if has_account(accounts, id) {
            let i = choose|i: int| 0 <= i < accounts.len() && (#[trigger] accounts[i]).id == id;
            assert(rest[i - 1] == accounts[i]);
        }
    }
}

/// `name_index` finds the first occurrence of the name, if there is one.
pub proof fn lemma_name_index(names: Seq<Seq<char>>, name: Seq<char>)
    ensures
        0 <= name_index(names, name) <= names.len(),
        forall|k: int| 0 <= k < name_index(names, name) ==> #[trigger] names[k] != name,
        name_index(names, name) < names.len() ==> names[name_index(names, name)] == name,
        names.contains(name) <==> name_index(names, name) < names.len(),
    decreases names.len(),
{
    if names.len() > 0 && names[0] != name {
        let rest = names.skip(1);
        lemma_name_index(rest, name);
        let at = name_index(rest, name);
        assert forall|k: int| 0 <= k < 1 + at implies #[trigger] names[k] != name by {
            if k > 0 {
                assert(names[k] == rest[k - 1]);
            }
        }
        if at < rest.len() {
            assert(names[1 + at] == rest[at]);
        }
        if names.contains(name) {
            let i = choose|i: int| 0 <= i < names.len() && names[i] == name;
            assert(rest[i - 1] == names[i]);
        }
    }
}

} // verus!
