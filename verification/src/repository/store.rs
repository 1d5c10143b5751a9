//! The store and its operations on accounts.

use crate::error::{AppError, ErrorView};
use crate::models::account::{clone_accounts, Account};
use crate::outside::{format_uuid, parse_uuid, uuid_parse, uuid_text};
use crate::repository::model::{
    account_index, has_account, ids_unique, lemma_account_index, names_unique, tag_names,
    valid_config, AppConfig, AppConfigView,
};
use vstd::prelude::*;
use vstd::string::StringExecFns;

verus! {

/// The repository. It owns its document: callers get copies and hand in
/// whole values. Every operation leaves the document valid: identifiers,
/// group names and tag names are unique, and no account holds a tag twice.
pub struct DataStore {
    config: AppConfig,
}

impl View for DataStore {
    type V = AppConfigView;

    closed spec fn view(&self) -> AppConfigView {
        self.config@
    }
}

/// The place of the account with the identifier `id` in `accounts`.
pub fn find_account(accounts: &Vec<Account>, id: u128) -> (found: Option<usize>)
    ensures
        match found {
            Some(i) => i == account_index(accounts.deep_view(), id) && i < accounts.len()
                && accounts@[i as int].id == id && has_account(accounts.deep_view(), id),
            None => !has_account(accounts.deep_view(), id),
        },
{
    let mut i: usize = 0;
    while i < accounts.len()
        invariant
            i <= accounts.len(),
            forall|k: int| 0 <= k < i ==> (#[trigger] accounts.deep_view()[k]).id != id,
        decreases accounts.len() - i,
    {
        if accounts[i].id == id {
            proof {
                lemma_account_index(accounts.deep_view(), id);
                assert(accounts.deep_view()[i as int].id == id);
            }
            return Some(i);
        }
        i = i + 1;
    }
    proof {
        lemma_account_index(accounts.deep_view(), id);
    }
    None
}

/// Reads an account's identifier from its text. A text that is no
/// identifier is refused, with what the parser says of it.
pub fn parse_account_id(text: &str) -> (r: Result<u128, AppError>)
    ensures
        match r {
            Ok(id) => uuid_parse(text@) == Ok::<u128, Seq<char>>(id),
            Err(e) => uuid_parse(text@) matches Err(why) && e@ == ErrorView::Validation(why),
        },
{
    read_account_id(parse_uuid(text))
}

/// The identifier that was parsed, or the error for a text that is none.
pub fn read_account_id(parsed: Result<u128, String>) -> (r: Result<u128, AppError>)
    ensures
        match parsed {
            Ok(id) => r == Ok::<u128, AppError>(id),
            Err(why) => r matches Err(e) && e@ == ErrorView::Validation(why@),
        },
{
    match parsed {
        Ok(id) => Ok(id),
        Err(why) => Err(AppError::Validation(why)),
    }
}

/// The detail of the error for an account that holds a tag twice.
pub open spec fn duplicate_tag() -> Seq<char> {
    "an account holds a tag twice"@
}

/// The detail of the error for an account that holds a tag twice.
pub fn duplicate_tag_text() -> (text: String)
    ensures
        text@ == duplicate_tag(),
{
    String::from_str("an account holds a tag twice")
}

/// The detail of the error for a document that is not valid.
pub open spec fn invalid_document() -> Seq<char> {
    "duplicate identifier or name"@
}

/// The detail of the error for a document that is not valid.
pub fn invalid_document_text() -> (text: String)
    ensures
        text@ == invalid_document(),
{
    String::from_str("duplicate identifier or name")
}

/// Whether no text occurs twice in `names`.
pub fn all_distinct(names: &Vec<String>) -> (distinct: bool)
    ensures
        distinct == names_unique(names.deep_view()),
{
    let mut j: usize = 0;
    while j < names.len()
        invariant
            j <= names.len(),
            forall|a: int, b: int|
                0 <= a < b < j ==> #[trigger] names.deep_view()[a] != #[trigger] names.deep_view()[b],
        decreases names.len() - j,
    {
        let mut i: usize = 0;
        while i < j
            invariant
                i <= j < names.len(),
                forall|a: int| 0 <= a < i ==> #[trigger] names.deep_view()[a] != names.deep_view()[j as int],
            decreases j - i,
        {
            if names[i] == names[j] {
                proof {
                    assert(names.deep_view()[i as int] == names.deep_view()[j as int]);
                }
                return false;
            }
            i = i + 1;
        }
        j = j + 1;
    }
    true
}

/// Whether the document is valid.
pub fn check_config(config: &AppConfig) -> (valid: bool)
    ensures
        valid == valid_config(config@),
{
    let mut j: usize = 0;
    while j < config.accounts.len()
        invariant
            j <= config.accounts.len(),
            forall|a: int, b: int|
                0 <= a < b < j ==> (#[trigger] config.accounts.deep_view()[a]).id != (
                #[trigger] config.accounts.deep_view()[b]).id,
        decreases config.accounts.len() - j,
    {
        let mut i: usize = 0;
        while i < j
            invariant
                i <= j < config.accounts.len(),
                forall|a: int|
                    0 <= a < i ==> (#[trigger] config.accounts.deep_view()[a]).id
                        != config.accounts.deep_view()[j as int].id,
            decreases j - i,
        {
            if config.accounts[i].id == config.accounts[j].id {
                proof {
                    assert(config.accounts.deep_view()[i as int].id
                        == config.accounts.deep_view()[j as int].id);
                }
                return false;
            }
            i = i + 1;
        }
        j = j + 1;
    }
    let mut t: usize = 0;
    while t < config.accounts.len()
        invariant
            t <= config.accounts.len(),
            ids_unique(config.accounts.deep_view()),
            forall|a: int|
                0 <= a < t ==> names_unique((#[trigger] config.accounts.deep_view()[a]).tags),
        decreases config.accounts.len() - t,
    {
        if !all_distinct(&config.accounts[t].tags) {
            proof {
                assert(!names_unique(config.accounts.deep_view()[t as int].tags));
            }
            return false;
        }
        t = t + 1;
    }
    if !all_distinct(&config.groups) {
        return false;
    }
    let mut names: Vec<String> = Vec::new();
    let mut k: usize = 0;
    while k < config.tags.len()
        invariant
            k <= config.tags.len(),
            names.len() == k,
            forall|a: int| 0 <= a < k ==> #[trigger] names@[a]@ == config.tags@[a].name@,
        decreases config.tags.len() - k,
    {
        names.push(config.tags[k].name.clone());
        k = k + 1;
    }
    proof {
        assert(names.deep_view() =~= tag_names(config.tags.deep_view()));
    }
    all_distinct(&names)
}

impl DataStore {
    #[verifier::type_invariant]
    spec fn valid(self) -> bool {
        self.config.well_formed()
    }

    /// A store without accounts, groups, tags or logs, and with the default
    /// settings.
    pub fn empty() -> (store: Self)
        ensures
            store@ == AppConfig::empty_view(),
    {
        DataStore { config: AppConfig::empty() }
    }

    /// A store that holds `config`, if the document is valid: no identifier,
    /// group name or tag name occurs twice in it.
    pub fn new(config: AppConfig) -> (r: Result<Self, AppError>)
        ensures
            match r {
                Ok(store) => valid_config(config@) && store@ == config@,
                Err(e) => !valid_config(config@) && e@ == ErrorView::Serialization(
                    invalid_document(),
                ),
            },
    {
        if check_config(&config) {
            Ok(DataStore { config })
        } else {
            Err(AppError::Serialization(invalid_document_text()))
        }
    }

    /// The document that the store holds.
    pub(crate) fn config(&self) -> (config: &AppConfig)
        ensures
            config@ == self@,
            valid_config(config@),
    {
        proof {
            use_type_invariant(self);
        }
        &self.config
    }

    /// Hands out the document and leaves the empty one, so that an operation
    /// can change the document and put it back.
    pub(crate) fn take(&mut self) -> (config: AppConfig)
        ensures
            config@ == old(self)@,
            valid_config(config@),
            final(self)@ == AppConfig::empty_view(),
    {
        proof {
            use_type_invariant(&*self);
        }
        let mut config = AppConfig::empty();
        core::mem::swap(&mut self.config, &mut config);
        config
    }

    /// Makes `config` the store's document.
    pub(crate) fn put(&mut self, config: AppConfig)
        requires
            valid_config(config@),
        ensures
            final(self)@ == config@,
    {
        self.config = config;
    }

    /// Shows that the store's document is valid.
    pub fn validity(&self)
        ensures
            valid_config(self@),
    {
        proof {
            use_type_invariant(self);
        }
    }

    /// A copy of every account, in the store's order.
    pub fn get_all_accounts(&self) -> (accounts: Vec<Account>)
        ensures
            accounts.deep_view() == self@.accounts,
            accounts.len() == self@.accounts.len(),
    {
        clone_accounts(&self.config.accounts)
    }

    /// A copy of the account with the identifier `id`.
    pub fn get_account(&self, id: u128) -> (r: Result<Account, AppError>)
        ensures
            match r {
                Ok(account) => has_account(self@.accounts, id) && account@
                    == self@.accounts[account_index(self@.accounts, id)] && account.id == id
                    && names_unique(account@.tags),
                Err(e) => !has_account(self@.accounts, id) && e@ == ErrorView::AccountNotFound(
                    uuid_text(id),
                ),
            },
    {
        let config = self.config();
        match find_account(&config.accounts, id) {
            Some(i) => {
                assert(names_unique(config.accounts.deep_view()[i as int].tags));
                Ok(config.accounts[i].clone())
            },
            None => Err(AppError::AccountNotFound(format_uuid(id))),
        }
    }

    /// Adds `account` behind the others. An account whose identifier is
    /// taken, or that holds a tag twice, is refused.
    pub fn add_account(&mut self, account: Account) -> (r: Result<(), AppError>)
        ensures
            r is Ok <==> !has_account(old(self)@.accounts, account.id) && names_unique(
                account@.tags,
            ),
            match r {
                Ok(_) => final(self)@ == (AppConfigView {
                    accounts: old(self)@.accounts.push(account@),
                    ..old(self)@
                }),
                Err(e) => final(self)@ == old(self)@ && e@ == ErrorView::Validation(
                    if has_account(old(self)@.accounts, account.id) {
                        uuid_text(account.id)
                    } else {
                        duplicate_tag()
                    },
                ),
            },
    {
        let mut config = self.take();
        let r = if find_account(&config.accounts, account.id).is_some() {
            Err(AppError::Validation(format_uuid(account.id)))
        } else if !all_distinct(&account.tags) {
            Err(AppError::Validation(duplicate_tag_text()))
        } else {
            let ghost before = config.accounts.deep_view();
            let ghost added = account@;
            config.accounts.push(account);
            proof {
                let after = config.accounts.deep_view();
                assert(after =~= before.push(added));
                assert forall|i: int, j: int| 0 <= i < j < after.len() implies (
                #[trigger] after[i]).id != (#[trigger] after[j]).id by {
                    if j == before.len() {
                        assert(before[i].id != added.id);
                    } else {
                        assert(before[i].id != before[j].id);
                    }
                }
                assert forall|i: int| 0 <= i < after.len() implies names_unique(
                    (#[trigger] after[i]).tags,
                ) by {
                    if i < before.len() {
                        assert(names_unique(before[i].tags));
                    }
                }
            }
            Ok(())
        };
        self.put(config);
        r
    }

    /// Takes the account with the identifier `id` out of the store.
    pub fn delete_account(&mut self, id: u128) -> (r: Result<(), AppError>)
        ensures
            match r {
                Ok(_) => has_account(old(self)@.accounts, id) && final(self)@ == (AppConfigView {
                    accounts: old(self)@.accounts.remove(account_index(old(self)@.accounts, id)),
                    ..old(self)@
                }),
                Err(e) => !has_account(old(self)@.accounts, id) && e@
                    == ErrorView::AccountNotFound(uuid_text(id)) && final(self)@ == old(self)@,
            },
    {
        let mut config = self.take();
        let r = match find_account(&config.accounts, id) {
            Some(i) => {
                let ghost before = config.accounts.deep_view();
                config.accounts.remove(i);
                proof {
                    let after = config.accounts.deep_view();
                    assert(after =~= before.remove(i as int));
                    assert forall|a: int, b: int| 0 <= a < b < after.len() implies (
                    #[trigger] after[a]).id != (#[trigger] after[b]).id by {
                        let a0 = if a < i { a } else { a + 1 };
                        let b0 = if b < i { b } else { b + 1 };
                        assert(before[a0].id != before[b0].id);
                    }
                    assert forall|a: int| 0 <= a < after.len() implies names_unique(
                        (#[trigger] after[a]).tags,
                    ) by {
                        let a0 = if a < i { a } else { a + 1 };
                        assert(names_unique(before[a0].tags));
                    }
                }
                Ok(())
            },
            None => Err(AppError::AccountNotFound(format_uuid(id))),
        };
        self.put(config);
        r
    }

    /// Puts `account` in the place of the stored account with the same
    /// identifier. An account that holds a tag twice is refused.
    pub fn update_account(&mut self, account: Account) -> (r: Result<(), AppError>)
        ensures
            r is Ok <==> has_account(old(self)@.accounts, account.id) && names_unique(
                account@.tags,
            ),
            match r {
                Ok(_) => final(self)@ == (AppConfigView {
                    accounts: old(self)@.accounts.update(
                        account_index(old(self)@.accounts, account.id),
                        account@,
                    ),
                    ..old(self)@
                }),
                Err(e) => final(self)@ == old(self)@ && e@ == (if has_account(
                    old(self)@.accounts,
                    account.id,
                ) {
                    ErrorView::Validation(duplicate_tag())
                } else {
                    ErrorView::AccountNotFound(uuid_text(account.id))
                }),
            },
    {
        let mut config = self.take();
        let r = match find_account(&config.accounts, account.id) {
            Some(i) => {
                if all_distinct(&account.tags) {
                    let ghost before = config.accounts.deep_view();
                    let ghost replaced = account@;
                    config.accounts.set(i, account);
                    proof {
                        let after = config.accounts.deep_view();
                        assert(after =~= before.update(i as int, replaced));
                        assert forall|a: int, b: int| 0 <= a < b < after.len() implies (
                        #[trigger] after[a]).id != (#[trigger] after[b]).id by {
                            assert(before[a].id != before[b].id);
                        }
                        assert forall|a: int| 0 <= a < after.len() implies names_unique(
                            (#[trigger] after[a]).tags,
                        ) by {
                            if a != i {
                                assert(names_unique(before[a].tags));
                            }
                        }
                    }
                    Ok(())
                } else {
                    Err(AppError::Validation(duplicate_tag_text()))
                }
            },
            None => Err(AppError::AccountNotFound(format_uuid(account.id))),
        };
        self.put(config);
        r
    }
}

} // verus!
