//! Tags: labels that many accounts can carry.

use crate::error::{AppError, ErrorView};
use crate::models::account::{Account, AccountView};
use crate::models::config::{clone_tags, GlobalTag};
use crate::outside::{parse_uuid, uuid_parse};
use crate::repository::model::{
    has_account, lemma_same_ids, name_index, names_unique, tag_names, tags_are_sets,
    AppConfigView,
};
use crate::repository::names::{
    add_names, change_name, lemma_add_names, lemma_add_names_unique, lemma_renamed_unique,
    lemma_without_name_unique, lemma_without_names, lemma_without_names_unique, push_names,
    remove_name, remove_names, renamed, same_text, without_name, without_names,
};
use crate::repository::store::{find_account, DataStore};
use vstd::prelude::*;

verus! {

/// The account with the tags `add` added and then the tags `remove` taken
/// away.
pub open spec fn retag_one(a: AccountView, add: Seq<Seq<char>>, remove: Seq<Seq<char>>) -> AccountView {
    AccountView { tags: without_names(add_names(a.tags, add), remove), ..a }
}

/// What each of the texts reads as: an identifier, or nothing.
pub open spec fn read_ids(texts: Seq<Seq<char>>) -> Seq<Option<u128>> {
    Seq::new(
        texts.len(),
        |k: int|
            match uuid_parse(texts[k]) {
                Ok(id) => Some(id),
                Err(_) => None,
            },
    )
}

/// Whether `id` is one of the identifiers `ids`.
pub open spec fn is_listed(ids: Seq<Option<u128>>, id: u128) -> bool {
    ids.contains(Some(id))
}

/// Whether `entry` is the identifier of one of `accounts`.
pub open spec fn names_account(accounts: Seq<AccountView>, entry: Option<u128>) -> bool {
    match entry {
        Some(id) => has_account(accounts, id),
        None => false,
    }
}

/// How many of the entries `ids` are the identifier of one of `accounts`.
pub open spec fn count_named(accounts: Seq<AccountView>, ids: Seq<Option<u128>>) -> nat
    decreases ids.len(),
{
    if ids.len() == 0 {
        0
    } else {
        count_named(accounts, ids.drop_last()) + if names_account(accounts, ids.last()) {
            1nat
        } else {
            0nat
        }
    }
}

/// The accounts after a batch update: each listed account with its tags
/// changed, the others as they were.
pub open spec fn batch_retag(
    accounts: Seq<AccountView>,
    ids: Seq<Option<u128>>,
    add: Seq<Seq<char>>,
    remove: Seq<Seq<char>>,
) -> Seq<AccountView> {
    Seq::new(
        accounts.len(),
        |i: int|
            if is_listed(ids, accounts[i].id) {
                retag_one(accounts[i], add, remove)
            } else {
                accounts[i]
            },
    )
}

/// The accounts with the tag `from` renamed to `to`. An account that holds
/// both loses `from` and keeps `to`, so that it holds `to` once.
pub open spec fn rename_tag_in(accounts: Seq<AccountView>, from: Seq<char>, to: Seq<char>) -> Seq<
    AccountView,
> {
    Seq::new(
        accounts.len(),
        |i: int| AccountView { tags: renamed(accounts[i].tags, from, to), ..accounts[i] },
    )
}

/// Renaming a tag, dropping a tag and changing tags in a batch leave valid
/// accounts valid.
pub proof fn lemma_tag_changes_keep_valid(
    accounts: Seq<AccountView>,
    from: Seq<char>,
    to: Seq<char>,
    ids: Seq<Option<u128>>,
    add: Seq<Seq<char>>,
    remove: Seq<Seq<char>>,
)
    requires
        crate::repository::model::ids_unique(accounts),
        tags_are_sets(accounts),
    ensures
        crate::repository::model::ids_unique(rename_tag_in(accounts, from, to)),
        tags_are_sets(rename_tag_in(accounts, from, to)),
        crate::repository::model::ids_unique(drop_tag_in(accounts, from)),
        tags_are_sets(drop_tag_in(accounts, from)),
        crate::repository::model::ids_unique(batch_retag(accounts, ids, add, remove)),
        tags_are_sets(batch_retag(accounts, ids, add, remove)),
{
    let renamed_all = rename_tag_in(accounts, from, to);
    let dropped = drop_tag_in(accounts, from);
    let batch = batch_retag(accounts, ids, add, remove);
    assert forall|i: int| 0 <= i < accounts.len() implies (#[trigger] renamed_all[i]).id
        == accounts[i].id && names_unique(renamed_all[i].tags) by {
        assert(names_unique(accounts[i].tags));
        lemma_renamed_unique(accounts[i].tags, from, to);
    }
    assert forall|i: int| 0 <= i < accounts.len() implies (#[trigger] dropped[i]).id
        == accounts[i].id && names_unique(dropped[i].tags) by {
        assert(names_unique(accounts[i].tags));
        lemma_without_name_unique(accounts[i].tags, from);
    }
    assert forall|i: int| 0 <= i < accounts.len() implies (#[trigger] batch[i]).id
        == accounts[i].id && names_unique(batch[i].tags) by {
        assert(names_unique(accounts[i].tags));
        lemma_add_names_unique(accounts[i].tags, add);
        lemma_without_names_unique(add_names(accounts[i].tags, add), remove);
    }
    lemma_same_ids(accounts, renamed_all);
    lemma_same_ids(accounts, dropped);
    lemma_same_ids(accounts, batch);
}

/// The accounts without the tag `name`.
pub open spec fn drop_tag_in(accounts: Seq<AccountView>, name: Seq<char>) -> Seq<AccountView> {
    Seq::new(
        accounts.len(),
        |i: int| AccountView { tags: without_name(accounts[i].tags, name), ..accounts[i] },
    )
}

/// The place of the tag named `name` in `tags`.
pub fn find_tag(tags: &Vec<GlobalTag>, name: &String) -> (found: Option<usize>)
    ensures
        match found {
            Some(i) => i == name_index(tag_names(tags.deep_view()), name@) && i < tags.len()
                && tags@[i as int].name@ == name@ && tag_names(tags.deep_view()).contains(name@),
            None => !tag_names(tags.deep_view()).contains(name@),
        },
{
    let ghost names = tag_names(tags.deep_view());
    let mut i: usize = 0;
    while i < tags.len()
        invariant
            i <= tags.len(),
            names == tag_names(tags.deep_view()),
            forall|k: int| 0 <= k < i ==> #[trigger] names[k] != name@,
        decreases tags.len() - i,
    {
        if same_text(&tags[i].name, name) {
            proof {
                crate::repository::model::lemma_name_index(names, name@);
                assert(names[i as int] == name@);
            }
            return Some(i);
        }
        i = i + 1;
    }
    None
}

/// Renames the tag `from` to `to` in every account.
pub fn rename_tag_everywhere(accounts: &mut Vec<Account>, from: &String, to: &String)
    ensures
        final(accounts).deep_view() == rename_tag_in(old(accounts).deep_view(), from@, to@),
        final(accounts)@.len() == old(accounts)@.len(),
        forall|k: int|
            0 <= k < old(accounts)@.len() ==> (#[trigger] final(accounts)@[k]).id == old(
                accounts,
            )@[k].id,
{
    let ghost before = accounts.deep_view();
    let ghost target = rename_tag_in(before, from@, to@);
    let mut i: usize = 0;
    while i < accounts.len()
        invariant
            i <= accounts.len(),
            accounts@.len() == before.len(),
            target == rename_tag_in(before, from@, to@),
            before.len() == old(accounts)@.len(),
            forall|k: int| 0 <= k < before.len() ==> before[k] == (#[trigger] old(accounts)@[k])@,
            forall|k: int| 0 <= k < i ==> (#[trigger] accounts@[k])@ == target[k],
            forall|k: int| i <= k < before.len() ==> (#[trigger] accounts@[k])@ == before[k],
        decreases accounts.len() - i,
    {
        let changed = change_name(&accounts[i].tags, from, to);
        accounts[i].tags = changed;
        i = i + 1;
    }
    proof {
        assert(accounts.deep_view() =~= target);
        assert forall|k: int| 0 <= k < old(accounts)@.len() implies (#[trigger] accounts@[k]).id
            == old(accounts)@[k].id by {
            assert(accounts@[k]@ == target[k]);
            assert(before[k] == old(accounts)@[k]@);
        }
    }
}

/// Takes the tag `name` from every account.
pub fn drop_tag_everywhere(accounts: &mut Vec<Account>, name: &String)
    ensures
        final(accounts).deep_view() == drop_tag_in(old(accounts).deep_view(), name@),
        final(accounts)@.len() == old(accounts)@.len(),
        forall|k: int|
            0 <= k < old(accounts)@.len() ==> (#[trigger] final(accounts)@[k]).id == old(
                accounts,
            )@[k].id,
{
    let ghost before = accounts.deep_view();
    let ghost target = drop_tag_in(before, name@);
    let mut i: usize = 0;
    while i < accounts.len()
        invariant
            i <= accounts.len(),
            accounts@.len() == before.len(),
            target == drop_tag_in(before, name@),
            before.len() == old(accounts)@.len(),
            forall|k: int| 0 <= k < before.len() ==> before[k] == (#[trigger] old(accounts)@[k])@,
            forall|k: int| 0 <= k < i ==> (#[trigger] accounts@[k])@ == target[k],
            forall|k: int| i <= k < before.len() ==> (#[trigger] accounts@[k])@ == before[k],
        decreases accounts.len() - i,
    {
        let kept = remove_name(&accounts[i].tags, name);
        accounts[i].tags = kept;
        i = i + 1;
    }
    proof {
        assert(accounts.deep_view() =~= target);
        assert forall|k: int| 0 <= k < old(accounts)@.len() implies (#[trigger] accounts@[k]).id
            == old(accounts)@[k].id by {
            assert(accounts@[k]@ == target[k]);
            assert(before[k] == old(accounts)@[k]@);
        }
    }
}

/// Whether `id` is among `wanted`.
pub fn is_wanted(wanted: &Vec<Option<u128>>, id: u128) -> (found: bool)
    ensures
        found == is_listed(wanted@, id),
{
    let mut i: usize = 0;
    while i < wanted.len()
        invariant
            i <= wanted.len(),
            forall|k: int| 0 <= k < i ==> wanted@[k] != Some(id),
        decreases wanted.len() - i,
    {
        match wanted[i] {
            Some(entry) => {
                if entry == id {
                    assert(wanted@[i as int] == Some(id));
                    return true;
                }
            },
            None => {},
        }
        i = i + 1;
    }
    false
}

impl DataStore {
    /// The tags, in the store's order.
    pub fn get_tags(&self) -> (tags: Vec<GlobalTag>)
        ensures
            tags.deep_view() == self@.tags,
            tags.len() == self@.tags.len(),
    {
        clone_tags(&self.config().tags)
    }

    /// Adds `tag`, unless a tag of that name exists.
    pub fn add_tag(&mut self, tag: GlobalTag) -> (r: Result<(), AppError>)
        ensures
            match r {
                Ok(_) => !tag_names(old(self)@.tags).contains(tag@.name) && final(self)@ == (
                AppConfigView { tags: old(self)@.tags.push(tag@), ..old(self)@ }),
                Err(e) => tag_names(old(self)@.tags).contains(tag@.name) && e@
                    == ErrorView::DuplicateName(tag@.name) && final(self)@ == old(self)@,
            },
    {
        let mut config = self.take();
        let r = match find_tag(&config.tags, &tag.name) {
            Some(_) => Err(AppError::DuplicateName(tag.name)),
            None => {
                let ghost before = config.tags.deep_view();
                let ghost added = tag@;
                config.tags.push(tag);
                proof {
                    let after = config.tags.deep_view();
                    assert(after =~= before.push(added));
                    let names = tag_names(after);
                    assert forall|i: int, j: int| 0 <= i < j < names.len() implies #[trigger] names[i]
                        != #[trigger] names[j] by {
                        if j == before.len() {
                            assert(tag_names(before)[i] != added.name);
                        } else {
                            assert(tag_names(before)[i] != tag_names(before)[j]);
                        }
                    }
                }
                Ok(())
            },
        };
        self.put(config);
        r
    }

    /// Puts `tag` in the place of the tag named `old_name`. Where the name
    /// changes, every account that carries the old name carries the new one
    /// afterwards. The new name must not be the name of another tag.
    pub fn update_tag(&mut self, old_name: String, tag: GlobalTag) -> (r: Result<(), AppError>)
        ensures
            match r {
                Ok(_) => tag_names(old(self)@.tags).contains(old_name@) && (tag@.name == old_name@
                    || !tag_names(old(self)@.tags).contains(tag@.name)) && final(self)@ == (
                AppConfigView {
                    tags: old(self)@.tags.update(
                        name_index(tag_names(old(self)@.tags), old_name@),
                        tag@,
                    ),
                    accounts: rename_tag_in(old(self)@.accounts, old_name@, tag@.name),
                    ..old(self)@
                }),
                Err(e) => final(self)@ == old(self)@ && if !tag_names(old(self)@.tags).contains(
                    old_name@,
                ) {
                    e@ == ErrorView::NotFound(old_name@)
                } else {
                    tag@.name != old_name@ && tag_names(old(self)@.tags).contains(tag@.name) && e@
                        == ErrorView::DuplicateName(tag@.name)
                },
            },
    {
        let mut config = self.take();
        let r = match find_tag(&config.tags, &old_name) {
            Some(i) => {
                let same = same_text(&tag.name, &old_name);
                if !same && find_tag(&config.tags, &tag.name).is_some() {
                    Err(AppError::DuplicateName(tag.name))
                } else {
                    let ghost before = config.tags.deep_view();
                    let ghost held = config.accounts.deep_view();
                    let ghost replaced = tag@;
                    rename_tag_everywhere(&mut config.accounts, &old_name, &tag.name);
                    config.tags.set(i, tag);
                    proof {
                        let after = config.tags.deep_view();
                        assert(after =~= before.update(i as int, replaced));
                        let names = tag_names(after);
                        assert(tag_names(before)[i as int] == old_name@);
                        assert forall|a: int, b: int|
                            0 <= a < b < names.len() implies #[trigger] names[a]
                            != #[trigger] names[b] by {
                            assert(tag_names(before)[a] != tag_names(before)[b]);
                            assert(tag_names(before).contains(tag_names(before)[a]));
                            assert(tag_names(before).contains(tag_names(before)[b]));
                        }
                        lemma_tag_changes_keep_valid(
                            held,
                            old_name@,
                            replaced.name,
                            Seq::empty(),
                            Seq::empty(),
                            Seq::empty(),
                        );
                    }
                    Ok(())
                }
            },
            None => Err(AppError::NotFound(old_name)),
        };
        self.put(config);
        r
    }

    /// Deletes the tag `name`, from the list of tags and from every account
    /// that carries it.
    pub fn delete_tag(&mut self, name: String) -> (r: Result<(), AppError>)
        ensures
            match r {
                Ok(_) => tag_names(old(self)@.tags).contains(name@) && final(self)@ == (
                AppConfigView {
                    tags: old(self)@.tags.remove(name_index(tag_names(old(self)@.tags), name@)),
                    accounts: drop_tag_in(old(self)@.accounts, name@),
                    ..old(self)@
                }),
                Err(e) => !tag_names(old(self)@.tags).contains(name@) && e@ == ErrorView::NotFound(
                    name@,
                ) && final(self)@ == old(self)@,
            },
    {
        let mut config = self.take();
        let r = match find_tag(&config.tags, &name) {
            Some(i) => {
                let ghost before = config.tags.deep_view();
                let ghost held = config.accounts.deep_view();
                config.tags.remove(i);
                drop_tag_everywhere(&mut config.accounts, &name);
                proof {
                    let after = config.tags.deep_view();
                    assert(after =~= before.remove(i as int));
                    let names = tag_names(after);
                    assert forall|a: int, b: int|
                        0 <= a < b < names.len() implies #[trigger] names[a]
                        != #[trigger] names[b] by {
                        let a0 = if a < i { a } else { a + 1 };
                        let b0 = if b < i { b } else { b + 1 };
                        assert(tag_names(before)[a0] != tag_names(before)[b0]);
                    }
                    lemma_tag_changes_keep_valid(
                        held,
                        name@,
                        name@,
                        Seq::empty(),
                        Seq::empty(),
                        Seq::empty(),
                    );
                }
                Ok(())
            },
            None => Err(AppError::NotFound(name)),
        };
        self.put(config);
        r
    }

    /// Changes the tags of the accounts that `account_ids` lists: each gets
    /// the tags `add_tags`, then loses the tags `remove_tags`, so that a tag
    /// in both is gone afterwards. Returns how many of the listed texts are
    /// the identifier of an account, and how many are not; the latter change
    /// nothing and do not stop the batch.
    pub fn batch_update_account_tags(
        &mut self,
        account_ids: Vec<String>,
        add_tags: Vec<String>,
        remove_tags: Vec<String>,
    ) -> (counts: (usize, usize))
        ensures
            counts.0 == count_named(old(self)@.accounts, read_ids(account_ids.deep_view())),
            counts.0 + counts.1 == account_ids.len(),
            final(self)@ == (AppConfigView {
                accounts: batch_retag(
                    old(self)@.accounts,
                    read_ids(account_ids.deep_view()),
                    add_tags.deep_view(),
                    remove_tags.deep_view(),
                ),
                ..old(self)@
            }),
    {
        let mut ids: Vec<Option<u128>> = Vec::new();
        let mut k: usize = 0;
        while k < account_ids.len()
            invariant
                k <= account_ids.len(),
                ids.len() == k,
                forall|p: int|
                    0 <= p < k ==> #[trigger] ids@[p] == read_ids(account_ids.deep_view())[p],
            decreases account_ids.len() - k,
        {
            let entry = match parse_uuid(account_ids[k].as_str()) {
                Ok(id) => Some(id),
                Err(_) => None,
            };
            ids.push(entry);
            k = k + 1;
        }
        assert(ids@ =~= read_ids(account_ids.deep_view()));
        self.retag_accounts(ids, add_tags, remove_tags)
    }

    /// Changes the tags of the accounts whose identifiers `ids` holds: each
    /// gets the tags `add_tags`, then loses the tags `remove_tags`. Returns
    /// how many entries are the identifier of an account, and how many are
    /// not.
    pub fn retag_accounts(
        &mut self,
        ids: Vec<Option<u128>>,
        add_tags: Vec<String>,
        remove_tags: Vec<String>,
    ) -> (counts: (usize, usize))
        ensures
            counts.0 == count_named(old(self)@.accounts, ids@),
            counts.0 + counts.1 == ids.len(),
            final(self)@ == (AppConfigView {
                accounts: batch_retag(
                    old(self)@.accounts,
                    ids@,
                    add_tags.deep_view(),
                    remove_tags.deep_view(),
                ),
                ..old(self)@
            }),
    {
        let mut config = self.take();
        let ghost before = config.accounts.deep_view();
        let mut found: usize = 0;
        let mut missing: usize = 0;
        let mut k: usize = 0;
        while k < ids.len()
            invariant
                k <= ids.len(),
                before == config.accounts.deep_view(),
                found == count_named(before, ids@.take(k as int)),
                found + missing == k,
            decreases ids.len() - k,
        {
            proof {
                let next = ids@.take(k as int + 1);
                assert(next.drop_last() =~= ids@.take(k as int));
                assert(next.last() == ids@[k as int]);
            }
            let hit = match ids[k] {
                Some(id) => find_account(&config.accounts, id).is_some(),
                None => false,
            };
            if hit {
                found = found + 1;
            } else {
                missing = missing + 1;
            }
            k = k + 1;
        }
        proof {
            assert(ids@.take(k as int) =~= ids@);
        }
        let ghost target = batch_retag(before, ids@, add_tags.deep_view(), remove_tags.deep_view());
        let mut i: usize = 0;
        while i < config.accounts.len()
            invariant
                i <= config.accounts.len(),
                config.accounts@.len() == before.len(),
                target == batch_retag(before, ids@, add_tags.deep_view(), remove_tags.deep_view()),
                forall|j: int| 0 <= j < i ==> (#[trigger] config.accounts@[j])@ == target[j],
                forall|j: int| i <= j < before.len() ==> (#[trigger] config.accounts@[j])@ == before[j],
                config@ == (AppConfigView { accounts: config.accounts.deep_view(), ..old(self)@ }),
            decreases config.accounts.len() - i,
        {
            proof {
                assert(config.accounts@[i as int]@ == before[i as int]);
            }
            if is_wanted(&ids, config.accounts[i].id) {
                let mut tags = crate::models::config::clone_names(&config.accounts[i].tags);
                push_names(&mut tags, &add_tags);
                let kept = remove_names(&tags, &remove_tags);
                config.accounts[i].tags = kept;
            }
            i = i + 1;
        }
        proof {
            assert(config.accounts.deep_view() =~= target);
            lemma_tag_changes_keep_valid(
                before,
                Seq::empty(),
                Seq::empty(),
                ids@,
                add_tags.deep_view(),
                remove_tags.deep_view(),
            );
        }
        self.put(config);
        (found, missing)
    }
}

/// After a batch update, a listed account carries none of the tags that were
/// to be removed, whether or not they were also to be added: removing wins.
/// It carries every tag that was to be added and not removed, and keeps its
/// other tags.
pub proof fn lemma_remove_wins(a: AccountView, add: Seq<Seq<char>>, remove: Seq<Seq<char>>)
    ensures
        forall|t: Seq<char>| remove.contains(t) ==> !(#[trigger] retag_one(a, add, remove).tags.contains(t)),
        forall|t: Seq<char>|
            !remove.contains(t) ==> (#[trigger] retag_one(a, add, remove).tags.contains(t) <==> (
            a.tags.contains(t) || add.contains(t))),
{
    lemma_add_names(a.tags, add);
    lemma_without_names(add_names(a.tags, add), remove);
}

} // verus!
