//! Groups: named partitions of the accounts.

use crate::error::{AppError, ErrorView};
use crate::models::account::{Account, AccountView};
use crate::models::config::clone_names;
use crate::repository::model::{lemma_same_ids_and_tags, name_index, AppConfigView};
use crate::repository::names::{find_name, same_text};
use crate::repository::store::DataStore;
use vstd::prelude::*;

verus! {

/// The account with `to` as its group where its group was `from`.
pub open spec fn regroup_one(a: AccountView, from: Seq<char>, to: Option<Seq<char>>) -> AccountView {
    if a.group == Some(from) {
        AccountView { group: to, ..a }
    } else {
        a
    }
}

/// Every account of group `from` moved to `to`, or out of any group where
/// `to` is none.
pub open spec fn regroup(accounts: Seq<AccountView>, from: Seq<char>, to: Option<Seq<char>>) -> Seq<
    AccountView,
> {
    Seq::new(accounts.len(), |i: int| regroup_one(accounts[i], from, to))
}

/// Moves every account of group `from` to `to`, or out of any group where
/// `to` is none.
pub fn move_members(accounts: &mut Vec<Account>, from: &String, to: Option<&String>)
    ensures
        final(accounts).deep_view() == regroup(old(accounts).deep_view(), from@, to.deep_view()),
        final(accounts)@.len() == old(accounts)@.len(),
        forall|k: int|
            0 <= k < old(accounts)@.len() ==> (#[trigger] final(accounts)@[k]).id == old(
                accounts,
            )@[k].id,
{
    let ghost before = accounts.deep_view();
    let ghost target = regroup(before, from@, to.deep_view());
    let mut i: usize = 0;
    while i < accounts.len()
        invariant
            i <= accounts.len(),
            accounts@.len() == before.len(),
            target == regroup(before, from@, to.deep_view()),
            before.len() == old(accounts)@.len(),
            forall|k: int| 0 <= k < before.len() ==> before[k] == (#[trigger] old(accounts)@[k])@,
            forall|k: int| 0 <= k < i ==> (#[trigger] accounts@[k])@ == target[k],
            forall|k: int| i <= k < before.len() ==> (#[trigger] accounts@[k])@ == before[k],
        decreases accounts.len() - i,
    {
        let is_member = match &accounts[i].group {
            Some(group) => same_text(group, from),
            None => false,
        };
        if is_member {
            let moved: Option<String> = match to {
                Some(name) => Some(name.clone()),
                None => None,
            };
            accounts[i].group = moved;
        }
        i = i + 1;
    }
    proof {
        assert(accounts.deep_view() =~= target);
        assert forall|k: int| 0 <= k < old(accounts)@.len() implies (#[trigger] accounts@[k]).id
            == old(accounts)@[k].id by {
            assert(accounts@[k]@ == target[k]);
            assert(before[k] == old(accounts)@[k]@);
        }
    }
}

impl DataStore {
    /// The names of the groups, in the store's order.
    pub fn get_groups(&self) -> (groups: Vec<String>)
        ensures
            groups.deep_view() == self@.groups,
            groups.len() == self@.groups.len(),
    {
        clone_names(&self.config().groups)
    }

    /// Adds the group `name`, unless a group of that name exists.
    pub fn add_group(&mut self, name: String) -> (r: Result<(), AppError>)
        ensures
            match r {
                Ok(_) => !old(self)@.groups.contains(name@) && final(self)@ == (AppConfigView {
                    groups: old(self)@.groups.push(name@),
                    ..old(self)@
                }),
                Err(e) => old(self)@.groups.contains(name@) && e@ == ErrorView::DuplicateName(
                    name@,
                ) && final(self)@ == old(self)@,
            },
    {
        let mut config = self.take();
        let r = match find_name(&config.groups, &name) {
            Some(_) => Err(AppError::DuplicateName(name)),
            None => {
                let ghost before = config.groups.deep_view();
                config.groups.push(name);
                proof {
                    let after = config.groups.deep_view();
                    assert(after =~= before.push(name@));
                    assert forall|i: int, j: int| 0 <= i < j < after.len() implies #[trigger] after[i]
                        != #[trigger] after[j] by {
                        if j == before.len() {
                            assert(before[i] != name@);
                        } else {
                            assert(before[i] != before[j]);
                        }
                    }
                }
                Ok(())
            },
        };
        self.put(config);
        r
    }

    /// Deletes the group `name`. Its accounts stay, and belong to no group
    /// afterwards.
    pub fn delete_group(&mut self, name: String) -> (r: Result<(), AppError>)
        ensures
            match r {
                Ok(_) => old(self)@.groups.contains(name@) && final(self)@ == (AppConfigView {
                    groups: old(self)@.groups.remove(name_index(old(self)@.groups, name@)),
                    accounts: regroup(old(self)@.accounts, name@, None),
                    ..old(self)@
                }),
                Err(e) => !old(self)@.groups.contains(name@) && e@ == ErrorView::NotFound(name@)
                    && final(self)@ == old(self)@,
            },
    {
        let mut config = self.take();
        let r = match find_name(&config.groups, &name) {
            Some(i) => {
                let ghost before = config.groups.deep_view();
                let ghost held = config.accounts.deep_view();
                config.groups.remove(i);
                move_members(&mut config.accounts, &name, None);
                proof {
                    let after = config.groups.deep_view();
                    assert(after =~= before.remove(i as int));
                    assert forall|a: int, b: int| 0 <= a < b < after.len() implies #[trigger] after[a]
                        != #[trigger] after[b] by {
                        let a0 = if a < i { a } else { a + 1 };
                        let b0 = if b < i { b } else { b + 1 };
                        assert(before[a0] != before[b0]);
                    }
                    lemma_same_ids_and_tags(held, config.accounts.deep_view());
                }
                Ok(())
            },
            None => Err(AppError::NotFound(name)),
        };
        self.put(config);
        r
    }

    /// Gives the group `old_name` the name `new_name`, in the list of groups
    /// and in every account of the group at once. The new name must not be
    /// the name of a group.
    pub fn rename_group(&mut self, old_name: String, new_name: String) -> (r: Result<
        (),
        AppError,
    >)
        ensures
            match r {
                Ok(_) => old(self)@.groups.contains(old_name@) && !old(self)@.groups.contains(
                    new_name@,
                ) && final(self)@ == (AppConfigView {
                    groups: old(self)@.groups.update(
                        name_index(old(self)@.groups, old_name@),
                        new_name@,
                    ),
                    accounts: regroup(old(self)@.accounts, old_name@, Some(new_name@)),
                    ..old(self)@
                }),
                Err(e) => final(self)@ == old(self)@ && if !old(self)@.groups.contains(
                    old_name@,
                ) {
                    e@ == ErrorView::NotFound(old_name@)
                } else {
                    old(self)@.groups.contains(new_name@) && e@ == ErrorView::DuplicateName(
                        new_name@,
                    )
                },
            },
    {
        let mut config = self.take();
        let r = match find_name(&config.groups, &old_name) {
            Some(i) => {
                if find_name(&config.groups, &new_name).is_some() {
                    Err(AppError::DuplicateName(new_name))
                } else {
                    let ghost before = config.groups.deep_view();
                    let ghost held = config.accounts.deep_view();
                    move_members(&mut config.accounts, &old_name, Some(&new_name));
                    config.groups.set(i, new_name);
                    proof {
                        let after = config.groups.deep_view();
                        assert(after =~= before.update(i as int, new_name@));
                        assert forall|a: int, b: int|
                            0 <= a < b < after.len() implies #[trigger] after[a]
                            != #[trigger] after[b] by {
                            assert(before[a] != before[b]);
                            assert(before[a] != new_name@);
                            assert(before[b] != new_name@);
                        }
                        lemma_same_ids_and_tags(held, config.accounts.deep_view());
                    }
                    Ok(())
                }
            },
            None => Err(AppError::NotFound(old_name)),
        };
        self.put(config);
        r
    }
}

/// After a group was renamed, every account that belonged to it reports the
/// new name, and no account reports the old one.
pub proof fn lemma_rename_moves_every_member(
    accounts: Seq<AccountView>,
    old_name: Seq<char>,
    new_name: Seq<char>,
)
    requires
        old_name != new_name,
    ensures
        forall|i: int|
            0 <= i < accounts.len() && accounts[i].group == Some(old_name) ==> (#[trigger] regroup(
                accounts,
                old_name,
                Some(new_name),
            )[i]).group == Some(new_name),
        forall|i: int|
            0 <= i < accounts.len() ==> (#[trigger] regroup(
                accounts,
                old_name,
                Some(new_name),
            )[i]).group != Some(old_name),
{
}

/// After a group was deleted its accounts are all there, and none of them
/// names the group.
pub proof fn lemma_delete_keeps_every_member(accounts: Seq<AccountView>, name: Seq<char>)
    ensures
        regroup(accounts, name, None).len() == accounts.len(),
        forall|i: int|
            0 <= i < accounts.len() ==> (#[trigger] regroup(accounts, name, None)[i]).group != Some(
                name,
            ) && regroup(accounts, name, None)[i].id == accounts[i].id,
{
}

} // verus!
