//! What a run of creations and deletions leaves in the store.

use crate::models::account::AccountView;
use crate::repository::model::{
    account_index, has_account, ids_unique, lemma_account_index, names_unique,
};
use vstd::prelude::*;

verus! {

/// A change to the set of accounts.
pub enum AccountChange {
    /// As `add_account` makes it.
    Create(AccountView),
    /// As `delete_account` makes it.
    Delete(u128),
}

/// Whether the change takes effect: a creation where the identifier is
/// free and the account holds no tag twice, a deletion where the account is
/// there.
pub open spec fn takes_effect(accounts: Seq<AccountView>, change: AccountChange) -> bool {
    match change {
        AccountChange::Create(account) => !has_account(accounts, account.id) && names_unique(
            account.tags,
        ),
        AccountChange::Delete(id) => has_account(accounts, id),
    }
}

/// The accounts after one change.
pub open spec fn after_change(accounts: Seq<AccountView>, change: AccountChange) -> Seq<AccountView> {
    if !takes_effect(accounts, change) {
        accounts
    } else {
        match change {
            AccountChange::Create(account) => accounts.push(account),
            AccountChange::Delete(id) => accounts.remove(account_index(accounts, id)),
        }
    }
}

/// The accounts after the changes, in turn.
pub open spec fn after_changes(accounts: Seq<AccountView>, changes: Seq<AccountChange>) -> Seq<
    AccountView,
>
    decreases changes.len(),
{
    if changes.len() == 0 {
        accounts
    } else {
        after_change(after_changes(accounts, changes.drop_last()), changes.last())
    }
}

/// How many of the changes were creations, or deletions, that took effect.
pub open spec fn completed(accounts: Seq<AccountView>, changes: Seq<AccountChange>, creations: bool) -> nat
    decreases changes.len(),
{
    if changes.len() == 0 {
        0
    } else {
        let before = after_changes(accounts, changes.drop_last());
        completed(accounts, changes.drop_last(), creations) + if takes_effect(
            before,
            changes.last(),
        ) && (changes.last() is Create) == creations {
            1nat
        } else {
            0nat
        }
    }
}

/// Whether `account` is one of `accounts` or the subject of a creation
/// among `changes`, whole as it was handed in.
pub open spec fn known_whole(
    accounts: Seq<AccountView>,
    changes: Seq<AccountChange>,
    account: AccountView,
) -> bool {
    accounts.contains(account) || changes.contains(AccountChange::Create(account))
}

/// After any run of creations and deletions the store holds as many
/// accounts as it held, plus the creations and minus the deletions that
/// took effect; each under its own identifier; and each whole, as it was
/// stored or handed in. A reader gets a copy of exactly these.
pub proof fn lemma_accounts_after_changes(accounts: Seq<AccountView>, changes: Seq<AccountChange>)
    requires
        ids_unique(accounts),
    ensures
        after_changes(accounts, changes).len() + completed(accounts, changes, false)
            == accounts.len() + completed(accounts, changes, true),
        ids_unique(after_changes(accounts, changes)),
        forall|i: int|
            0 <= i < after_changes(accounts, changes).len() ==> known_whole(
                accounts,
                changes,
                #[trigger] after_changes(accounts, changes)[i],
            ),
    decreases changes.len(),
{
    if changes.len() > 0 {
        let front = changes.drop_last();
        let last = changes.last();
        lemma_accounts_after_changes(accounts, front);
        let before = after_changes(accounts, front);
        let after = after_changes(accounts, changes);
        assert(changes[changes.len() - 1] == last);
        match last {
            AccountChange::Create(account) => {
                if takes_effect(before, last) {
                    assert forall|i: int, j: int| 0 <= i < j < after.len() implies (
                    #[trigger] after[i]).id != (#[trigger] after[j]).id by {
                        if j == before.len() {
                            assert(before[i].id != account.id);
                        } else {
                            assert(before[i].id != before[j].id);
                        }
                    }
                }
            },
            AccountChange::Delete(id) => {
                lemma_account_index(before, id);
                if has_account(before, id) {
                    let at = account_index(before, id);
                    assert forall|i: int, j: int| 0 <= i < j < after.len() implies (
                    #[trigger] after[i]).id != (#[trigger] after[j]).id by {
                        let i0 = if i < at { i } else { i + 1 };
                        let j0 = if j < at { j } else { j + 1 };
                        assert(before[i0].id != before[j0].id);
                    }
                }
            },
        }
        assert forall|i: int| 0 <= i < after.len() implies known_whole(
            accounts,
            changes,
            #[trigger] after[i],
        ) by {
            let a = after[i];
            if before.contains(a) {
                let k = choose|k: int| 0 <= k < before.len() && before[k] == a;
                assert(known_whole(accounts, front, before[k]));
                if front.contains(AccountChange::Create(a)) {
                    let m = choose|m: int|
                        0 <= m < front.len() && front[m] == AccountChange::Create(a);
                    assert(changes[m] == AccountChange::Create(a));
                }
            } else {
                match last {
                    AccountChange::Create(account) => {
                        if takes_effect(before, last) {
                            if i < before.len() {
                                assert(before[i] == a);
                            }
                            assert(a == account);
                        } else {
                            assert(before[i] == a);
                        }
                    },
                    AccountChange::Delete(id) => {
                        lemma_account_index(before, id);
                        if takes_effect(before, last) {
                            let at = account_index(before, id);
                            let i0 = if i < at { i } else { i + 1 };
                            assert(before[i0] == a);
                        } else {
                            assert(before[i] == a);
                        }
                    },
                }
            }
        }
    }
}

} // verus!
