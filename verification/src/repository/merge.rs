//! Reconciling incoming accounts, groups and tags with those of the store.

use crate::models::account::{Account, AccountView};
use crate::models::config::{GlobalTag, GlobalTagView};
use crate::repository::model::{
    account_index, has_account, ids_unique, lemma_account_index, names_unique, tag_names,
    tags_are_sets,
};
use crate::repository::names::same_text;
use crate::repository::settings::same_optional_text;
use crate::repository::store::find_account;
use crate::repository::tags::find_tag;
use vstd::prelude::*;

verus! {

/// The place of the first account with the email `email`, or the number of
/// accounts where there is none.
pub open spec fn email_index(accounts: Seq<AccountView>, email: Seq<char>) -> int
    decreases accounts.len(),
{
    if accounts.len() == 0 {
        0
    } else if accounts[0].email == email {
        0
    } else {
        1 + email_index(accounts.skip(1), email)
    }
}

/// The place of the account that an incoming account is reconciled with: the
/// one with its identifier, else the first with its email; the number of
/// accounts where neither exists.
pub open spec fn match_index(accounts: Seq<AccountView>, incoming: AccountView) -> int {
    if account_index(accounts, incoming.id) < accounts.len() {
        account_index(accounts, incoming.id)
    } else {
        email_index(accounts, incoming.email)
    }
}

/// The incoming account under the identifier of the account that it
/// replaces: the incoming fields win, the identifier stays.
pub open spec fn merged_into(existing: AccountView, incoming: AccountView) -> AccountView {
    AccountView { id: existing.id, ..incoming }
}

/// What becomes of an incoming account.
#[derive(Clone, Copy, Debug, PartialEq, Eq, Structural)]
pub enum MergeOutcome {
    /// No account matches: it is added behind the others.
    Added,
    /// An account matches and differs: it is replaced in its place.
    Updated,
    /// An account matches and holds the same values already.
    Skipped,
}

/// What becomes of `incoming` when it meets `accounts`.
pub open spec fn merge_outcome(accounts: Seq<AccountView>, incoming: AccountView) -> MergeOutcome {
    let at = match_index(accounts, incoming);
    if at >= accounts.len() {
        MergeOutcome::Added
    } else if merged_into(accounts[at], incoming) == accounts[at] {
        MergeOutcome::Skipped
    } else {
        MergeOutcome::Updated
    }
}

/// `accounts` after `incoming` was reconciled with them.
pub open spec fn merge_one(accounts: Seq<AccountView>, incoming: AccountView) -> Seq<AccountView> {
    let at = match_index(accounts, incoming);
    if at >= accounts.len() {
        accounts.push(incoming)
    } else {
        accounts.update(at, merged_into(accounts[at], incoming))
    }
}

/// `accounts` after each of `incoming` was reconciled with them, in turn.
pub open spec fn merge_accounts(accounts: Seq<AccountView>, incoming: Seq<AccountView>) -> Seq<
    AccountView,
>
    decreases incoming.len(),
{
    if incoming.len() == 0 {
        accounts
    } else {
        merge_one(merge_accounts(accounts, incoming.drop_last()), incoming.last())
    }
}

/// How many of `incoming` met the outcome `which`.
pub open spec fn count_outcome(
    accounts: Seq<AccountView>,
    incoming: Seq<AccountView>,
    which: MergeOutcome,
) -> nat
    decreases incoming.len(),
{
    if incoming.len() == 0 {
        0
    } else {
        count_outcome(accounts, incoming.drop_last(), which) + if merge_outcome(
            merge_accounts(accounts, incoming.drop_last()),
            incoming.last(),
        ) == which {
            1nat
        } else {
            0nat
        }
    }
}

/// `tags` with `incoming` added at the end, unless a tag of its name is
/// there already.
pub open spec fn merge_tag(tags: Seq<GlobalTagView>, incoming: GlobalTagView) -> Seq<GlobalTagView> {
    if tag_names(tags).contains(incoming.name) {
        tags
    } else {
        tags.push(incoming)
    }
}

/// `tags` with each of `incoming` added in turn.
pub open spec fn merge_tags(tags: Seq<GlobalTagView>, incoming: Seq<GlobalTagView>) -> Seq<
    GlobalTagView,
>
    decreases incoming.len(),
{
    if incoming.len() == 0 {
        tags
    } else {
        merge_tag(merge_tags(tags, incoming.drop_last()), incoming.last())
    }
}

/// `email_index` finds the first account with the email, if there is one.
pub proof fn lemma_email_index(accounts: Seq<AccountView>, email: Seq<char>)
    ensures
        0 <= email_index(accounts, email) <= accounts.len(),
        forall|k: int|
            0 <= k < email_index(accounts, email) ==> (#[trigger] accounts[k]).email != email,
        email_index(accounts, email) < accounts.len() ==> accounts[email_index(
            accounts,
            email,
        )].email == email,
    decreases accounts.len(),
{
    if accounts.len() > 0 && accounts[0].email != email {
        let rest = accounts.skip(1);
        lemma_email_index(rest, email);
        let at = email_index(rest, email);
        assert forall|k: int| 0 <= k < 1 + at implies (#[trigger] accounts[k]).email != email by {
            if k > 0 {
                assert(accounts[k] == rest[k - 1]);
            }
        }
        if at < rest.len() {
            assert(accounts[1 + at] == rest[at]);
        }
    }
}

/// The index below which no account has the email, and at which one has it,
/// is `email_index`.
pub proof fn lemma_email_index_is(accounts: Seq<AccountView>, email: Seq<char>, at: int)
    requires
        0 <= at <= accounts.len(),
        forall|k: int| 0 <= k < at ==> (#[trigger] accounts[k]).email != email,
        at < accounts.len() ==> accounts[at].email == email,
    ensures
        email_index(accounts, email) == at,
{
    lemma_email_index(accounts, email);
    let found = email_index(accounts, email);
    if found < at {
        assert(accounts[found].email != email);
    }
    if at < found {
        assert(accounts[at].email != email);
    }
}

/// Reconciling one account keeps every identifier in its place, and keeps
/// identifiers unique.
pub proof fn lemma_merge_one(accounts: Seq<AccountView>, incoming: AccountView)
    requires
        ids_unique(accounts),
    ensures
        ids_unique(merge_one(accounts, incoming)),
        merge_one(accounts, incoming).len() >= accounts.len(),
        forall|k: int|
            0 <= k < accounts.len() ==> (#[trigger] merge_one(accounts, incoming)[k]).id
                == accounts[k].id,
        has_account(accounts, incoming.id) ==> merge_one(accounts, incoming).len()
            == accounts.len(),
{
    lemma_account_index(accounts, incoming.id);
    lemma_email_index(accounts, incoming.email);
    let out = merge_one(accounts, incoming);
    let at = match_index(accounts, incoming);
    assert forall|i: int, j: int| 0 <= i < j < out.len() implies (#[trigger] out[i]).id != (
    #[trigger] out[j]).id by {
        if at >= accounts.len() {
            if j == accounts.len() {
                assert(accounts[i].id != incoming.id);
            } else {
                assert(accounts[i].id != accounts[j].id);
            }
        } else {
            assert(accounts[i].id != accounts[j].id);
        }
    }
}

/// Reconciling accounts keeps every identifier in its place, and keeps
/// identifiers unique.
pub proof fn lemma_merge_accounts(accounts: Seq<AccountView>, incoming: Seq<AccountView>)
    requires
        ids_unique(accounts),
    ensures
        ids_unique(merge_accounts(accounts, incoming)),
        merge_accounts(accounts, incoming).len() >= accounts.len(),
        forall|k: int|
            0 <= k < accounts.len() ==> (#[trigger] merge_accounts(accounts, incoming)[k]).id
                == accounts[k].id,
    decreases incoming.len(),
{
    if incoming.len() > 0 {
        let front = incoming.drop_last();
        lemma_merge_accounts(accounts, front);
        let mid = merge_accounts(accounts, front);
        lemma_merge_one(mid, incoming.last());
        let out = merge_accounts(accounts, incoming);
        assert forall|k: int| 0 <= k < accounts.len() implies (#[trigger] out[k]).id
            == accounts[k].id by {
            assert(mid[k].id == accounts[k].id);
        }
    }
}

/// Reconciling accounts whose tags are sets with accounts whose tags are
/// sets leaves accounts whose tags are sets.
pub proof fn lemma_merge_keeps_tag_sets(accounts: Seq<AccountView>, incoming: Seq<AccountView>)
    requires
        tags_are_sets(accounts),
        tags_are_sets(incoming),
    ensures
        tags_are_sets(merge_accounts(accounts, incoming)),
    decreases incoming.len(),
{
    if incoming.len() > 0 {
        let front = incoming.drop_last();
        let last = incoming.last();
        assert forall|i: int| 0 <= i < front.len() implies names_unique(
            (#[trigger] front[i]).tags,
        ) by {
            assert(front[i] == incoming[i]);
        }
        lemma_merge_keeps_tag_sets(accounts, front);
        let mid = merge_accounts(accounts, front);
        let out = merge_accounts(accounts, incoming);
        assert(names_unique(incoming[incoming.len() - 1].tags));
        lemma_account_index(mid, last.id);
        lemma_email_index(mid, last.email);
        assert forall|i: int| 0 <= i < out.len() implies names_unique((#[trigger] out[i]).tags) by {
            if i < mid.len() && out[i] == mid[i] {
                assert(names_unique(mid[i].tags));
            }
        }
    }
}

/// Where every incoming account has the identifier of a stored one, none is
/// added: as many accounts are there afterwards, under the same identifiers.
pub proof fn lemma_merge_matched_by_id(accounts: Seq<AccountView>, incoming: Seq<AccountView>)
    requires
        ids_unique(accounts),
        forall|i: int| 0 <= i < incoming.len() ==> has_account(accounts, (#[trigger] incoming[i]).id),
    ensures
        merge_accounts(accounts, incoming).len() == accounts.len(),
        forall|k: int|
            0 <= k < accounts.len() ==> (#[trigger] merge_accounts(accounts, incoming)[k]).id
                == accounts[k].id,
        count_outcome(accounts, incoming, MergeOutcome::Added) == 0,
    decreases incoming.len(),
{
    if incoming.len() > 0 {
        let front = incoming.drop_last();
        let last = incoming.last();
        assert forall|i: int| 0 <= i < front.len() implies has_account(
            accounts,
            (#[trigger] front[i]).id,
        ) by {
            assert(front[i] == incoming[i]);
        }
        lemma_merge_matched_by_id(accounts, front);
        lemma_merge_accounts(accounts, front);
        let mid = merge_accounts(accounts, front);
        assert(has_account(accounts, incoming[incoming.len() - 1].id));
        let w = choose|w: int| 0 <= w < accounts.len() && (#[trigger] accounts[w]).id == last.id;
        assert(mid[w].id == last.id);
        assert(has_account(mid, last.id));
        lemma_merge_one(mid, last);
        lemma_account_index(mid, last.id);
        let out = merge_accounts(accounts, incoming);
        assert forall|k: int| 0 <= k < accounts.len() implies (#[trigger] out[k]).id
            == accounts[k].id by {
            assert(mid[k].id == accounts[k].id);
        }
    }
}

/// Whether an account with the identifier and the email of `account` is
/// among `accounts`.
pub open spec fn has_pair(accounts: Seq<AccountView>, account: AccountView) -> bool {
    exists|k: int|
        0 <= k < accounts.len() && (#[trigger] accounts[k]).id == account.id && accounts[k].email
            == account.email
}

/// Whether an email stands for one identifier throughout the stored and the
/// incoming accounts: no incoming account has the email of an account,
/// stored or incoming, with another identifier.
pub open spec fn emails_identify(accounts: Seq<AccountView>, incoming: Seq<AccountView>) -> bool {
    &&& forall|i: int, k: int|
        0 <= i < incoming.len() && 0 <= k < accounts.len() && (#[trigger] accounts[k]).email == (
        #[trigger] incoming[i]).email ==> accounts[k].id == incoming[i].id
    &&& forall|i: int, j: int|
        0 <= i < incoming.len() && 0 <= j < incoming.len() && (#[trigger] incoming[i]).email == (
        #[trigger] incoming[j]).email ==> incoming[i].id == incoming[j].id
}

/// Where emails stand for one identifier, every account that a merge of the
/// first `n` incoming accounts leaves has its identifier and email from a
/// stored or an incoming account, and every one of those incoming accounts
/// is there under its own identifier.
proof fn lemma_merge_keeps_pairs(accounts: Seq<AccountView>, incoming: Seq<AccountView>, n: int)
    requires
        ids_unique(accounts),
        emails_identify(accounts, incoming),
        0 <= n <= incoming.len(),
    ensures
        forall|k: int|
            0 <= k < merge_accounts(accounts, incoming.take(n)).len() ==> has_pair(
                accounts,
                #[trigger] merge_accounts(accounts, incoming.take(n))[k],
            ) || has_pair(incoming, merge_accounts(accounts, incoming.take(n))[k]),
        forall|i: int|
            0 <= i < n ==> has_account(
                merge_accounts(accounts, incoming.take(n)),
                (#[trigger] incoming[i]).id,
            ),
    decreases n,
{
    if n == 0 {
        assert(incoming.take(0) =~= Seq::<AccountView>::empty());
        let out = merge_accounts(accounts, incoming.take(0));
        assert forall|k: int| 0 <= k < out.len() implies has_pair(accounts, #[trigger] out[k])
            || has_pair(incoming, out[k]) by {
            assert(accounts[k].id == out[k].id && accounts[k].email == out[k].email);
        }
    } else {
        lemma_merge_keeps_pairs(accounts, incoming, n - 1);
        let front = incoming.take(n - 1);
        assert(incoming.take(n).drop_last() =~= front);
        assert(incoming.take(n).last() == incoming[n - 1]);
        let a = incoming[n - 1];
        let mid = merge_accounts(accounts, front);
        let out = merge_accounts(accounts, incoming.take(n));
        assert(out == merge_one(mid, a));
        lemma_merge_accounts(accounts, front);
        lemma_account_index(mid, a.id);
        lemma_email_index(mid, a.email);
        lemma_merge_one(mid, a);
        let at = match_index(mid, a);
        if !has_account(mid, a.id) && at < mid.len() {
            let found = mid[at];
            assert(found.email == a.email);
            if has_pair(accounts, found) {
                let k = choose|k: int|
                    0 <= k < accounts.len() && (#[trigger] accounts[k]).id == found.id
                        && accounts[k].email == found.email;
                assert(accounts[k].email == incoming[n - 1].email);
                assert(accounts[k].id == incoming[n - 1].id);
            } else {
                let i = choose|i: int|
                    0 <= i < incoming.len() && (#[trigger] incoming[i]).id == found.id
                        && incoming[i].email == found.email;
                assert(incoming[i].email == incoming[n - 1].email);
                assert(incoming[i].id == incoming[n - 1].id);
            }
            assert(mid[at].id == a.id);
            assert(has_account(mid, a.id));
        }
        assert forall|k: int| 0 <= k < out.len() implies has_pair(accounts, #[trigger] out[k])
            || has_pair(incoming, out[k]) by {
            if k == at {
                assert(out[k].id == a.id && out[k].email == a.email);
                assert(incoming[n - 1].id == out[k].id && incoming[n - 1].email == out[k].email);
            } else {
                assert(out[k] == mid[k]);
            }
        }
        assert forall|i: int| 0 <= i < n implies has_account(out, (#[trigger] incoming[i]).id) by {
            if i < n - 1 {
                let w = choose|w: int| 0 <= w < mid.len() && (#[trigger] mid[w]).id == incoming[i].id;
                assert(out[w].id == mid[w].id);
            } else {
                assert(out[at].id == a.id);
            }
        }
    }
}

/// Where emails stand for one identifier, a merge leaves every incoming
/// account in the store under its own identifier.
pub proof fn lemma_merge_keeps_identifiers(accounts: Seq<AccountView>, incoming: Seq<AccountView>)
    requires
        ids_unique(accounts),
        emails_identify(accounts, incoming),
    ensures
        forall|i: int|
            0 <= i < incoming.len() ==> has_account(
                merge_accounts(accounts, incoming),
                (#[trigger] incoming[i]).id,
            ),
{
    lemma_merge_keeps_pairs(accounts, incoming, incoming.len() as int);
    assert(incoming.take(incoming.len() as int) =~= incoming);
}

/// Whether two lists hold the same texts in the same order.
pub fn same_names(a: &Vec<String>, b: &Vec<String>) -> (same: bool)
    ensures
        same == (a.deep_view() == b.deep_view()),
{
    if a.len() != b.len() {
        assert(a.deep_view().len() != b.deep_view().len());
        return false;
    }
    let mut i: usize = 0;
    while i < a.len()
        invariant
            i <= a.len(),
            a.len() == b.len(),
            forall|k: int| 0 <= k < i ==> #[trigger] a.deep_view()[k] == b.deep_view()[k],
        decreases a.len() - i,
    {
        if !same_text(&a[i], &b[i]) {
            assert(a.deep_view()[i as int] != b.deep_view()[i as int]);
            return false;
        }
        i = i + 1;
    }
    assert(a.deep_view() =~= b.deep_view());
    true
}

/// Whether two accounts hold the same values.
pub fn same_account(a: &Account, b: &Account) -> (same: bool)
    ensures
        same == (a@ == b@),
{
    a.id == b.id && same_text(&a.email, &b.email) && same_text(&a.nickname, &b.nickname)
        && same_optional_text(&a.token, &b.token) && same_optional_text(
        &a.windsurf_api_key,
        &b.windsurf_api_key,
    ) && a.status == b.status && same_optional_text(&a.group, &b.group) && same_names(
        &a.tags,
        &b.tags,
    ) && a.sort_order == b.sort_order && a.created_at == b.created_at && a.updated_at
        == b.updated_at
}

/// The place of the first account with the email `email`.
pub fn find_email(accounts: &Vec<Account>, email: &String) -> (found: Option<usize>)
    ensures
        match found {
            Some(i) => i == email_index(accounts.deep_view(), email@) && i < accounts.len(),
            None => email_index(accounts.deep_view(), email@) == accounts.len(),
        },
{
    let mut i: usize = 0;
    while i < accounts.len()
        invariant
            i <= accounts.len(),
            forall|k: int| 0 <= k < i ==> (#[trigger] accounts.deep_view()[k]).email != email@,
        decreases accounts.len() - i,
    {
        if same_text(&accounts[i].email, email) {
            proof {
                lemma_email_index_is(accounts.deep_view(), email@, i as int);
            }
            return Some(i);
        }
        i = i + 1;
    }
    proof {
        lemma_email_index_is(accounts.deep_view(), email@, accounts.len() as int);
    }
    None
}

/// Reconciles `incoming` with `accounts`: replaces the account that it
/// matches, or adds it behind the others.
pub fn merge_account(accounts: &mut Vec<Account>, incoming: Account) -> (outcome: MergeOutcome)
    ensures
        final(accounts).deep_view() == merge_one(old(accounts).deep_view(), incoming@),
        outcome == merge_outcome(old(accounts).deep_view(), incoming@),
{
    let ghost before = accounts.deep_view();
    proof {
        lemma_account_index(before, incoming.id);
    }
    let by_id = find_account(accounts, incoming.id);
    let at = match by_id {
        Some(i) => Some(i),
        None => find_email(accounts, &incoming.email),
    };
    match at {
        Some(i) => {
            let mut merged = incoming;
            merged.id = accounts[i].id;
            assert(merged@ == merged_into(before[i as int], incoming@));
            if same_account(&merged, &accounts[i]) {
                assert(before.update(i as int, merged@) =~= before);
                MergeOutcome::Skipped
            } else {
                let ghost replaced = merged@;
                accounts.set(i, merged);
                assert(accounts.deep_view() =~= before.update(i as int, replaced));
                MergeOutcome::Updated
            }
        },
        None => {
            let ghost added = incoming@;
            accounts.push(incoming);
            assert(accounts.deep_view() =~= before.push(added));
            MergeOutcome::Added
        },
    }
}

/// Adds each of `incoming` to `tags`, unless a tag of its name is there.
pub fn merge_tag_list(tags: &mut Vec<GlobalTag>, incoming: &Vec<GlobalTag>)
    ensures
        final(tags).deep_view() == merge_tags(old(tags).deep_view(), incoming.deep_view()),
{
    let mut i: usize = 0;
    while i < incoming.len()
        invariant
            i <= incoming.len(),
            tags.deep_view() == merge_tags(
                old(tags).deep_view(),
                incoming.deep_view().take(i as int),
            ),
        decreases incoming.len() - i,
    {
        proof {
            let next = incoming.deep_view().take(i as int + 1);
            assert(next.drop_last() =~= incoming.deep_view().take(i as int));
            assert(next.last() == incoming@[i as int]@);
        }
        if find_tag(tags, &incoming[i].name).is_none() {
            let ghost held = tags.deep_view();
            tags.push(incoming[i].clone());
            assert(tags.deep_view() =~= held.push(incoming@[i as int]@));
        }
        i = i + 1;
    }
    proof {
        assert(incoming.deep_view().take(incoming.len() as int) =~= incoming.deep_view());
    }
}

/// Adding tags under new names keeps the tags' names unique.
pub proof fn lemma_merge_tags_unique(tags: Seq<GlobalTagView>, incoming: Seq<GlobalTagView>)
    requires
        names_unique(tag_names(tags)),
    ensures
        names_unique(tag_names(merge_tags(tags, incoming))),
    decreases incoming.len(),
{
    if incoming.len() > 0 {
        lemma_merge_tags_unique(tags, incoming.drop_last());
        let mid = merge_tags(tags, incoming.drop_last());
        let last = incoming.last();
        let out = merge_tag(mid, last);
        let names = tag_names(out);
        assert forall|i: int, j: int| 0 <= i < j < names.len() implies #[trigger] names[i]
            != #[trigger] names[j] by {
            if tag_names(mid).contains(last.name) {
                assert(tag_names(mid)[i] != tag_names(mid)[j]);
            } else if j == mid.len() {
                assert(tag_names(mid)[i] != last.name);
            } else {
                assert(tag_names(mid)[i] != tag_names(mid)[j]);
            }
        }
    }
}

} // verus!
