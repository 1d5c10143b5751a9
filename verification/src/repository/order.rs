//! The manual order of the accounts.

use crate::error::{AppError, ErrorView};
use crate::models::account::{Account, AccountView};
use crate::outside::{format_uuid, parse_uuid, uuid_parse, uuid_text};
use crate::repository::model::{has_account, ids_unique, AppConfigView};
use crate::repository::store::{find_account, DataStore};
use vstd::prelude::*;

verus! {

/// What each of the texts reads as: an identifier, or what the parser says
/// against the text.
pub open spec fn read_order_texts(texts: Seq<Seq<char>>) -> Seq<Result<u128, Seq<char>>> {
    Seq::new(texts.len(), |k: int| uuid_parse(texts[k]))
}

/// The entries as plain values.
pub open spec fn entries_view(entries: Seq<Result<u128, String>>) -> Seq<Result<u128, Seq<char>>> {
    Seq::new(
        entries.len(),
        |k: int|
            match entries[k] {
                Ok(id) => Ok(id),
                Err(why) => Err(why@),
            },
    )
}

/// What is wrong with a list of entries, if anything: the first entry that
/// is no identifier, or that is the identifier of no account.
pub open spec fn order_check(
    accounts: Seq<AccountView>,
    entries: Seq<Result<u128, Seq<char>>>,
) -> Option<ErrorView>
    decreases entries.len(),
{
    if entries.len() == 0 {
        None
    } else {
        match entries[0] {
            Err(why) => Some(ErrorView::Validation(why)),
            Ok(id) => if has_account(accounts, id) {
                order_check(accounts, entries.skip(1))
            } else {
                Some(ErrorView::AccountNotFound(uuid_text(id)))
            },
        }
    }
}

/// The identifiers that the entries hold.
pub open spec fn listed_ids(entries: Seq<Result<u128, Seq<char>>>) -> Seq<u128> {
    Seq::new(
        entries.len(),
        |k: int|
            match entries[k] {
                Ok(id) => id,
                Err(_) => 0u128,
            },
    )
}

/// The place of the first occurrence of `id` in `ids`, or the number of
/// identifiers where it does not occur.
pub open spec fn id_place(ids: Seq<u128>, id: u128) -> int
    decreases ids.len(),
{
    if ids.len() == 0 {
        0
    } else if ids[0] == id {
        0
    } else {
        1 + id_place(ids.skip(1), id)
    }
}

/// Whether the account at place `j` stands before the one at place `i` in
/// the manual order as it is: by position, then by the time of creation,
/// then by place.
pub open spec fn manual_precedes(accounts: Seq<AccountView>, j: int, i: int) -> bool {
    let a = accounts[j];
    let b = accounts[i];
    a.sort_order < b.sort_order || (a.sort_order == b.sort_order && (a.created_at < b.created_at
        || (a.created_at == b.created_at && j < i)))
}

/// Whether the account at place `j` stands before the one at place `i` once
/// the accounts listed in `ids` were put in front: listed accounts in the
/// order of the list, then the others in the order that they had.
pub open spec fn comes_before(accounts: Seq<AccountView>, ids: Seq<u128>, j: int, i: int) -> bool {
    let pj = id_place(ids, accounts[j].id);
    let pi = id_place(ids, accounts[i].id);
    if pj < ids.len() {
        pi >= ids.len() || pj < pi
    } else {
        pi >= ids.len() && manual_precedes(accounts, j, i)
    }
}

/// How many of the first `upto` accounts stand before the one at place `i`.
pub open spec fn count_before(accounts: Seq<AccountView>, ids: Seq<u128>, i: int, upto: int) -> nat
    decreases upto,
{
    if upto <= 0 {
        0
    } else {
        count_before(accounts, ids, i, upto - 1) + if comes_before(accounts, ids, upto - 1, i) {
            1nat
        } else {
            0nat
        }
    }
}

/// The new position of the account at place `i`: the number of accounts
/// that stand before it.
pub open spec fn position(accounts: Seq<AccountView>, ids: Seq<u128>, i: int) -> nat {
    count_before(accounts, ids, i, accounts.len() as int)
}

/// The accounts with their new positions.
pub open spec fn reordered(accounts: Seq<AccountView>, ids: Seq<u128>) -> Seq<AccountView> {
    Seq::new(
        accounts.len(),
        |i: int| AccountView { sort_order: position(accounts, ids, i) as u64, ..accounts[i] },
    )
}

/// `id_place` finds the first occurrence.
pub proof fn lemma_id_place(ids: Seq<u128>, id: u128)
    ensures
        0 <= id_place(ids, id) <= ids.len(),
        forall|k: int| 0 <= k < id_place(ids, id) ==> ids[k] != id,
        id_place(ids, id) < ids.len() ==> ids[id_place(ids, id)] == id,
    decreases ids.len(),
{
    if ids.len() > 0 && ids[0] != id {
        let rest = ids.skip(1);
        lemma_id_place(rest, id);
        let at = id_place(rest, id);
        assert forall|k: int| 0 <= k < 1 + at implies ids[k] != id by {
            if k > 0 {
                assert(ids[k] == rest[k - 1]);
            }
        }
        if at < rest.len() {
            assert(ids[1 + at] == rest[at]);
        }
    }
}

/// A place below which `id` does not occur, and at which it does, is
/// `id_place`.
pub proof fn lemma_id_place_is(ids: Seq<u128>, id: u128, at: int)
    requires
        0 <= at <= ids.len(),
        forall|k: int| 0 <= k < at ==> ids[k] != id,
        at < ids.len() ==> ids[at] == id,
    ensures
        id_place(ids, id) == at,
{
    lemma_id_place(ids, id);
}

/// No more accounts stand before an account than there are accounts.
pub proof fn lemma_count_bound(accounts: Seq<AccountView>, ids: Seq<u128>, i: int, upto: int)
    requires
        0 <= upto,
    ensures
        count_before(accounts, ids, i, upto) <= upto,
    decreases upto,
{
    if upto > 0 {
        lemma_count_bound(accounts, ids, i, upto - 1);
    }
}

/// Of the first `upto` accounts, fewer stand before `j` than before an
/// account that `j` stands before.
proof fn lemma_count_ordered(accounts: Seq<AccountView>, ids: Seq<u128>, j: int, i: int, upto: int)
    requires
        ids_unique(accounts),
        0 <= j < accounts.len(),
        0 <= i < accounts.len(),
        0 <= upto <= accounts.len(),
        comes_before(accounts, ids, j, i),
    ensures
        count_before(accounts, ids, j, upto) + (if upto > j {
            1nat
        } else {
            0nat
        }) <= count_before(accounts, ids, i, upto),
    decreases upto,
{
    if upto > 0 {
        lemma_count_ordered(accounts, ids, j, i, upto - 1);
        let k = upto - 1;
        lemma_id_place(ids, accounts[k].id);
        lemma_id_place(ids, accounts[j].id);
        lemma_id_place(ids, accounts[i].id);
        if comes_before(accounts, ids, k, j) {
            assert(comes_before(accounts, ids, k, i));
        }
        if k == j {
            assert(!comes_before(accounts, ids, j, j));
        }
    }
}

/// The new positions follow the new order: an account that stands before
/// another gets the smaller position. So the listed accounts follow the
/// list, every other account comes after them, and the others keep the
/// order that they had.
pub proof fn lemma_positions_follow_order(
    accounts: Seq<AccountView>,
    ids: Seq<u128>,
    j: int,
    i: int,
)
    requires
        ids_unique(accounts),
        0 <= j < accounts.len(),
        0 <= i < accounts.len(),
        comes_before(accounts, ids, j, i),
    ensures
        position(accounts, ids, j) < position(accounts, ids, i),
        position(accounts, ids, i) < accounts.len(),
{
    lemma_count_ordered(accounts, ids, j, i, accounts.len() as int);
    lemma_count_bound(accounts, ids, i, accounts.len() as int);
    lemma_count_bound(accounts, ids, i, i);
    lemma_count_self(accounts, ids, i, accounts.len() as int);
}

/// An account does not stand before itself, so fewer accounts stand before
/// it than there are.
proof fn lemma_count_self(accounts: Seq<AccountView>, ids: Seq<u128>, i: int, upto: int)
    requires
        0 <= i < accounts.len(),
        0 <= upto <= accounts.len(),
    ensures
        count_before(accounts, ids, i, upto) + (if upto > i {
            1nat
        } else {
            0nat
        }) <= upto,
    decreases upto,
{
    if upto > 0 {
        lemma_count_self(accounts, ids, i, upto - 1);
        if upto - 1 == i {
            assert(!comes_before(accounts, ids, i, i));
        }
    }
}

/// How many of the first `upto` accounts are listed at a place below `k`.
pub open spec fn count_listed_below(
    accounts: Seq<AccountView>,
    ids: Seq<u128>,
    k: int,
    upto: int,
) -> nat
    decreases upto,
{
    if upto <= 0 {
        0
    } else {
        count_listed_below(accounts, ids, k, upto - 1) + if id_place(ids, accounts[upto - 1].id)
            < k {
            1nat
        } else {
            0nat
        }
    }
}

/// Before a listed account stand the accounts that are listed at a place
/// below its own.
proof fn lemma_count_is_listed_below(
    accounts: Seq<AccountView>,
    ids: Seq<u128>,
    i: int,
    upto: int,
)
    requires
        0 <= i < accounts.len(),
        0 <= upto <= accounts.len(),
        id_place(ids, accounts[i].id) < ids.len(),
    ensures
        count_before(accounts, ids, i, upto) == count_listed_below(
            accounts,
            ids,
            id_place(ids, accounts[i].id),
            upto,
        ),
    decreases upto,
{
    if upto > 0 {
        lemma_count_is_listed_below(accounts, ids, i, upto - 1);
        lemma_id_place(ids, accounts[upto - 1].id);
    }
}

/// One account more brings one named identifier more where it is listed
/// below `k`, and none where it is not.
proof fn lemma_count_named_step(accounts: Seq<AccountView>, ids: Seq<u128>, k: int, upto: int)
    requires
        ids_unique(accounts),
        forall|a: int, b: int| 0 <= a < b < ids.len() ==> ids[a] != ids[b],
        forall|a: int| 0 <= a < ids.len() ==> has_account(accounts, #[trigger] ids[a]),
        0 <= k <= ids.len(),
        0 < upto <= accounts.len(),
    ensures
        count_named_below(accounts, ids, k, upto) == count_named_below(accounts, ids, k, upto - 1)
            + if id_place(ids, accounts[upto - 1].id) < k {
            1nat
        } else {
            0nat
        },
    decreases k,
{
    if k > 0 {
        lemma_count_named_step(accounts, ids, k - 1, upto);
        let id = accounts[upto - 1].id;
        let named = ids[k - 1];
        lemma_id_place(ids, id);
        assert(has_account(accounts, ids[k - 1]));
        crate::repository::model::lemma_account_index(accounts, named);
        let at = crate::repository::model::account_index(accounts, named);
        assert(accounts[at].id == named);
        if named == id {
            assert forall|p: int| 0 <= p < k - 1 implies ids[p] != id by {
                assert(ids[p] != ids[k - 1]);
            }
            lemma_id_place_is(ids, id, k - 1);
            if at < upto - 1 {
                assert(accounts[at].id != accounts[upto - 1].id);
            }
            if at > upto - 1 {
                assert(accounts[upto - 1].id != accounts[at].id);
            }
            assert(at == upto - 1);
        } else {
            assert(at != upto - 1);
            assert(id_place(ids, id) != k - 1);
        }
    } else {
        lemma_id_place(ids, accounts[upto - 1].id);
    }
}

/// None of the listed identifiers names one of no accounts.
proof fn lemma_count_named_of_none(accounts: Seq<AccountView>, ids: Seq<u128>, k: int)
    requires
        0 <= k <= ids.len(),
    ensures
        count_named_below(accounts, ids, k, 0) == 0,
    decreases k,
{
    if k > 0 {
        lemma_count_named_of_none(accounts, ids, k - 1);
        crate::repository::model::lemma_account_index(accounts, ids[k - 1]);
    }
}

/// Where the list names each account once, as many of the first `upto`
/// accounts are listed below `k` as identifiers below `k` name one of them.
proof fn lemma_count_listed_below(accounts: Seq<AccountView>, ids: Seq<u128>, k: int, upto: int)
    requires
        ids_unique(accounts),
        forall|a: int, b: int| 0 <= a < b < ids.len() ==> ids[a] != ids[b],
        forall|a: int| 0 <= a < ids.len() ==> has_account(accounts, #[trigger] ids[a]),
        0 <= k <= ids.len(),
        0 <= upto <= accounts.len(),
    ensures
        count_listed_below(accounts, ids, k, upto) == count_named_below(accounts, ids, k, upto),
    decreases upto,
{
    if upto > 0 {
        lemma_count_listed_below(accounts, ids, k, upto - 1);
        lemma_count_named_step(accounts, ids, k, upto);
    } else {
        lemma_count_named_of_none(accounts, ids, k);
    }
}

/// How many of the first `k` listed identifiers name one of the first `upto`
/// accounts.
pub open spec fn count_named_below(
    accounts: Seq<AccountView>,
    ids: Seq<u128>,
    k: int,
    upto: int,
) -> nat
    decreases k,
{
    if k <= 0 {
        0
    } else {
        count_named_below(accounts, ids, k - 1, upto) + if crate::repository::model::account_index(
            accounts,
            ids[k - 1],
        ) < upto {
            1nat
        } else {
            0nat
        }
    }
}

/// Every one of the first `k` listed identifiers names an account.
proof fn lemma_count_named_below(accounts: Seq<AccountView>, ids: Seq<u128>, k: int)
    requires
        forall|a: int| 0 <= a < ids.len() ==> has_account(accounts, #[trigger] ids[a]),
        0 <= k <= ids.len(),
    ensures
        count_named_below(accounts, ids, k, accounts.len() as int) == k,
    decreases k,
{
    if k > 0 {
        lemma_count_named_below(accounts, ids, k - 1);
        assert(has_account(accounts, ids[k - 1]));
        crate::repository::model::lemma_account_index(accounts, ids[k - 1]);
    }
}

/// Where the list names each account once, the account that the list names
/// at place `k` gets the position `k`.
pub proof fn lemma_listed_position(accounts: Seq<AccountView>, ids: Seq<u128>, i: int, k: int)
    requires
        ids_unique(accounts),
        forall|a: int, b: int| 0 <= a < b < ids.len() ==> ids[a] != ids[b],
        forall|a: int| 0 <= a < ids.len() ==> has_account(accounts, #[trigger] ids[a]),
        0 <= i < accounts.len(),
        0 <= k < ids.len(),
        accounts[i].id == ids[k],
    ensures
        position(accounts, ids, i) == k,
{
    lemma_id_place_is(ids, ids[k], k);
    lemma_count_is_listed_below(accounts, ids, i, accounts.len() as int);
    lemma_count_listed_below(accounts, ids, k, accounts.len() as int);
    lemma_count_named_below(accounts, ids, k);
}

/// The place of the first occurrence of `id` in `ids`.
pub fn find_id(ids: &Vec<u128>, id: u128) -> (place: usize)
    ensures
        place == id_place(ids@, id),
        place <= ids.len(),
{
    let mut k: usize = 0;
    while k < ids.len() && ids[k] != id
        invariant
            k <= ids.len(),
            forall|p: int| 0 <= p < k ==> ids@[p] != id,
        decreases ids.len() - k,
    {
        k = k + 1;
    }
    proof {
        lemma_id_place_is(ids@, id, k as int);
    }
    k
}

/// Checks that each entry is the identifier of one of `accounts`, and hands
/// out the identifiers.
pub fn read_order(accounts: &Vec<Account>, entries: &Vec<Result<u128, String>>) -> (r: Result<
    Vec<u128>,
    AppError,
>)
    ensures
        match r {
            Ok(ids) => order_check(accounts.deep_view(), entries_view(entries@)) is None && ids@
                == listed_ids(entries_view(entries@)),
            Err(e) => order_check(accounts.deep_view(), entries_view(entries@)) == Some(e@),
        },
{
    let ghost all = entries_view(entries@);
    let ghost held = accounts.deep_view();
    let mut ids: Vec<u128> = Vec::new();
    let mut k: usize = 0;
    assert(all.skip(0) =~= all);
    while k < entries.len()
        invariant
            k <= entries.len(),
            all == entries_view(entries@),
            held == accounts.deep_view(),
            order_check(held, all) == order_check(held, all.skip(k as int)),
            ids@.len() == k,
            forall|p: int| 0 <= p < k ==> #[trigger] ids@[p] == listed_ids(all)[p],
        decreases entries.len() - k,
    {
        proof {
            assert(all.skip(k as int)[0] == all[k as int]);
            assert(all.skip(k as int).skip(1) =~= all.skip(k as int + 1));
        }
        match &entries[k] {
            Ok(id) => {
                if find_account(accounts, *id).is_none() {
                    return Err(AppError::AccountNotFound(format_uuid(*id)));
                }
                ids.push(*id);
            },
            Err(why) => {
                return Err(AppError::Validation(why.clone()));
            },
        }
        k = k + 1;
    }
    proof {
        assert(ids@ =~= listed_ids(all));
    }
    Ok(ids)
}

/// Whether the account at place `j` stands before the one at place `i`,
/// `places` holding for each account the place of its identifier in the
/// list of `listed` identifiers.
fn stands_before(accounts: &Vec<Account>, places: &Vec<usize>, listed: usize, j: usize, i: usize) -> (b:
    bool)
    requires
        j < accounts.len(),
        i < accounts.len(),
        places.len() == accounts.len(),
    ensures
        b == {
            let pj = places@[j as int];
            let pi = places@[i as int];
            if pj < listed {
                pi >= listed || pj < pi
            } else {
                pi >= listed && manual_precedes(accounts.deep_view(), j as int, i as int)
            }
        },
{
    let pj = places[j];
    let pi = places[i];
    if pj < listed {
        pi >= listed || pj < pi
    } else {
        let a = &accounts[j];
        let b = &accounts[i];
        pi >= listed && (a.sort_order < b.sort_order || (a.sort_order == b.sort_order && (
        a.created_at < b.created_at || (a.created_at == b.created_at && j < i))))
    }
}

impl DataStore {
    /// Puts the accounts that `ordered_ids` lists in front, in the order of
    /// the list, and gives every account its new position. Accounts that
    /// are not listed follow, in the order that they had. Where a text is no
    /// identifier or names no account, nothing changes.
    pub fn update_accounts_order(&mut self, ordered_ids: Vec<String>) -> (r: Result<(), AppError>)
        ensures
            match r {
                Ok(_) => order_check(
                    old(self)@.accounts,
                    read_order_texts(ordered_ids.deep_view()),
                ) is None && final(self)@ == (AppConfigView {
                    accounts: reordered(
                        old(self)@.accounts,
                        listed_ids(read_order_texts(ordered_ids.deep_view())),
                    ),
                    ..old(self)@
                }),
                Err(e) => order_check(old(self)@.accounts, read_order_texts(ordered_ids.deep_view()))
                    == Some(e@) && final(self)@ == old(self)@,
            },
    {
        let mut entries: Vec<Result<u128, String>> = Vec::new();
        let mut k: usize = 0;
        while k < ordered_ids.len()
            invariant
                k <= ordered_ids.len(),
                entries.len() == k,
                forall|p: int|
                    0 <= p < k ==> #[trigger] entries_view(entries@)[p] == read_order_texts(
                        ordered_ids.deep_view(),
                    )[p],
            decreases ordered_ids.len() - k,
        {
            let ghost held = entries@;
            let entry = parse_uuid(ordered_ids[k].as_str());
            entries.push(entry);
            proof {
                assert forall|p: int| 0 <= p < k + 1 implies #[trigger] entries_view(entries@)[p]
                    == read_order_texts(ordered_ids.deep_view())[p] by {
                    if p < k {
                        assert(entries@[p] == held[p]);
                        assert(entries_view(held)[p] == read_order_texts(
                            ordered_ids.deep_view(),
                        )[p]);
                    }
                }
            }
            k = k + 1;
        }
        assert(entries_view(entries@) =~= read_order_texts(ordered_ids.deep_view()));
        self.reorder_accounts(entries)
    }

    /// Puts the accounts whose identifiers `entries` holds in front, in the
    /// order of the entries, and gives every account its new position. An
    /// entry that is no identifier, or the identifier of no account, is an
    /// error, and nothing changes.
    pub fn reorder_accounts(&mut self, entries: Vec<Result<u128, String>>) -> (r: Result<
        (),
        AppError,
    >)
        ensures
            match r {
                Ok(_) => order_check(old(self)@.accounts, entries_view(entries@)) is None
                    && final(self)@ == (AppConfigView {
                    accounts: reordered(old(self)@.accounts, listed_ids(entries_view(entries@))),
                    ..old(self)@
                }),
                Err(e) => order_check(old(self)@.accounts, entries_view(entries@)) == Some(e@)
                    && final(self)@ == old(self)@,
            },
    {
        let mut config = self.take();
        let ids = match read_order(&config.accounts, &entries) {
            Ok(ids) => ids,
            Err(e) => {
                self.put(config);
                return Err(e);
            },
        };
        let ghost before = config.accounts.deep_view();
        let n = config.accounts.len();
        let mut places: Vec<usize> = Vec::new();
        let mut i: usize = 0;
        while i < n
            invariant
                i <= n,
                n == config.accounts.len(),
                before == config.accounts.deep_view(),
                places.len() == i,
                forall|p: int| 0 <= p < i ==> #[trigger] places@[p] == id_place(ids@, before[p].id),
            decreases n - i,
        {
            places.push(find_id(&ids, config.accounts[i].id));
            i = i + 1;
        }
        let mut positions: Vec<u64> = Vec::new();
        let mut i: usize = 0;
        while i < n
            invariant
                i <= n,
                n == config.accounts.len(),
                before == config.accounts.deep_view(),
                places.len() == n,
                forall|p: int| 0 <= p < n ==> #[trigger] places@[p] == id_place(ids@, before[p].id),
                positions.len() == i,
                forall|p: int| 0 <= p < i ==> #[trigger] positions@[p] == position(before, ids@, p),
            decreases n - i,
        {
            let mut count: usize = 0;
            let mut j: usize = 0;
            while j < n
                invariant
                    j <= n,
                    i < n,
                    n == config.accounts.len(),
                    before == config.accounts.deep_view(),
                    places.len() == n,
                    forall|p: int|
                        0 <= p < n ==> #[trigger] places@[p] == id_place(ids@, before[p].id),
                    count == count_before(before, ids@, i as int, j as int),
                    count <= j,
                decreases n - j,
            {
                if stands_before(&config.accounts, &places, ids.len(), j, i) {
                    count = count + 1;
                }
                j = j + 1;
            }
            positions.push(count as u64);
            i = i + 1;
        }
        let mut i: usize = 0;
        while i < n
            invariant
                i <= n,
                n == config.accounts.len(),
                n == before.len(),
                positions.len() == n,
                forall|p: int| 0 <= p < n ==> #[trigger] positions@[p] == position(before, ids@, p),
                forall|p: int|
                    0 <= p < i ==> (#[trigger] config.accounts@[p])@ == reordered(before, ids@)[p],
                forall|p: int| i <= p < n ==> (#[trigger] config.accounts@[p])@ == before[p],
                config@ == (AppConfigView { accounts: config.accounts.deep_view(), ..old(self)@ }),
            decreases n - i,
        {
            config.accounts[i].sort_order = positions[i];
            i = i + 1;
        }
        proof {
            assert(config.accounts.deep_view() =~= reordered(before, ids@));
            crate::repository::model::lemma_same_ids_and_tags(before, reordered(before, ids@));
        }
        self.put(config);
        Ok(())
    }
}

} // verus!
