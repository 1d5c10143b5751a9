//! Listings of the accounts in a chosen order.

use crate::models::account::{Account, AccountStatus, AccountView};
use crate::models::config::{SortConfig, SortDirection, SortField};
use crate::repository::store::DataStore;
use crate::sorting::{
    bytes_le, bytes_no_later, is_arrangement, is_stable_order, lemma_bytes_le_total,
    lemma_bytes_le_transitive, sorted_order, Ranking,
};
use vstd::prelude::*;
use vstd::utf8::encode_utf8;

verus! {

/// The rank of a status: accounts in use first.
pub open spec fn status_rank(status: AccountStatus) -> int {
    match status {
        AccountStatus::Active => 0,
        AccountStatus::Disabled => 1,
    }
}

/// Whether `a` comes no later than `b` when accounts are listed by `field`
/// in ascending order. Emails are ordered as a dictionary orders their
/// UTF-8 bytes. The manual order goes by the position, and by the time of
/// creation among accounts at one position.
pub open spec fn key_le(a: AccountView, b: AccountView, field: SortField) -> bool {
    match field {
        SortField::CreatedAt => a.created_at <= b.created_at,
        SortField::Email => bytes_le(encode_utf8(a.email), encode_utf8(b.email)),
        SortField::Status => status_rank(a.status) <= status_rank(b.status),
        SortField::Manual => a.sort_order < b.sort_order || (a.sort_order == b.sort_order
            && a.created_at <= b.created_at),
    }
}

/// Whether `a` comes no later than `b` in a listing under `config`.
pub open spec fn account_before(a: AccountView, b: AccountView, config: SortConfig) -> bool {
    match config.direction {
        SortDirection::Asc => key_le(a, b, config.field),
        SortDirection::Desc => key_le(b, a, config.field),
    }
}

/// Whether `listing` holds the accounts `accounts` in the order that
/// `config` asks for, `order` naming for each entry its place in `accounts`:
/// each account once, none before one that ranks before it, and accounts of
/// equal rank in the order in which `accounts` has them.
pub open spec fn listing_follows(
    listing: Seq<AccountView>,
    accounts: Seq<AccountView>,
    config: SortConfig,
    order: Seq<usize>,
) -> bool {
    &&& is_arrangement(order, accounts.len())
    &&& listing.len() == accounts.len()
    &&& forall|k: int| 0 <= k < listing.len() ==> #[trigger] listing[k] == accounts[order[k] as int]
    &&& forall|a: int, b: int|
        0 <= a < b < listing.len() ==> account_before(
            #[trigger] listing[a],
            #[trigger] listing[b],
            config,
        )
    &&& forall|a: int, b: int|
        0 <= a < b < order.len() && account_before(listing[b], listing[a], config)
            ==> #[trigger] order[a] < #[trigger] order[b]
}

/// Whether `listing` holds the accounts `accounts` in the order that
/// `config` asks for. The order is stable, so there is one such listing.
pub open spec fn is_sorted_listing(
    listing: Seq<AccountView>,
    accounts: Seq<AccountView>,
    config: SortConfig,
) -> bool {
    exists|order: Seq<usize>| listing_follows(listing, accounts, config, order)
}

/// The rank of a status.
pub fn rank_of_status(status: AccountStatus) -> (rank: u8)
    ensures
        rank == status_rank(status),
{
    match status {
        AccountStatus::Active => 0,
        AccountStatus::Disabled => 1,
    }
}

/// Whether `a` comes no later than `b` in a listing under `config`.
pub fn comes_no_later(a: &Account, b: &Account, config: SortConfig) -> (r: bool)
    ensures
        r == account_before(a@, b@, config),
{
    let (first, second) = match config.direction {
        SortDirection::Asc => (a, b),
        SortDirection::Desc => (b, a),
    };
    match config.field {
        SortField::CreatedAt => first.created_at <= second.created_at,
        SortField::Email => bytes_no_later(
            first.email.as_str().as_bytes(),
            second.email.as_str().as_bytes(),
        ),
        SortField::Status => rank_of_status(first.status) <= rank_of_status(second.status),
        SortField::Manual => first.sort_order < second.sort_order || (first.sort_order
            == second.sort_order && first.created_at <= second.created_at),
    }
}

/// The ranking of accounts in a listing under `config`.
pub struct AccountRanking<'a> {
    pub accounts: &'a Vec<Account>,
    pub config: SortConfig,
}

impl<'a> Ranking for AccountRanking<'a> {
    open spec fn count(&self) -> nat {
        self.accounts@.len()
    }

    open spec fn before(&self, i: int, j: int) -> bool {
        account_before(self.accounts@[i]@, self.accounts@[j]@, self.config)
    }

    proof fn lemma_total(&self, i: int, j: int) {
        let a = self.accounts@[i]@;
        let b = self.accounts@[j]@;
        lemma_bytes_le_total(encode_utf8(a.email), encode_utf8(b.email));
    }

    proof fn lemma_transitive(&self, i: int, j: int, k: int) {
        let a = self.accounts@[i]@;
        let b = self.accounts@[j]@;
        let c = self.accounts@[k]@;
        if self.config.field == SortField::Email {
            if self.config.direction == SortDirection::Asc {
                lemma_bytes_le_transitive(
                    encode_utf8(a.email),
                    encode_utf8(b.email),
                    encode_utf8(c.email),
                );
            } else {
                lemma_bytes_le_transitive(
                    encode_utf8(c.email),
                    encode_utf8(b.email),
                    encode_utf8(a.email),
                );
            }
        }
    }

    fn len(&self) -> (n: usize) {
        self.accounts.len()
    }

    fn is_before(&self, i: usize, j: usize) -> (b: bool) {
        comes_no_later(&self.accounts[i], &self.accounts[j], self.config)
    }
}

/// Copies of `accounts` in the order that `config` asks for.
pub fn sort_accounts(accounts: &Vec<Account>, config: SortConfig) -> (listing: Vec<Account>)
    ensures
        is_sorted_listing(listing.deep_view(), accounts.deep_view(), config),
{
    let ranking = AccountRanking { accounts, config };
    let order = sorted_order(&ranking);
    let mut listing: Vec<Account> = Vec::new();
    let mut k: usize = 0;
    while k < order.len()
        invariant
            k <= order.len(),
            listing.len() == k,
            is_stable_order(&ranking, order@),
            ranking.accounts == accounts,
            forall|p: int| 0 <= p < k ==> (#[trigger] listing@[p])@ == accounts@[order@[p] as int]@,
        decreases order.len() - k,
    {
        listing.push(accounts[order[k]].clone());
        k = k + 1;
    }
    proof {
        let found = listing.deep_view();
        let all = accounts.deep_view();
        assert forall|p: int| 0 <= p < found.len() implies #[trigger] found[p] == all[order@[p] as int] by {
            assert(listing@[p]@ == accounts@[order@[p] as int]@);
        }
        assert forall|a: int, b: int| 0 <= a < b < found.len() implies account_before(
            #[trigger] found[a],
            #[trigger] found[b],
            config,
        ) by {
            assert(ranking.before(order@[a] as int, order@[b] as int));
        }
        assert forall|a: int, b: int|
            0 <= a < b < order@.len() && account_before(found[b], found[a], config) implies #[trigger] order@[a]
            < #[trigger] order@[b] by {
            assert(ranking.before(order@[b] as int, order@[a] as int));
        }
        assert(listing_follows(found, all, config, order@));
    }
    listing
}

impl DataStore {
    /// Copies of all accounts, ordered by `sort_field` in the direction
    /// `sort_direction`.
    pub fn get_sorted_accounts(&self, sort_field: &SortField, sort_direction: &SortDirection) -> (listing:
        Vec<Account>)
        ensures
            is_sorted_listing(
                listing.deep_view(),
                self@.accounts,
                SortConfig { field: *sort_field, direction: *sort_direction },
            ),
    {
        let config = SortConfig { field: *sort_field, direction: *sort_direction };
        sort_accounts(&self.config().accounts, config)
    }
}

} // verus!
