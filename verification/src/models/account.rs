//! Accounts.

use vstd::prelude::*;

verus! {

/// Whether an account is in use.
#[derive(Clone, Copy, Debug, PartialEq, Eq, Structural)]
pub enum AccountStatus {
    Active,
    Disabled,
}

/// One managed credential set for the remote service.
#[derive(Debug, PartialEq, Eq)]
pub struct Account {
    /// The account's identifier: the 128 bits of a UUID. It never changes.
    pub id: u128,
    pub email: String,
    pub nickname: String,
    /// The bearer token, if one was obtained.
    pub token: Option<String>,
    /// The long-lived key from which a bearer token is obtained.
    pub windsurf_api_key: Option<String>,
    pub status: AccountStatus,
    /// The one group that the account belongs to, if any.
    pub group: Option<String>,
    /// The names of the account's tags.
    pub tags: Vec<String>,
    /// The account's position in the manual order.
    pub sort_order: u64,
    /// Milliseconds since the epoch.
    pub created_at: i64,
    /// Milliseconds since the epoch.
    pub updated_at: i64,
}

/// An account as plain values.
pub struct AccountView {
    pub id: u128,
    pub email: Seq<char>,
    pub nickname: Seq<char>,
    pub token: Option<Seq<char>>,
    pub windsurf_api_key: Option<Seq<char>>,
    pub status: AccountStatus,
    pub group: Option<Seq<char>>,
    pub tags: Seq<Seq<char>>,
    pub sort_order: u64,
    pub created_at: i64,
    pub updated_at: i64,
}

impl View for Account {
    type V = AccountView;

    open spec fn view(&self) -> AccountView {
        AccountView {
            id: self.id,
            email: self.email@,
            nickname: self.nickname@,
            token: self.token.deep_view(),
            windsurf_api_key: self.windsurf_api_key.deep_view(),
            status: self.status,
            group: self.group.deep_view(),
            tags: self.tags.deep_view(),
            sort_order: self.sort_order,
            created_at: self.created_at,
            updated_at: self.updated_at,
        }
    }
}

impl DeepView for Account {
    type V = AccountView;

    open spec fn deep_view(&self) -> AccountView {
        self.view()
    }
}

impl Clone for Account {
    fn clone(&self) -> (copy: Self)
        ensures
            copy@ == self@,
    {
        let tags = self.tags.clone();
        assert(tags.deep_view() =~= self.tags.deep_view());
        Account {
            id: self.id,
            email: self.email.clone(),
            nickname: self.nickname.clone(),
            token: self.token.clone(),
            windsurf_api_key: self.windsurf_api_key.clone(),
            status: self.status,
            group: self.group.clone(),
            tags,
            sort_order: self.sort_order,
            created_at: self.created_at,
            updated_at: self.updated_at,
        }
    }
}

/// A copy of `accounts`.
pub fn clone_accounts(accounts: &Vec<Account>) -> (copy: Vec<Account>)
    ensures
        copy.deep_view() == accounts.deep_view(),
{
    let mut copy: Vec<Account> = Vec::new();
    let mut i: usize = 0;
    while i < accounts.len()
        invariant
            i <= accounts.len(),
            copy.len() == i,
            forall|k: int| 0 <= k < i ==> copy@[k]@ == accounts@[k]@,
        decreases accounts.len() - i,
    {
        copy.push(accounts[i].clone());
        i = i + 1;
    }
    assert(copy.deep_view() =~= accounts.deep_view());
    copy
}

} // verus!
