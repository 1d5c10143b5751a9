//! The token protocol: what must happen before a remote call so that the
//! account carries a token that the remote service accepts, and how a call
//! recovers, once, from a token that turned out stale.
//!
//! Nothing here reaches the remote service. A function says which step is
//! due; the caller performs it and reports what came of it.

use crate::error::{AppError, ErrorView};
use crate::models::account::{Account, AccountView};
use crate::outside::uuid_text;
use crate::repository::model::{account_index, has_account, lemma_account_index, AppConfigView};
use crate::repository::store::DataStore;
use vstd::prelude::*;
use vstd::string::StringExecFns;

verus! {

/// Where an account stands with its credentials.
#[derive(Clone, Copy, Debug, PartialEq, Eq, Structural)]
pub enum CredentialState {
    /// Neither a token nor a key: the account cannot authenticate.
    NoCredential,
    /// A key from which a token can be obtained, and no token.
    Unrefreshed,
    /// A token that is taken to be valid until the remote service says
    /// otherwise.
    Valid,
}

/// Where `account` stands with its credentials.
pub open spec fn credential_state(account: AccountView) -> CredentialState {
    if account.token is Some {
        CredentialState::Valid
    } else if account.windsurf_api_key is Some {
        CredentialState::Unrefreshed
    } else {
        CredentialState::NoCredential
    }
}

/// What is due before a remote call on behalf of an account.
#[derive(Debug, PartialEq, Eq)]
pub enum TokenAction {
    /// The account's token is taken to be valid: make the call with it.
    UseToken,
    /// Exchange this credential for a new token at the remote service, then
    /// report the outcome to `apply_refresh`.
    Refresh { credential: String },
    /// No call can be made.
    Fail(AppError),
}

/// What is due, as plain values.
pub enum TokenActionView {
    UseToken,
    Refresh { credential: Seq<char> },
    Fail(ErrorView),
}

impl View for TokenAction {
    type V = TokenActionView;

    open spec fn view(&self) -> TokenActionView {
        match self {
            TokenAction::UseToken => TokenActionView::UseToken,
            TokenAction::Refresh { credential } => TokenActionView::Refresh {
                credential: credential@,
            },
            TokenAction::Fail(e) => TokenActionView::Fail(e@),
        }
    }
}

/// The detail of the error for an account without credentials.
pub open spec fn no_credential() -> Seq<char> {
    "no credential available"@
}

/// What is due before a remote call: nothing where a token is at hand and
/// no refresh is forced; else a refresh with the account's key; failure,
/// without any call, where there is no key.
pub open spec fn token_plan(account: AccountView, force: bool) -> TokenActionView {
    if !force && account.token is Some {
        TokenActionView::UseToken
    } else {
        match account.windsurf_api_key {
            Some(key) => TokenActionView::Refresh { credential: key },
            None => TokenActionView::Fail(ErrorView::AuthFailed(no_credential())),
        }
    }
}

/// Says what is due before a remote call on behalf of `account`. With
/// `force`, a token that is at hand counts for nothing: the remote service
/// has refused it.
pub fn ensure_valid_token_with_force(account: &Account, force: bool) -> (action: TokenAction)
    ensures
        action@ == token_plan(account@, force),
{
    if !force && account.token.is_some() {
        TokenAction::UseToken
    } else {
        match &account.windsurf_api_key {
            Some(key) => TokenAction::Refresh { credential: key.clone() },
            None => TokenAction::Fail(
                AppError::AuthFailed(String::from_str("no credential available")),
            ),
        }
    }
}

/// Says what is due before a remote call on behalf of `account`, a token at
/// hand being taken as valid.
pub fn ensure_valid_token(account: &Account) -> (action: TokenAction)
    ensures
        action@ == token_plan(account@, false),
{
    ensure_valid_token_with_force(account, false)
}

/// What came of a refresh at the remote service.
#[derive(Debug, PartialEq, Eq)]
pub enum RefreshOutcome {
    /// The new token.
    Granted(String),
    /// The service refused; the text says why.
    Rejected(String),
}

/// The account with a new token.
pub open spec fn with_token(account: AccountView, token: Seq<char>) -> AccountView {
    AccountView { token: Some(token), ..account }
}

/// Completes a refresh for the account with the identifier `id`. A token
/// that was granted is written into the stored account and into the
/// caller's copy. A refusal is an authentication failure and changes
/// nothing; nor does a token for an account that the store no longer has.
pub fn apply_refresh(
    store: &mut DataStore,
    account: &mut Account,
    id: u128,
    outcome: RefreshOutcome,
) -> (r: Result<(), AppError>)
    ensures
        match outcome {
            RefreshOutcome::Granted(token) => if has_account(old(store)@.accounts, id) {
                &&& r is Ok
                &&& final(account)@ == with_token(old(account)@, token@)
                &&& final(store)@ == (AppConfigView {
                    accounts: old(store)@.accounts.update(
                        account_index(old(store)@.accounts, id),
                        with_token(
                            old(store)@.accounts[account_index(old(store)@.accounts, id)],
                            token@,
                        ),
                    ),
                    ..old(store)@
                })
            } else {
                &&& r matches Err(e) && e@ == ErrorView::AccountNotFound(uuid_text(id))
                &&& final(account)@ == old(account)@
                &&& final(store)@ == old(store)@
            },
            RefreshOutcome::Rejected(why) => {
                &&& r matches Err(e) && e@ == ErrorView::AuthFailed(why@)
                &&& final(account)@ == old(account)@
                &&& final(store)@ == old(store)@
            },
        },
{
    match outcome {
        RefreshOutcome::Granted(token) => {
            match store.get_account(id) {
                Ok(stored) => {
                    proof {
                        lemma_account_index(store@.accounts, id);
                    }
                    let mut stored = stored;
                    stored.token = Some(token.clone());
                    let written = store.update_account(stored);
                    account.token = Some(token);
                    written
                },
                Err(e) => Err(e),
            }
        },
        RefreshOutcome::Rejected(why) => Err(AppError::AuthFailed(why)),
    }
}

/// How far a retried call has come.
#[derive(Clone, Copy, Debug, PartialEq, Eq, Structural)]
pub enum RetryState {
    /// The first attempt is under way.
    First,
    /// The second attempt is under way, after a forced refresh.
    Second,
    /// No attempt is left.
    Finished,
}

/// What came of one attempt.
#[derive(Clone, Copy, Debug, PartialEq, Eq, Structural)]
pub enum CallOutcome {
    /// The remote service answered, and not with an authentication failure.
    Accepted,
    /// The remote service answered with an authentication failure.
    AuthRejected,
    /// The attempt failed otherwise: the account is gone, no token could be
    /// had, or the call itself broke.
    Failed,
}

/// What is due after an attempt.
#[derive(Clone, Copy, Debug, PartialEq, Eq, Structural)]
pub enum RetryAction {
    /// Read the account again, see to its token with this `force`, and call.
    Attempt { force: bool },
    /// Hand the answer to the caller.
    Deliver,
    /// Give up: authentication failed again after the refresh.
    Exhausted,
    /// Hand the attempt's own error to the caller.
    Abort,
}

/// The state and the step after an attempt in state `state` ended with
/// `outcome`.
pub open spec fn retry_next(state: RetryState, outcome: CallOutcome) -> (RetryState, RetryAction) {
    match state {
        RetryState::First => match outcome {
            CallOutcome::Accepted => (RetryState::Finished, RetryAction::Deliver),
            CallOutcome::AuthRejected => (RetryState::Second, RetryAction::Attempt { force: true }),
            CallOutcome::Failed => (RetryState::Finished, RetryAction::Abort),
        },
        RetryState::Second => match outcome {
            CallOutcome::Accepted => (RetryState::Finished, RetryAction::Deliver),
            CallOutcome::AuthRejected => (RetryState::Finished, RetryAction::Exhausted),
            CallOutcome::Failed => (RetryState::Finished, RetryAction::Abort),
        },
        RetryState::Finished => (RetryState::Finished, RetryAction::Abort),
    }
}

/// How many further attempts are made from `state` on, the attempts ending
/// with `outcomes` in turn.
pub open spec fn further_attempts(state: RetryState, outcomes: Seq<CallOutcome>) -> nat
    decreases outcomes.len(),
{
    if outcomes.len() == 0 {
        0
    } else {
        let (next, action) = retry_next(state, outcomes[0]);
        (if action is Attempt {
            1nat
        } else {
            0nat
        }) + further_attempts(next, outcomes.skip(1))
    }
}

/// The start of a retried call: the first attempt, without force.
pub fn retry_start() -> (start: (RetryState, RetryAction))
    ensures
        start == (RetryState::First, RetryAction::Attempt { force: false }),
{
    (RetryState::First, RetryAction::Attempt { force: false })
}

/// Says what is due after an attempt in state `state` ended with `outcome`.
pub fn retry_step(state: RetryState, outcome: CallOutcome) -> (next: (RetryState, RetryAction))
    ensures
        next == retry_next(state, outcome),
{
    match state {
        RetryState::First => match outcome {
            CallOutcome::Accepted => (RetryState::Finished, RetryAction::Deliver),
            CallOutcome::AuthRejected => (RetryState::Second, RetryAction::Attempt { force: true }),
            CallOutcome::Failed => (RetryState::Finished, RetryAction::Abort),
        },
        RetryState::Second => match outcome {
            CallOutcome::Accepted => (RetryState::Finished, RetryAction::Deliver),
            CallOutcome::AuthRejected => (RetryState::Finished, RetryAction::Exhausted),
            CallOutcome::Failed => (RetryState::Finished, RetryAction::Abort),
        },
        RetryState::Finished => (RetryState::Finished, RetryAction::Abort),
    }
}

/// The error that ends a retried call, where `action` ends it for want of
/// authentication.
pub fn retry_error(action: RetryAction) -> (error: Option<AppError>)
    ensures
        match error {
            Some(e) => action == RetryAction::Exhausted && e@ == ErrorView::RetriesExhausted,
            None => action != RetryAction::Exhausted,
        },
{
    match action {
        RetryAction::Exhausted => Some(AppError::RetriesExhausted),
        _ => None,
    }
}

/// An account without token and key cannot authenticate: whatever is asked,
/// the plan is to fail, and no refresh is planned.
pub proof fn lemma_no_credential_fails(account: AccountView, force: bool)
    requires
        credential_state(account) == CredentialState::NoCredential,
    ensures
        token_plan(account, force) == TokenActionView::Fail(
            ErrorView::AuthFailed(no_credential()),
        ),
{
}

/// A forced plan never uses the token at hand, and an account with a token
/// granted is valid.
pub proof fn lemma_force_skips_token(account: AccountView, token: Seq<char>)
    ensures
        token_plan(account, true) != TokenActionView::UseToken,
        credential_state(with_token(account, token)) == CredentialState::Valid,
        token_plan(with_token(account, token), false) == TokenActionView::UseToken,
{
}

/// Whatever the attempts come to, at most one attempt follows the first,
/// from the second attempt on none follows, and an attempt that follows is
/// made with a forced refresh.
pub proof fn lemma_at_most_one_retry(outcomes: Seq<CallOutcome>)
    ensures
        further_attempts(RetryState::First, outcomes) <= 1,
        further_attempts(RetryState::Second, outcomes) == 0,
        further_attempts(RetryState::Finished, outcomes) == 0,
        forall|state: RetryState, outcome: CallOutcome|
            (#[trigger] retry_next(state, outcome)).1 is Attempt ==> retry_next(state, outcome).1
                == (RetryAction::Attempt { force: true }),
    decreases outcomes.len(),
{
    if outcomes.len() > 0 {
        lemma_at_most_one_retry(outcomes.skip(1));
    }
}

/// An authentication failure at the first attempt leads to one forced
/// attempt; a second failure in a row ends the call as exhausted, and
/// whatever is reported after that, no third attempt is made.
pub proof fn lemma_second_failure_exhausts(later: Seq<CallOutcome>)
    ensures
        retry_next(RetryState::First, CallOutcome::AuthRejected) == (
            RetryState::Second,
            RetryAction::Attempt { force: true },
        ),
        retry_next(RetryState::Second, CallOutcome::AuthRejected) == (
            RetryState::Finished,
            RetryAction::Exhausted,
        ),
        further_attempts(
            RetryState::First,
            seq![CallOutcome::AuthRejected, CallOutcome::AuthRejected] + later,
        ) == 1,
{
    let all = seq![CallOutcome::AuthRejected, CallOutcome::AuthRejected] + later;
    let rest = all.skip(1);
    assert(all[0] == CallOutcome::AuthRejected);
    assert(rest[0] == CallOutcome::AuthRejected);
    lemma_at_most_one_retry(rest.skip(1));
    assert(further_attempts(RetryState::Second, rest) == 0) by {
        lemma_at_most_one_retry(rest);
    }
}

} // verus!
