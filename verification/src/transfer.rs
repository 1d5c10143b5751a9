//! Handing a subscription over to another user, step by step: find out who
//! the owner is, lock the owner out, invite the target, let the target
//! accept where its account is at hand, wait until the target shows up in
//! the team, make it an administrator, and leave.
//!
//! The remote calls are the caller's. `transfer_step` reads what came of
//! one call and says which is due next. A call that the remote service
//! answers with an authentication failure is made once more after a forced
//! refresh of the token, and no third time. A step that failed is named in
//! the error; what earlier steps did is not undone.

use crate::error::{AppError, ErrorView};
use crate::models::account::{Account, AccountView};
use crate::token::RetryState;
use crate::team::{
    account_flags, find_target_account, find_target_member, first_set, member_flags, TeamMember,
    TeamMemberView,
};
use vstd::prelude::*;
use vstd::string::StringExecFns;

verus! {

/// How often the team's members are listed, at most, while waiting for the
/// target to show up.
pub const MAX_POLLS: u8 = 3;

/// How long to wait before each listing, in milliseconds.
pub const POLL_DELAY_MILLIS: u64 = 1000;

/// The call whose outcome a transfer waits for.
#[derive(Clone, Copy, Debug, PartialEq, Eq, Structural)]
pub enum TransferStep {
    CurrentUser,
    DisableAccess,
    Invite,
    FindTarget,
    TargetToken,
    TargetInvitation,
    TargetAccept,
    Poll,
    GrantAdmin,
    RemoveSelf,
    Finished,
}

/// A transfer under way.
#[derive(Debug, PartialEq, Eq)]
pub struct TransferState {
    pub step: TransferStep,
    pub target_email: String,
    pub target_name: String,
    /// The owner's key, once it is known.
    pub current_api_key: Option<String>,
    /// The target's own account in the repository, once it was found.
    pub target_account_id: Option<u128>,
    /// The token of the target's own account, once it is at hand.
    pub target_token: Option<String>,
    /// The target's pending invitation, once it is known.
    pub approval_id: Option<String>,
    /// The target's key in the team, once it shows up there.
    pub target_api_key: Option<String>,
    /// How often the members were listed, this time included.
    pub polls_made: u8,
    /// Whether the call that is due is a first attempt, or the second after
    /// an authentication failure. A second attempt with the owner's token is
    /// made after a forced refresh of that token.
    pub retry: RetryState,
}

/// What the caller reports of the call that was due.
#[derive(Debug, PartialEq, Eq)]
pub enum TransferEvent {
    /// The call succeeded, and there is nothing to read from it.
    Succeeded,
    /// The call failed; the text says why.
    Failed(String),
    /// The remote service answered with an authentication failure.
    AuthRejected,
    /// The owner as the remote service describes it.
    CurrentUser { api_key: Option<String> },
    /// The accounts that the repository holds.
    Accounts(Vec<Account>),
    /// The token of the target's account, or none where it could not be
    /// had.
    Token(Option<String>),
    /// The target's pending invitation, if it has one.
    Invitation { approval_id: Option<String> },
    /// The members of the team.
    Members(Vec<TeamMember>),
}

/// How a transfer ended.
#[derive(Debug, PartialEq, Eq)]
pub enum TransferOutcome {
    /// The target owns the subscription.
    Transferred,
    /// The invitation is out, and the target has to accept it by hand.
    InvitationPending,
    /// A step failed.
    Failed(AppError),
}

/// The call that is due.
#[derive(Debug, PartialEq, Eq)]
pub enum TransferAction {
    GetCurrentUser,
    DisableAccess { api_key: String },
    Invite { name: String, email: String },
    LoadAccounts,
    /// See to the token of the target's account; with `force`, by a refresh
    /// whatever token is at hand.
    EnsureToken { account_id: u128, force: bool },
    GetInvitation { token: String },
    AcceptInvitation { token: String, approval_id: String },
    /// Wait, then list the members of the team.
    PollMembers { delay_millis: u64 },
    GrantAdmin { api_key: String, role: String },
    RemoveSelf { api_key: String },
    /// No call is due: the transfer is over.
    Finish(TransferOutcome),
}

/// A transfer under way, as plain values.
pub struct TransferStateView {
    pub step: TransferStep,
    pub target_email: Seq<char>,
    pub target_name: Seq<char>,
    pub current_api_key: Option<Seq<char>>,
    pub target_account_id: Option<u128>,
    pub target_token: Option<Seq<char>>,
    pub approval_id: Option<Seq<char>>,
    pub target_api_key: Option<Seq<char>>,
    pub polls_made: u8,
    pub retry: RetryState,
}

/// A report, as plain values.
pub enum TransferEventView {
    Succeeded,
    Failed(Seq<char>),
    AuthRejected,
    CurrentUser { api_key: Option<Seq<char>> },
    Accounts(Seq<AccountView>),
    Token(Option<Seq<char>>),
    Invitation { approval_id: Option<Seq<char>> },
    Members(Seq<TeamMemberView>),
}

/// An end, as plain values.
pub enum TransferOutcomeView {
    Transferred,
    InvitationPending,
    Failed(ErrorView),
}

/// A call, as plain values.
pub enum TransferActionView {
    GetCurrentUser,
    DisableAccess { api_key: Seq<char> },
    Invite { name: Seq<char>, email: Seq<char> },
    LoadAccounts,
    EnsureToken { account_id: u128, force: bool },
    GetInvitation { token: Seq<char> },
    AcceptInvitation { token: Seq<char>, approval_id: Seq<char> },
    PollMembers { delay_millis: u64 },
    GrantAdmin { api_key: Seq<char>, role: Seq<char> },
    RemoveSelf { api_key: Seq<char> },
    Finish(TransferOutcomeView),
}

impl View for TransferState {
    type V = TransferStateView;

    open spec fn view(&self) -> TransferStateView {
        TransferStateView {
            step: self.step,
            target_email: self.target_email@,
            target_name: self.target_name@,
            current_api_key: self.current_api_key.deep_view(),
            target_account_id: self.target_account_id,
            target_token: self.target_token.deep_view(),
            approval_id: self.approval_id.deep_view(),
            target_api_key: self.target_api_key.deep_view(),
            polls_made: self.polls_made,
            retry: self.retry,
        }
    }
}

impl View for TransferEvent {
    type V = TransferEventView;

    open spec fn view(&self) -> TransferEventView {
        match self {
            TransferEvent::Succeeded => TransferEventView::Succeeded,
            TransferEvent::Failed(why) => TransferEventView::Failed(why@),
            TransferEvent::AuthRejected => TransferEventView::AuthRejected,
            TransferEvent::CurrentUser { api_key } => TransferEventView::CurrentUser {
                api_key: api_key.deep_view(),
            },
            TransferEvent::Accounts(accounts) => TransferEventView::Accounts(accounts.deep_view()),
            TransferEvent::Token(token) => TransferEventView::Token(token.deep_view()),
            TransferEvent::Invitation { approval_id } => TransferEventView::Invitation {
                approval_id: approval_id.deep_view(),
            },
            TransferEvent::Members(members) => TransferEventView::Members(members.deep_view()),
        }
    }
}

impl View for TransferOutcome {
    type V = TransferOutcomeView;

    open spec fn view(&self) -> TransferOutcomeView {
        match self {
            TransferOutcome::Transferred => TransferOutcomeView::Transferred,
            TransferOutcome::InvitationPending => TransferOutcomeView::InvitationPending,
            TransferOutcome::Failed(e) => TransferOutcomeView::Failed(e@),
        }
    }
}

impl View for TransferAction {
    type V = TransferActionView;

    open spec fn view(&self) -> TransferActionView {
        match self {
            TransferAction::GetCurrentUser => TransferActionView::GetCurrentUser,
            TransferAction::DisableAccess { api_key } => TransferActionView::DisableAccess {
                api_key: api_key@,
            },
            TransferAction::Invite { name, email } => TransferActionView::Invite {
                name: name@,
                email: email@,
            },
            TransferAction::LoadAccounts => TransferActionView::LoadAccounts,
            TransferAction::EnsureToken { account_id, force } => TransferActionView::EnsureToken {
                account_id: *account_id,
                force: *force,
            },
            TransferAction::GetInvitation { token } => TransferActionView::GetInvitation {
                token: token@,
            },
            TransferAction::AcceptInvitation { token, approval_id } => {
                TransferActionView::AcceptInvitation { token: token@, approval_id: approval_id@ }
            },
            TransferAction::PollMembers { delay_millis } => TransferActionView::PollMembers {
                delay_millis: *delay_millis,
            },
            TransferAction::GrantAdmin { api_key, role } => TransferActionView::GrantAdmin {
                api_key: api_key@,
                role: role@,
            },
            TransferAction::RemoveSelf { api_key } => TransferActionView::RemoveSelf {
                api_key: api_key@,
            },
            TransferAction::Finish(outcome) => TransferActionView::Finish(outcome@),
        }
    }
}

/// The role that makes a member an administrator of the team.
pub open spec fn admin_role() -> Seq<char> {
    "root.admin"@
}

/// What the error says of a step that failed, before the reason.
pub open spec fn failure_prefix(step: TransferStep) -> Seq<char> {
    match step {
        TransferStep::CurrentUser => "获取当前用户信息失败: "@,
        TransferStep::DisableAccess => "禁用访问权限失败: "@,
        TransferStep::Invite => "邀请用户失败: "@,
        TransferStep::Poll => "获取团队成员失败: "@,
        TransferStep::GrantAdmin => "授予管理员权限失败: "@,
        TransferStep::RemoveSelf => "移除自己失败: "@,
        _ => ""@,
    }
}

/// What the error says where the owner's key cannot be read.
pub open spec fn no_api_key() -> Seq<char> {
    "无法获取当前用户 API Key"@
}

/// What the caller is told where the target has to accept by hand.
pub open spec fn pending_text() -> Seq<char> {
    "邀请已发送，但目标用户需要手动接受邀请后才能完成转让"@
}

/// What the caller is told of a transfer that ended: that the subscription
/// went to the target, that the invitation is pending, or the error's
/// detail.
pub open spec fn outcome_text(outcome: TransferOutcomeView, target_email: Seq<char>) -> Seq<char> {
    match outcome {
        TransferOutcomeView::Transferred => "订阅已成功转让给 "@ + target_email,
        TransferOutcomeView::InvitationPending => pending_text(),
        TransferOutcomeView::Failed(e) => crate::error::detail_spec(e),
    }
}

/// The end of a transfer with `outcome`.
pub open spec fn stop(s: TransferStateView, outcome: TransferOutcomeView) -> (
    TransferStateView,
    TransferActionView,
) {
    (
        TransferStateView { step: TransferStep::Finished, retry: RetryState::Finished, ..s },
        TransferActionView::Finish(outcome),
    )
}

/// The end of a transfer because the step that was due failed.
pub open spec fn stop_failed(s: TransferStateView, why: Seq<char>) -> (
    TransferStateView,
    TransferActionView,
) {
    stop(s, TransferOutcomeView::Failed(ErrorView::Api(failure_prefix(s.step) + why)))
}

/// The end of a transfer because a report does not fit the step.
pub open spec fn stop_unexpected(s: TransferStateView) -> (TransferStateView, TransferActionView) {
    stop(s, TransferOutcomeView::Failed(ErrorView::Validation("unexpected report"@)))
}

/// The first listing of the members.
pub open spec fn start_polling(s: TransferStateView) -> (TransferStateView, TransferActionView) {
    (
        TransferStateView {
            step: TransferStep::Poll,
            polls_made: 1,
            retry: RetryState::First,
            ..s
        },
        TransferActionView::PollMembers { delay_millis: POLL_DELAY_MILLIS },
    )
}

/// The first attempt of the call of step `step`.
pub open spec fn proceed(s: TransferStateView, step: TransferStep, action: TransferActionView) -> (
    TransferStateView,
    TransferActionView,
) {
    (TransferStateView { step, retry: RetryState::First, ..s }, action)
}

/// Whether the step's call is made with the token of the target's account.
pub open spec fn is_target_step(step: TransferStep) -> bool {
    step == TransferStep::TargetToken || step == TransferStep::TargetInvitation || step
        == TransferStep::TargetAccept
}

/// The call of the step that `s` waits at, to be made once more with the
/// owner's token; none for a step that makes no such call.
pub open spec fn repeated_call(s: TransferStateView) -> Option<TransferActionView> {
    match s.step {
        TransferStep::CurrentUser => Some(TransferActionView::GetCurrentUser),
        TransferStep::DisableAccess => match s.current_api_key {
            Some(key) => Some(TransferActionView::DisableAccess { api_key: key }),
            None => None,
        },
        TransferStep::Invite => Some(
            TransferActionView::Invite { name: s.target_name, email: s.target_email },
        ),
        TransferStep::Poll => Some(
            TransferActionView::PollMembers { delay_millis: POLL_DELAY_MILLIS },
        ),
        TransferStep::GrantAdmin => match s.target_api_key {
            Some(key) => Some(TransferActionView::GrantAdmin { api_key: key, role: admin_role() }),
            None => None,
        },
        TransferStep::RemoveSelf => match s.current_api_key {
            Some(key) => Some(TransferActionView::RemoveSelf { api_key: key }),
            None => None,
        },
        _ => None,
    }
}

/// What follows an authentication failure. A first attempt is made once
/// more: with the owner's token after a forced refresh, which the state's
/// `retry` asks for; with the target's token after a forced refresh of that
/// token. After a second attempt the transfer ends as exhausted; where the
/// call was one on the target's behalf, whose failure does not matter, it
/// goes on to list the members.
pub open spec fn after_rejection(s: TransferStateView) -> (TransferStateView, TransferActionView) {
    if is_target_step(s.step) {
        match s.target_account_id {
            Some(account_id) if s.retry == RetryState::First && s.step
                != TransferStep::TargetToken => (
                TransferStateView {
                    step: TransferStep::TargetToken,
                    retry: RetryState::Second,
                    ..s
                },
                TransferActionView::EnsureToken { account_id, force: true },
            ),
            _ => start_polling(s),
        }
    } else {
        match repeated_call(s) {
            Some(action) => if s.retry == RetryState::First {
                (TransferStateView { retry: RetryState::Second, ..s }, action)
            } else {
                stop(s, TransferOutcomeView::Failed(ErrorView::RetriesExhausted))
            },
            None => stop_unexpected(s),
        }
    }
}

/// The place of the target among what `e` reports: the first account with
/// the target's email, or the first member with the target's email and a
/// key, whatever the case of the email's letters.
pub open spec fn target_place(s: TransferStateView, e: TransferEventView) -> Option<int> {
    match e {
        TransferEventView::Accounts(accounts) => {
            let at = first_set(account_flags(accounts, s.target_email));
            if s.step == TransferStep::FindTarget && at < accounts.len() {
                Some(at)
            } else {
                None
            }
        },
        TransferEventView::Members(members) => {
            let at = first_set(member_flags(members, s.target_email));
            if s.step == TransferStep::Poll && at < members.len() {
                Some(at)
            } else {
                None
            }
        },
        _ => None,
    }
}

/// The state and the call after the call of state `s` ended with `e`,
/// `found` being the place of the target among what `e` reports.
pub open spec fn transfer_next(s: TransferStateView, e: TransferEventView, found: Option<int>) -> (
    TransferStateView,
    TransferActionView,
) {
    if s.step == TransferStep::Finished {
        stop_unexpected(s)
    } else if e is AuthRejected {
        after_rejection(s)
    } else {
        match s.step {
            TransferStep::CurrentUser => match e {
                TransferEventView::CurrentUser { api_key: Some(key) } => proceed(
                    TransferStateView { current_api_key: Some(key), ..s },
                    TransferStep::DisableAccess,
                    TransferActionView::DisableAccess { api_key: key },
                ),
                TransferEventView::CurrentUser { api_key: None } => stop(
                    s,
                    TransferOutcomeView::Failed(ErrorView::Api(no_api_key())),
                ),
                TransferEventView::Failed(why) => stop_failed(s, why),
                _ => stop_unexpected(s),
            },
            TransferStep::DisableAccess => match e {
                TransferEventView::Succeeded => proceed(
                    s,
                    TransferStep::Invite,
                    TransferActionView::Invite { name: s.target_name, email: s.target_email },
                ),
                TransferEventView::Failed(why) => stop_failed(s, why),
                _ => stop_unexpected(s),
            },
            TransferStep::Invite => match e {
                TransferEventView::Succeeded => proceed(
                    s,
                    TransferStep::FindTarget,
                    TransferActionView::LoadAccounts,
                ),
                TransferEventView::Failed(why) => stop_failed(s, why),
                _ => stop_unexpected(s),
            },
            TransferStep::FindTarget => match e {
                TransferEventView::Accounts(accounts) => match found {
                    Some(at) if 0 <= at < accounts.len() => proceed(
                        TransferStateView { target_account_id: Some(accounts[at].id), ..s },
                        TransferStep::TargetToken,
                        TransferActionView::EnsureToken {
                            account_id: accounts[at].id,
                            force: false,
                        },
                    ),
                    _ => start_polling(s),
                },
                TransferEventView::Failed(why) => stop_failed(s, why),
                _ => stop_unexpected(s),
            },
            TransferStep::TargetToken => match e {
                TransferEventView::Token(Some(token)) => (
                    TransferStateView {
                        step: TransferStep::TargetInvitation,
                        target_token: Some(token),
                        ..s
                    },
                    TransferActionView::GetInvitation { token },
                ),
                TransferEventView::Token(None) => start_polling(s),
                TransferEventView::Failed(_) => start_polling(s),
                _ => stop_unexpected(s),
            },
            TransferStep::TargetInvitation => match e {
                TransferEventView::Invitation { approval_id: Some(id) } => match s.target_token {
                    Some(token) => (
                        TransferStateView {
                            step: TransferStep::TargetAccept,
                            approval_id: Some(id),
                            ..s
                        },
                        TransferActionView::AcceptInvitation { token, approval_id: id },
                    ),
                    None => start_polling(s),
                },
                TransferEventView::Invitation { approval_id: None } => start_polling(s),
                TransferEventView::Failed(_) => start_polling(s),
                _ => stop_unexpected(s),
            },
            TransferStep::TargetAccept => match e {
                TransferEventView::Succeeded => start_polling(s),
                TransferEventView::Failed(_) => start_polling(s),
                _ => stop_unexpected(s),
            },
            TransferStep::Poll => match e {
                TransferEventView::Members(members) => {
                    if found matches Some(at) && 0 <= at < members.len()
                        && members[at].api_key is Some {
                        proceed(
                            TransferStateView {
                                target_api_key: members[found->Some_0].api_key,
                                ..s
                            },
                            TransferStep::GrantAdmin,
                            TransferActionView::GrantAdmin {
                                api_key: members[found->Some_0].api_key->Some_0,
                                role: admin_role(),
                            },
                        )
                    } else if s.polls_made < MAX_POLLS {
                        (
                            TransferStateView {
                                polls_made: (s.polls_made + 1) as u8,
                                retry: RetryState::First,
                                ..s
                            },
                            TransferActionView::PollMembers { delay_millis: POLL_DELAY_MILLIS },
                        )
                    } else {
                        stop(s, TransferOutcomeView::InvitationPending)
                    }
                },
                TransferEventView::Failed(why) => stop_failed(s, why),
                _ => stop_unexpected(s),
            },
            TransferStep::GrantAdmin => match e {
                TransferEventView::Succeeded => match s.current_api_key {
                    Some(key) => proceed(
                        s,
                        TransferStep::RemoveSelf,
                        TransferActionView::RemoveSelf { api_key: key },
                    ),
                    None => stop_unexpected(s),
                },
                TransferEventView::Failed(why) => stop_failed(s, why),
                _ => stop_unexpected(s),
            },
            TransferStep::RemoveSelf => match e {
                TransferEventView::Succeeded => stop(s, TransferOutcomeView::Transferred),
                TransferEventView::Failed(why) => stop_failed(s, why),
                _ => stop_unexpected(s),
            },
            TransferStep::Finished => stop_unexpected(s),
        }
    }
}

/// What the error says of a step that failed, before the reason.
pub fn prefix_of(step: TransferStep) -> (text: &'static str)
    ensures
        text@ == failure_prefix(step),
{
    match step {
        TransferStep::CurrentUser => "获取当前用户信息失败: ",
        TransferStep::DisableAccess => "禁用访问权限失败: ",
        TransferStep::Invite => "邀请用户失败: ",
        TransferStep::Poll => "获取团队成员失败: ",
        TransferStep::GrantAdmin => "授予管理员权限失败: ",
        TransferStep::RemoveSelf => "移除自己失败: ",
        _ => "",
    }
}

/// What the caller is told of a transfer that ended.
pub fn transfer_message(outcome: &TransferOutcome, target_email: &str) -> (text: String)
    ensures
        text@ == outcome_text(outcome@, target_email@),
{
    match outcome {
        TransferOutcome::Transferred => String::from_str("订阅已成功转让给 ").concat(target_email),
        TransferOutcome::InvitationPending => String::from_str(
            "邀请已发送，但目标用户需要手动接受邀请后才能完成转让",
        ),
        TransferOutcome::Failed(e) => e.detail(),
    }
}

/// A copy of an optional text.
fn copy_text(text: &Option<String>) -> (copy: Option<String>)
    ensures
        copy.deep_view() == text.deep_view(),
{
    match text {
        Some(text) => Some(text.clone()),
        None => None,
    }
}

/// Ends the transfer with `outcome`.
fn finish(state: TransferState, outcome: TransferOutcome) -> (next: (TransferState, TransferAction))
    ensures
        (next.0@, next.1@) == stop(state@, outcome@),
{
    let mut state = state;
    state.step = TransferStep::Finished;
    state.retry = RetryState::Finished;
    (state, TransferAction::Finish(outcome))
}

/// Ends the transfer because the step that was due failed.
fn finish_failed(state: TransferState, why: String) -> (next: (TransferState, TransferAction))
    ensures
        (next.0@, next.1@) == stop_failed(state@, why@),
{
    let text = String::from_str(prefix_of(state.step)).concat(why.as_str());
    finish(state, TransferOutcome::Failed(AppError::Api(text)))
}

/// Ends the transfer because a report does not fit the step.
fn finish_unexpected(state: TransferState) -> (next: (TransferState, TransferAction))
    ensures
        (next.0@, next.1@) == stop_unexpected(state@),
{
    finish(
        state,
        TransferOutcome::Failed(AppError::Validation(String::from_str("unexpected report"))),
    )
}

/// Goes on to the first listing of the members.
fn begin_polling(state: TransferState) -> (next: (TransferState, TransferAction))
    ensures
        (next.0@, next.1@) == start_polling(state@),
{
    let mut state = state;
    state.step = TransferStep::Poll;
    state.polls_made = 1;
    state.retry = RetryState::First;
    (state, TransferAction::PollMembers { delay_millis: POLL_DELAY_MILLIS })
}

/// Goes on to the first attempt of the call of step `step`.
fn go_on(state: TransferState, step: TransferStep, action: TransferAction) -> (next: (
    TransferState,
    TransferAction,
))
    ensures
        (next.0@, next.1@) == proceed(state@, step, action@),
{
    let mut state = state;
    state.step = step;
    state.retry = RetryState::First;
    (state, action)
}

/// The call of the step that `state` waits at, to be made once more.
fn call_again(state: &TransferState) -> (action: Option<TransferAction>)
    ensures
        match action {
            Some(a) => repeated_call(state@) == Some(a@),
            None => repeated_call(state@) is None,
        },
{
    match state.step {
        TransferStep::CurrentUser => Some(TransferAction::GetCurrentUser),
        TransferStep::DisableAccess => match &state.current_api_key {
            Some(key) => Some(TransferAction::DisableAccess { api_key: key.clone() }),
            None => None,
        },
        TransferStep::Invite => Some(
            TransferAction::Invite {
                name: state.target_name.clone(),
                email: state.target_email.clone(),
            },
        ),
        TransferStep::Poll => Some(TransferAction::PollMembers { delay_millis: POLL_DELAY_MILLIS }),
        TransferStep::GrantAdmin => match &state.target_api_key {
            Some(key) => Some(
                TransferAction::GrantAdmin {
                    api_key: key.clone(),
                    role: String::from_str("root.admin"),
                },
            ),
            None => None,
        },
        TransferStep::RemoveSelf => match &state.current_api_key {
            Some(key) => Some(TransferAction::RemoveSelf { api_key: key.clone() }),
            None => None,
        },
        _ => None,
    }
}

/// Says what follows an authentication failure.
fn reject(state: TransferState) -> (next: (TransferState, TransferAction))
    ensures
        (next.0@, next.1@) == after_rejection(state@),
{
    let mut state = state;
    let target_step = match state.step {
        TransferStep::TargetToken => true,
        TransferStep::TargetInvitation => true,
        TransferStep::TargetAccept => true,
        _ => false,
    };
    let first = match state.retry {
        RetryState::First => true,
        _ => false,
    };
    if target_step {
        let waits_for_token = match state.step {
            TransferStep::TargetToken => true,
            _ => false,
        };
        match state.target_account_id {
            Some(account_id) => {
                if first && !waits_for_token {
                    state.step = TransferStep::TargetToken;
                    state.retry = RetryState::Second;
                    (state, TransferAction::EnsureToken { account_id, force: true })
                } else {
                    begin_polling(state)
                }
            },
            None => begin_polling(state),
        }
    } else {
        match call_again(&state) {
            Some(action) => {
                if first {
                    state.retry = RetryState::Second;
                    (state, action)
                } else {
                    finish(state, TransferOutcome::Failed(AppError::RetriesExhausted))
                }
            },
            None => finish_unexpected(state),
        }
    }
}

/// Starts the transfer of a subscription to the user with the email
/// `target_email`: the first call is to find out who the owner is.
pub fn transfer_subscription(target_email: String, target_name: String) -> (start: (
    TransferState,
    TransferAction,
))
    ensures
        start.0@ == (TransferStateView {
            step: TransferStep::CurrentUser,
            target_email: target_email@,
            target_name: target_name@,
            current_api_key: None,
            target_account_id: None,
            target_token: None,
            approval_id: None,
            target_api_key: None,
            polls_made: 0,
            retry: RetryState::First,
        }),
        start.1@ == TransferActionView::GetCurrentUser,
{
    (
        TransferState {
            step: TransferStep::CurrentUser,
            target_email,
            target_name,
            current_api_key: None,
            target_account_id: None,
            target_token: None,
            approval_id: None,
            target_api_key: None,
            polls_made: 0,
            retry: RetryState::First,
        },
        TransferAction::GetCurrentUser,
    )
}

/// A place as a number without bounds.
pub open spec fn place_of(found: Option<usize>) -> Option<int> {
    match found {
        Some(at) => Some(at as int),
        None => None,
    }
}

/// Reads what came of the call that was due, and says which call is due
/// next. The target is looked for among the accounts or the members that
/// the report holds.
pub fn transfer_step(state: TransferState, event: TransferEvent) -> (next: (
    TransferState,
    TransferAction,
))
    ensures
        (next.0@, next.1@) == transfer_next(state@, event@, target_place(state@, event@)),
{
    let found = match &event {
        TransferEvent::Accounts(accounts) => match state.step {
            TransferStep::FindTarget => find_target_account(accounts, &state.target_email),
            _ => None,
        },
        TransferEvent::Members(members) => match state.step {
            TransferStep::Poll => find_target_member(members, &state.target_email),
            _ => None,
        },
        _ => None,
    };
    transfer_advance(state, event, found)
}

/// Reads what came of the call that was due, and says which call is due
/// next, `found` being the place of the target among the accounts or the
/// members that the report holds.
pub fn transfer_advance(state: TransferState, event: TransferEvent, found: Option<usize>) -> (next:
    (TransferState, TransferAction))
    ensures
        (next.0@, next.1@) == transfer_next(state@, event@, place_of(found)),
{
    let mut state = state;
    let over = match state.step {
        TransferStep::Finished => true,
        _ => false,
    };
    if over {
        return finish_unexpected(state);
    }
    let rejected = match &event {
        TransferEvent::AuthRejected => true,
        _ => false,
    };
    if rejected {
        return reject(state);
    }
    match state.step {
        TransferStep::CurrentUser => match event {
            TransferEvent::CurrentUser { api_key: Some(key) } => {
                state.current_api_key = Some(key.clone());
                go_on(
                    state,
                    TransferStep::DisableAccess,
                    TransferAction::DisableAccess { api_key: key },
                )
            },
            TransferEvent::CurrentUser { api_key: None } => finish(
                state,
                TransferOutcome::Failed(
                    AppError::Api(String::from_str("无法获取当前用户 API Key")),
                ),
            ),
            TransferEvent::Failed(why) => finish_failed(state, why),
            _ => finish_unexpected(state),
        },
        TransferStep::DisableAccess => match event {
            TransferEvent::Succeeded => {
                let name = state.target_name.clone();
                let email = state.target_email.clone();
                go_on(state, TransferStep::Invite, TransferAction::Invite { name, email })
            },
            TransferEvent::Failed(why) => finish_failed(state, why),
            _ => finish_unexpected(state),
        },
        TransferStep::Invite => match event {
            TransferEvent::Succeeded => go_on(
                state,
                TransferStep::FindTarget,
                TransferAction::LoadAccounts,
            ),
            TransferEvent::Failed(why) => finish_failed(state, why),
            _ => finish_unexpected(state),
        },
        TransferStep::FindTarget => match event {
            TransferEvent::Accounts(accounts) => {
                match found {
                    Some(at) => {
                        if at < accounts.len() {
                            let account_id = accounts[at].id;
                            state.target_account_id = Some(account_id);
                            go_on(
                                state,
                                TransferStep::TargetToken,
                                TransferAction::EnsureToken { account_id, force: false },
                            )
                        } else {
                            begin_polling(state)
                        }
                    },
                    None => begin_polling(state),
                }
            },
            TransferEvent::Failed(why) => finish_failed(state, why),
            _ => finish_unexpected(state),
        },
        TransferStep::TargetToken => match event {
            TransferEvent::Token(Some(token)) => {
                state.step = TransferStep::TargetInvitation;
                state.target_token = Some(token.clone());
                (state, TransferAction::GetInvitation { token })
            },
            TransferEvent::Token(None) => begin_polling(state),
            TransferEvent::Failed(_) => begin_polling(state),
            _ => finish_unexpected(state),
        },
        TransferStep::TargetInvitation => match event {
            TransferEvent::Invitation { approval_id: Some(id) } => {
                match copy_text(&state.target_token) {
                    Some(token) => {
                        state.step = TransferStep::TargetAccept;
                        state.approval_id = Some(id.clone());
                        (state, TransferAction::AcceptInvitation { token, approval_id: id })
                    },
                    None => begin_polling(state),
                }
            },
            TransferEvent::Invitation { approval_id: None } => begin_polling(state),
            TransferEvent::Failed(_) => begin_polling(state),
            _ => finish_unexpected(state),
        },
        TransferStep::TargetAccept => match event {
            TransferEvent::Succeeded => begin_polling(state),
            TransferEvent::Failed(_) => begin_polling(state),
            _ => finish_unexpected(state),
        },
        TransferStep::Poll => match event {
            TransferEvent::Members(members) => {
                let key: Option<String> = match found {
                    Some(at) => {
                        if at < members.len() {
                            copy_text(&members[at].api_key)
                        } else {
                            None
                        }
                    },
                    None => None,
                };
                match key {
                    Some(key) => {
                        state.target_api_key = Some(key.clone());
                        go_on(
                            state,
                            TransferStep::GrantAdmin,
                            TransferAction::GrantAdmin {
                                api_key: key,
                                role: String::from_str("root.admin"),
                            },
                        )
                    },
                    None => {
                        if state.polls_made < MAX_POLLS {
                            state.polls_made = state.polls_made + 1;
                            state.retry = RetryState::First;
                            (state, TransferAction::PollMembers { delay_millis: POLL_DELAY_MILLIS })
                        } else {
                            finish(state, TransferOutcome::InvitationPending)
                        }
                    },
                }
            },
            TransferEvent::Failed(why) => finish_failed(state, why),
            _ => finish_unexpected(state),
        },
        TransferStep::GrantAdmin => match event {
            TransferEvent::Succeeded => {
                match copy_text(&state.current_api_key) {
                    Some(key) => go_on(
                        state,
                        TransferStep::RemoveSelf,
                        TransferAction::RemoveSelf { api_key: key },
                    ),
                    None => finish_unexpected(state),
                }
            },
            TransferEvent::Failed(why) => finish_failed(state, why),
            _ => finish_unexpected(state),
        },
        TransferStep::RemoveSelf => match event {
            TransferEvent::Succeeded => finish(state, TransferOutcome::Transferred),
            TransferEvent::Failed(why) => finish_failed(state, why),
            _ => finish_unexpected(state),
        },
        TransferStep::Finished => finish_unexpected(state),
    }
}

/// How many calls a transfer in state `s` can still ask for, at most.
pub open spec fn calls_left(s: TransferStateView) -> nat {
    let first: nat = if s.retry == RetryState::First {
        1
    } else {
        0
    };
    let polls: nat = if s.polls_made < MAX_POLLS {
        s.polls_made as nat
    } else {
        MAX_POLLS as nat
    };
    match s.step {
        TransferStep::CurrentUser => 30 + first,
        TransferStep::DisableAccess => 28 + first,
        TransferStep::Invite => 26 + first,
        TransferStep::FindTarget => 25,
        TransferStep::TargetToken => 21 + 3 * first,
        TransferStep::TargetInvitation => 20 + 3 * first,
        TransferStep::TargetAccept => 19 + 3 * first,
        TransferStep::Poll => (17 - 2 * polls + first) as nat,
        TransferStep::GrantAdmin => 4 + first,
        TransferStep::RemoveSelf => 2 + first,
        TransferStep::Finished => 0,
    }
}

/// A transfer comes to an end: each report leaves fewer calls to ask for,
/// and where no call is left the transfer is over. The members are listed
/// three times at most, not counting a second attempt.
pub proof fn lemma_transfer_ends(s: TransferStateView, e: TransferEventView, found: Option<int>)
    requires
        s.step != TransferStep::Finished,
    ensures
        transfer_next(s, e, found).1 is Finish <==> transfer_next(s, e, found).0.step
            == TransferStep::Finished,
        !(transfer_next(s, e, found).1 is Finish) ==> calls_left(transfer_next(s, e, found).0)
            < calls_left(s),
        transfer_next(s, e, found).1 is PollMembers ==> 1 <= transfer_next(
            s,
            e,
            found,
        ).0.polls_made <= MAX_POLLS || transfer_next(s, e, found).0.polls_made == s.polls_made,
{
}

/// Once a transfer is over it stays over.
pub proof fn lemma_transfer_stays_finished(
    s: TransferStateView,
    e: TransferEventView,
    found: Option<int>,
)
    requires
        s.step == TransferStep::Finished,
    ensures
        transfer_next(s, e, found).0.step == TransferStep::Finished,
        transfer_next(s, e, found).1 is Finish,
{
}

/// A call with the owner's token that meets an authentication failure is
/// made once more, the same call, after a forced refresh; a second failure
/// ends the transfer as exhausted, and nothing is attempted a third time.
pub proof fn lemma_transfer_retries_once(s: TransferStateView, found: Option<int>)
    requires
        s.step != TransferStep::Finished,
        !is_target_step(s.step),
        repeated_call(s) is Some,
    ensures
        s.retry == RetryState::First ==> transfer_next(s, TransferEventView::AuthRejected, found)
            == (TransferStateView { retry: RetryState::Second, ..s }, repeated_call(s)->Some_0),
        s.retry != RetryState::First ==> transfer_next(s, TransferEventView::AuthRejected, found)
            == stop(s, TransferOutcomeView::Failed(ErrorView::RetriesExhausted)),
        s.retry == RetryState::First ==> transfer_next(
            transfer_next(s, TransferEventView::AuthRejected, found).0,
            TransferEventView::AuthRejected,
            found,
        ).1 == TransferActionView::Finish(
            TransferOutcomeView::Failed(ErrorView::RetriesExhausted),
        ),
{
}

} // verus!
