//! Team management: what the commands on teams decide. The calls to the
//! remote service are the caller's; a function here says which call is due
//! and reads what the caller reports of it.

use crate::error::{AppError, ErrorView};
use crate::models::account::{Account, AccountView};
use crate::outside::{lowercase, to_lowercase};
use crate::repository::names::same_text;
use crate::token::{retry_next, retry_step, CallOutcome, RetryAction, RetryState};
use vstd::prelude::*;
use vstd::string::StringExecFns;

verus! {

/// A user to invite to a team.
#[derive(Debug, PartialEq, Eq)]
pub struct InviteUser {
    pub name: String,
    pub email: String,
}

impl View for InviteUser {
    type V = (Seq<char>, Seq<char>);

    open spec fn view(&self) -> (Seq<char>, Seq<char>) {
        (self.name@, self.email@)
    }
}

impl DeepView for InviteUser {
    type V = (Seq<char>, Seq<char>);

    open spec fn deep_view(&self) -> (Seq<char>, Seq<char>) {
        self.view()
    }
}

/// The users as pairs of name and email, as the invitation call takes them.
pub fn invite_pairs(users: Vec<InviteUser>) -> (pairs: Vec<(String, String)>)
    ensures
        pairs.deep_view() == users.deep_view(),
{
    let mut pairs: Vec<(String, String)> = Vec::new();
    let mut i: usize = 0;
    while i < users.len()
        invariant
            i <= users.len(),
            pairs.len() == i,
            forall|k: int|
                0 <= k < i ==> (#[trigger] pairs@[k]).0@ == users@[k].name@ && pairs@[k].1@
                    == users@[k].email@,
        decreases users.len() - i,
    {
        pairs.push((users[i].name.clone(), users[i].email.clone()));
        i = i + 1;
    }
    assert(pairs.deep_view() =~= users.deep_view());
    pairs
}

/// The status that a join request gets when it is approved.
pub const STATUS_APPROVED: u8 = 2;

/// The status that a join request gets when it is rejected.
pub const STATUS_REJECTED: u8 = 3;

/// The status that an action in lower case asks for.
pub open spec fn status_of(lowered: Seq<char>) -> Option<u8> {
    if lowered == "approve"@ {
        Some(STATUS_APPROVED)
    } else if lowered == "reject"@ {
        Some(STATUS_REJECTED)
    } else {
        None
    }
}

/// The detail of the error for an action that is neither.
pub open spec fn invalid_action() -> Seq<char> {
    "无效的操作，请使用 'approve' 或 'reject'"@
}

/// The status that an action in lower case asks for: 2 for `approve`, 3 for
/// `reject`.
pub fn status_of_lowered(lowered: &String) -> (status: Option<u8>)
    ensures
        status == status_of(lowered@),
{
    if same_text(lowered, &String::from_str("approve")) {
        Some(STATUS_APPROVED)
    } else if same_text(lowered, &String::from_str("reject")) {
        Some(STATUS_REJECTED)
    } else {
        None
    }
}

/// The status that `action` asks for a join request, whatever the case of
/// its letters: 2 for `approve`, 3 for `reject`. Anything else is refused.
pub fn team_status_for_action(action: &str) -> (r: Result<u8, AppError>)
    ensures
        match r {
            Ok(status) => status_of(lowercase(action@)) == Some(status),
            Err(e) => status_of(lowercase(action@)) is None && e@ == ErrorView::Validation(
                invalid_action(),
            ),
        },
{
    let lowered = to_lowercase(action);
    match status_of_lowered(&lowered) {
        Some(status) => Ok(status),
        None => Err(
            AppError::Validation(String::from_str("无效的操作，请使用 'approve' 或 'reject'")),
        ),
    }
}

/// A remote call of the acceptance of an invitation.
#[derive(Debug, PartialEq, Eq)]
pub enum AcceptCall {
    /// Ask for the user's pending invitation.
    LookUp,
    /// Accept the invitation with this identifier.
    Accept { approval_id: String },
}

/// What is due to accept an invitation.
#[derive(Debug, PartialEq, Eq)]
pub enum AcceptAction {
    /// Read the account, see to its token with this `force`, and make the
    /// call.
    Attempt { force: bool, call: AcceptCall },
    /// Hand the answer of the acceptance to the caller.
    Deliver,
    /// There is nothing to accept.
    NothingPending,
    /// Give up: authentication failed again after the refresh.
    Exhausted,
    /// Hand the attempt's own error to the caller.
    Abort,
}

/// An acceptance under way.
#[derive(Debug, PartialEq, Eq)]
pub struct AcceptState {
    /// The invitation to accept; none while it is being looked up.
    pub approval_id: Option<String>,
    /// How far the call that is due has come.
    pub retry: RetryState,
}

/// What the caller reports of the call that was due.
#[derive(Debug, PartialEq, Eq)]
pub enum AcceptEvent {
    /// The remote service answered, and not with an authentication failure.
    /// `pending` is the invitation that a look-up found.
    Answered { pending: Option<String> },
    /// The remote service answered with an authentication failure.
    AuthRejected,
    /// The attempt failed otherwise.
    Failed,
}

/// A call, as plain values.
pub enum AcceptCallView {
    LookUp,
    Accept { approval_id: Seq<char> },
}

/// What is due, as plain values.
pub enum AcceptActionView {
    Attempt { force: bool, call: AcceptCallView },
    Deliver,
    NothingPending,
    Exhausted,
    Abort,
}

/// An acceptance under way, as plain values.
pub struct AcceptStateView {
    pub approval_id: Option<Seq<char>>,
    pub retry: RetryState,
}

/// A report, as plain values.
pub enum AcceptEventView {
    Answered { pending: Option<Seq<char>> },
    AuthRejected,
    Failed,
}

impl View for AcceptCall {
    type V = AcceptCallView;

    open spec fn view(&self) -> AcceptCallView {
        match self {
            AcceptCall::LookUp => AcceptCallView::LookUp,
            AcceptCall::Accept { approval_id } => AcceptCallView::Accept {
                approval_id: approval_id@,
            },
        }
    }
}

impl View for AcceptAction {
    type V = AcceptActionView;

    open spec fn view(&self) -> AcceptActionView {
        match self {
            AcceptAction::Attempt { force, call } => AcceptActionView::Attempt {
                force: *force,
                call: call@,
            },
            AcceptAction::Deliver => AcceptActionView::Deliver,
            AcceptAction::NothingPending => AcceptActionView::NothingPending,
            AcceptAction::Exhausted => AcceptActionView::Exhausted,
            AcceptAction::Abort => AcceptActionView::Abort,
        }
    }
}

impl View for AcceptState {
    type V = AcceptStateView;

    open spec fn view(&self) -> AcceptStateView {
        AcceptStateView { approval_id: self.approval_id.deep_view(), retry: self.retry }
    }
}

impl View for AcceptEvent {
    type V = AcceptEventView;

    open spec fn view(&self) -> AcceptEventView {
        match self {
            AcceptEvent::Answered { pending } => AcceptEventView::Answered {
                pending: pending.deep_view(),
            },
            AcceptEvent::AuthRejected => AcceptEventView::AuthRejected,
            AcceptEvent::Failed => AcceptEventView::Failed,
        }
    }
}

/// The call that an acceptance in state `s` waits for.
pub open spec fn accept_call(s: AcceptStateView) -> AcceptCallView {
    match s.approval_id {
        Some(id) => AcceptCallView::Accept { approval_id: id },
        None => AcceptCallView::LookUp,
    }
}

/// The start of an acceptance: with the identifier that was given, or,
/// where none was given, with a look-up of the pending invitation.
pub open spec fn accept_start(approval_id: Seq<char>) -> (AcceptStateView, AcceptActionView) {
    let s = AcceptStateView {
        approval_id: if approval_id.len() == 0 {
            None
        } else {
            Some(approval_id)
        },
        retry: RetryState::First,
    };
    (s, AcceptActionView::Attempt { force: false, call: accept_call(s) })
}

/// The state and the step after the call of state `s` ended with `e`. Each
/// of the two calls is covered by the rule of one retry: an authentication
/// failure at the first attempt leads to the same call after a forced
/// refresh, one at the second ends the acceptance as exhausted.
pub open spec fn accept_next(s: AcceptStateView, e: AcceptEventView) -> (
    AcceptStateView,
    AcceptActionView,
) {
    let over = AcceptStateView { retry: RetryState::Finished, ..s };
    if s.retry == RetryState::Finished {
        (over, AcceptActionView::Abort)
    } else {
        match e {
            AcceptEventView::Failed => (over, AcceptActionView::Abort),
            AcceptEventView::AuthRejected => match retry_next(s.retry, CallOutcome::AuthRejected) {
                (next, RetryAction::Attempt { force }) => (
                    AcceptStateView { retry: next, ..s },
                    AcceptActionView::Attempt { force, call: accept_call(s) },
                ),
                _ => (over, AcceptActionView::Exhausted),
            },
            AcceptEventView::Answered { pending } => match s.approval_id {
                Some(_) => (over, AcceptActionView::Deliver),
                None => match pending {
                    Some(id) => (
                        AcceptStateView { approval_id: Some(id), retry: RetryState::First },
                        AcceptActionView::Attempt {
                            force: false,
                            call: AcceptCallView::Accept { approval_id: id },
                        },
                    ),
                    None => (over, AcceptActionView::NothingPending),
                },
            },
        }
    }
}

/// The call that an acceptance in state `state` waits for.
fn call_of(state: &AcceptState) -> (call: AcceptCall)
    ensures
        call@ == accept_call(state@),
{
    match &state.approval_id {
        Some(id) => AcceptCall::Accept { approval_id: id.clone() },
        None => AcceptCall::LookUp,
    }
}

/// Starts the acceptance of an invitation: with the identifier
/// `approval_id`, or, where it is empty, with a look-up of the pending
/// invitation.
pub fn accept_invitation(approval_id: String) -> (start: (AcceptState, AcceptAction))
    ensures
        (start.0@, start.1@) == accept_start(approval_id@),
{
    let state = if approval_id.as_str().is_empty() {
        AcceptState { approval_id: None, retry: RetryState::First }
    } else {
        AcceptState { approval_id: Some(approval_id), retry: RetryState::First }
    };
    let call = call_of(&state);
    (state, AcceptAction::Attempt { force: false, call })
}

/// Reads what came of the call that was due, and says what is due next.
pub fn accept_step(state: AcceptState, event: AcceptEvent) -> (next: (AcceptState, AcceptAction))
    ensures
        (next.0@, next.1@) == accept_next(state@, event@),
{
    let mut state = state;
    let over = match state.retry {
        RetryState::Finished => true,
        _ => false,
    };
    if over {
        return (state, AcceptAction::Abort);
    }
    match event {
        AcceptEvent::Failed => {
            state.retry = RetryState::Finished;
            (state, AcceptAction::Abort)
        },
        AcceptEvent::AuthRejected => {
            match retry_step(state.retry, CallOutcome::AuthRejected) {
                (next, RetryAction::Attempt { force }) => {
                    let call = call_of(&state);
                    state.retry = next;
                    (state, AcceptAction::Attempt { force, call })
                },
                _ => {
                    state.retry = RetryState::Finished;
                    (state, AcceptAction::Exhausted)
                },
            }
        },
        AcceptEvent::Answered { pending } => {
            if state.approval_id.is_some() {
                state.retry = RetryState::Finished;
                (state, AcceptAction::Deliver)
            } else {
                match pending {
                    Some(id) => {
                        state.approval_id = Some(id.clone());
                        state.retry = RetryState::First;
                        (
                            state,
                            AcceptAction::Attempt {
                                force: false,
                                call: AcceptCall::Accept { approval_id: id },
                            },
                        )
                    },
                    None => {
                        state.retry = RetryState::Finished;
                        (state, AcceptAction::NothingPending)
                    },
                }
            }
        },
    }
}

/// An authentication failure at the first attempt of a call leads to the
/// same call once more, after a forced refresh; a second failure in a row
/// ends the acceptance as exhausted, and after that nothing is attempted.
pub proof fn lemma_accept_retries_once(s: AcceptStateView, e: AcceptEventView)
    ensures
        s.retry == RetryState::First ==> accept_next(s, AcceptEventView::AuthRejected) == (
            AcceptStateView { retry: RetryState::Second, ..s },
            AcceptActionView::Attempt { force: true, call: accept_call(s) },
        ),
        s.retry == RetryState::Second ==> accept_next(s, AcceptEventView::AuthRejected) == (
            AcceptStateView { retry: RetryState::Finished, ..s },
            AcceptActionView::Exhausted,
        ),
        s.retry == RetryState::Finished ==> accept_next(s, e).1 == AcceptActionView::Abort
            && accept_next(s, e).0.retry == RetryState::Finished,
{
}

/// The place of the first flag that is set, or the number of flags where
/// none is.
pub open spec fn first_set(flags: Seq<bool>) -> int
    decreases flags.len(),
{
    if flags.len() == 0 {
        0
    } else if flags[0] {
        0
    } else {
        1 + first_set(flags.skip(1))
    }
}

/// `first_set` is the first place whose flag is set.
pub proof fn lemma_first_set(flags: Seq<bool>)
    ensures
        0 <= first_set(flags) <= flags.len(),
        forall|k: int| 0 <= k < first_set(flags) ==> !flags[k],
        first_set(flags) < flags.len() ==> flags[first_set(flags)],
    decreases flags.len(),
{
    if flags.len() > 0 && !flags[0] {
        let rest = flags.skip(1);
        lemma_first_set(rest);
        assert forall|k: int| 0 <= k < 1 + first_set(rest) implies !flags[k] by {
            if k > 0 {
                assert(flags[k] == rest[k - 1]);
            }
        }
        if first_set(rest) < rest.len() {
            assert(flags[1 + first_set(rest)] == rest[first_set(rest)]);
        }
    }
}

/// The place of the first flag that is set.
pub fn find_first_set(flags: &Vec<bool>) -> (found: Option<usize>)
    ensures
        match found {
            Some(i) => i == first_set(flags@) && i < flags.len(),
            None => first_set(flags@) == flags.len(),
        },
{
    let mut i: usize = 0;
    while i < flags.len()
        invariant
            i <= flags.len(),
            forall|k: int| 0 <= k < i ==> !flags@[k],
        decreases flags.len() - i,
    {
        if flags[i] {
            proof {
                lemma_first_set(flags@);
            }
            return Some(i);
        }
        i = i + 1;
    }
    proof {
        lemma_first_set(flags@);
    }
    None
}

/// A member of a team, as the remote service lists it.
#[derive(Debug, PartialEq, Eq)]
pub struct TeamMember {
    pub api_key: Option<String>,
    pub email: Option<String>,
}

/// A member as plain values.
pub struct TeamMemberView {
    pub api_key: Option<Seq<char>>,
    pub email: Option<Seq<char>>,
}

impl View for TeamMember {
    type V = TeamMemberView;

    open spec fn view(&self) -> TeamMemberView {
        TeamMemberView { api_key: self.api_key.deep_view(), email: self.email.deep_view() }
    }
}

impl DeepView for TeamMember {
    type V = TeamMemberView;

    open spec fn deep_view(&self) -> TeamMemberView {
        self.view()
    }
}

/// Whether two emails are the same but for the case of their letters.
pub open spec fn same_email(a: Seq<char>, b: Seq<char>) -> bool {
    lowercase(a) == lowercase(b)
}

/// For each account, whether it has the email `email`.
pub open spec fn account_flags(accounts: Seq<AccountView>, email: Seq<char>) -> Seq<bool> {
    Seq::new(accounts.len(), |i: int| same_email(accounts[i].email, email))
}

/// For each member, whether it has the email `email` and a key.
pub open spec fn member_flags(members: Seq<TeamMemberView>, email: Seq<char>) -> Seq<bool> {
    Seq::new(
        members.len(),
        |i: int|
            members[i].api_key is Some && (match members[i].email {
                Some(e) => same_email(e, email),
                None => false,
            }),
    )
}

/// The first account with the email `email`, whatever the case of its
/// letters.
pub fn find_target_account(accounts: &Vec<Account>, email: &String) -> (found: Option<usize>)
    ensures
        match found {
            Some(i) => i == first_set(account_flags(accounts.deep_view(), email@)) && i
                < accounts.len(),
            None => first_set(account_flags(accounts.deep_view(), email@)) == accounts.len(),
        },
{
    let wanted = to_lowercase(email.as_str());
    let mut flags: Vec<bool> = Vec::new();
    let mut i: usize = 0;
    while i < accounts.len()
        invariant
            i <= accounts.len(),
            flags.len() == i,
            wanted@ == lowercase(email@),
            forall|k: int|
                0 <= k < i ==> flags@[k] == #[trigger] account_flags(
                    accounts.deep_view(),
                    email@,
                )[k],
        decreases accounts.len() - i,
    {
        let lowered = to_lowercase(accounts[i].email.as_str());
        flags.push(same_text(&lowered, &wanted));
        i = i + 1;
    }
    assert(flags@ =~= account_flags(accounts.deep_view(), email@));
    find_first_set(&flags)
}

/// The first member with the email `email`, whatever the case of its
/// letters, and with a key.
pub fn find_target_member(members: &Vec<TeamMember>, email: &String) -> (found: Option<usize>)
    ensures
        match found {
            Some(i) => i == first_set(member_flags(members.deep_view(), email@)) && i
                < members.len() && members@[i as int].api_key is Some,
            None => first_set(member_flags(members.deep_view(), email@)) == members.len(),
        },
{
    let wanted = to_lowercase(email.as_str());
    let mut flags: Vec<bool> = Vec::new();
    let mut i: usize = 0;
    while i < members.len()
        invariant
            i <= members.len(),
            flags.len() == i,
            wanted@ == lowercase(email@),
            forall|k: int|
                0 <= k < i ==> flags@[k] == #[trigger] member_flags(members.deep_view(), email@)[k],
        decreases members.len() - i,
    {
        let matches = match &members[i].email {
            Some(e) => {
                let lowered = to_lowercase(e.as_str());
                same_text(&lowered, &wanted)
            },
            None => false,
        };
        flags.push(members[i].api_key.is_some() && matches);
        i = i + 1;
    }
    assert(flags@ =~= member_flags(members.deep_view(), email@));
    let found = find_first_set(&flags);
    proof {
        lemma_first_set(flags@);
    }
    found
}

} // verus!
