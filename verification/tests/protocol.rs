use account_manager::analytics::{check_analytics_response, decimal};
use account_manager::error::AppError;
use account_manager::models::account::{Account, AccountStatus};
use account_manager::probe::{
    get_current_windsurf_info, get_extension_js_relative_path, Platform, StateProbe,
    WindsurfAuthStatus, WindsurfCurrentInfo,
};
use account_manager::repository::store::DataStore;
use account_manager::team::{
    accept_invitation, accept_step, invite_pairs, team_status_for_action, AcceptAction,
    AcceptCall, AcceptEvent, InviteUser, TeamMember,
};
use account_manager::token::{
    apply_refresh, ensure_valid_token, ensure_valid_token_with_force, retry_error, retry_start,
    retry_step, CallOutcome, RefreshOutcome, RetryAction, RetryState, TokenAction,
};
use account_manager::transfer::{
    transfer_advance, transfer_message, transfer_step, transfer_subscription, TransferAction,
    TransferEvent, TransferOutcome, TransferState, TransferStep,
};

fn member_account(id: u128, email: &str, token: Option<&str>, key: Option<&str>) -> Account {
    Account {
        id,
        email: email.to_string(),
        nickname: String::new(),
        token: token.map(|t| t.to_string()),
        windsurf_api_key: key.map(|k| k.to_string()),
        status: AccountStatus::Active,
        group: None,
        tags: Vec::new(),
        sort_order: 0,
        created_at: 0,
        updated_at: 0,
    }
}

#[test]
fn token_at_hand_is_used() {
    let account = member_account(1, "a", Some("t"), Some("k"));
    assert_eq!(ensure_valid_token(&account), TokenAction::UseToken);
    assert_eq!(ensure_valid_token_with_force(&account, false), TokenAction::UseToken);
}

#[test]
fn force_refreshes_in_spite_of_a_token() {
    let account = member_account(1, "a", Some("t"), Some("k"));
    assert_eq!(
        ensure_valid_token_with_force(&account, true),
        TokenAction::Refresh { credential: "k".to_string() }
    );
}

#[test]
fn missing_token_is_refreshed_from_the_key() {
    let account = member_account(1, "a", None, Some("k"));
    assert_eq!(ensure_valid_token(&account), TokenAction::Refresh { credential: "k".to_string() });
}

#[test]
fn no_credential_fails_without_a_call() {
    let account = member_account(1, "a", None, None);
    let expected = TokenAction::Fail(AppError::AuthFailed("no credential available".to_string()));
    assert_eq!(ensure_valid_token(&account), expected);
    assert_eq!(ensure_valid_token_with_force(&account, true), expected);
    let stale = member_account(1, "a", Some("t"), None);
    assert_eq!(ensure_valid_token_with_force(&stale, true), expected);
}

#[test]
fn granted_token_is_written_back() {
    let mut store = DataStore::empty();
    store.add_account(member_account(1, "a", Some("old"), Some("k"))).unwrap();
    store.add_account(member_account(2, "b", None, Some("k2"))).unwrap();
    let mut copy = store.get_account(1).unwrap();
    let r = apply_refresh(&mut store, &mut copy, 1, RefreshOutcome::Granted("new".to_string()));
    assert_eq!(r, Ok(()));
    assert_eq!(copy.token, Some("new".to_string()));
    assert_eq!(store.get_account(1).unwrap(), member_account(1, "a", Some("new"), Some("k")));
    assert_eq!(store.get_account(2).unwrap(), member_account(2, "b", None, Some("k2")));
    assert_eq!(ensure_valid_token(&copy), TokenAction::UseToken);
}

#[test]
fn rejected_refresh_is_an_authentication_failure() {
    let mut store = DataStore::empty();
    store.add_account(member_account(1, "a", Some("old"), Some("k"))).unwrap();
    let mut copy = store.get_account(1).unwrap();
    let r = apply_refresh(&mut store, &mut copy, 1, RefreshOutcome::Rejected("revoked".to_string()));
    assert_eq!(r, Err(AppError::AuthFailed("revoked".to_string())));
    assert_eq!(copy.token, Some("old".to_string()));
    assert_eq!(store.get_account(1).unwrap().token, Some("old".to_string()));
}

#[test]
fn token_for_a_vanished_account_is_dropped() {
    let mut store = DataStore::empty();
    let mut copy = member_account(1, "a", None, Some("k"));
    let r = apply_refresh(&mut store, &mut copy, 1, RefreshOutcome::Granted("new".to_string()));
    assert_eq!(
        r,
        Err(AppError::AccountNotFound(uuid::Uuid::from_u128(1).to_string()))
    );
    assert_eq!(copy.token, None);
}

#[test]
fn stale_token_is_retried_once_with_force() {
    let (state, action) = retry_start();
    assert_eq!(state, RetryState::First);
    assert_eq!(action, RetryAction::Attempt { force: false });
    let (state, action) = retry_step(state, CallOutcome::AuthRejected);
    assert_eq!(state, RetryState::Second);
    assert_eq!(action, RetryAction::Attempt { force: true });
    let (state, action) = retry_step(state, CallOutcome::Accepted);
    assert_eq!(state, RetryState::Finished);
    assert_eq!(action, RetryAction::Deliver);
    assert_eq!(retry_error(action), None);
}

#[test]
fn second_failure_exhausts_the_retries() {
    let (state, _) = retry_start();
    let (state, _) = retry_step(state, CallOutcome::AuthRejected);
    let (state, action) = retry_step(state, CallOutcome::AuthRejected);
    assert_eq!(state, RetryState::Finished);
    assert_eq!(action, RetryAction::Exhausted);
    assert_eq!(retry_error(action), Some(AppError::RetriesExhausted));
    let (state, action) = retry_step(state, CallOutcome::AuthRejected);
    assert_eq!(state, RetryState::Finished);
    assert_eq!(action, RetryAction::Abort);
}

#[test]
fn accepted_or_broken_call_is_not_retried() {
    let (state, _) = retry_start();
    assert_eq!(
        retry_step(state, CallOutcome::Accepted),
        (RetryState::Finished, RetryAction::Deliver)
    );
    assert_eq!(retry_step(state, CallOutcome::Failed), (RetryState::Finished, RetryAction::Abort));
    assert_eq!(
        retry_step(RetryState::Second, CallOutcome::Failed),
        (RetryState::Finished, RetryAction::Abort)
    );
}

#[test]
fn invited_users_become_pairs() {
    let users = vec![
        InviteUser { name: "Ann".to_string(), email: "ann@example.com".to_string() },
        InviteUser { name: "Bob".to_string(), email: "bob@example.com".to_string() },
    ];
    assert_eq!(
        invite_pairs(users),
        vec![
            ("Ann".to_string(), "ann@example.com".to_string()),
            ("Bob".to_string(), "bob@example.com".to_string()),
        ]
    );
}

#[test]
fn join_request_action_gives_its_status() {
    assert_eq!(team_status_for_action("approve"), Ok(2));
    assert_eq!(team_status_for_action("Approve"), Ok(2));
    assert_eq!(team_status_for_action("REJECT"), Ok(3));
    assert_eq!(team_status_for_action("reject"), Ok(3));
}

#[test]
fn other_join_request_action_is_refused() {
    let expected = AppError::Validation("无效的操作，请使用 'approve' 或 'reject'".to_string());
    assert_eq!(team_status_for_action("maybe"), Err(expected));
    assert!(team_status_for_action("").is_err());
    assert!(team_status_for_action(" approve").is_err());
}

fn accept_call(id: &str) -> AcceptCall {
    AcceptCall::Accept { approval_id: id.to_string() }
}

#[test]
fn invitation_is_accepted_by_identifier_or_looked_up() {
    let (state, action) = accept_invitation("abc".to_string());
    assert_eq!(action, AcceptAction::Attempt { force: false, call: accept_call("abc") });
    assert_eq!(state.approval_id, Some("abc".to_string()));
    let (state, action) = accept_step(state, AcceptEvent::Answered { pending: None });
    assert_eq!(action, AcceptAction::Deliver);
    assert_eq!(state.retry, RetryState::Finished);
    let (state, action) = accept_invitation(String::new());
    assert_eq!(action, AcceptAction::Attempt { force: false, call: AcceptCall::LookUp });
    let (state, action) =
        accept_step(state, AcceptEvent::Answered { pending: Some("xyz".to_string()) });
    assert_eq!(action, AcceptAction::Attempt { force: false, call: accept_call("xyz") });
    let (_, action) = accept_step(state, AcceptEvent::Answered { pending: None });
    assert_eq!(action, AcceptAction::Deliver);
    let (state, _) = accept_invitation(String::new());
    let (_, action) = accept_step(state, AcceptEvent::Answered { pending: None });
    assert_eq!(action, AcceptAction::NothingPending);
}

#[test]
fn acceptance_is_retried_once_with_a_forced_refresh() {
    let (state, _) = accept_invitation("abc".to_string());
    let (state, action) = accept_step(state, AcceptEvent::AuthRejected);
    assert_eq!(action, AcceptAction::Attempt { force: true, call: accept_call("abc") });
    assert_eq!(state.retry, RetryState::Second);
    let (state, action) = accept_step(state, AcceptEvent::Answered { pending: None });
    assert_eq!(action, AcceptAction::Deliver);
    let (_, action) = accept_step(state, AcceptEvent::AuthRejected);
    assert_eq!(action, AcceptAction::Abort);
}

#[test]
fn acceptance_gives_up_after_the_second_failure() {
    let (state, _) = accept_invitation("abc".to_string());
    let (state, _) = accept_step(state, AcceptEvent::AuthRejected);
    let (state, action) = accept_step(state, AcceptEvent::AuthRejected);
    assert_eq!(action, AcceptAction::Exhausted);
    assert_eq!(state.retry, RetryState::Finished);
    let (state, _) = accept_invitation(String::new());
    let (state, action) = accept_step(state, AcceptEvent::AuthRejected);
    assert_eq!(action, AcceptAction::Attempt { force: true, call: AcceptCall::LookUp });
    let (state, action) =
        accept_step(state, AcceptEvent::Answered { pending: Some("p".to_string()) });
    assert_eq!(action, AcceptAction::Attempt { force: false, call: accept_call("p") });
    assert_eq!(state.retry, RetryState::First);
    let (_, action) = accept_step(state, AcceptEvent::Failed);
    assert_eq!(action, AcceptAction::Abort);
}

fn member(key: Option<&str>, email: Option<&str>) -> TeamMember {
    TeamMember { api_key: key.map(|k| k.to_string()), email: email.map(|e| e.to_string()) }
}

#[test]
fn transfer_runs_through_every_step() {
    let (state, action) =
        transfer_subscription("Target@Example.com".to_string(), "Target".to_string());
    assert_eq!(state.step, TransferStep::CurrentUser);
    assert_eq!(action, TransferAction::GetCurrentUser);
    let (state, action) =
        transfer_step(state, TransferEvent::CurrentUser { api_key: Some("me".to_string()) });
    assert_eq!(action, TransferAction::DisableAccess { api_key: "me".to_string() });
    let (state, action) = transfer_step(state, TransferEvent::Succeeded);
    assert_eq!(
        action,
        TransferAction::Invite {
            name: "Target".to_string(),
            email: "Target@Example.com".to_string()
        }
    );
    let (state, action) = transfer_step(state, TransferEvent::Succeeded);
    assert_eq!(action, TransferAction::LoadAccounts);
    let accounts = vec![
        member_account(1, "other@example.com", None, None),
        member_account(2, "target@example.COM", None, Some("k")),
        member_account(3, "TARGET@example.com", None, None),
    ];
    let (state, action) = transfer_step(state, TransferEvent::Accounts(accounts));
    assert_eq!(action, TransferAction::EnsureToken { account_id: 2, force: false });
    let (state, action) = transfer_step(state, TransferEvent::Token(Some("tt".to_string())));
    assert_eq!(action, TransferAction::GetInvitation { token: "tt".to_string() });
    let (state, action) =
        transfer_step(state, TransferEvent::Invitation { approval_id: Some("ap".to_string()) });
    assert_eq!(
        action,
        TransferAction::AcceptInvitation { token: "tt".to_string(), approval_id: "ap".to_string() }
    );
    let (state, action) = transfer_step(state, TransferEvent::Failed("ignored".to_string()));
    assert_eq!(action, TransferAction::PollMembers { delay_millis: 1000 });
    assert_eq!(state.polls_made, 1);
    let members = vec![
        member(Some("k1"), Some("other@example.com")),
        member(None, Some("target@example.com")),
        member(Some("k3"), None),
        member(Some("k4"), Some("TARGET@EXAMPLE.COM")),
    ];
    let (state, action) = transfer_step(state, TransferEvent::Members(members));
    assert_eq!(
        action,
        TransferAction::GrantAdmin { api_key: "k4".to_string(), role: "root.admin".to_string() }
    );
    let (state, action) = transfer_step(state, TransferEvent::Succeeded);
    assert_eq!(action, TransferAction::RemoveSelf { api_key: "me".to_string() });
    let (state, action) = transfer_step(state, TransferEvent::Succeeded);
    assert_eq!(action, TransferAction::Finish(TransferOutcome::Transferred));
    assert_eq!(state.step, TransferStep::Finished);
    let (state, action) = transfer_step(state, TransferEvent::Succeeded);
    assert_eq!(state.step, TransferStep::Finished);
    assert_eq!(
        action,
        TransferAction::Finish(TransferOutcome::Failed(AppError::Validation(
            "unexpected report".to_string()
        )))
    );
}

#[test]
fn transfer_polls_three_times_and_leaves_the_invitation_pending() {
    let (state, _) = transfer_subscription("t@example.com".to_string(), "T".to_string());
    let (state, _) =
        transfer_step(state, TransferEvent::CurrentUser { api_key: Some("me".to_string()) });
    let (state, _) = transfer_step(state, TransferEvent::Succeeded);
    let (state, _) = transfer_step(state, TransferEvent::Succeeded);
    let (state, action) = transfer_step(state, TransferEvent::Accounts(Vec::new()));
    assert_eq!(action, TransferAction::PollMembers { delay_millis: 1000 });
    assert_eq!(state.polls_made, 1);
    let (state, action) = transfer_step(state, TransferEvent::Members(Vec::new()));
    assert_eq!(action, TransferAction::PollMembers { delay_millis: 1000 });
    assert_eq!(state.polls_made, 2);
    let (state, action) = transfer_step(state, TransferEvent::Members(Vec::new()));
    assert_eq!(action, TransferAction::PollMembers { delay_millis: 1000 });
    assert_eq!(state.polls_made, 3);
    let (state, action) = transfer_step(state, TransferEvent::Members(Vec::new()));
    assert_eq!(action, TransferAction::Finish(TransferOutcome::InvitationPending));
    assert_eq!(state.step, TransferStep::Finished);
}

#[test]
fn transfer_skips_the_target_steps_that_fail() {
    let (state, _) = transfer_subscription("t@example.com".to_string(), "T".to_string());
    let (state, _) =
        transfer_step(state, TransferEvent::CurrentUser { api_key: Some("me".to_string()) });
    let (state, _) = transfer_step(state, TransferEvent::Succeeded);
    let (state, _) = transfer_step(state, TransferEvent::Succeeded);
    let accounts = vec![member_account(5, "T@example.com", None, None)];
    let (state, action) = transfer_step(state, TransferEvent::Accounts(accounts));
    assert_eq!(action, TransferAction::EnsureToken { account_id: 5, force: false });
    let (state, action) = transfer_step(state, TransferEvent::Token(None));
    assert_eq!(action, TransferAction::PollMembers { delay_millis: 1000 });
    assert_eq!(state.step, TransferStep::Poll);
}

#[test]
fn transfer_names_the_step_that_failed() {
    let (state, _) = transfer_subscription("t@example.com".to_string(), "T".to_string());
    let (_, action) = transfer_step(state, TransferEvent::Failed("timeout".to_string()));
    assert_eq!(
        action,
        TransferAction::Finish(TransferOutcome::Failed(AppError::Api(
            "获取当前用户信息失败: timeout".to_string()
        )))
    );
    let (state, _) = transfer_subscription("t@example.com".to_string(), "T".to_string());
    let (_, action) = transfer_step(state, TransferEvent::CurrentUser { api_key: None });
    assert_eq!(
        action,
        TransferAction::Finish(TransferOutcome::Failed(AppError::Api(
            "无法获取当前用户 API Key".to_string()
        )))
    );
    let (state, _) = transfer_subscription("t@example.com".to_string(), "T".to_string());
    let (state, _) =
        transfer_step(state, TransferEvent::CurrentUser { api_key: Some("me".to_string()) });
    let (state, action) = transfer_step(state, TransferEvent::Failed("denied".to_string()));
    assert_eq!(state.step, TransferStep::Finished);
    assert_eq!(
        action,
        TransferAction::Finish(TransferOutcome::Failed(AppError::Api(
            "禁用访问权限失败: denied".to_string()
        )))
    );
}

#[test]
fn extension_path_depends_on_the_platform() {
    assert_eq!(
        get_extension_js_relative_path(Platform::MacOs),
        vec!["Contents", "Resources", "app", "extensions", "windsurf", "dist", "extension.js"]
    );
    assert_eq!(
        get_extension_js_relative_path(Platform::Other),
        vec!["resources", "app", "extensions", "windsurf", "dist", "extension.js"]
    );
}

#[test]
fn probe_without_database_shows_nobody() {
    let info = get_current_windsurf_info(StateProbe::NoDatabase);
    assert_eq!(
        info,
        WindsurfCurrentInfo {
            email: None,
            name: None,
            api_key: None,
            plan_name: None,
            team_id: None,
            version: None,
            is_active: false,
        }
    );
}

#[test]
fn probe_with_sign_in_state_shows_the_user() {
    let auth = WindsurfAuthStatus {
        name: Some("Ann".to_string()),
        api_key: Some("key".to_string()),
        email: Some("ann@example.com".to_string()),
        team_id: None,
        plan_name: Some("Pro".to_string()),
    };
    let info = get_current_windsurf_info(StateProbe::Database {
        auth_status: Some(auth),
        version: Some("1.2.3".to_string()),
    });
    assert_eq!(
        info,
        WindsurfCurrentInfo {
            email: Some("ann@example.com".to_string()),
            name: Some("Ann".to_string()),
            api_key: Some("key".to_string()),
            plan_name: Some("Pro".to_string()),
            team_id: None,
            version: Some("1.2.3".to_string()),
            is_active: true,
        }
    );
    let signed_out = get_current_windsurf_info(StateProbe::Database {
        auth_status: None,
        version: Some("1.2.3".to_string()),
    });
    assert!(!signed_out.is_active);
    assert_eq!(signed_out.version, Some("1.2.3".to_string()));
    assert_eq!(signed_out.email, None);
}

#[test]
fn analytics_answer_with_status_200_is_the_body() {
    assert_eq!(check_analytics_response(200, vec![1, 2, 3]), Ok(vec![1, 2, 3]));
    assert_eq!(check_analytics_response(200, Vec::new()), Ok(Vec::new()));
}

#[test]
fn analytics_answer_with_another_status_is_an_error() {
    assert_eq!(
        check_analytics_response(401, b"unauthenticated".to_vec()),
        Err(AppError::Api("API returned status code 401: unauthenticated".to_string()))
    );
    assert_eq!(
        check_analytics_response(500, vec![0xff, 0xfe]),
        Err(AppError::Api("API returned status code: 500".to_string()))
    );
    assert_eq!(
        check_analytics_response(0, Vec::new()),
        Err(AppError::Api("API returned status code 0: ".to_string()))
    );
}

#[test]
fn numbers_are_written_in_decimal() {
    assert_eq!(decimal(0), "0");
    assert_eq!(decimal(7), "7");
    assert_eq!(decimal(10), "10");
    assert_eq!(decimal(404), "404");
    assert_eq!(decimal(u16::MAX), "65535");
}

#[test]
fn transfer_advances_on_the_place_it_is_given() {
    let polling = || TransferState {
        step: TransferStep::Poll,
        target_email: "t@example.com".to_string(),
        target_name: "T".to_string(),
        current_api_key: Some("me".to_string()),
        target_account_id: None,
        target_token: None,
        approval_id: None,
        target_api_key: None,
        polls_made: 3,
        retry: RetryState::First,
    };
    let members = || vec![member(None, Some("t@example.com")), member(Some("k"), None)];
    let (_, action) = transfer_advance(polling(), TransferEvent::Members(members()), Some(1));
    assert_eq!(
        action,
        TransferAction::GrantAdmin { api_key: "k".to_string(), role: "root.admin".to_string() }
    );
    let (state, action) = transfer_advance(polling(), TransferEvent::Members(members()), Some(0));
    assert_eq!(action, TransferAction::Finish(TransferOutcome::InvitationPending));
    assert_eq!(state.step, TransferStep::Finished);
    let (_, action) = transfer_advance(polling(), TransferEvent::Members(members()), Some(7));
    assert_eq!(action, TransferAction::Finish(TransferOutcome::InvitationPending));
    let (_, action) = transfer_advance(polling(), TransferEvent::Members(members()), None);
    assert_eq!(action, TransferAction::Finish(TransferOutcome::InvitationPending));
    let finding = TransferState {
        step: TransferStep::FindTarget,
        target_email: "t@example.com".to_string(),
        target_name: "T".to_string(),
        current_api_key: Some("me".to_string()),
        target_account_id: None,
        target_token: None,
        approval_id: None,
        target_api_key: None,
        polls_made: 0,
        retry: RetryState::First,
    };
    let accounts = vec![member_account(4, "a", None, None), member_account(6, "b", None, None)];
    let (state, action) = transfer_advance(finding, TransferEvent::Accounts(accounts), Some(1));
    assert_eq!(action, TransferAction::EnsureToken { account_id: 6, force: false });
    assert_eq!(state.step, TransferStep::TargetToken);
}

#[test]
fn malformed_transfer_state_still_ends() {
    let state = TransferState {
        step: TransferStep::GrantAdmin,
        target_email: "t@example.com".to_string(),
        target_name: "T".to_string(),
        current_api_key: None,
        target_account_id: None,
        target_token: None,
        approval_id: None,
        target_api_key: None,
        polls_made: 200,
        retry: RetryState::First,
    };
    let (state, action) = transfer_step(state, TransferEvent::Succeeded);
    assert_eq!(state.step, TransferStep::Finished);
    assert_eq!(
        action,
        TransferAction::Finish(TransferOutcome::Failed(AppError::Validation(
            "unexpected report".to_string()
        )))
    );
}

#[test]
fn transfer_call_is_retried_once_with_a_forced_refresh() {
    let (state, _) = transfer_subscription("t@example.com".to_string(), "T".to_string());
    let (state, action) = transfer_step(state, TransferEvent::AuthRejected);
    assert_eq!(action, TransferAction::GetCurrentUser);
    assert_eq!(state.retry, RetryState::Second);
    assert_eq!(state.step, TransferStep::CurrentUser);
    let (state, action) =
        transfer_step(state, TransferEvent::CurrentUser { api_key: Some("me".to_string()) });
    assert_eq!(action, TransferAction::DisableAccess { api_key: "me".to_string() });
    assert_eq!(state.retry, RetryState::First);
    let (state, action) = transfer_step(state, TransferEvent::AuthRejected);
    assert_eq!(action, TransferAction::DisableAccess { api_key: "me".to_string() });
    assert_eq!(state.retry, RetryState::Second);
    let (state, action) = transfer_step(state, TransferEvent::AuthRejected);
    assert_eq!(
        action,
        TransferAction::Finish(TransferOutcome::Failed(AppError::RetriesExhausted))
    );
    assert_eq!(state.step, TransferStep::Finished);
}

#[test]
fn rejected_call_for_the_target_refreshes_its_token_once() {
    let (state, _) = transfer_subscription("t@example.com".to_string(), "T".to_string());
    let (state, _) =
        transfer_step(state, TransferEvent::CurrentUser { api_key: Some("me".to_string()) });
    let (state, _) = transfer_step(state, TransferEvent::Succeeded);
    let (state, _) = transfer_step(state, TransferEvent::Succeeded);
    let accounts = vec![member_account(5, "T@example.com", None, None)];
    let (state, _) = transfer_step(state, TransferEvent::Accounts(accounts));
    let (state, action) = transfer_step(state, TransferEvent::Token(Some("old".to_string())));
    assert_eq!(action, TransferAction::GetInvitation { token: "old".to_string() });
    let (state, action) = transfer_step(state, TransferEvent::AuthRejected);
    assert_eq!(action, TransferAction::EnsureToken { account_id: 5, force: true });
    let (state, action) = transfer_step(state, TransferEvent::Token(Some("new".to_string())));
    assert_eq!(action, TransferAction::GetInvitation { token: "new".to_string() });
    let (state, action) = transfer_step(state, TransferEvent::AuthRejected);
    assert_eq!(action, TransferAction::PollMembers { delay_millis: 1000 });
    assert_eq!(state.step, TransferStep::Poll);
    assert_eq!(state.retry, RetryState::First);
    let (state, action) = transfer_step(state, TransferEvent::AuthRejected);
    assert_eq!(action, TransferAction::PollMembers { delay_millis: 1000 });
    assert_eq!(state.polls_made, 1);
    assert_eq!(state.retry, RetryState::Second);
}

#[test]
fn transfer_outcome_is_told_in_words() {
    assert_eq!(
        transfer_message(&TransferOutcome::Transferred, "t@example.com"),
        "订阅已成功转让给 t@example.com"
    );
    assert_eq!(
        transfer_message(&TransferOutcome::InvitationPending, "t@example.com"),
        "邀请已发送，但目标用户需要手动接受邀请后才能完成转让"
    );
    assert_eq!(
        transfer_message(
            &TransferOutcome::Failed(AppError::Api("移除自己失败: x".to_string())),
            "t@example.com"
        ),
        "移除自己失败: x"
    );
}
