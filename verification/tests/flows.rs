//! End-to-end flows through the handlers: the signup/login/logout story,
//! handle validation, and the like toggles.
use postfeed::handlers::{
    add_post, delete_account, dislike_post, leave_comment, like_post, login, logout, signup,
    ServerFnError,
};
use postfeed::session::{get_account, resolve_session, set_cookie, Context};
use postfeed::signup::{validate_name, SignupNameState};
use postfeed::store::Database;

fn fresh_db() -> Database {
    let mut db = Database::new();
    db.migrate().expect("migrate");
    db
}

fn context_of_last_session(db: &Database) -> Context {
    Context { session: Some(db.sessions.last().expect("a session").clone()) }
}

#[test]
fn signup_login_logout_story() {
    let mut db = fresh_db();

    // signup("alice") succeeds with the new account
    let (result, cookie) = signup(&mut db, "alice".to_string(), 10, true);
    let alice = result.expect("transport").expect("business");
    assert_eq!(alice.name, "alice");
    let cookie = cookie.expect("a set-cookie directive");
    assert!(cookie.starts_with("id="));
    assert!(cookie.contains("HttpOnly"));

    // alice posts something and likes it
    let ctx = context_of_last_session(&db);
    let post = add_post(&mut db, &ctx, "first!".to_string(), 11)
        .expect("transport")
        .expect("a post");
    like_post(&mut db, &ctx, post.id, 12)
        .expect("transport")
        .expect("a like");

    // signup("alice") again: the specific name-unavailable outcome
    let (result, cookie) = signup(&mut db, "alice".to_string(), 13, true);
    let verdict = result.expect("transport").expect_err("name unavailable");
    assert_eq!(verdict.is_available, SignupNameState::Invalid);
    assert_eq!(verdict.is_alphanumeric, SignupNameState::Valid);
    assert!(cookie.is_none());

    // login with alice's code resolves the same account
    let (result, cookie) = login(&mut db, alice.login_code.clone(), 14, true);
    let (back, posts) = result.expect("transport").expect("an account");
    assert_eq!(back.id, alice.id);
    assert!(cookie.is_some());
    assert_eq!(posts.len(), 1);
    assert_eq!(posts[0].liked_by_current_account, Some(alice.id));

    // logout, then the anonymous feed hides the like marker
    let login_ctx = context_of_last_session(&db);
    logout(&mut db, &login_ctx).expect("logout");
    let feed = db.posts(None).expect("anonymous feed");
    assert_eq!(feed.len(), 1);
    assert_eq!(feed[0].like_count, Some(1));
    assert_eq!(feed[0].liked_by_current_account, None);
}

#[test]
fn login_with_an_unknown_code_is_a_business_no() {
    let mut db = fresh_db();
    let (result, cookie) = login(&mut db, "no-such-code".to_string(), 10, true);
    assert_eq!(result.expect("transport"), None);
    assert!(cookie.is_none());
}

#[test]
fn invalid_names_report_their_failed_rules() {
    let (r, _) = {
        let mut db = fresh_db();
        signup(&mut db, "ab".to_string(), 10, true)
    };
    let verdict = r.expect("transport").expect_err("too short");
    assert_eq!(verdict.greater_than_min_len, SignupNameState::Invalid);
    assert_eq!(verdict.less_than_max_len, SignupNameState::Valid);
    assert_eq!(verdict.is_alphanumeric, SignupNameState::Valid);
    assert_eq!(verdict.is_available, SignupNameState::Initial);

    let sn = validate_name(&"abc".to_string());
    assert!(sn.is_alphanumeric == SignupNameState::Valid);
    assert!(sn.greater_than_min_len == SignupNameState::Valid);
    assert!(sn.less_than_max_len == SignupNameState::Valid);

    let sn = validate_name(&"a".repeat(21));
    assert_eq!(sn.less_than_max_len, SignupNameState::Invalid);
    let sn = validate_name(&"a".repeat(20));
    assert_eq!(sn.less_than_max_len, SignupNameState::Valid);
    let sn = validate_name(&"has space".to_string());
    assert_eq!(sn.is_alphanumeric, SignupNameState::Invalid);
    let sn = validate_name(&"ümläut".to_string());
    assert_eq!(sn.is_alphanumeric, SignupNameState::Invalid);
}

#[test]
fn like_toggle_through_handlers_is_idempotent() {
    let mut db = fresh_db();
    let (result, _) = signup(&mut db, "alice".to_string(), 10, true);
    let alice = result.expect("transport").expect("account");
    let ctx = context_of_last_session(&db);
    let post = add_post(&mut db, &ctx, "hello".to_string(), 11)
        .expect("transport")
        .expect("post");

    let liked = like_post(&mut db, &ctx, post.id, 12).expect("transport");
    assert!(liked.is_some());
    // racing second like of the same pair stores nothing
    let liked_again = like_post(&mut db, &ctx, post.id, 13).expect("transport");
    assert!(liked_again.is_none());
    assert_eq!(db.posts(None).expect("feed")[0].like_count, Some(1));

    assert!(dislike_post(&mut db, &ctx, post.id).expect("transport"));
    let feed = db.posts(Some(&alice)).expect("feed");
    assert_eq!(feed[0].like_count, Some(0));
    assert_eq!(feed[0].liked_by_current_account, None);
}

#[test]
fn anonymous_requests_change_nothing() {
    let mut db = fresh_db();
    let anonymous = Context { session: None };
    assert_eq!(
        add_post(&mut db, &anonymous, "spam".to_string(), 10).expect("transport"),
        None
    );
    assert_eq!(
        like_post(&mut db, &anonymous, 1, 10).expect("transport"),
        None
    );
    assert!(!dislike_post(&mut db, &anonymous, 1).expect("transport"));
    logout(&mut db, &anonymous).expect("logout");
    delete_account(&mut db, &anonymous).expect("delete");
    assert!(db.accounts.is_empty());
    assert!(db.posts.is_empty());
}

#[test]
fn deleting_the_account_logs_it_out_everywhere() {
    let mut db = fresh_db();
    let (result, _) = signup(&mut db, "alice".to_string(), 10, true);
    let alice = result.expect("transport").expect("account");
    let ctx = context_of_last_session(&db);
    let token = ctx.session.as_ref().expect("session").identifier.clone();
    delete_account(&mut db, &ctx).expect("delete");
    assert!(resolve_session(&db, Some(token.as_str())).is_none());
    assert!(get_account(&db, &ctx).is_none());
    assert!(db.account_by_id(alice.id).is_err());
}

#[test]
fn resolver_treats_unknown_tokens_as_anonymous() {
    let mut db = fresh_db();
    assert!(resolve_session(&db, None).is_none());
    assert!(resolve_session(&db, Some("never-issued")).is_none());
    let (_, _) = signup(&mut db, "alice".to_string(), 10, true);
    let token = db.sessions.last().expect("session").identifier.clone();
    let session = resolve_session(&db, Some(token.as_str())).expect("resolves");
    assert_eq!(session.identifier, token);
}

#[test]
fn set_cookie_carries_the_exact_attributes() {
    let mut db = fresh_db();
    let (_, _) = signup(&mut db, "alice".to_string(), 10, true);
    let session = db.sessions.last().expect("session").clone();
    let token = session.identifier.clone();
    let debug_cookie = set_cookie(session.clone(), true);
    assert_eq!(
        debug_cookie,
        format!("id={}; HttpOnly; SameSite=Lax; Path=/; Max-Age=2629746; ", token)
    );
    let release_cookie = set_cookie(session, false);
    assert_eq!(
        release_cookie,
        format!(
            "id={}; HttpOnly; SameSite=Lax; Path=/; Max-Age=2629746; Secure;",
            token
        )
    );
}

#[test]
fn account_initial_is_the_first_letter() {
    let mut db = fresh_db();
    let (result, _) = signup(&mut db, "alice".to_string(), 10, true);
    let alice = result.expect("transport").expect("account");
    assert_eq!(alice.initial(), "a");
}

#[test]
fn commenting_a_missing_post_is_a_server_error() {
    let mut db = fresh_db();
    let (_, _) = signup(&mut db, "alice".to_string(), 10, true);
    let ctx = context_of_last_session(&db);
    let err = leave_comment(&mut db, &ctx, 42, "into the void".to_string(), 11).unwrap_err();
    match err {
        ServerFnError::ServerError(m) => assert_eq!(m, "Internal server error"),
        other => panic!("unexpected error: {:?}", other),
    }
}
