//! Tests of the data-access service: uniqueness, lookups, deletion
//! cascades, feed ordering and per-viewer annotation.
use postfeed::errors::AppError;
use postfeed::models::{Account, HasAccount};
use postfeed::store::Database;

fn fresh_db() -> Database {
    let mut db = Database::new();
    db.migrate().expect("migrate");
    db
}

fn named_account(db: &mut Database, name: &str, code: &str, now: i64) -> Account {
    db.insert_account_with_code(name.to_string(), code.to_string(), now)
        .expect("account insert")
}

#[test]
fn migrate_is_idempotent_and_rollback_reverses() {
    let mut db = Database::new();
    assert!(db.rollback().is_err());
    db.migrate().expect("first migrate");
    db.migrate().expect("second migrate");
    db.rollback().expect("rollback");
    assert!(db.rollback().is_err());
}

#[test]
fn insert_account_assigns_ascending_ids() {
    let mut db = fresh_db();
    let a = named_account(&mut db, "alice", "codea", 1);
    let b = named_account(&mut db, "bob", "codeb", 2);
    assert_eq!(a.id, 1);
    assert_eq!(b.id, 2);
    assert_eq!(a.name, "alice");
    assert_eq!(b.name, "bob");
}

#[test]
fn duplicate_name_is_a_unique_violation() {
    let mut db = fresh_db();
    named_account(&mut db, "alice", "codea", 1);
    let err = db
        .insert_account_with_code("alice".to_string(), "codeb".to_string(), 2)
        .unwrap_err();
    assert_eq!(err, AppError::DatabaseUniqueIndex);
}

#[test]
fn duplicate_login_code_is_a_unique_violation() {
    let mut db = fresh_db();
    named_account(&mut db, "alice", "same", 1);
    let err = db
        .insert_account_with_code("bob".to_string(), "same".to_string(), 2)
        .unwrap_err();
    assert_eq!(err, AppError::DatabaseUniqueIndex);
}

#[test]
fn minted_login_code_has_token_shape() {
    let mut db = fresh_db();
    let a = db.insert_account("alice".to_string(), 1).expect("signup");
    assert_eq!(a.login_code.chars().count(), 21);
    assert!(a
        .login_code
        .chars()
        .all(|c| c.is_ascii_alphanumeric() || c == '_' || c == '-'));
}

#[test]
fn account_lookups_round_trip() {
    let mut db = fresh_db();
    let a = named_account(&mut db, "alice", "codea", 1);
    assert_eq!(db.account_by_id(a.id).unwrap().name, "alice");
    assert_eq!(
        db.account_by_login_code("codea".to_string()).unwrap().id,
        a.id
    );
    assert_eq!(db.account_by_id(99).unwrap_err(), AppError::NotFound);
    assert_eq!(
        db.account_by_login_code("other".to_string()).unwrap_err(),
        AppError::NotFound
    );
}

#[test]
fn session_round_trips_to_its_account() {
    let mut db = fresh_db();
    let a = named_account(&mut db, "alice", "codea", 1);
    let s = db
        .insert_session_with_identifier("token-1".to_string(), a.id, 2)
        .expect("session");
    let found = db.session_by_identifer("token-1").expect("lookup");
    assert_eq!(found.id, s.id);
    assert_eq!(found.account_id, a.id);
}

#[test]
fn deleted_session_resolves_to_nothing() {
    let mut db = fresh_db();
    let a = named_account(&mut db, "alice", "codea", 1);
    db.insert_session_with_identifier("token-1".to_string(), a.id, 2)
        .expect("session");
    let deleted = db.delete_session_by_identifier("token-1").expect("delete");
    assert_eq!(deleted.account_id, a.id);
    assert_eq!(
        db.session_by_identifer("token-1").unwrap_err(),
        AppError::NotFound
    );
}

#[test]
fn feed_is_newest_first_with_ties_in_storage_order() {
    let mut db = fresh_db();
    let a = named_account(&mut db, "alice", "codea", 1);
    let p1 = db
        .insert_post("one".to_string(), a.clone(), 5)
        .expect("post one");
    let p2 = db
        .insert_post("two".to_string(), a.clone(), 7)
        .expect("post two");
    let p3 = db
        .insert_post("three".to_string(), a.clone(), 5)
        .expect("post three");
    let feed = db.posts(None).expect("feed");
    let ids: Vec<i64> = feed.iter().map(|p| p.id).collect();
    assert_eq!(ids, vec![p2.id, p1.id, p3.id]);
    for w in feed.windows(2) {
        assert!(w[0].created_at >= w[1].created_at);
    }
}

#[test]
fn feed_caps_at_thirty_rows() {
    let mut db = fresh_db();
    let a = named_account(&mut db, "alice", "codea", 1);
    for i in 0..35 {
        db.insert_post(format!("post {}", i), a.clone(), i)
            .expect("post");
    }
    let feed = db.posts(None).expect("feed");
    assert_eq!(feed.len(), 30);
    // the most recent post leads; the five oldest fell off
    assert_eq!(feed[0].body, "post 34");
    assert_eq!(feed[29].body, "post 5");
}

#[test]
fn like_count_is_zero_not_absent() {
    let mut db = fresh_db();
    let a = named_account(&mut db, "alice", "codea", 1);
    let p = db.insert_post("hello".to_string(), a.clone(), 2).expect("post");
    assert_eq!(p.like_count, Some(0));
    let feed = db.posts(None).expect("anonymous feed");
    assert_eq!(feed[0].like_count, Some(0));
    let feed_as_alice = db.posts(Some(&a)).expect("alice feed");
    assert_eq!(feed_as_alice[0].like_count, Some(0));
}

#[test]
fn like_annotation_is_per_viewer() {
    let mut db = fresh_db();
    let alice = named_account(&mut db, "alice", "codea", 1);
    let bob = named_account(&mut db, "bob", "codeb", 1);
    let p = db.insert_post("hello".to_string(), alice.clone(), 2).expect("post");
    db.insert_like(bob.id, p.id, 3).expect("like");
    let as_bob = db.posts(Some(&bob)).expect("bob feed");
    assert_eq!(as_bob[0].like_count, Some(1));
    assert_eq!(as_bob[0].liked_by_current_account, Some(bob.id));
    let as_alice = db.posts(Some(&alice)).expect("alice feed");
    assert_eq!(as_alice[0].like_count, Some(1));
    assert_eq!(as_alice[0].liked_by_current_account, None);
    let anonymous = db.posts(None).expect("anonymous feed");
    assert_eq!(anonymous[0].liked_by_current_account, None);
}

#[test]
fn toggling_a_like_twice_restores_the_unliked_state() {
    let mut db = fresh_db();
    let a = named_account(&mut db, "alice", "codea", 1);
    let p = db.insert_post("hello".to_string(), a.clone(), 2).expect("post");
    db.insert_like(a.id, p.id, 3).expect("like");
    assert_eq!(
        db.posts(Some(&a)).expect("feed")[0].liked_by_current_account,
        Some(a.id)
    );
    assert!(db.delete_like(a.id, p.id).expect("unlike"));
    let after = db.posts(Some(&a)).expect("feed");
    assert_eq!(after[0].like_count, Some(0));
    assert_eq!(after[0].liked_by_current_account, None);
}

#[test]
fn a_pair_cannot_be_liked_twice() {
    let mut db = fresh_db();
    let a = named_account(&mut db, "alice", "codea", 1);
    let p = db.insert_post("hello".to_string(), a.clone(), 2).expect("post");
    db.insert_like(a.id, p.id, 3).expect("first like");
    let err = db.insert_like(a.id, p.id, 4).unwrap_err();
    assert_eq!(err, AppError::DatabaseUniqueIndex);
    assert_eq!(db.posts(None).expect("feed")[0].like_count, Some(1));
}

#[test]
fn liking_a_missing_post_is_a_generic_database_error() {
    let mut db = fresh_db();
    let a = named_account(&mut db, "alice", "codea", 1);
    assert_eq!(db.insert_like(a.id, 42, 2).unwrap_err(), AppError::Database);
}

#[test]
fn comments_list_oldest_first_with_author_names() {
    let mut db = fresh_db();
    let alice = named_account(&mut db, "alice", "codea", 1);
    let bob = named_account(&mut db, "bob", "codeb", 1);
    let p = db.insert_post("hello".to_string(), alice.clone(), 2).expect("post");
    let c1 = db
        .insert_comment(p.id, bob.id, "late".to_string(), 9)
        .expect("comment");
    let c2 = db
        .insert_comment(p.id, alice.id, "early".to_string(), 3)
        .expect("comment");
    assert_eq!(c1.account_name, "bob");
    assert_eq!(c2.account_name, "alice");
    let listing = db.comments_by_post_id(p.id).expect("listing");
    assert_eq!(listing.len(), 2);
    assert_eq!(listing[0].body, "early");
    assert_eq!(listing[1].body, "late");
    assert_eq!(db.posts(None).expect("feed")[0].comment_count, 2);
}

#[test]
fn commenting_a_missing_post_fails() {
    let mut db = fresh_db();
    let a = named_account(&mut db, "alice", "codea", 1);
    assert_eq!(
        db.insert_comment(42, a.id, "hi".to_string(), 2).unwrap_err(),
        AppError::Database
    );
}

#[test]
fn deleting_an_account_cascades_to_everything_it_owns() {
    let mut db = fresh_db();
    let alice = named_account(&mut db, "alice", "codea", 1);
    let bob = named_account(&mut db, "bob", "codeb", 1);
    db.insert_session_with_identifier("alice-token".to_string(), alice.id, 2)
        .expect("session");
    let alice_post = db
        .insert_post("from alice".to_string(), alice.clone(), 3)
        .expect("post");
    let bob_post = db
        .insert_post("from bob".to_string(), bob.clone(), 4)
        .expect("post");
    // bob interacts with alice's post, alice with bob's
    db.insert_like(bob.id, alice_post.id, 5).expect("like");
    db.insert_like(alice.id, bob_post.id, 5).expect("like");
    db.insert_comment(alice_post.id, bob.id, "nice".to_string(), 6)
        .expect("comment");
    db.insert_comment(bob_post.id, alice.id, "thanks".to_string(), 6)
        .expect("comment");
    db.delete_account_by_id(alice.id).expect("delete");
    assert_eq!(db.account_by_id(alice.id).unwrap_err(), AppError::NotFound);
    assert_eq!(
        db.session_by_identifer("alice-token").unwrap_err(),
        AppError::NotFound
    );
    let feed = db.posts(None).expect("feed");
    assert_eq!(feed.len(), 1);
    assert_eq!(feed[0].id, bob_post.id);
    // alice's like of bob's post and her comment went with her
    assert_eq!(feed[0].like_count, Some(0));
    assert_eq!(feed[0].comment_count, 0);
    assert!(db.comments_by_post_id(alice_post.id).expect("listing").is_empty());
}

#[test]
fn post_by_id_reports_the_viewer_annotation() {
    let mut db = fresh_db();
    let a = named_account(&mut db, "alice", "codea", 1);
    let p = db.insert_post("hello".to_string(), a.clone(), 2).expect("post");
    db.insert_like(a.id, p.id, 3).expect("like");
    let seen = db.post_by_id(p.id, Some(a.clone())).expect("lookup");
    assert_eq!(seen.like_count, Some(1));
    assert_eq!(seen.liked_by_current_account, Some(a.id));
    assert_eq!(seen.account_name, "alice");
    assert_eq!(
        db.post_by_id(99, None).unwrap_err(),
        AppError::NotFound
    );
}

#[test]
fn app_error_response_parts_distinguish_not_found() {
    let (status, body) = AppError::NotFound.response_parts();
    assert_eq!(status, 404);
    assert_eq!(body, "404 Not Found");
    let (status, body) = AppError::Database.response_parts();
    assert_eq!(status, 500);
    assert_eq!(body, "Internal server error");
}

#[test]
fn posts_and_comments_name_their_author_without_secrets() {
    let mut db = fresh_db();
    let alice = named_account(&mut db, "alice", "codea", 1);
    let p = db.insert_post("hello".to_string(), alice.clone(), 2).expect("post");
    let author = p.account();
    assert_eq!(author.id, alice.id);
    assert_eq!(author.name, "alice");
    assert_eq!(author.login_code, "");
    let c = db
        .insert_comment(p.id, alice.id, "hi".to_string(), 3)
        .expect("comment");
    let commenter = c.account();
    assert_eq!(commenter.id, alice.id);
    assert_eq!(commenter.name, "alice");
    assert_eq!(commenter.login_code, "");
}
