//! Tests of the wire codec and the request pipeline: round trips, the
//! rejection of unknown or malformed payloads, and the content-type gate.
use postfeed::codec::{
    decode_call, decode_response, encode_call, encode_response, AddPost, BackendFn,
    CommentsByPostId, DeleteAccount, DislikePost, LeaveComment, LikePost, Login, Logout, Signup,
};
use postfeed::dispatch::{dispatch, handle_request, Response, ResponseBody, BACKEND_CONTENT_TYPE};
use postfeed::session::{cookie_token, Context};
use postfeed::store::Database;
use postfeed::client::{
    marshal_add_post, marshal_comments_by_post_id, marshal_leave_comment, marshal_like_post,
    marshal_logout, marshal_signup,
};
use postfeed::BackendFnError;

fn round_trip(f: BackendFn) -> BackendFn {
    let bytes = encode_call(&f);
    decode_call(&bytes).expect("a fresh encoding decodes")
}

#[test]
fn every_operation_round_trips_through_the_wire() {
    assert_eq!(
        round_trip(BackendFn::Signup(Signup { name: "alice".to_string() })),
        BackendFn::Signup(Signup { name: "alice".to_string() })
    );
    assert_eq!(
        round_trip(BackendFn::Login(Login { login_code: "s3cret".to_string() })),
        BackendFn::Login(Login { login_code: "s3cret".to_string() })
    );
    assert_eq!(round_trip(BackendFn::Logout(Logout {})), BackendFn::Logout(Logout {}));
    assert_eq!(
        round_trip(BackendFn::DeleteAccount(DeleteAccount {})),
        BackendFn::DeleteAccount(DeleteAccount {})
    );
    assert_eq!(
        round_trip(BackendFn::LikePost(LikePost { post_id: -7 })),
        BackendFn::LikePost(LikePost { post_id: -7 })
    );
    assert_eq!(
        round_trip(BackendFn::DislikePost(DislikePost { post_id: i64::MAX })),
        BackendFn::DislikePost(DislikePost { post_id: i64::MAX })
    );
    assert_eq!(
        round_trip(BackendFn::AddPost(AddPost { body: "hello, wörld".to_string() })),
        BackendFn::AddPost(AddPost { body: "hello, wörld".to_string() })
    );
    assert_eq!(
        round_trip(BackendFn::LeaveComment(LeaveComment {
            post_id: 3,
            body: "nice".to_string()
        })),
        BackendFn::LeaveComment(LeaveComment { post_id: 3, body: "nice".to_string() })
    );
    assert_eq!(
        round_trip(BackendFn::CommentsByPostId(CommentsByPostId { post_id: 3 })),
        BackendFn::CommentsByPostId(CommentsByPostId { post_id: 3 })
    );
}

#[test]
fn unknown_discriminants_and_malformed_payloads_are_rejected() {
    assert_eq!(decode_call(&vec![]).unwrap_err(), BackendFnError::JsonParse);
    assert_eq!(decode_call(&vec![9]).unwrap_err(), BackendFnError::JsonParse);
    assert_eq!(decode_call(&vec![200]).unwrap_err(), BackendFnError::JsonParse);
    // a logout with trailing bytes is not a logout
    assert_eq!(decode_call(&vec![2, 0]).unwrap_err(), BackendFnError::JsonParse);
    // a signup whose advertised length overruns the payload
    assert_eq!(
        decode_call(&vec![0, 255, 0, 0, 0, 0, 0, 0, 0]).unwrap_err(),
        BackendFnError::JsonParse
    );
    // a like with a truncated id
    assert_eq!(decode_call(&vec![4, 1, 2]).unwrap_err(), BackendFnError::JsonParse);
}

#[test]
fn response_frames_round_trip() {
    let ok = encode_response(Ok(vec![1, 2, 3]));
    assert_eq!(decode_response(&ok).expect("frame"), Ok(vec![1, 2, 3]));
    let err = encode_response(Err(BackendFnError::Request));
    assert_eq!(decode_response(&err).expect("frame"), Err(BackendFnError::Request));
    assert_eq!(
        decode_response(&vec![]).unwrap_err(),
        BackendFnError::JsonParse
    );
    assert_eq!(
        decode_response(&vec![0, 99]).unwrap_err(),
        BackendFnError::JsonParse
    );
}

#[test]
fn wrong_content_type_is_rejected_before_any_handler_runs() {
    let mut db = Database::new();
    db.migrate().expect("migrate");
    let alice = db
        .insert_account_with_code("alice".to_string(), "codea".to_string(), 1)
        .expect("account");
    db.insert_session_with_identifier("alice-token".to_string(), alice.id, 1)
        .expect("session");
    // a payload that would create a post if it were dispatched
    let payload = encode_call(&BackendFn::AddPost(AddPost { body: "sneaky".to_string() }));
    let r = handle_request(
        &mut db,
        Some("application/cbor"),
        Some("alice-token"),
        &payload,
        2,
        true,
    );
    assert_eq!(r.status, 500);
    assert!(r.set_cookie.is_none());
    assert!(r.body.is_err());
    // nothing reached the store
    assert!(db.posts(None).expect("feed").is_empty());
    let r = handle_request(&mut db, None, Some("alice-token"), &payload, 2, true);
    assert_eq!(r.status, 500);
    assert!(db.posts(None).expect("feed").is_empty());
}

#[test]
fn well_formed_requests_reach_their_handler() {
    let mut db = Database::new();
    db.migrate().expect("migrate");
    let alice = db
        .insert_account_with_code("alice".to_string(), "codea".to_string(), 1)
        .expect("account");
    db.insert_session_with_identifier("alice-token".to_string(), alice.id, 1)
        .expect("session");
    let payload = encode_call(&BackendFn::AddPost(AddPost { body: "hello".to_string() }));
    let r = handle_request(
        &mut db,
        Some(BACKEND_CONTENT_TYPE),
        Some("alice-token"),
        &payload,
        2,
        true,
    );
    assert_eq!(r.status, 200);
    match r.body.expect("success") {
        ResponseBody::PostResult(Some(p)) => assert_eq!(p.body, "hello"),
        other => panic!("unexpected body: {:?}", other),
    }
    assert_eq!(db.posts(None).expect("feed").len(), 1);
}

#[test]
fn garbage_payloads_are_a_transport_error() {
    let mut db = Database::new();
    db.migrate().expect("migrate");
    let r = handle_request(
        &mut db,
        Some(BACKEND_CONTENT_TYPE),
        None,
        &vec![42, 42, 42],
        2,
        true,
    );
    assert_eq!(r.status, 500);
    assert!(r.body.is_err());
}

#[test]
fn dispatch_answers_each_call_with_its_own_body_variant() {
    let mut db = Database::new();
    db.migrate().expect("migrate");
    let anonymous = Context { session: None };
    let r = dispatch(
        &mut db,
        &anonymous,
        BackendFn::CommentsByPostId(CommentsByPostId { post_id: 1 }),
        2,
        true,
    );
    assert_eq!(
        r,
        Response { status: 200, set_cookie: None, body: Ok(ResponseBody::Comments(vec![])) }
    );
    let r = dispatch(&mut db, &anonymous, BackendFn::Logout(Logout {}), 2, true);
    assert_eq!(r.body, Ok(ResponseBody::Unit));
    let r = dispatch(
        &mut db,
        &anonymous,
        BackendFn::LikePost(LikePost { post_id: 1 }),
        2,
        true,
    );
    assert_eq!(r.body, Ok(ResponseBody::LikeResult(None)));
}

#[test]
fn backend_fn_error_renders_opaquely() {
    let (status, body) = BackendFnError::JsonParse.response_parts();
    assert_eq!(status, 500);
    assert_eq!(body, "{\"error\": \"Probably a json parse error\"}");
}

#[test]
fn a_marshaled_conversation_round_trips_through_the_server() {
    let mut db = Database::new();
    db.migrate().expect("migrate");
    let mut serve = |db: &mut Database, token: Option<&str>, payload: Vec<u8>, now: i64| {
        handle_request(db, Some(BACKEND_CONTENT_TYPE), token, &payload, now, true)
    };

    // signup over the wire; the set-cookie directive carries the token
    let r = serve(&mut db, None, marshal_signup("alice".to_string()), 1);
    assert_eq!(r.status, 200);
    let cookie = r.set_cookie.expect("set-cookie");
    let token = cookie_token(&cookie).expect("token in cookie");

    // post, like and comment as the cookie-carried session
    let r = serve(&mut db, Some(&token), marshal_add_post("hi".to_string()), 2);
    let post_id = match r.body.expect("success") {
        ResponseBody::PostResult(Some(p)) => p.id,
        other => panic!("unexpected body: {:?}", other),
    };
    let r = serve(&mut db, Some(&token), marshal_like_post(post_id), 3);
    assert!(matches!(r.body, Ok(ResponseBody::LikeResult(Some(_)))));
    let r = serve(
        &mut db,
        Some(&token),
        marshal_leave_comment(post_id, "note".to_string()),
        4,
    );
    assert!(matches!(r.body, Ok(ResponseBody::CommentResult(Some(_)))));

    // the listing is visible without a session
    let r = serve(&mut db, None, marshal_comments_by_post_id(post_id), 5);
    match r.body.expect("success") {
        ResponseBody::Comments(v) => {
            assert_eq!(v.len(), 1);
            assert_eq!(v[0].body, "note");
            assert_eq!(v[0].account_name, "alice");
        }
        other => panic!("unexpected body: {:?}", other),
    }

    // logout kills the token; the like marker disappears for it
    let r = serve(&mut db, Some(&token), marshal_logout(), 6);
    assert_eq!(r.body, Ok(ResponseBody::Unit));
    let feed = db.posts(None).expect("feed");
    assert_eq!(feed[0].like_count, Some(1));
    assert_eq!(feed[0].liked_by_current_account, None);
}

#[test]
fn cookie_headers_yield_their_session_token() {
    assert_eq!(cookie_token("a=1; id=tok; b=2"), Some("tok".to_string()));
    assert_eq!(cookie_token("id=tok"), Some("tok".to_string()));
    assert_eq!(cookie_token("idx=5; id=z"), Some("z".to_string()));
    assert_eq!(cookie_token("a=1; b=2"), None);
    assert_eq!(cookie_token(""), None);
    assert_eq!(cookie_token("id="), Some("".to_string()));
}

#[test]
fn json_errors_map_to_the_parse_variant() {
    let err = serde_json::from_str::<bool>("not json").unwrap_err();
    assert_eq!(BackendFnError::from(err), BackendFnError::JsonParse);
}
