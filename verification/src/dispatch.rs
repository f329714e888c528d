//! The dispatcher: one entry point per request.
//!
//! A request first passes the content-type gate — a payload presented
//! under any other content type is rejected with a generic server error
//! before one byte of it is parsed. The payload is then decoded into the
//! tagged union of known operations; an unknown or malformed payload is a
//! transport error. A decoded call is dispatched by one exhaustive match,
//! against a context holding the cookie-resolved session, so no unknown
//! discriminant can ever reach a handler. Business failures travel in a
//! success response; only transport failures use the failure status.
use vstd::prelude::*;

use crate::codec::{decode_call, spec_encode_call, BackendFn, CallRec};
use crate::handlers::{
    add_post, comments_by_post_id, delete_account, dislike_post, id_headroom, leave_comment,
    like_post, login, logout, signup, ServerFnError,
};
use crate::models::{Account, Comment, Like, Post};
use crate::session::{resolve_session, Context};
use crate::signup::SignupName;
use crate::store::{Database, DbState};

verus! {

/// The content type the RPC endpoint negotiates; anything else is turned
/// away unread.
pub const BACKEND_CONTENT_TYPE: &'static str = "application/octet-stream";

/// The typed result of one dispatched operation, one variant per
/// operation.
#[derive(Debug, PartialEq)]
pub enum ResponseBody {
    SignupResult(Result<Account, SignupName>),
    LoginResult(Option<(Account, Vec<Post>)>),
    Unit,
    LikeResult(Option<Like>),
    DislikeResult(bool),
    PostResult(Option<Post>),
    CommentResult(Option<Comment>),
    Comments(Vec<Comment>),
}

/// What the server answers: a status, an optional set-cookie directive,
/// and either an operation's typed result or an opaque failure.
#[derive(Debug, PartialEq)]
pub struct Response {
    pub status: u16,
    pub set_cookie: Option<String>,
    pub body: Result<ResponseBody, ServerFnError>,
}

/// The response body variant that answers each operation.
pub open spec fn body_answers(body: ResponseBody, call: CallRec) -> bool {
    match call {
        CallRec::Signup { .. } => body is SignupResult,
        CallRec::Login { .. } => body is LoginResult,
        CallRec::Logout => body is Unit,
        CallRec::DeleteAccount => body is Unit,
        CallRec::LikePost { .. } => body is LikeResult,
        CallRec::DislikePost { .. } => body is DislikeResult,
        CallRec::AddPost { .. } => body is PostResult,
        CallRec::LeaveComment { .. } => body is CommentResult,
        CallRec::CommentsByPostId { .. } => body is Comments,
    }
}

/// What dispatching one call does to the store and what it answers,
/// case by case: the per-operation halves of every handler contract, read
/// off the response.
pub open spec fn dispatch_effect(
    call: CallRec,
    session: Option<crate::models::Session>,
    pre: DbState,
    post: DbState,
    now: int,
    r: Response,
) -> bool {
    match call {
        CallRec::Signup { name } => {
            &&& !crate::signup::valid_name(name) ==> (post == pre && (r.set_cookie is None) && (
            r.body matches Ok(b) && b matches ResponseBody::SignupResult(inner) && (inner
                is Err)))
            &&& (crate::signup::valid_name(name) && crate::store::name_taken(pre, name)) ==> (post
                == pre && (r.set_cookie is None) && r.body == Ok::<ResponseBody, ServerFnError>(
                ResponseBody::SignupResult(Err(crate::handlers::name_unavailable_verdict())),
            ))
            &&& (match r.body {
                Ok(ResponseBody::SignupResult(Ok(a))) => crate::signup::valid_name(name)
                    && !crate::store::name_taken(pre, name) && a@.name == name && a@.id
                    == pre.next_account_id && post == crate::store::insert_session_tr(
                    crate::store::insert_account_tr(pre, name, a@.login_code, now),
                    post.sessions.last().identifier,
                    pre.next_account_id,
                    now,
                ) && (r.set_cookie is Some),
                _ => true,
            })
            &&& ((r.body is Err) ==> (crate::signup::valid_name(name) && !crate::store::name_taken(
                pre,
                name,
            ) && (exists|code: Seq<char>|
                post == crate::store::insert_account_tr(pre, name, code, now))))
        },
        CallRec::Login { login_code } => {
            &&& !crate::store::login_code_taken(pre, login_code) ==> (post == pre && (r.set_cookie
                is None) && r.body == Ok::<ResponseBody, ServerFnError>(
                ResponseBody::LoginResult(None),
            ))
            &&& (match r.body {
                Ok(ResponseBody::LoginResult(Some((a, posts)))) => crate::store::login_code_taken(
                    pre,
                    login_code,
                ) && pre.accounts.contains(a@) && a@.login_code == login_code && post
                    == crate::store::insert_session_tr(
                    pre,
                    post.sessions.last().identifier,
                    a@.id,
                    now,
                ) && crate::store::is_feed_of(post, a@.id, crate::store::posts_of(posts@)) && (
                r.set_cookie is Some),
                _ => true,
            })
            &&& (r.body is Err) ==> post == pre
            &&& (r.body == Ok::<ResponseBody, ServerFnError>(ResponseBody::LoginResult(None)))
                ==> !crate::store::login_code_taken(pre, login_code)
        },
        CallRec::Logout => match session {
            None => post == pre && r.body == Ok::<ResponseBody, ServerFnError>(
                ResponseBody::Unit,
            ),
            Some(s) => {
                &&& crate::store::identifier_taken(pre, s@.identifier) ==> (post
                    == crate::store::delete_session_tr(pre, s@.identifier) && r.body == Ok::<
                    ResponseBody,
                    ServerFnError,
                >(ResponseBody::Unit))
                &&& !crate::store::identifier_taken(pre, s@.identifier) ==> (post == pre && (
                r.body is Err))
            },
        },
        CallRec::DeleteAccount => {
            &&& r.body == Ok::<ResponseBody, ServerFnError>(ResponseBody::Unit)
            &&& (match session {
                None => post == pre,
                Some(s) => post == crate::store::delete_account_tr(
                    crate::store::delete_session_tr(pre, s@.identifier),
                    s@.account_id as int,
                ),
            })
        },
        CallRec::LikePost { post_id } => match session {
            None => post == pre && r.body == Ok::<ResponseBody, ServerFnError>(
                ResponseBody::LikeResult(None),
            ),
            Some(s) => {
                let aid = s@.account_id;
                &&& !crate::store::has_account_id(pre, aid) ==> (post == pre && r.body == Ok::<
                    ResponseBody,
                    ServerFnError,
                >(ResponseBody::LikeResult(None)))
                &&& (crate::store::has_account_id(pre, aid) && crate::store::has_post_id(
                    pre,
                    post_id as int,
                ) && !crate::store::has_like(pre, aid, post_id as int)) ==> (post
                    == crate::store::insert_like_tr(pre, aid, post_id as int, now) && (
                r.body matches Ok(b) && b matches ResponseBody::LikeResult(opt) && (
                opt matches Some(l) && l@.account_id == aid && l@.post_id == post_id as int
                    && l@.id == pre.next_like_id)))
                &&& (crate::store::has_account_id(pre, aid) && !(crate::store::has_post_id(
                    pre,
                    post_id as int,
                ) && !crate::store::has_like(pre, aid, post_id as int))) ==> (post == pre
                    && r.body == Ok::<ResponseBody, ServerFnError>(
                    ResponseBody::LikeResult(None),
                ))
            },
        },
        CallRec::DislikePost { post_id } => match session {
            None => post == pre && r.body == Ok::<ResponseBody, ServerFnError>(
                ResponseBody::DislikeResult(false),
            ),
            Some(s) => {
                let aid = s@.account_id;
                &&& !crate::store::has_account_id(pre, aid) ==> (post == pre && r.body == Ok::<
                    ResponseBody,
                    ServerFnError,
                >(ResponseBody::DislikeResult(false)))
                &&& crate::store::has_account_id(pre, aid) ==> (post
                    == crate::store::delete_like_tr(pre, aid, post_id as int) && r.body == Ok::<
                    ResponseBody,
                    ServerFnError,
                >(ResponseBody::DislikeResult(true)))
            },
        },
        CallRec::AddPost { body } => match session {
            None => post == pre && r.body == Ok::<ResponseBody, ServerFnError>(
                ResponseBody::PostResult(None),
            ),
            Some(s) => {
                let aid = s@.account_id;
                &&& !crate::store::has_account_id(pre, aid) ==> (post == pre && (r.body
                    matches Ok(b) && b matches ResponseBody::PostResult(opt) && opt is None))
                &&& crate::store::has_account_id(pre, aid) ==> (post
                    == crate::store::insert_post_tr(pre, body, aid, now) && (r.body matches Ok(b)
                    && b matches ResponseBody::PostResult(opt) && (opt matches Some(p) && p@.id
                    == pre.next_post_id && p@.body == body && p@.account_id == aid
                    && p@.like_count == Some(0int) && p@.comment_count == 0)))
            },
        },
        CallRec::LeaveComment { post_id, body } => match session {
            None => post == pre && (r.body matches Ok(b) && b matches ResponseBody::CommentResult(
                opt,
            ) && (opt is None)),
            Some(s) => {
                let aid = s@.account_id;
                &&& !crate::store::has_account_id(pre, aid) ==> (post == pre && (r.body
                    matches Ok(b) && b matches ResponseBody::CommentResult(opt) && (opt is None)))
                &&& (crate::store::has_account_id(pre, aid) && crate::store::has_post_id(
                    pre,
                    post_id as int,
                )) ==> (post == crate::store::insert_comment_tr(
                    pre,
                    post_id as int,
                    aid,
                    body,
                    now,
                ) && (r.body matches Ok(b) && b matches ResponseBody::CommentResult(opt) && (
                opt matches Some(c) && c@.id == pre.next_comment_id && c@.body == body
                    && c@.account_id == aid && c@.post_id == post_id as int)))
                &&& (crate::store::has_account_id(pre, aid) && !crate::store::has_post_id(
                    pre,
                    post_id as int,
                )) ==> (post == pre && (r.body is Err))
            },
        },
        CallRec::CommentsByPostId { post_id } => {
            &&& post == pre
            &&& (r.body matches Ok(b) && b matches ResponseBody::Comments(v)
                && crate::store::is_comments_of(
                pre,
                post_id as int,
                crate::store::comments_of(v@),
            ))
        },
    }
}

/// Dispatch one decoded call: exactly one handler runs, under the
/// request's resolved context, and its typed result is wrapped with the
/// transport status — success for every business outcome, the failure
/// status only when the handler itself failed. The effect on the store and
/// the answer are pinned, case by case, by [`dispatch_effect`].
pub fn dispatch(db: &mut Database, ctx: &Context, call: BackendFn, now: i64, debug: bool) -> (r:
    Response)
    requires
        old(db).wf(),
        old(db).migrated(),
        id_headroom(old(db)@),
    ensures
        final (db).wf(),
        final (db).migrated(),
        (r.status == 200) <==> (r.body is Ok),
        (r.status == 200) || (r.status == 500),
        r.body matches Ok(body) ==> body_answers(body, call@),
        !(call@ is Signup || call@ is Login) ==> (r.set_cookie is None),
        dispatch_effect(call@, ctx.session, old(db)@, final (db)@, now as int, r),
{
    match call {
        BackendFn::Signup(a) => {
            let ghost nm = a.name@;
            let (result, cookie) = signup(db, a.name, now, debug);
            proof {
                if result is Err {
                    let code = choose|code: Seq<char>|
                        db@ == crate::store::insert_account_tr(old(db)@, nm, code, now as int);
                    assert(db@ == crate::store::insert_account_tr(old(db)@, nm, code, now as int));
                }
            }
            match result {
                Ok(inner) => Response {
                    status: 200,
                    set_cookie: cookie,
                    body: Ok(ResponseBody::SignupResult(inner)),
                },
                Err(e) => Response { status: 500, set_cookie: None, body: Err(e) },
            }
        },
        BackendFn::Login(a) => {
            let (result, cookie) = login(db, a.login_code, now, debug);
            match result {
                Ok(inner) => Response {
                    status: 200,
                    set_cookie: cookie,
                    body: Ok(ResponseBody::LoginResult(inner)),
                },
                Err(e) => Response { status: 500, set_cookie: None, body: Err(e) },
            }
        },
        BackendFn::Logout(_) => {
            match logout(db, ctx) {
                Ok(_) => Response { status: 200, set_cookie: None, body: Ok(ResponseBody::Unit) },
                Err(e) => Response { status: 500, set_cookie: None, body: Err(e) },
            }
        },
        BackendFn::DeleteAccount(_) => {
            match delete_account(db, ctx) {
                Ok(_) => Response { status: 200, set_cookie: None, body: Ok(ResponseBody::Unit) },
                Err(e) => Response { status: 500, set_cookie: None, body: Err(e) },
            }
        },
        BackendFn::LikePost(a) => {
            match like_post(db, ctx, a.post_id, now) {
                Ok(inner) => Response {
                    status: 200,
                    set_cookie: None,
                    body: Ok(ResponseBody::LikeResult(inner)),
                },
                Err(e) => Response { status: 500, set_cookie: None, body: Err(e) },
            }
        },
        BackendFn::DislikePost(a) => {
            match dislike_post(db, ctx, a.post_id) {
                Ok(inner) => Response {
                    status: 200,
                    set_cookie: None,
                    body: Ok(ResponseBody::DislikeResult(inner)),
                },
                Err(e) => Response { status: 500, set_cookie: None, body: Err(e) },
            }
        },
        BackendFn::AddPost(a) => {
            match add_post(db, ctx, a.body, now) {
                Ok(inner) => Response {
                    status: 200,
                    set_cookie: None,
                    body: Ok(ResponseBody::PostResult(inner)),
                },
                Err(e) => Response { status: 500, set_cookie: None, body: Err(e) },
            }
        },
        BackendFn::LeaveComment(a) => {
            match leave_comment(db, ctx, a.post_id, a.body, now) {
                Ok(inner) => Response {
                    status: 200,
                    set_cookie: None,
                    body: Ok(ResponseBody::CommentResult(inner)),
                },
                Err(e) => Response { status: 500, set_cookie: None, body: Err(e) },
            }
        },
        BackendFn::CommentsByPostId(a) => {
            match comments_by_post_id(db, a.post_id) {
                Ok(v) => Response {
                    status: 200,
                    set_cookie: None,
                    body: Ok(ResponseBody::Comments(v)),
                },
                Err(e) => Response { status: 500, set_cookie: None, body: Err(e) },
            }
        },
    }
}

/// The session a cookie-carried token resolves to against a store: none
/// without a token or for an unknown token, else the stored session
/// carrying it.
pub open spec fn session_resolution(
    pre: DbState,
    token: Option<Seq<char>>,
    sess: Option<crate::models::Session>,
) -> bool {
    match token {
        None => sess is None,
        Some(t) => {
            &&& ((sess is Some) <==> crate::store::identifier_taken(pre, t))
            &&& (sess matches Some(s) ==> pre.sessions.contains(s@) && s@.identifier == t)
        },
    }
}

/// Serve one RPC request from its raw parts: gate the content type, decode
/// the payload, resolve the cookie-carried session, and dispatch. A
/// request under an unexpected content type is turned away with the
/// failure status before its payload is read, leaving the store untouched;
/// so is a payload that encodes no known operation. A payload that encodes
/// a call takes effect exactly as [`dispatch_effect`] prescribes, under
/// the session the cookie token resolves to.
pub fn handle_request(
    db: &mut Database,
    content_type: Option<&str>,
    cookie_token: Option<&str>,
    body: &Vec<u8>,
    now: i64,
    debug: bool,
) -> (r: Response)
    requires
        old(db).wf(),
        old(db).migrated(),
        id_headroom(old(db)@),
    ensures
        final (db).wf(),
        final (db).migrated(),
        (match content_type {
            None => true,
            Some(ct) => ct@ != BACKEND_CONTENT_TYPE@,
        }) ==> (final (db)@ == old(db)@ && r.status == 500 && (r.set_cookie is None) && (r.body
            is Err)),
        (forall|c: CallRec| body@ != spec_encode_call(c)) ==> (final (db)@ == old(db)@ && r.status
            == 500 && (r.set_cookie is None) && (r.body is Err)),
        (r.status == 200) <==> (r.body is Ok),
        (r.status == 200) || (r.status == 500),
        r.body matches Ok(rb) ==> (exists|c: CallRec|
            body@ == #[trigger] spec_encode_call(c) && body_answers(rb, c)),
        forall|c: CallRec|
            #![trigger spec_encode_call(c)]
            ((match content_type {
                None => false,
                Some(ct) => ct@ == BACKEND_CONTENT_TYPE@,
            }) && body@ == spec_encode_call(c)) ==> (exists|
                sess: Option<crate::models::Session>,
            |
                session_resolution(
                    old(db)@,
                    match cookie_token {
                        None => None,
                        Some(t) => Some(t@),
                    },
                    sess,
                ) && dispatch_effect(c, sess, old(db)@, final (db)@, now as int, r)),
{
    let ct_ok = match content_type {
        None => false,
        Some(ct) => {
            let expected = BACKEND_CONTENT_TYPE.to_owned();
            let given = ct.to_owned();
            given.eq(&expected)
        },
    };
    if !ct_ok {
        return Response {
            status: 500,
            set_cookie: None,
            body: Err(ServerFnError::Request(String::from_str("what"))),
        };
    }
    let call = match decode_call(body) {
        Ok(f) => f,
        Err(_) => {
            return Response {
                status: 500,
                set_cookie: None,
                body: Err(ServerFnError::Request(String::from_str("what"))),
            };
        },
    };
    let ghost pre = db@;
    let session = resolve_session(db, cookie_token);
    let ghost resolved = session;
    proof {
        assert(session_resolution(
            pre,
            match cookie_token {
                None => None::<Seq<char>>,
                Some(t) => Some(t@),
            },
            resolved,
        ));
    }
    let ctx = Context { session: session };
    let r = dispatch(db, &ctx, call, now, debug);
    proof {
        assert(body@ == spec_encode_call(call@));
        assert(dispatch_effect(call@, resolved, pre, db@, now as int, r));
    }
    r
}

} // verus!
