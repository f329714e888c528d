//! The remote operations, as the trusted side executes them: each takes
//! the store and the request's resolved context, performs one business
//! transaction, and returns the typed two-layer result the codec frames.
//!
//! Business failures — a taken handle, a missing login code — are `Ok`
//! values carrying structured failure data. The error channel is kept for
//! conditions the caller cannot act on, which the dispatcher renders
//! opaquely.
use vstd::prelude::*;

use crate::models::{Account, Comment, Like, Post};
use crate::session::{get_account, set_cookie, spec_set_cookie, Context};
use crate::signup::{valid_name, validate_name, SignupName, SignupNameState};
use crate::store::{
    delete_account_tr, delete_like_tr, delete_session_tr, has_account_id,
    has_like, has_post_id, identifier_taken, insert_account_tr, insert_comment_tr,
    insert_like_tr, insert_post_tr, insert_session_tr, is_comments_of, is_feed_of,
    login_code_taken, name_taken, posts_of, comments_of, Database, DbState,
};
use crate::models::{AccountRec, LikeRec};

verus! {

/// Failure of a remote operation that the caller cannot act on: the
/// operation did not run to completion, and no detail beyond an opaque
/// message is exposed.
#[derive(Clone, Debug, PartialEq)]
pub enum ServerFnError {
    Request(String),
    ServerError(String),
}

/// The opaque failure every unexpected store error is rendered as.
fn internal_error() -> (r: ServerFnError)
    ensures
        (r matches ServerFnError::ServerError(m) && m@ == "Internal server error"@),
{
    ServerFnError::ServerError(String::from_str("Internal server error"))
}

/// The store can still mint fresh ids in every table.
pub open spec fn id_headroom(s: DbState) -> bool {
    &&& s.next_account_id < i64::MAX as int
    &&& s.next_session_id < i64::MAX as int
    &&& s.next_post_id < i64::MAX as int
    &&& s.next_like_id < i64::MAX as int
    &&& s.next_comment_id < i64::MAX as int
}

/// The verdicts handed back when the handle itself passed every local rule
/// but the store reported it unavailable.
pub open spec fn name_unavailable_verdict() -> SignupName {
    SignupName {
        is_alphanumeric: SignupNameState::Valid,
        less_than_max_len: SignupNameState::Valid,
        greater_than_min_len: SignupNameState::Valid,
        is_available: SignupNameState::Invalid,
    }
}

/// Sign a new account up under credentials already minted: validate the
/// handle locally, insert the account, open its first session, and bind
/// the session token into a set-cookie directive. Exact in every case:
/// an invalid handle reports its failed rules; a taken handle or login
/// code reports unavailability; only a session-token collision surfaces on
/// the error channel, leaving the account created but the caller logged
/// out.
pub fn signup_with_credentials(
    db: &mut Database,
    name: String,
    login_code: String,
    identifier: String,
    now: i64,
    debug: bool,
) -> (r: (Result<Result<Account, SignupName>, ServerFnError>, Option<String>))
    requires
        old(db).wf(),
        old(db).migrated(),
        id_headroom(old(db)@),
    ensures
        final (db).wf(),
        final (db).migrated(),
        !valid_name(name@) ==> (final (db)@ == old(db)@ && (r.1 is None) && (r.0 matches Ok(inner)
            && (inner matches Err(sn) && sn.is_available == SignupNameState::Initial && !(
        sn.is_alphanumeric == SignupNameState::Valid && sn.less_than_max_len
            == SignupNameState::Valid && sn.greater_than_min_len == SignupNameState::Valid)))),
        (valid_name(name@) && (name_taken(old(db)@, name@) || login_code_taken(
            old(db)@,
            login_code@,
        ))) ==> (final (db)@ == old(db)@ && (r.1 is None) && r.0 == Ok::<
            Result<Account, SignupName>,
            ServerFnError,
        >(Err(name_unavailable_verdict()))),
        (valid_name(name@) && !name_taken(old(db)@, name@) && !login_code_taken(
            old(db)@,
            login_code@,
        ) && identifier_taken(old(db)@, identifier@)) ==> (final (db)@ == insert_account_tr(
            old(db)@,
            name@,
            login_code@,
            now as int,
        ) && (r.1 is None) && (r.0 matches Err(e) && e matches ServerFnError::ServerError(m)
            && m@ == "Internal server error"@)),
        (valid_name(name@) && !name_taken(old(db)@, name@) && !login_code_taken(
            old(db)@,
            login_code@,
        ) && !identifier_taken(old(db)@, identifier@)) ==> (final (db)@ == insert_session_tr(
            insert_account_tr(old(db)@, name@, login_code@, now as int),
            identifier@,
            old(db)@.next_account_id,
            now as int,
        ) && (r.0 matches Ok(inner) && inner matches Ok(a) && a@ == (AccountRec {
            id: old(db)@.next_account_id,
            name: name@,
            login_code: login_code@,
            updated_at: now as int,
            created_at: now as int,
        })) && (r.1 matches Some(c) && c@ == spec_set_cookie(identifier@, debug))),
{
    let mut signup_name = validate_name(&name);
    proof {
        crate::signup::lemma_valid_name_flags(name@);
    }
    if !signup_name.is_valid() {
        return (Ok(Err(signup_name)), None);
    }
    let account = match db.insert_account_with_code(name, login_code, now) {
        Ok(a) => a,
        Err(_) => {
            signup_name.is_available = SignupNameState::Invalid;
            return (Ok(Err(signup_name)), None);
        },
    };
    proof {
        assert(db@.accounts.last().id == account@.id);
        assert(has_account_id(db@, account@.id));
    }
    let session = match db.insert_session_with_identifier(identifier, account.id, now) {
        Ok(s) => s,
        Err(_) => {
            return (Err(internal_error()), None);
        },
    };
    let cookie = set_cookie(session, debug);
    (Ok(Ok(account)), Some(cookie))
}

/// Sign a new account up: mint a fresh random login code and session
/// token, then proceed as [`signup_with_credentials`]. The mints are
/// random, so a taken-handle verdict can, with negligible probability,
/// also mean a collided login code; the state changes only as signup
/// prescribes, whatever was minted.
pub fn signup(db: &mut Database, name: String, now: i64, debug: bool) -> (r: (Result<
    Result<Account, SignupName>,
    ServerFnError,
>, Option<String>))
    requires
        old(db).wf(),
        old(db).migrated(),
        id_headroom(old(db)@),
    ensures
        final (db).wf(),
        final (db).migrated(),
        !valid_name(name@) ==> (final (db)@ == old(db)@ && (r.1 is None) && (r.0 matches Ok(inner)
            && (inner is Err))),
        (valid_name(name@) && name_taken(old(db)@, name@)) ==> (final (db)@ == old(db)@ && (r.1
            is None) && r.0 == Ok::<Result<Account, SignupName>, ServerFnError>(
            Err(name_unavailable_verdict()),
        )),
        r.0 matches Ok(inner) ==> (inner matches Ok(a) ==> (valid_name(name@) && !name_taken(
            old(db)@,
            name@,
        ) && a@.name == name@ && a@.id == old(db)@.next_account_id && final (db)@
            == insert_session_tr(
            insert_account_tr(old(db)@, name@, a@.login_code, now as int),
            final (db)@.sessions.last().identifier,
            old(db)@.next_account_id,
            now as int,
        ) && (r.1 is Some))),
        (r.0 is Err) ==> (valid_name(name@) && !name_taken(old(db)@, name@) && (r.1 is None) && (
        exists|code: Seq<char>|
            final (db)@ == insert_account_tr(old(db)@, name@, code, now as int))),
{
    let login_code = crate::external::mint_token();
    let identifier = crate::external::mint_token();
    signup_with_credentials(db, name, login_code, identifier, now, debug)
}

/// Log in under a minted session token: resolve the login code, open a
/// session under the given token, bind it into a set-cookie directive, and
/// hand back the account with its feed. An unknown code is a business
/// outcome, not an error; only a session-token collision surfaces on the
/// error channel.
pub fn login_with_identifier(
    db: &mut Database,
    login_code: String,
    identifier: String,
    now: i64,
    debug: bool,
) -> (r: (Result<Option<(Account, Vec<Post>)>, ServerFnError>, Option<String>))
    requires
        old(db).wf(),
        old(db).migrated(),
        id_headroom(old(db)@),
    ensures
        final (db).wf(),
        final (db).migrated(),
        !login_code_taken(old(db)@, login_code@) ==> (final (db)@ == old(db)@ && (r.1 is None)
            && (r.0 matches Ok(inner) && inner is None)),
        (login_code_taken(old(db)@, login_code@) && identifier_taken(old(db)@, identifier@)) ==> (
        final (db)@ == old(db)@ && (r.1 is None) && (r.0 is Err)),
        (login_code_taken(old(db)@, login_code@) && !identifier_taken(old(db)@, identifier@))
            ==> (r.0 matches Ok(inner) && inner matches Some(ap) && old(db)@.accounts.contains(
            ap.0@,
        ) && ap.0@.login_code == login_code@ && final (db)@ == insert_session_tr(
            old(db)@,
            identifier@,
            ap.0@.id,
            now as int,
        ) && is_feed_of(final (db)@, ap.0@.id, posts_of(ap.1@)) && (r.1 matches Some(c) && c@
            == spec_set_cookie(identifier@, debug))),
        (r.0 matches Ok(inner) && inner is None) ==> !login_code_taken(old(db)@, login_code@),
{
    let account = match db.account_by_login_code(login_code) {
        Ok(a) => a,
        Err(_) => {
            return (Ok(None), None);
        },
    };
    proof {
        let k = choose|k: int|
            0 <= k < db@.accounts.len() && db@.accounts[k] == account@;
        assert(has_account_id(db@, account@.id));
    }
    let session = match db.insert_session_with_identifier(identifier, account.id, now) {
        Ok(s) => s,
        Err(_) => {
            return (Err(internal_error()), None);
        },
    };
    let cookie = set_cookie(session, debug);
    let posts = match db.posts(Some(&account)) {
        Ok(p) => p,
        Err(_) => {
            return (Err(internal_error()), None);
        },
    };
    (Ok(Some((account, posts))), Some(cookie))
}

/// Log in: mint a fresh random session token, then proceed as
/// [`login_with_identifier`].
pub fn login(db: &mut Database, login_code: String, now: i64, debug: bool) -> (r: (Result<
    Option<(Account, Vec<Post>)>,
    ServerFnError,
>, Option<String>))
    requires
        old(db).wf(),
        old(db).migrated(),
        id_headroom(old(db)@),
    ensures
        final (db).wf(),
        final (db).migrated(),
        !login_code_taken(old(db)@, login_code@) ==> (final (db)@ == old(db)@ && (r.1 is None)
            && (r.0 matches Ok(inner) && inner is None)),
        r.0 matches Ok(inner) ==> (inner matches Some(ap) ==> (login_code_taken(
            old(db)@,
            login_code@,
        ) && old(db)@.accounts.contains(ap.0@) && ap.0@.login_code == login_code@ && final (db)@
            == insert_session_tr(
            old(db)@,
            final (db)@.sessions.last().identifier,
            ap.0@.id,
            now as int,
        ) && is_feed_of(final (db)@, ap.0@.id, posts_of(ap.1@)) && (r.1 is Some))),
        (r.0 is Err) ==> final (db)@ == old(db)@,
        (r.0 matches Ok(inner) && inner is None) ==> !login_code_taken(old(db)@, login_code@),
{
    let identifier = crate::external::mint_token();
    login_with_identifier(db, login_code, identifier, now, debug)
}

/// Log the resolved session out by deleting it. An anonymous request is a
/// no-op; a session deleted concurrently surfaces on the error channel, as
/// the store reports the row missing.
pub fn logout(db: &mut Database, ctx: &Context) -> (r: Result<(), ServerFnError>)
    requires
        old(db).wf(),
        old(db).migrated(),
    ensures
        final (db).wf(),
        final (db).migrated(),
        (ctx.session is None) ==> (final (db)@ == old(db)@ && (r is Ok)),
        ctx.session matches Some(s) ==> {
            &&& identifier_taken(old(db)@, s@.identifier) ==> (final (db)@ == delete_session_tr(
                old(db)@,
                s@.identifier,
            ) && (r is Ok))
            &&& !identifier_taken(old(db)@, s@.identifier) ==> (final (db)@ == old(db)@ && (r
                is Err))
        },
{
    match &ctx.session {
        None => Ok(()),
        Some(s) => match db.delete_session_by_identifier(s.identifier.as_str()) {
            Ok(_) => Ok(()),
            Err(_) => Err(internal_error()),
        },
    }
}

/// Delete the resolved session's account: the session goes first, then the
/// account with everything it owns, cascading. Both deletions are
/// best-effort — a row already gone is ignored — and an anonymous request
/// is a no-op.
pub fn delete_account(db: &mut Database, ctx: &Context) -> (r: Result<(), ServerFnError>)
    requires
        old(db).wf(),
        old(db).migrated(),
    ensures
        final (db).wf(),
        final (db).migrated(),
        (r is Ok),
        (ctx.session is None) ==> final (db)@ == old(db)@,
        ctx.session matches Some(s) ==> final (db)@ == delete_account_tr(
            delete_session_tr(old(db)@, s@.identifier),
            s@.account_id as int,
        ),
{
    match &ctx.session {
        None => Ok(()),
        Some(s) => {
            let ghost pre = db@;
            let _ = db.delete_session_by_identifier(s.identifier.as_str());
            proof {
                if !identifier_taken(pre, s@.identifier) {
                    crate::store::lemma_delete_session_absent(pre, s@.identifier);
                }
                assert(db@ == delete_session_tr(pre, s@.identifier));
            }
            let ghost mid = db@;
            let _ = db.delete_account_by_id(s.account_id);
            proof {
                if !has_account_id(mid, s@.account_id as int) {
                    crate::store::lemma_delete_account_absent(mid, s@.account_id as int);
                }
                assert(db@ == delete_account_tr(mid, s@.account_id as int));
            }
            Ok(())
        },
    }
}

/// Like a post as the resolved account. An anonymous request, a missing
/// post, or a like already stored all report no like — the stored state
/// never double-counts a pair.
pub fn like_post(db: &mut Database, ctx: &Context, post_id: i64, now: i64) -> (r: Result<
    Option<Like>,
    ServerFnError,
>)
    requires
        old(db).wf(),
        old(db).migrated(),
        id_headroom(old(db)@),
    ensures
        final (db).wf(),
        final (db).migrated(),
        (r is Ok),
        match ctx.session {
            None => final (db)@ == old(db)@ && r == Ok::<Option<Like>, ServerFnError>(None),
            Some(s) => {
                let aid = s@.account_id;
                &&& !has_account_id(old(db)@, aid) ==> (final (db)@ == old(db)@ && r == Ok::<
                    Option<Like>,
                    ServerFnError,
                >(None))
                &&& (has_account_id(old(db)@, aid) && has_post_id(old(db)@, post_id as int)
                    && !has_like(old(db)@, aid, post_id as int)) ==> (final (db)@
                    == insert_like_tr(old(db)@, aid, post_id as int, now as int) && (
                r matches Ok(inner) && inner matches Some(l) && l@ == (LikeRec {
                    id: old(db)@.next_like_id,
                    account_id: aid,
                    post_id: post_id as int,
                    updated_at: now as int,
                    created_at: now as int,
                })))
                &&& (has_account_id(old(db)@, aid) && !(has_post_id(old(db)@, post_id as int)
                    && !has_like(old(db)@, aid, post_id as int))) ==> (final (db)@ == old(db)@
                    && r == Ok::<Option<Like>, ServerFnError>(None))
            },
        },
{
    let account = match get_account(db, ctx) {
        Some(a) => a,
        None => {
            return Ok(None);
        },
    };
    proof {
        let k = choose|k: int|
            0 <= k < db@.accounts.len() && db@.accounts[k] == account@;
        assert(has_account_id(db@, account@.id));
    }
    match db.insert_like(account.id, post_id, now) {
        Ok(like) => Ok(Some(like)),
        Err(_) => Ok(None),
    }
}

/// Withdraw the resolved account's like of a post. An anonymous request
/// reports `false`; otherwise the pair is deleted — whether or not it was
/// stored — and `true` reported, mirroring an unconditional delete.
pub fn dislike_post(db: &mut Database, ctx: &Context, post_id: i64) -> (r: Result<
    bool,
    ServerFnError,
>)
    requires
        old(db).wf(),
        old(db).migrated(),
    ensures
        final (db).wf(),
        final (db).migrated(),
        (r is Ok),
        match ctx.session {
            None => final (db)@ == old(db)@ && r == Ok::<bool, ServerFnError>(false),
            Some(s) => {
                let aid = s@.account_id;
                &&& !has_account_id(old(db)@, aid) ==> (final (db)@ == old(db)@ && r == Ok::<
                    bool,
                    ServerFnError,
                >(false))
                &&& has_account_id(old(db)@, aid) ==> (final (db)@ == delete_like_tr(
                    old(db)@,
                    aid,
                    post_id as int,
                ) && r == Ok::<bool, ServerFnError>(true))
            },
        },
{
    let account = match get_account(db, ctx) {
        Some(a) => a,
        None => {
            return Ok(false);
        },
    };
    match db.delete_like(account.id, post_id) {
        Ok(b) => Ok(b),
        Err(_) => Ok(true),
    }
}

/// Create a post as the resolved account and hand it back annotated. An
/// anonymous request creates nothing.
pub fn add_post(db: &mut Database, ctx: &Context, body: String, now: i64) -> (r: Result<
    Option<Post>,
    ServerFnError,
>)
    requires
        old(db).wf(),
        old(db).migrated(),
        id_headroom(old(db)@),
    ensures
        final (db).wf(),
        final (db).migrated(),
        (r is Ok),
        match ctx.session {
            None => final (db)@ == old(db)@ && (r matches Ok(inner) && inner is None),
            Some(s) => {
                let aid = s@.account_id;
                &&& !has_account_id(old(db)@, aid) ==> (final (db)@ == old(db)@ && (r matches Ok(
                    inner,
                ) && inner is None))
                &&& has_account_id(old(db)@, aid) ==> (final (db)@ == insert_post_tr(
                    old(db)@,
                    body@,
                    aid,
                    now as int,
                ) && (r matches Ok(inner) && inner matches Some(p) && p@.id
                    == old(db)@.next_post_id && p@.body == body@ && p@.account_id == aid
                    && p@.like_count == Some(0int) && p@.liked_by_current_account == None::<int>
                    && p@.comment_count == 0 && p@.created_at == now as int))
            },
        },
{
    let account = match get_account(db, ctx) {
        Some(a) => a,
        None => {
            return Ok(None);
        },
    };
    match db.insert_post(body, account, now) {
        Ok(post) => Ok(Some(post)),
        Err(_) => Ok(None),
    }
}

/// Comment on a post as the resolved account. An anonymous request creates
/// nothing; a missing post surfaces on the error channel, as the store
/// reports the failed insert.
pub fn leave_comment(db: &mut Database, ctx: &Context, post_id: i64, body: String, now: i64) -> (r:
    Result<Option<Comment>, ServerFnError>)
    requires
        old(db).wf(),
        old(db).migrated(),
        id_headroom(old(db)@),
    ensures
        final (db).wf(),
        final (db).migrated(),
        match ctx.session {
            None => final (db)@ == old(db)@ && (r matches Ok(inner) && inner is None),
            Some(s) => {
                let aid = s@.account_id;
                &&& !has_account_id(old(db)@, aid) ==> (final (db)@ == old(db)@ && (r matches Ok(
                    inner,
                ) && inner is None))
                &&& (has_account_id(old(db)@, aid) && has_post_id(old(db)@, post_id as int)) ==> (
                final (db)@ == insert_comment_tr(
                    old(db)@,
                    post_id as int,
                    aid,
                    body@,
                    now as int,
                ) && (r matches Ok(inner) && inner matches Some(c) && c@.id
                    == old(db)@.next_comment_id && c@.body == body@ && c@.account_id == aid
                    && c@.post_id == post_id as int))
                &&& (has_account_id(old(db)@, aid) && !has_post_id(old(db)@, post_id as int))
                    ==> (final (db)@ == old(db)@ && (r is Err))
            },
        },
{
    let account = match get_account(db, ctx) {
        Some(a) => a,
        None => {
            return Ok(None);
        },
    };
    proof {
        let k = choose|k: int|
            0 <= k < db@.accounts.len() && db@.accounts[k] == account@;
        assert(has_account_id(db@, account@.id));
    }
    match db.insert_comment(post_id, account.id, body, now) {
        Ok(comment) => Ok(Some(comment)),
        Err(_) => Err(internal_error()),
    }
}

/// List a post's comments, oldest first. A pure query: the store is
/// untouched whoever asks.
pub fn comments_by_post_id(db: &Database, post_id: i64) -> (r: Result<Vec<Comment>, ServerFnError>)
    requires
        db.wf(),
        db.migrated(),
    ensures
        r matches Ok(v) ==> is_comments_of(db@, post_id as int, comments_of(v@)),
        (r is Ok),
{
    match db.comments_by_post_id(post_id) {
        Ok(v) => Ok(v),
        Err(_) => Err(internal_error()),
    }
}

} // verus!
