//! The data-access service: the single owner of every persisted state
//! transition of the application.
//!
//! The store keeps each table as a vector of rows ordered by insertion, the
//! way the backing relational store hands rows back when no ordering is
//! requested. Every operation is specified against [`DbState`], the
//! mathematical view of the whole store, and the well-formedness predicate
//! [`Database::wf`] captures the schema's invariants: surrogate keys are
//! unique and ascending, handles, login codes and session identifiers are
//! unique, every child row points at an existing parent, and an account
//! likes a post at most once.
use vstd::prelude::*;

use crate::errors::AppError;
use crate::external::mint_token;
use crate::models::{
    Account, AccountRec, Comment, CommentRec, CommentRow, CommentRowRec, Like, LikeRec, Post,
    PostRec, PostRow, PostRowRec, Session, SessionRec,
};

verus! {

/// Mathematical view of the whole store.
#[verifier::ext_equal]
pub struct DbState {
    pub accounts: Seq<AccountRec>,
    pub sessions: Seq<SessionRec>,
    pub posts: Seq<PostRowRec>,
    pub likes: Seq<LikeRec>,
    pub comments: Seq<CommentRowRec>,
    pub next_account_id: int,
    pub next_session_id: int,
    pub next_post_id: int,
    pub next_like_id: int,
    pub next_comment_id: int,
    pub schema_version: int,
}

/// The in-memory relational store behind the data-access service.
pub struct Database {
    pub accounts: Vec<Account>,
    pub sessions: Vec<Session>,
    pub posts: Vec<PostRow>,
    pub likes: Vec<Like>,
    pub comments: Vec<CommentRow>,
    pub next_account_id: i64,
    pub next_session_id: i64,
    pub next_post_id: i64,
    pub next_like_id: i64,
    pub next_comment_id: i64,
    pub schema_version: i64,
}

impl View for Database {
    type V = DbState;

    open spec fn view(&self) -> DbState {
        DbState {
            accounts: self.accounts@.map_values(|a: Account| a@),
            sessions: self.sessions@.map_values(|s: Session| s@),
            posts: self.posts@.map_values(|p: PostRow| p@),
            likes: self.likes@.map_values(|l: Like| l@),
            comments: self.comments@.map_values(|c: CommentRow| c@),
            next_account_id: self.next_account_id as int,
            next_session_id: self.next_session_id as int,
            next_post_id: self.next_post_id as int,
            next_like_id: self.next_like_id as int,
            next_comment_id: self.next_comment_id as int,
            schema_version: self.schema_version as int,
        }
    }
}

/// Some account row carries this id.
pub open spec fn has_account_id(s: DbState, id: int) -> bool {
    exists|i: int| 0 <= i < s.accounts.len() && (#[trigger] s.accounts[i]).id == id
}

/// Some account row carries this public handle.
pub open spec fn name_taken(s: DbState, name: Seq<char>) -> bool {
    exists|i: int| 0 <= i < s.accounts.len() && (#[trigger] s.accounts[i]).name == name
}

/// Some account row carries this login code.
pub open spec fn login_code_taken(s: DbState, code: Seq<char>) -> bool {
    exists|i: int| 0 <= i < s.accounts.len() && (#[trigger] s.accounts[i]).login_code == code
}

/// Some session row carries this opaque identifier token.
pub open spec fn identifier_taken(s: DbState, identifier: Seq<char>) -> bool {
    exists|i: int| 0 <= i < s.sessions.len() && (#[trigger] s.sessions[i]).identifier
        == identifier
}

/// Some post row carries this id.
pub open spec fn has_post_id(s: DbState, id: int) -> bool {
    exists|i: int| 0 <= i < s.posts.len() && (#[trigger] s.posts[i]).id == id
}

/// Some like row pairs this account with this post.
pub open spec fn has_like(s: DbState, account_id: int, post_id: int) -> bool {
    exists|i: int|
        0 <= i < s.likes.len() && (#[trigger] s.likes[i]).account_id == account_id
            && s.likes[i].post_id == post_id
}

/// Some comment row carries this id.
pub open spec fn has_comment_id(s: DbState, id: int) -> bool {
    exists|i: int| 0 <= i < s.comments.len() && (#[trigger] s.comments[i]).id == id
}

/// The store after a new account row is appended, under the next fresh id.
pub open spec fn insert_account_tr(
    s: DbState,
    name: Seq<char>,
    login_code: Seq<char>,
    now: int,
) -> DbState {
    DbState {
        accounts: s.accounts.push(
            AccountRec {
                id: s.next_account_id,
                name: name,
                login_code: login_code,
                updated_at: now,
                created_at: now,
            },
        ),
        next_account_id: s.next_account_id + 1,
        ..s
    }
}

/// The store after a new session row is appended, under the next fresh id.
pub open spec fn insert_session_tr(
    s: DbState,
    identifier: Seq<char>,
    account_id: int,
    now: int,
) -> DbState {
    DbState {
        sessions: s.sessions.push(
            SessionRec {
                id: s.next_session_id,
                identifier: identifier,
                account_id: account_id,
                updated_at: now,
                created_at: now,
            },
        ),
        next_session_id: s.next_session_id + 1,
        ..s
    }
}

/// The store after the session carrying this identifier is deleted.
pub open spec fn delete_session_tr(s: DbState, identifier: Seq<char>) -> DbState {
    DbState { sessions: s.sessions.filter(|x: SessionRec| x.identifier != identifier), ..s }
}

/// The post with this id, among these rows, is authored by this account.
pub open spec fn owned_in(posts: Seq<PostRowRec>, post_id: int, account_id: int) -> bool {
    exists|i: int|
        0 <= i < posts.len() && (#[trigger] posts[i]).id == post_id && posts[i].account_id
            == account_id
}

/// The store after an account is deleted: its sessions, its posts, its own
/// likes and comments, and every like and comment hanging off one of its
/// posts are deleted with it.
pub open spec fn delete_account_tr(s: DbState, id: int) -> DbState {
    DbState {
        accounts: s.accounts.filter(|a: AccountRec| a.id != id),
        sessions: s.sessions.filter(|x: SessionRec| x.account_id != id),
        posts: s.posts.filter(|p: PostRowRec| p.account_id != id),
        likes: s.likes.filter(
            |l: LikeRec| l.account_id != id && !owned_in(s.posts, l.post_id, id),
        ),
        comments: s.comments.filter(
            |c: CommentRowRec| c.account_id != id && !owned_in(s.posts, c.post_id, id),
        ),
        ..s
    }
}

/// The store after a new post row is appended, under the next fresh id.
pub open spec fn insert_post_tr(s: DbState, body: Seq<char>, account_id: int, now: int) -> DbState {
    DbState {
        posts: s.posts.push(
            PostRowRec {
                id: s.next_post_id,
                body: body,
                account_id: account_id,
                updated_at: now,
                created_at: now,
            },
        ),
        next_post_id: s.next_post_id + 1,
        ..s
    }
}

/// The store after a new like row is appended, under the next fresh id.
pub open spec fn insert_like_tr(s: DbState, account_id: int, post_id: int, now: int) -> DbState {
    DbState {
        likes: s.likes.push(
            LikeRec {
                id: s.next_like_id,
                account_id: account_id,
                post_id: post_id,
                updated_at: now,
                created_at: now,
            },
        ),
        next_like_id: s.next_like_id + 1,
        ..s
    }
}

/// The store after every like pairing this account with this post is
/// deleted.
pub open spec fn delete_like_tr(s: DbState, account_id: int, post_id: int) -> DbState {
    DbState {
        likes: s.likes.filter(
            |l: LikeRec| !(l.account_id == account_id && l.post_id == post_id),
        ),
        ..s
    }
}

/// The store after a new comment row is appended, under the next fresh id.
pub open spec fn insert_comment_tr(
    s: DbState,
    post_id: int,
    account_id: int,
    body: Seq<char>,
    now: int,
) -> DbState {
    DbState {
        comments: s.comments.push(
            CommentRowRec {
                id: s.next_comment_id,
                account_id: account_id,
                post_id: post_id,
                body: body,
                updated_at: now,
                created_at: now,
            },
        ),
        next_comment_id: s.next_comment_id + 1,
        ..s
    }
}

/// One unfolding step of `filter` over `push`.
pub(crate) proof fn lemma_filter_push<A>(s: Seq<A>, x: A, pred: spec_fn(A) -> bool)
    ensures
        s.push(x).filter(pred) == (if pred(x) {
            s.filter(pred).push(x)
        } else {
            s.filter(pred)
        }),
{
    reveal(Seq::filter);
    assert(s.push(x).drop_last() =~= s);
    assert(s.push(x).last() == x);
}

/// Every element of a filtered sequence is an element of the original.
pub(crate) proof fn lemma_filter_elems<A>(s: Seq<A>, pred: spec_fn(A) -> bool)
    ensures
        forall|i: int|
            0 <= i < s.filter(pred).len() ==> s.contains(#[trigger] s.filter(pred)[i]),
    decreases s.len(),
{
    reveal(Seq::filter);
    if s.len() > 0 {
        lemma_filter_elems(s.drop_last(), pred);
        let sub = s.drop_last().filter(pred);
        let out = s.filter(pred);
        assert forall|i: int| 0 <= i < out.len() implies s.contains(out[i]) by {
            if i < sub.len() {
                assert(s.drop_last().contains(sub[i]));
                let k = choose|k: int|
                    0 <= k < s.drop_last().len() && s.drop_last()[k] == sub[i];
                assert(s[k] == out[i]);
            } else {
                assert(out[i] == s.last());
                assert(s[s.len() - 1] == s.last());
            }
        }
    }
}

/// In a strictly ascending sequence of keys all at least one, the key at
/// each index is past the index.
proof fn lemma_ascending_min<A>(s: Seq<A>, key: spec_fn(A) -> int)
    requires
        forall|i: int, j: int| 0 <= i < j < s.len() ==> key(#[trigger] s[i]) < key(
            #[trigger] s[j]),
        forall|i: int| 0 <= i < s.len() ==> key(#[trigger] s[i]) >= 1,
    ensures
        forall|i: int| 0 <= i < s.len() ==> key(#[trigger] s[i]) >= i + 1,
    decreases s.len(),
{
    if s.len() > 0 {
        let head = s.drop_last();
        assert(forall|i: int, j: int|
            0 <= i < j < head.len() ==> key(#[trigger] head[i]) < key(#[trigger] head[j]));
        assert(forall|i: int| 0 <= i < head.len() ==> key(#[trigger] head[i]) >= 1);
        lemma_ascending_min(head, key);
        assert forall|i: int| 0 <= i < s.len() implies key(s[i]) >= i + 1 by {
            if i < s.len() - 1 {
                assert(head[i] == s[i]);
            } else if s.len() >= 2 {
                assert(head[s.len() - 2] == s[s.len() - 2]);
                assert(key(head[s.len() - 2]) >= s.len() - 1);
                assert(key(s[s.len() - 1]) > key(s[s.len() - 2]));
            }
        }
    }
}

/// Each table is shorter than its id counter: ids are strictly ascending,
/// at least one, and below the counter.
proof fn lemma_len_bounds(s: DbState)
    requires
        Database::wf_state(s),
    ensures
        s.accounts.len() < s.next_account_id,
        s.sessions.len() < s.next_session_id,
        s.posts.len() < s.next_post_id,
        s.likes.len() < s.next_like_id,
        s.comments.len() < s.next_comment_id,
{
    lemma_ascending_min::<AccountRec>(s.accounts, |a: AccountRec| a.id);
    lemma_ascending_min::<SessionRec>(s.sessions, |x: SessionRec| x.id);
    lemma_ascending_min::<PostRowRec>(s.posts, |p: PostRowRec| p.id);
    lemma_ascending_min::<LikeRec>(s.likes, |l: LikeRec| l.id);
    lemma_ascending_min::<CommentRowRec>(s.comments, |c: CommentRowRec| c.id);
    if s.accounts.len() > 0 {
        assert((|a: AccountRec| a.id)(s.accounts[s.accounts.len() - 1]) >= s.accounts.len());
    }
    if s.sessions.len() > 0 {
        assert((|x: SessionRec| x.id)(s.sessions[s.sessions.len() - 1]) >= s.sessions.len());
    }
    if s.posts.len() > 0 {
        assert((|p: PostRowRec| p.id)(s.posts[s.posts.len() - 1]) >= s.posts.len());
    }
    if s.likes.len() > 0 {
        assert((|l: LikeRec| l.id)(s.likes[s.likes.len() - 1]) >= s.likes.len());
    }
    if s.comments.len() > 0 {
        assert((|c: CommentRowRec| c.id)(s.comments[s.comments.len() - 1]) >= s.comments.len());
    }
}

/// Under unique account ids, the account found by id is exactly the stored
/// row carrying that id.
proof fn lemma_find_account(accounts: Seq<AccountRec>, id: int)
    requires
        forall|i: int, j: int|
            0 <= i < j < accounts.len() ==> (#[trigger] accounts[i]).id != (
            #[trigger] accounts[j]).id,
    ensures
        match find_account(accounts, id) {
            Some(a) => accounts.contains(a) && a.id == id,
            None => forall|i: int| 0 <= i < accounts.len() ==> (#[trigger] accounts[i]).id != id,
        },
        forall|i: int|
            0 <= i < accounts.len() && (#[trigger] accounts[i]).id == id ==> find_account(
                accounts,
                id,
            ) == Some(accounts[i]),
    decreases accounts.len(),
{
    if accounts.len() > 0 && accounts[0].id != id {
        let tail = accounts.drop_first();
        assert(forall|i: int, j: int|
            0 <= i < j < tail.len() ==> (#[trigger] tail[i]).id != (#[trigger] tail[j]).id);
        lemma_find_account(tail, id);
        match find_account(tail, id) {
            Some(a) => {
                let k = choose|k: int| 0 <= k < tail.len() && tail[k] == a;
                assert(accounts[k + 1] == a);
            },
            None => {},
        }
        assert forall|i: int|
            0 <= i < accounts.len() && (#[trigger] accounts[i]).id == id implies find_account(
            accounts,
            id,
        ) == Some(accounts[i]) by {
            assert(tail[i - 1] == accounts[i]);
        }
    }
}

/// A filter whose predicate holds of every element keeps the sequence.
pub(crate) proof fn lemma_filter_all<A>(s: Seq<A>, pred: spec_fn(A) -> bool)
    requires
        forall|i: int| 0 <= i < s.len() ==> pred(#[trigger] s[i]),
    ensures
        s.filter(pred) == s,
    decreases s.len(),
{
    reveal(Seq::filter);
    if s.len() > 0 {
        let head = s.drop_last();
        lemma_filter_all(head, pred);
        assert(head.filter(pred).push(s.last()) =~= s);
    }
}

/// Filtering keeps any relation that held of every index-ordered pair.
pub(crate) proof fn lemma_filter_pairwise<A>(s: Seq<A>, pred: spec_fn(A) -> bool, r: spec_fn(A, A) -> bool)
    requires
        forall|i: int, j: int| 0 <= i < j < s.len() ==> r(#[trigger] s[i], #[trigger] s[j]),
    ensures
        forall|i: int, j: int|
            0 <= i < j < s.filter(pred).len() ==> r(
                #[trigger] s.filter(pred)[i],
                #[trigger] s.filter(pred)[j],
            ),
    decreases s.len(),
{
    reveal(Seq::filter);
    if s.len() > 0 {
        let head = s.drop_last();
        assert(forall|i: int, j: int|
            0 <= i < j < head.len() ==> r(#[trigger] head[i], #[trigger] head[j]));
        lemma_filter_pairwise(head, pred, r);
        lemma_filter_elems(head, pred);
        let sub = head.filter(pred);
        let out = s.filter(pred);
        assert forall|i: int, j: int| 0 <= i < j < out.len() implies r(out[i], out[j]) by {
            if j < sub.len() {
                assert(r(sub[i], sub[j]));
            } else {
                assert(out[j] == s.last());
                assert(head.contains(sub[i]));
                let k = choose|k: int| 0 <= k < head.len() && head[k] == sub[i];
                assert(r(s[k], s[s.len() - 1]));
            }
        }
    }
}

/// The first account row carrying this id, if any.
pub open spec fn find_account(accounts: Seq<AccountRec>, id: int) -> Option<AccountRec>
    decreases accounts.len(),
{
    if accounts.len() == 0 {
        None
    } else if accounts[0].id == id {
        Some(accounts[0])
    } else {
        find_account(accounts.drop_first(), id)
    }
}

/// The public handle of the account carrying this id; empty when there is
/// none.
pub open spec fn author_name(s: DbState, account_id: int) -> Seq<char> {
    match find_account(s.accounts, account_id) {
        Some(a) => a.name,
        None => Seq::empty(),
    }
}

/// A post row as reported to a viewer: joined with the author's handle, the
/// aggregate like count (zero when no row likes it, never absent), the
/// viewer's own like if any, and the aggregate comment count. An anonymous
/// viewer is passed as an id that no account carries, so the like marker
/// stays absent.
pub open spec fn annotate_post(s: DbState, viewer: int, p: PostRowRec) -> PostRec {
    PostRec {
        id: p.id,
        body: p.body,
        account_id: p.account_id,
        account_name: author_name(s, p.account_id),
        like_count: Some(like_count_of(s, p.id)),
        liked_by_current_account: if has_like(s, viewer, p.id) {
            Some(viewer)
        } else {
            None
        },
        updated_at: p.updated_at,
        created_at: p.created_at,
        comment_count: comment_count_of(s, p.id),
    }
}

/// The stored rows behind a vector of post rows.
pub open spec fn rows_of(v: Seq<PostRow>) -> Seq<PostRowRec> {
    v.map_values(|p: PostRow| p@)
}

/// The records behind a vector of annotated posts.
pub open spec fn posts_of(v: Seq<Post>) -> Seq<PostRec> {
    v.map_values(|p: Post| p@)
}

/// Strict feed order on stored rows: the newer post first, a timestamp tie
/// broken toward the earlier row.
pub open spec fn row_before(a: PostRowRec, b: PostRowRec) -> bool {
    a.created_at > b.created_at || (a.created_at == b.created_at && a.id < b.id)
}

/// The feed order read off two annotated posts.
pub open spec fn post_before(a: PostRec, b: PostRec) -> bool {
    a.created_at > b.created_at || (a.created_at == b.created_at && a.id < b.id)
}

/// The feed order between an annotated post and a stored row.
pub open spec fn post_before_row(a: PostRec, b: PostRowRec) -> bool {
    a.created_at > b.created_at || (a.created_at == b.created_at && a.id < b.id)
}

/// Some feed entry reports this post id.
/// Some feed entry reports this post id.
pub open spec fn feed_has_id(feed: Seq<PostRec>, id: int) -> bool {
    exists|i: int| 0 <= i < feed.len() && (#[trigger] feed[i]).id == id
}

/// `r` is one of the stored post rows of `s`.
pub open spec fn row_in_posts(s: DbState, r: PostRowRec) -> bool {
    exists|k: int| 0 <= k < s.posts.len() && (#[trigger] s.posts[k]) == r
}

/// `r` is one of the rows of `rem`.
pub open spec fn row_among(rem: Seq<PostRowRec>, r: PostRowRec) -> bool {
    exists|j: int| 0 <= j < rem.len() && (#[trigger] rem[j]) == r
}

/// `p` is the annotation, for `viewer`, of one of the stored post rows.
pub open spec fn is_annotation(s: DbState, viewer: int, p: PostRec) -> bool {
    exists|k: int| 0 <= k < s.posts.len() && p == annotate_post(s, viewer, #[trigger] s.posts[k])
}

/// `feed` is the feed of `s` for `viewer`: at most thirty entries, and all
/// stored posts when at most thirty are stored; each entry the viewer's
/// annotation of some stored post; strictly ordered newest first, a
/// timestamp tie broken toward the earlier row; and every stored post left
/// out comes after every entry reported.
pub open spec fn is_feed_of(s: DbState, viewer: int, feed: Seq<PostRec>) -> bool {
    &&& feed.len() as int == (if s.posts.len() <= 30 {
        s.posts.len() as int
    } else {
        30
    })
    &&& forall|i: int| 0 <= i < feed.len() ==> is_annotation(s, viewer, #[trigger] feed[i])
    &&& forall|i: int, j: int|
        0 <= i < j < feed.len() ==> post_before(#[trigger] feed[i], #[trigger] feed[j])
    &&& forall|k: int, i: int|
        0 <= k < s.posts.len() && !feed_has_id(feed, (#[trigger] s.posts[k]).id) && 0 <= i
            < feed.len() ==> post_before_row(#[trigger] feed[i], s.posts[k])
}

/// Invariant of the feed selection: `res` holds the entries picked so far,
/// `rem` the stored rows still in play. Together they cover every stored
/// post exactly once, `res` is strictly ordered, and everything picked
/// comes before everything still in play.
spec fn feed_inv(s: DbState, viewer: int, res: Seq<PostRec>, rem: Seq<PostRowRec>) -> bool {
    &&& res.len() + rem.len() == s.posts.len()
    &&& forall|j: int| 0 <= j < rem.len() ==> row_in_posts(s, #[trigger] rem[j])
    &&& forall|i: int, j: int|
        0 <= i < j < rem.len() ==> (#[trigger] rem[i]).id != (#[trigger] rem[j]).id
    &&& forall|k: int|
        0 <= k < s.posts.len() ==> (feed_has_id(res, (#[trigger] s.posts[k]).id) || row_among(
            rem,
            s.posts[k],
        ))
    &&& forall|i: int| 0 <= i < res.len() ==> is_annotation(s, viewer, #[trigger] res[i])
    &&& forall|i: int, j: int|
        0 <= i < j < res.len() ==> post_before(#[trigger] res[i], #[trigger] res[j])
    &&& forall|i: int, j: int|
        0 <= i < res.len() && 0 <= j < rem.len() ==> post_before_row(
            #[trigger] res[i],
            #[trigger] rem[j],
        )
}

/// The feed selection starts sound: nothing picked, every stored row in
/// play.
proof fn lemma_feed_init(s: DbState, viewer: int)
    requires
        Database::wf_state(s),
    ensures
        feed_inv(s, viewer, Seq::empty(), s.posts),
{
    assert forall|i: int, j: int|
        0 <= i < j < s.posts.len() implies (#[trigger] s.posts[i]).id != (
    #[trigger] s.posts[j]).id by {
        assert(s.posts[i].id < s.posts[j].id);
    }
    assert forall|j: int| 0 <= j < s.posts.len() implies row_in_posts(
        s,
        #[trigger] s.posts[j],
    ) by {
        assert(0 <= j < s.posts.len() && s.posts[j] == s.posts[j]);
    }
    assert forall|k: int| 0 <= k < s.posts.len() implies row_among(
        s.posts,
        #[trigger] s.posts[k],
    ) by {
        assert(0 <= k < s.posts.len() && s.posts[k] == s.posts[k]);
    }
}

/// One selection step keeps the invariant: the row taken is before every
/// row still in play, so its annotation extends the ordered prefix.
#[verifier::rlimit(100)]
proof fn lemma_feed_step(
    s: DbState,
    viewer: int,
    res: Seq<PostRec>,
    rem: Seq<PostRowRec>,
    idx: int,
    p: PostRec,
)
    requires
        feed_inv(s, viewer, res, rem),
        0 <= idx < rem.len(),
        forall|t: int|
            0 <= t < rem.len() && t != idx ==> row_before(rem[idx], #[trigger] rem[t]),
        p == annotate_post(s, viewer, rem[idx]),
    ensures
        feed_inv(s, viewer, res.push(p), rem.remove(idx)),
{
    rem.remove_ensures(idx);
    let res2 = res.push(p);
    let rem2 = rem.remove(idx);
    assert(p.id == rem[idx].id && p.created_at == rem[idx].created_at);
    assert forall|j2: int| 0 <= j2 < rem2.len() implies row_in_posts(
        s,
        #[trigger] rem2[j2],
    ) by {
        if j2 < idx {
            assert(rem2[j2] == rem[j2]);
        } else {
            assert(rem2[j2] == rem[j2 + 1]);
        }
    }
    assert forall|i2: int, j2: int|
        0 <= i2 < j2 < rem2.len() implies (#[trigger] rem2[i2]).id != (#[trigger] rem2[j2]).id by {
        let oi = if i2 < idx {
            i2
        } else {
            i2 + 1
        };
        let oj = if j2 < idx {
            j2
        } else {
            j2 + 1
        };
        assert(rem2[i2] == rem[oi]);
        assert(rem2[j2] == rem[oj]);
    }
    assert forall|k: int|
        0 <= k < s.posts.len() implies (feed_has_id(res2, (#[trigger] s.posts[k]).id)
        || row_among(rem2, s.posts[k])) by {
        if feed_has_id(res, s.posts[k].id) {
            let i2 = choose|i2: int|
                0 <= i2 < res.len() && (#[trigger] res[i2]).id == s.posts[k].id;
            assert(res2[i2].id == s.posts[k].id);
            assert(feed_has_id(res2, s.posts[k].id));
        } else if row_among(rem, s.posts[k]) {
            let j2 = choose|j2: int| 0 <= j2 < rem.len() && (#[trigger] rem[j2]) == s.posts[k];
            if j2 == idx {
                assert(res2[res2.len() - 1].id == s.posts[k].id);
                assert(feed_has_id(res2, s.posts[k].id));
            } else {
                let nj = if j2 < idx {
                    j2
                } else {
                    j2 - 1
                };
                assert(rem2[nj] == rem[j2]);
                assert(row_among(rem2, s.posts[k]));
            }
        }
    }
    assert forall|i2: int| 0 <= i2 < res2.len() implies is_annotation(
        s,
        viewer,
        #[trigger] res2[i2],
    ) by {
        if i2 < res.len() {
            assert(res2[i2] == res[i2]);
            assert(is_annotation(s, viewer, res[i2]));
        } else {
            assert(row_in_posts(s, rem[idx]));
            let k = choose|k: int|
                0 <= k < s.posts.len() && (#[trigger] s.posts[k]) == rem[idx];
            assert(res2[i2] == annotate_post(s, viewer, s.posts[k]));
        }
    }
    assert forall|i2: int, j2: int|
        0 <= i2 < j2 < res2.len() implies post_before(
        #[trigger] res2[i2],
        #[trigger] res2[j2],
    ) by {
        if j2 < res.len() {
            assert(res2[i2] == res[i2] && res2[j2] == res[j2]);
        } else {
            assert(res2[i2] == res[i2]);
            assert(post_before_row(res[i2], rem[idx]));
        }
    }
    assert forall|i2: int, j2: int|
        0 <= i2 < res2.len() && 0 <= j2 < rem2.len() implies post_before_row(
        #[trigger] res2[i2],
        #[trigger] rem2[j2],
    ) by {
        let oj = if j2 < idx {
            j2
        } else {
            j2 + 1
        };
        assert(rem2[j2] == rem[oj]);
        if i2 < res.len() {
            assert(post_before_row(res[i2], rem[oj]));
        } else {
            assert(res2[i2] == p);
            assert(row_before(rem[idx], rem[oj]));
        }
    }
}

/// When the selection stops — thirty entries picked, or none left in play
/// — what was picked is the feed.
#[verifier::rlimit(100)]
proof fn lemma_feed_done(s: DbState, viewer: int, res: Seq<PostRec>, rem: Seq<PostRowRec>)
    requires
        feed_inv(s, viewer, res, rem),
        res.len() <= 30,
        rem.len() == 0 || res.len() == 30,
    ensures
        is_feed_of(s, viewer, res),
{
    assert(res.len() as int == (if s.posts.len() <= 30 {
        s.posts.len() as int
    } else {
        30
    }));
    assert forall|k: int, i: int|
        0 <= k < s.posts.len() && !feed_has_id(res, (#[trigger] s.posts[k]).id) && 0 <= i
            < res.len() implies post_before_row(#[trigger] res[i], s.posts[k]) by {
        assert(feed_has_id(res, s.posts[k].id) || row_among(rem, s.posts[k]));
        let j = choose|j: int| 0 <= j < rem.len() && (#[trigger] rem[j]) == s.posts[k];
        assert(post_before_row(res[i], rem[j]));
    }
}

/// The stored rows behind a vector of comment rows.
pub open spec fn comment_rows_of(v: Seq<CommentRow>) -> Seq<CommentRowRec> {
    v.map_values(|c: CommentRow| c@)
}

/// The records behind a vector of annotated comments.
pub open spec fn comments_of(v: Seq<Comment>) -> Seq<CommentRec> {
    v.map_values(|c: Comment| c@)
}

/// A comment row as reported: joined with its author's handle.
pub open spec fn annotate_comment(s: DbState, c: CommentRowRec) -> CommentRec {
    CommentRec {
        id: c.id,
        account_id: c.account_id,
        account_name: author_name(s, c.account_id),
        post_id: c.post_id,
        body: c.body,
        updated_at: c.updated_at,
        created_at: c.created_at,
    }
}

/// Strict listing order on comment rows: the older comment first, a
/// timestamp tie broken toward the earlier row.
pub open spec fn crow_before(a: CommentRowRec, b: CommentRowRec) -> bool {
    a.created_at < b.created_at || (a.created_at == b.created_at && a.id < b.id)
}

/// The listing order read off two annotated comments.
pub open spec fn comment_before(a: CommentRec, b: CommentRec) -> bool {
    a.created_at < b.created_at || (a.created_at == b.created_at && a.id < b.id)
}

/// The listing order between an annotated comment and a stored row.
pub open spec fn comment_before_row(a: CommentRec, b: CommentRowRec) -> bool {
    a.created_at < b.created_at || (a.created_at == b.created_at && a.id < b.id)
}

/// Some listed comment reports this comment id.
pub open spec fn listing_has_id(out: Seq<CommentRec>, id: int) -> bool {
    exists|i: int| 0 <= i < out.len() && (#[trigger] out[i]).id == id
}

/// `r` is one of the rows of `rem`.
pub open spec fn crow_among(rem: Seq<CommentRowRec>, r: CommentRowRec) -> bool {
    exists|j: int| 0 <= j < rem.len() && (#[trigger] rem[j]) == r
}

/// `c` is the annotation of one of the rows of `base`.
pub open spec fn is_comment_annotation(s: DbState, base: Seq<CommentRowRec>, c: CommentRec) -> bool {
    exists|k: int| 0 <= k < base.len() && c == annotate_comment(s, #[trigger] base[k])
}

/// The comment rows of `s` on the given post, in storage order.
pub open spec fn comments_on(s: DbState, post_id: int) -> Seq<CommentRowRec> {
    s.comments.filter(|c: CommentRowRec| c.post_id == post_id)
}

/// `out` is the comment listing of `s` for the given post: at most thirty
/// entries, and all of the post's comments when at most thirty are stored;
/// each entry the annotation of some stored comment on the post; strictly
/// ordered oldest first, a timestamp tie broken toward the earlier row;
/// and every comment left out comes after every entry reported.
pub open spec fn is_comments_of(s: DbState, post_id: int, out: Seq<CommentRec>) -> bool {
    let base = comments_on(s, post_id);
    &&& out.len() as int == (if base.len() <= 30 {
        base.len() as int
    } else {
        30
    })
    &&& forall|i: int|
        0 <= i < out.len() ==> is_comment_annotation(s, base, #[trigger] out[i])
    &&& forall|i: int, j: int|
        0 <= i < j < out.len() ==> comment_before(#[trigger] out[i], #[trigger] out[j])
    &&& forall|k: int, i: int|
        0 <= k < base.len() && !listing_has_id(out, (#[trigger] base[k]).id) && 0 <= i
            < out.len() ==> comment_before_row(#[trigger] out[i], base[k])
}

/// Invariant of the comment-listing selection, mirroring the feed's.
spec fn listing_inv(
    s: DbState,
    base: Seq<CommentRowRec>,
    res: Seq<CommentRec>,
    rem: Seq<CommentRowRec>,
) -> bool {
    &&& res.len() + rem.len() == base.len()
    &&& forall|j: int| 0 <= j < rem.len() ==> crow_among(base, #[trigger] rem[j])
    &&& forall|i: int, j: int|
        0 <= i < j < rem.len() ==> (#[trigger] rem[i]).id != (#[trigger] rem[j]).id
    &&& forall|k: int|
        0 <= k < base.len() ==> (listing_has_id(res, (#[trigger] base[k]).id) || crow_among(
            rem,
            base[k],
        ))
    &&& forall|i: int| 0 <= i < res.len() ==> is_comment_annotation(s, base, #[trigger] res[i])
    &&& forall|i: int, j: int|
        0 <= i < j < res.len() ==> comment_before(#[trigger] res[i], #[trigger] res[j])
    &&& forall|i: int, j: int|
        0 <= i < res.len() && 0 <= j < rem.len() ==> comment_before_row(
            #[trigger] res[i],
            #[trigger] rem[j],
        )
}

/// The comment-listing selection starts sound.
proof fn lemma_listing_init(s: DbState, base: Seq<CommentRowRec>)
    requires
        forall|i: int, j: int|
            0 <= i < j < base.len() ==> (#[trigger] base[i]).id < (#[trigger] base[j]).id,
    ensures
        listing_inv(s, base, Seq::empty(), base),
{
    assert forall|i: int, j: int|
        0 <= i < j < base.len() implies (#[trigger] base[i]).id != (#[trigger] base[j]).id by {
        assert(base[i].id < base[j].id);
    }
    assert forall|j: int| 0 <= j < base.len() implies crow_among(base, #[trigger] base[j]) by {
        assert(0 <= j < base.len() && base[j] == base[j]);
    }
}

/// One comment-listing selection step keeps the invariant.
#[verifier::rlimit(100)]
proof fn lemma_listing_step(
    s: DbState,
    base: Seq<CommentRowRec>,
    res: Seq<CommentRec>,
    rem: Seq<CommentRowRec>,
    idx: int,
    c: CommentRec,
)
    requires
        listing_inv(s, base, res, rem),
        0 <= idx < rem.len(),
        forall|t: int|
            0 <= t < rem.len() && t != idx ==> crow_before(rem[idx], #[trigger] rem[t]),
        c == annotate_comment(s, rem[idx]),
    ensures
        listing_inv(s, base, res.push(c), rem.remove(idx)),
{
    rem.remove_ensures(idx);
    let res2 = res.push(c);
    let rem2 = rem.remove(idx);
    assert(c.id == rem[idx].id && c.created_at == rem[idx].created_at);
    assert forall|j2: int| 0 <= j2 < rem2.len() implies crow_among(
        base,
        #[trigger] rem2[j2],
    ) by {
        if j2 < idx {
            assert(rem2[j2] == rem[j2]);
        } else {
            assert(rem2[j2] == rem[j2 + 1]);
        }
    }
    assert forall|i2: int, j2: int|
        0 <= i2 < j2 < rem2.len() implies (#[trigger] rem2[i2]).id != (#[trigger] rem2[j2]).id by {
        let oi = if i2 < idx {
            i2
        } else {
            i2 + 1
        };
        let oj = if j2 < idx {
            j2
        } else {
            j2 + 1
        };
        assert(rem2[i2] == rem[oi]);
        assert(rem2[j2] == rem[oj]);
    }
    assert forall|k: int|
        0 <= k < base.len() implies (listing_has_id(res2, (#[trigger] base[k]).id) || crow_among(
            rem2,
            base[k],
        )) by {
        if listing_has_id(res, base[k].id) {
            let i2 = choose|i2: int|
                0 <= i2 < res.len() && (#[trigger] res[i2]).id == base[k].id;
            assert(res2[i2].id == base[k].id);
            assert(listing_has_id(res2, base[k].id));
        } else if crow_among(rem, base[k]) {
            let j2 = choose|j2: int| 0 <= j2 < rem.len() && (#[trigger] rem[j2]) == base[k];
            if j2 == idx {
                assert(res2[res2.len() - 1].id == base[k].id);
                assert(listing_has_id(res2, base[k].id));
            } else {
                let nj = if j2 < idx {
                    j2
                } else {
                    j2 - 1
                };
                assert(rem2[nj] == rem[j2]);
                assert(crow_among(rem2, base[k]));
            }
        }
    }
    assert forall|i2: int| 0 <= i2 < res2.len() implies is_comment_annotation(
        s,
        base,
        #[trigger] res2[i2],
    ) by {
        if i2 < res.len() {
            assert(res2[i2] == res[i2]);
            assert(is_comment_annotation(s, base, res[i2]));
        } else {
            assert(crow_among(base, rem[idx]));
            let k = choose|k: int| 0 <= k < base.len() && (#[trigger] base[k]) == rem[idx];
            assert(res2[i2] == annotate_comment(s, base[k]));
        }
    }
    assert forall|i2: int, j2: int|
        0 <= i2 < j2 < res2.len() implies comment_before(
        #[trigger] res2[i2],
        #[trigger] res2[j2],
    ) by {
        if j2 < res.len() {
            assert(res2[i2] == res[i2] && res2[j2] == res[j2]);
        } else {
            assert(res2[i2] == res[i2]);
            assert(comment_before_row(res[i2], rem[idx]));
        }
    }
    assert forall|i2: int, j2: int|
        0 <= i2 < res2.len() && 0 <= j2 < rem2.len() implies comment_before_row(
        #[trigger] res2[i2],
        #[trigger] rem2[j2],
    ) by {
        let oj = if j2 < idx {
            j2
        } else {
            j2 + 1
        };
        assert(rem2[j2] == rem[oj]);
        if i2 < res.len() {
            assert(comment_before_row(res[i2], rem[oj]));
        } else {
            assert(res2[i2] == c);
            assert(crow_before(rem[idx], rem[oj]));
        }
    }
}

/// When the comment-listing selection stops, what was picked is the
/// listing.
#[verifier::rlimit(100)]
proof fn lemma_listing_done(
    s: DbState,
    post_id: int,
    res: Seq<CommentRec>,
    rem: Seq<CommentRowRec>,
)
    requires
        listing_inv(s, comments_on(s, post_id), res, rem),
        res.len() <= 30,
        rem.len() == 0 || res.len() == 30,
    ensures
        is_comments_of(s, post_id, res),
{
    let base = comments_on(s, post_id);
    assert(res.len() as int == (if base.len() <= 30 {
        base.len() as int
    } else {
        30
    }));
    assert forall|k: int, i: int|
        0 <= k < base.len() && !listing_has_id(res, (#[trigger] base[k]).id) && 0 <= i
            < res.len() implies comment_before_row(#[trigger] res[i], base[k]) by {
        assert(listing_has_id(res, base[k].id) || crow_among(rem, base[k]));
        let j = choose|j: int| 0 <= j < rem.len() && (#[trigger] rem[j]) == base[k];
        assert(comment_before_row(res[i], rem[j]));
    }
}

/// Number of like rows for the given post.
pub open spec fn like_count_of(s: DbState, post_id: int) -> int {
    s.likes.filter(|l: LikeRec| l.post_id == post_id).len() as int
}

/// Number of comment rows for the given post.
pub open spec fn comment_count_of(s: DbState, post_id: int) -> int {
    s.comments.filter(|c: CommentRowRec| c.post_id == post_id).len() as int
}

/// Well-formedness only reads the tables and the id counters, so it carries
/// over to any state that differs from a well-formed one in the schema
/// version alone.
proof fn lemma_wf_same_data(pre: DbState, post: DbState)
    requires
        Database::wf_state(pre),
        post.accounts == pre.accounts,
        post.sessions == pre.sessions,
        post.posts == pre.posts,
        post.likes == pre.likes,
        post.comments == pre.comments,
        post.next_account_id == pre.next_account_id,
        post.next_session_id == pre.next_session_id,
        post.next_post_id == pre.next_post_id,
        post.next_like_id == pre.next_like_id,
        post.next_comment_id == pre.next_comment_id,
        0 <= post.schema_version <= 1,
    ensures
        Database::wf_state(post),
{
    assert(forall|i: int|
        0 <= i < post.sessions.len() ==> has_account_id(
            post,
            (#[trigger] post.sessions[i]).account_id,
        ));
    assert(forall|i: int|
        0 <= i < post.posts.len() ==> has_account_id(
            post,
            (#[trigger] post.posts[i]).account_id,
        ));
    assert(forall|i: int|
        0 <= i < post.likes.len() ==> has_account_id(
            post,
            (#[trigger] post.likes[i]).account_id,
        ));
    assert(forall|i: int|
        0 <= i < post.likes.len() ==> has_post_id(post, (#[trigger] post.likes[i]).post_id));
    assert(forall|i: int|
        0 <= i < post.comments.len() ==> has_account_id(
            post,
            (#[trigger] post.comments[i]).account_id,
        ));
    assert(forall|i: int|
        0 <= i < post.comments.len() ==> has_post_id(
            post,
            (#[trigger] post.comments[i]).post_id,
        ));
}

/// Appending an account row under a fresh id, a fresh handle and a fresh
/// login code keeps the store well-formed.
proof fn lemma_wf_insert_account(pre: DbState, name: Seq<char>, code: Seq<char>, now: int)
    requires
        Database::wf_state(pre),
        !name_taken(pre, name),
        !login_code_taken(pre, code),
        pre.next_account_id < i64::MAX as int,
    ensures
        Database::wf_state(insert_account_tr(pre, name, code, now)),
{
    let post = insert_account_tr(pre, name, code, now);
    assert forall|i: int|
        0 <= i < pre.accounts.len() implies (#[trigger] pre.accounts[i]).name != name
        && pre.accounts[i].login_code != code by {
        if pre.accounts[i].name == name {
            assert(name_taken(pre, name));
        }
        if pre.accounts[i].login_code == code {
            assert(login_code_taken(pre, code));
        }
    }
    assert forall|i: int|
        0 <= i < post.sessions.len() implies has_account_id(
        post,
        (#[trigger] post.sessions[i]).account_id,
    ) by {
        assert(pre.sessions[i] == post.sessions[i]);
        assert(has_account_id(pre, pre.sessions[i].account_id));
        let k = choose|k: int|
            0 <= k < pre.accounts.len() && (#[trigger] pre.accounts[k]).id
                == pre.sessions[i].account_id;
        assert(post.accounts[k].id == post.sessions[i].account_id);
    }
    assert forall|i: int|
        0 <= i < post.posts.len() implies has_account_id(
        post,
        (#[trigger] post.posts[i]).account_id,
    ) by {
        assert(pre.posts[i] == post.posts[i]);
        assert(has_account_id(pre, pre.posts[i].account_id));
        let k = choose|k: int|
            0 <= k < pre.accounts.len() && (#[trigger] pre.accounts[k]).id
                == pre.posts[i].account_id;
        assert(post.accounts[k].id == post.posts[i].account_id);
    }
    assert forall|i: int|
        0 <= i < post.likes.len() implies has_account_id(
        post,
        (#[trigger] post.likes[i]).account_id,
    ) by {
        assert(pre.likes[i] == post.likes[i]);
        assert(has_account_id(pre, pre.likes[i].account_id));
        let k = choose|k: int|
            0 <= k < pre.accounts.len() && (#[trigger] pre.accounts[k]).id
                == pre.likes[i].account_id;
        assert(post.accounts[k].id == post.likes[i].account_id);
    }
    assert forall|i: int|
        0 <= i < post.comments.len() implies has_account_id(
        post,
        (#[trigger] post.comments[i]).account_id,
    ) by {
        assert(pre.comments[i] == post.comments[i]);
        assert(has_account_id(pre, pre.comments[i].account_id));
        let k = choose|k: int|
            0 <= k < pre.accounts.len() && (#[trigger] pre.accounts[k]).id
                == pre.comments[i].account_id;
        assert(post.accounts[k].id == post.comments[i].account_id);
    }
    assert forall|i: int|
        0 <= i < post.likes.len() implies has_post_id(
        post,
        (#[trigger] post.likes[i]).post_id,
    ) by {
        assert(pre.likes[i] == post.likes[i]);
        assert(has_post_id(pre, pre.likes[i].post_id));
        let k = choose|k: int|
            0 <= k < pre.posts.len() && (#[trigger] pre.posts[k]).id == pre.likes[i].post_id;
        assert(post.posts[k].id == post.likes[i].post_id);
    }
    assert forall|i: int|
        0 <= i < post.comments.len() implies has_post_id(
        post,
        (#[trigger] post.comments[i]).post_id,
    ) by {
        assert(pre.comments[i] == post.comments[i]);
        assert(has_post_id(pre, pre.comments[i].post_id));
        let k = choose|k: int|
            0 <= k < pre.posts.len() && (#[trigger] pre.posts[k]).id == pre.comments[i].post_id;
        assert(post.posts[k].id == post.comments[i].post_id);
    }
}

/// Appending a session row under a fresh id and a fresh identifier, for an
/// existing account, keeps the store well-formed.
proof fn lemma_wf_insert_session(pre: DbState, identifier: Seq<char>, account_id: int, now: int)
    requires
        Database::wf_state(pre),
        !identifier_taken(pre, identifier),
        has_account_id(pre, account_id),
        pre.next_session_id < i64::MAX as int,
    ensures
        Database::wf_state(insert_session_tr(pre, identifier, account_id, now)),
{
    let post = insert_session_tr(pre, identifier, account_id, now);
    assert forall|i: int|
        0 <= i < pre.sessions.len() implies (#[trigger] pre.sessions[i]).identifier
        != identifier by {
        if pre.sessions[i].identifier == identifier {
            assert(identifier_taken(pre, identifier));
        }
    }
    assert forall|i: int|
        0 <= i < post.sessions.len() implies has_account_id(
        post,
        (#[trigger] post.sessions[i]).account_id,
    ) by {
        let aid = post.sessions[i].account_id;
        if i < pre.sessions.len() {
            assert(pre.sessions[i] == post.sessions[i]);
        }
        assert(has_account_id(pre, aid));
        let k = choose|k: int|
            0 <= k < pre.accounts.len() && (#[trigger] pre.accounts[k]).id == aid;
        assert(post.accounts[k].id == aid);
    }
    assert forall|i: int|
        0 <= i < post.posts.len() implies has_account_id(
        post,
        (#[trigger] post.posts[i]).account_id,
    ) by {
        assert(pre.posts[i] == post.posts[i]);
        assert(has_account_id(pre, pre.posts[i].account_id));
        let k = choose|k: int|
            0 <= k < pre.accounts.len() && (#[trigger] pre.accounts[k]).id
                == pre.posts[i].account_id;
        assert(post.accounts[k].id == post.posts[i].account_id);
    }
    assert forall|i: int|
        0 <= i < post.likes.len() implies has_account_id(
        post,
        (#[trigger] post.likes[i]).account_id,
    ) by {
        assert(pre.likes[i] == post.likes[i]);
        assert(has_account_id(pre, pre.likes[i].account_id));
        let k = choose|k: int|
            0 <= k < pre.accounts.len() && (#[trigger] pre.accounts[k]).id
                == pre.likes[i].account_id;
        assert(post.accounts[k].id == post.likes[i].account_id);
    }
    assert forall|i: int|
        0 <= i < post.likes.len() implies has_post_id(
        post,
        (#[trigger] post.likes[i]).post_id,
    ) by {
        assert(pre.likes[i] == post.likes[i]);
        assert(has_post_id(pre, pre.likes[i].post_id));
        let k = choose|k: int|
            0 <= k < pre.posts.len() && (#[trigger] pre.posts[k]).id == pre.likes[i].post_id;
        assert(post.posts[k].id == post.likes[i].post_id);
    }
    assert forall|i: int|
        0 <= i < post.comments.len() implies has_account_id(
        post,
        (#[trigger] post.comments[i]).account_id,
    ) by {
        assert(pre.comments[i] == post.comments[i]);
        assert(has_account_id(pre, pre.comments[i].account_id));
        let k = choose|k: int|
            0 <= k < pre.accounts.len() && (#[trigger] pre.accounts[k]).id
                == pre.comments[i].account_id;
        assert(post.accounts[k].id == post.comments[i].account_id);
    }
    assert forall|i: int|
        0 <= i < post.comments.len() implies has_post_id(
        post,
        (#[trigger] post.comments[i]).post_id,
    ) by {
        assert(pre.comments[i] == post.comments[i]);
        assert(has_post_id(pre, pre.comments[i].post_id));
        let k = choose|k: int|
            0 <= k < pre.posts.len() && (#[trigger] pre.posts[k]).id == pre.comments[i].post_id;
        assert(post.posts[k].id == post.comments[i].post_id);
    }
}

/// When the parent tables only grow, every pre-state child row keeps its
/// parents in the post state.
proof fn lemma_refs_prefix(pre: DbState, post: DbState)
    requires
        Database::wf_state(pre),
        pre.accounts.is_prefix_of(post.accounts),
        pre.posts.is_prefix_of(post.posts),
    ensures
        forall|i: int|
            0 <= i < pre.sessions.len() ==> has_account_id(
                post,
                (#[trigger] pre.sessions[i]).account_id,
            ),
        forall|i: int|
            0 <= i < pre.posts.len() ==> has_account_id(
                post,
                (#[trigger] pre.posts[i]).account_id,
            ),
        forall|i: int|
            0 <= i < pre.likes.len() ==> has_account_id(
                post,
                (#[trigger] pre.likes[i]).account_id,
            ) && has_post_id(post, pre.likes[i].post_id),
        forall|i: int|
            0 <= i < pre.comments.len() ==> has_account_id(
                post,
                (#[trigger] pre.comments[i]).account_id,
            ) && has_post_id(post, pre.comments[i].post_id),
{
    assert forall|i: int|
        0 <= i < pre.sessions.len() implies has_account_id(
        post,
        (#[trigger] pre.sessions[i]).account_id,
    ) by {
        assert(has_account_id(pre, pre.sessions[i].account_id));
        let k = choose|k: int|
            0 <= k < pre.accounts.len() && (#[trigger] pre.accounts[k]).id
                == pre.sessions[i].account_id;
        assert(post.accounts[k] == pre.accounts[k]);
    }
    assert forall|i: int|
        0 <= i < pre.posts.len() implies has_account_id(
        post,
        (#[trigger] pre.posts[i]).account_id,
    ) by {
        assert(has_account_id(pre, pre.posts[i].account_id));
        let k = choose|k: int|
            0 <= k < pre.accounts.len() && (#[trigger] pre.accounts[k]).id
                == pre.posts[i].account_id;
        assert(post.accounts[k] == pre.accounts[k]);
    }
    assert forall|i: int|
        0 <= i < pre.likes.len() implies has_account_id(
        post,
        (#[trigger] pre.likes[i]).account_id,
    ) && has_post_id(post, pre.likes[i].post_id) by {
        assert(has_account_id(pre, pre.likes[i].account_id));
        let k = choose|k: int|
            0 <= k < pre.accounts.len() && (#[trigger] pre.accounts[k]).id
                == pre.likes[i].account_id;
        assert(post.accounts[k] == pre.accounts[k]);
        assert(has_post_id(pre, pre.likes[i].post_id));
        let p = choose|p: int|
            0 <= p < pre.posts.len() && (#[trigger] pre.posts[p]).id == pre.likes[i].post_id;
        assert(post.posts[p] == pre.posts[p]);
    }
    assert forall|i: int|
        0 <= i < pre.comments.len() implies has_account_id(
        post,
        (#[trigger] pre.comments[i]).account_id,
    ) && has_post_id(post, pre.comments[i].post_id) by {
        assert(has_account_id(pre, pre.comments[i].account_id));
        let k = choose|k: int|
            0 <= k < pre.accounts.len() && (#[trigger] pre.accounts[k]).id
                == pre.comments[i].account_id;
        assert(post.accounts[k] == pre.accounts[k]);
        assert(has_post_id(pre, pre.comments[i].post_id));
        let p = choose|p: int|
            0 <= p < pre.posts.len() && (#[trigger] pre.posts[p]).id == pre.comments[i].post_id;
        assert(post.posts[p] == pre.posts[p]);
    }
}

/// Appending a post row under a fresh id, for an existing account, keeps
/// the store well-formed.
proof fn lemma_wf_insert_post(pre: DbState, body: Seq<char>, account_id: int, now: int)
    requires
        Database::wf_state(pre),
        has_account_id(pre, account_id),
        pre.next_post_id < i64::MAX as int,
    ensures
        Database::wf_state(insert_post_tr(pre, body, account_id, now)),
{
    let post = insert_post_tr(pre, body, account_id, now);
    assert(pre.accounts.is_prefix_of(post.accounts));
    assert(pre.posts.is_prefix_of(post.posts));
    lemma_refs_prefix(pre, post);
    assert forall|i: int|
        0 <= i < post.posts.len() implies has_account_id(
        post,
        (#[trigger] post.posts[i]).account_id,
    ) by {
        if i < pre.posts.len() {
            assert(post.posts[i] == pre.posts[i]);
        } else {
            let k = choose|k: int|
                0 <= k < pre.accounts.len() && (#[trigger] pre.accounts[k]).id == account_id;
            assert(post.accounts[k].id == account_id);
        }
    }
    assert(forall|i: int|
        0 <= i < post.sessions.len() ==> has_account_id(
            post,
            (#[trigger] post.sessions[i]).account_id,
        ));
    assert(forall|i: int|
        0 <= i < post.likes.len() ==> has_account_id(
            post,
            (#[trigger] post.likes[i]).account_id,
        ) && has_post_id(post, (#[trigger] post.likes[i]).post_id));
    assert(forall|i: int|
        0 <= i < post.comments.len() ==> has_account_id(
            post,
            (#[trigger] post.comments[i]).account_id,
        ) && has_post_id(post, (#[trigger] post.comments[i]).post_id));
}

/// Appending a like row under a fresh id, pairing an existing account with
/// an existing post it does not yet like, keeps the store well-formed.
proof fn lemma_wf_insert_like(pre: DbState, account_id: int, post_id: int, now: int)
    requires
        Database::wf_state(pre),
        has_account_id(pre, account_id),
        has_post_id(pre, post_id),
        !has_like(pre, account_id, post_id),
        pre.next_like_id < i64::MAX as int,
    ensures
        Database::wf_state(insert_like_tr(pre, account_id, post_id, now)),
{
    let post = insert_like_tr(pre, account_id, post_id, now);
    assert(pre.accounts.is_prefix_of(post.accounts));
    assert(pre.posts.is_prefix_of(post.posts));
    lemma_refs_prefix(pre, post);
    assert forall|i: int|
        0 <= i < pre.likes.len() implies !((#[trigger] pre.likes[i]).account_id == account_id
        && pre.likes[i].post_id == post_id) by {
        if pre.likes[i].account_id == account_id && pre.likes[i].post_id == post_id {
            assert(has_like(pre, account_id, post_id));
        }
    }
    assert forall|i: int|
        0 <= i < post.likes.len() implies has_account_id(
        post,
        (#[trigger] post.likes[i]).account_id,
    ) && has_post_id(post, post.likes[i].post_id) by {
        if i < pre.likes.len() {
            assert(post.likes[i] == pre.likes[i]);
        } else {
            let k = choose|k: int|
                0 <= k < pre.accounts.len() && (#[trigger] pre.accounts[k]).id == account_id;
            assert(post.accounts[k].id == account_id);
            let p = choose|p: int|
                0 <= p < pre.posts.len() && (#[trigger] pre.posts[p]).id == post_id;
            assert(post.posts[p].id == post_id);
        }
    }
    assert(forall|i: int|
        0 <= i < post.sessions.len() ==> has_account_id(
            post,
            (#[trigger] post.sessions[i]).account_id,
        ));
    assert(forall|i: int|
        0 <= i < post.posts.len() ==> has_account_id(
            post,
            (#[trigger] post.posts[i]).account_id,
        ));
    assert(forall|i: int|
        0 <= i < post.comments.len() ==> has_account_id(
            post,
            (#[trigger] post.comments[i]).account_id,
        ) && has_post_id(post, (#[trigger] post.comments[i]).post_id));
}

/// Deleting likes keeps the store well-formed: likes are leaves.
proof fn lemma_wf_delete_like(pre: DbState, account_id: int, post_id: int)
    requires
        Database::wf_state(pre),
    ensures
        Database::wf_state(delete_like_tr(pre, account_id, post_id)),
{
    let post = delete_like_tr(pre, account_id, post_id);
    let pred = |l: LikeRec| !(l.account_id == account_id && l.post_id == post_id);
    lemma_filter_elems(pre.likes, pred);
    lemma_filter_pairwise(pre.likes, pred, |a: LikeRec, b: LikeRec| a.id < b.id);
    lemma_filter_pairwise(
        pre.likes,
        pred,
        |a: LikeRec, b: LikeRec| !(a.account_id == b.account_id && a.post_id == b.post_id),
    );
    assert forall|i: int|
        0 <= i < post.likes.len() implies 1 <= (#[trigger] post.likes[i]).id < post.next_like_id
        && has_account_id(post, post.likes[i].account_id) && has_post_id(
        post,
        post.likes[i].post_id,
    ) by {
        assert(pre.likes.contains(post.likes[i]));
        let k = choose|k: int| 0 <= k < pre.likes.len() && pre.likes[k] == post.likes[i];
        assert(1 <= pre.likes[k].id < pre.next_like_id);
        assert(has_account_id(pre, pre.likes[k].account_id));
        let m = choose|m: int|
            0 <= m < pre.accounts.len() && (#[trigger] pre.accounts[m]).id
                == pre.likes[k].account_id;
        assert(post.accounts[m].id == post.likes[i].account_id);
        assert(has_post_id(pre, pre.likes[k].post_id));
        let p = choose|p: int|
            0 <= p < pre.posts.len() && (#[trigger] pre.posts[p]).id == pre.likes[k].post_id;
        assert(post.posts[p].id == post.likes[i].post_id);
    }
    assert forall|i: int|
        0 <= i < post.sessions.len() implies has_account_id(
        post,
        (#[trigger] post.sessions[i]).account_id,
    ) by {
        assert(has_account_id(pre, pre.sessions[i].account_id));
        let m = choose|m: int|
            0 <= m < pre.accounts.len() && (#[trigger] pre.accounts[m]).id
                == pre.sessions[i].account_id;
        assert(post.accounts[m].id == post.sessions[i].account_id);
    }
    assert forall|i: int|
        0 <= i < post.posts.len() implies has_account_id(
        post,
        (#[trigger] post.posts[i]).account_id,
    ) by {
        assert(has_account_id(pre, pre.posts[i].account_id));
        let m = choose|m: int|
            0 <= m < pre.accounts.len() && (#[trigger] pre.accounts[m]).id
                == pre.posts[i].account_id;
        assert(post.accounts[m].id == post.posts[i].account_id);
    }
    assert forall|i: int|
        0 <= i < post.comments.len() implies has_account_id(
        post,
        (#[trigger] post.comments[i]).account_id,
    ) && has_post_id(post, post.comments[i].post_id) by {
        assert(has_account_id(pre, pre.comments[i].account_id));
        let m = choose|m: int|
            0 <= m < pre.accounts.len() && (#[trigger] pre.accounts[m]).id
                == pre.comments[i].account_id;
        assert(post.accounts[m].id == post.comments[i].account_id);
        assert(has_post_id(pre, pre.comments[i].post_id));
        let p = choose|p: int|
            0 <= p < pre.posts.len() && (#[trigger] pre.posts[p]).id == pre.comments[i].post_id;
        assert(post.posts[p].id == post.comments[i].post_id);
    }
}

/// Appending a comment row under a fresh id, by an existing account on an
/// existing post, keeps the store well-formed.
proof fn lemma_wf_insert_comment(
    pre: DbState,
    post_id: int,
    account_id: int,
    body: Seq<char>,
    now: int,
)
    requires
        Database::wf_state(pre),
        has_account_id(pre, account_id),
        has_post_id(pre, post_id),
        pre.next_comment_id < i64::MAX as int,
    ensures
        Database::wf_state(insert_comment_tr(pre, post_id, account_id, body, now)),
{
    let post = insert_comment_tr(pre, post_id, account_id, body, now);
    assert(pre.accounts.is_prefix_of(post.accounts));
    assert(pre.posts.is_prefix_of(post.posts));
    lemma_refs_prefix(pre, post);
    assert forall|i: int|
        0 <= i < post.comments.len() implies has_account_id(
        post,
        (#[trigger] post.comments[i]).account_id,
    ) && has_post_id(post, post.comments[i].post_id) by {
        if i < pre.comments.len() {
            assert(post.comments[i] == pre.comments[i]);
        } else {
            let k = choose|k: int|
                0 <= k < pre.accounts.len() && (#[trigger] pre.accounts[k]).id == account_id;
            assert(post.accounts[k].id == account_id);
            let p = choose|p: int|
                0 <= p < pre.posts.len() && (#[trigger] pre.posts[p]).id == post_id;
            assert(post.posts[p].id == post_id);
        }
    }
    assert(forall|i: int|
        0 <= i < post.sessions.len() ==> has_account_id(
            post,
            (#[trigger] post.sessions[i]).account_id,
        ));
    assert(forall|i: int|
        0 <= i < post.posts.len() ==> has_account_id(
            post,
            (#[trigger] post.posts[i]).account_id,
        ));
    assert(forall|i: int|
        0 <= i < post.likes.len() ==> has_account_id(
            post,
            (#[trigger] post.likes[i]).account_id,
        ) && has_post_id(post, (#[trigger] post.likes[i]).post_id));
}

/// Deleting the sessions carrying a given identifier keeps the store
/// well-formed: sessions are leaves of the schema.
proof fn lemma_wf_delete_session(pre: DbState, identifier: Seq<char>)
    requires
        Database::wf_state(pre),
    ensures
        Database::wf_state(delete_session_tr(pre, identifier)),
{
    let post = delete_session_tr(pre, identifier);
    let pred = |x: SessionRec| x.identifier != identifier;
    lemma_filter_elems(pre.sessions, pred);
    lemma_filter_pairwise(pre.sessions, pred, |a: SessionRec, b: SessionRec| a.id < b.id);
    lemma_filter_pairwise(
        pre.sessions,
        pred,
        |a: SessionRec, b: SessionRec| a.identifier != b.identifier,
    );
    assert forall|i: int|
        0 <= i < post.sessions.len() implies 1 <= (#[trigger] post.sessions[i]).id
        < post.next_session_id && has_account_id(post, post.sessions[i].account_id) by {
        assert(pre.sessions.contains(post.sessions[i]));
        let k = choose|k: int| 0 <= k < pre.sessions.len() && pre.sessions[k] == post.sessions[i];
        assert(1 <= pre.sessions[k].id < pre.next_session_id);
        assert(has_account_id(pre, pre.sessions[k].account_id));
        let m = choose|m: int|
            0 <= m < pre.accounts.len() && (#[trigger] pre.accounts[m]).id
                == pre.sessions[k].account_id;
        assert(post.accounts[m].id == post.sessions[i].account_id);
    }
    assert forall|i: int|
        0 <= i < post.posts.len() implies has_account_id(
        post,
        (#[trigger] post.posts[i]).account_id,
    ) by {
        assert(has_account_id(pre, pre.posts[i].account_id));
        let m = choose|m: int|
            0 <= m < pre.accounts.len() && (#[trigger] pre.accounts[m]).id
                == pre.posts[i].account_id;
        assert(post.accounts[m].id == post.posts[i].account_id);
    }
    assert forall|i: int|
        0 <= i < post.likes.len() implies has_account_id(
        post,
        (#[trigger] post.likes[i]).account_id,
    ) && has_post_id(post, post.likes[i].post_id) by {
        assert(has_account_id(pre, pre.likes[i].account_id));
        let m = choose|m: int|
            0 <= m < pre.accounts.len() && (#[trigger] pre.accounts[m]).id
                == pre.likes[i].account_id;
        assert(post.accounts[m].id == post.likes[i].account_id);
        assert(has_post_id(pre, pre.likes[i].post_id));
        let p = choose|p: int|
            0 <= p < pre.posts.len() && (#[trigger] pre.posts[p]).id == pre.likes[i].post_id;
        assert(post.posts[p].id == post.likes[i].post_id);
    }
    assert forall|i: int|
        0 <= i < post.comments.len() implies has_account_id(
        post,
        (#[trigger] post.comments[i]).account_id,
    ) && has_post_id(post, post.comments[i].post_id) by {
        assert(has_account_id(pre, pre.comments[i].account_id));
        let m = choose|m: int|
            0 <= m < pre.accounts.len() && (#[trigger] pre.accounts[m]).id
                == pre.comments[i].account_id;
        assert(post.accounts[m].id == post.comments[i].account_id);
        assert(has_post_id(pre, pre.comments[i].post_id));
        let p = choose|p: int|
            0 <= p < pre.posts.len() && (#[trigger] pre.posts[p]).id == pre.comments[i].post_id;
        assert(post.posts[p].id == post.comments[i].post_id);
    }
}

/// Deleting an account together with everything it owns keeps the store
/// well-formed: every kept child row still points at a kept parent.
proof fn lemma_wf_delete_account(pre: DbState, id: int)
    requires
        Database::wf_state(pre),
    ensures
        Database::wf_state(delete_account_tr(pre, id)),
{
    let post = delete_account_tr(pre, id);
    let pred_a = |a: AccountRec| a.id != id;
    let pred_s = |x: SessionRec| x.account_id != id;
    let pred_p = |p: PostRowRec| p.account_id != id;
    let pred_l = |l: LikeRec| l.account_id != id && !owned_in(pre.posts, l.post_id, id);
    let pred_c = |c: CommentRowRec| c.account_id != id && !owned_in(pre.posts, c.post_id, id);
    lemma_filter_elems(pre.accounts, pred_a);
    lemma_filter_elems(pre.sessions, pred_s);
    lemma_filter_elems(pre.posts, pred_p);
    lemma_filter_elems(pre.likes, pred_l);
    lemma_filter_elems(pre.comments, pred_c);
    lemma_filter_pairwise(pre.accounts, pred_a, |a: AccountRec, b: AccountRec| a.id < b.id);
    lemma_filter_pairwise(pre.accounts, pred_a, |a: AccountRec, b: AccountRec| a.name != b.name);
    lemma_filter_pairwise(
        pre.accounts,
        pred_a,
        |a: AccountRec, b: AccountRec| a.login_code != b.login_code,
    );
    lemma_filter_pairwise(pre.sessions, pred_s, |a: SessionRec, b: SessionRec| a.id < b.id);
    lemma_filter_pairwise(
        pre.sessions,
        pred_s,
        |a: SessionRec, b: SessionRec| a.identifier != b.identifier,
    );
    lemma_filter_pairwise(pre.posts, pred_p, |a: PostRowRec, b: PostRowRec| a.id < b.id);
    lemma_filter_pairwise(pre.likes, pred_l, |a: LikeRec, b: LikeRec| a.id < b.id);
    lemma_filter_pairwise(
        pre.likes,
        pred_l,
        |a: LikeRec, b: LikeRec| !(a.account_id == b.account_id && a.post_id == b.post_id),
    );
    lemma_filter_pairwise(
        pre.comments,
        pred_c,
        |a: CommentRowRec, b: CommentRowRec| a.id < b.id,
    );
    assert forall|i: int|
        0 <= i < post.accounts.len() implies 1 <= (#[trigger] post.accounts[i]).id
        < post.next_account_id by {
        assert(pre.accounts.contains(post.accounts[i]));
    }
    assert forall|i: int|
        0 <= i < post.sessions.len() implies 1 <= (#[trigger] post.sessions[i]).id
        < post.next_session_id && has_account_id(post, post.sessions[i].account_id) by {
        assert(pre.sessions.contains(post.sessions[i]));
        let k = choose|k: int| 0 <= k < pre.sessions.len() && pre.sessions[k] == post.sessions[i];
        assert(1 <= pre.sessions[k].id < pre.next_session_id);
        assert(has_account_id(pre, pre.sessions[k].account_id));
        let m = choose|m: int|
            0 <= m < pre.accounts.len() && (#[trigger] pre.accounts[m]).id
                == pre.sessions[k].account_id;
        assert(pred_a(pre.accounts[m]));
        assert(pre.accounts.filter(pred_a).contains(pre.accounts[m]));
        let j = choose|j: int|
            0 <= j < post.accounts.len() && post.accounts[j] == pre.accounts[m];
        assert(post.accounts[j].id == post.sessions[i].account_id);
    }
    assert forall|i: int|
        0 <= i < post.posts.len() implies 1 <= (#[trigger] post.posts[i]).id < post.next_post_id
        && has_account_id(post, post.posts[i].account_id) by {
        assert(pre.posts.contains(post.posts[i]));
        let k = choose|k: int| 0 <= k < pre.posts.len() && pre.posts[k] == post.posts[i];
        assert(1 <= pre.posts[k].id < pre.next_post_id);
        assert(has_account_id(pre, pre.posts[k].account_id));
        let m = choose|m: int|
            0 <= m < pre.accounts.len() && (#[trigger] pre.accounts[m]).id
                == pre.posts[k].account_id;
        assert(pred_a(pre.accounts[m]));
        assert(pre.accounts.filter(pred_a).contains(pre.accounts[m]));
        let j = choose|j: int|
            0 <= j < post.accounts.len() && post.accounts[j] == pre.accounts[m];
        assert(post.accounts[j].id == post.posts[i].account_id);
    }
    assert forall|i: int|
        0 <= i < post.likes.len() implies 1 <= (#[trigger] post.likes[i]).id < post.next_like_id
        && has_account_id(post, post.likes[i].account_id) && has_post_id(
        post,
        post.likes[i].post_id,
    ) by {
        assert(pre.likes.contains(post.likes[i]));
        let k = choose|k: int| 0 <= k < pre.likes.len() && pre.likes[k] == post.likes[i];
        assert(1 <= pre.likes[k].id < pre.next_like_id);
        assert(pred_l(pre.likes[k]));
        assert(has_account_id(pre, pre.likes[k].account_id));
        let m = choose|m: int|
            0 <= m < pre.accounts.len() && (#[trigger] pre.accounts[m]).id
                == pre.likes[k].account_id;
        assert(pred_a(pre.accounts[m]));
        assert(pre.accounts.filter(pred_a).contains(pre.accounts[m]));
        let j = choose|j: int|
            0 <= j < post.accounts.len() && post.accounts[j] == pre.accounts[m];
        assert(post.accounts[j].id == post.likes[i].account_id);
        assert(has_post_id(pre, pre.likes[k].post_id));
        let p = choose|p: int|
            0 <= p < pre.posts.len() && (#[trigger] pre.posts[p]).id == pre.likes[k].post_id;
        assert(pre.posts[p].account_id != id) by {
            if pre.posts[p].account_id == id {
                assert(owned_in(pre.posts, pre.likes[k].post_id, id));
            }
        }
        assert(pred_p(pre.posts[p]));
        assert(pre.posts.filter(pred_p).contains(pre.posts[p]));
        let q = choose|q: int| 0 <= q < post.posts.len() && post.posts[q] == pre.posts[p];
        assert(post.posts[q].id == post.likes[i].post_id);
    }
    assert forall|i: int|
        0 <= i < post.comments.len() implies 1 <= (#[trigger] post.comments[i]).id
        < post.next_comment_id && has_account_id(post, post.comments[i].account_id)
        && has_post_id(post, post.comments[i].post_id) by {
        assert(pre.comments.contains(post.comments[i]));
        let k = choose|k: int| 0 <= k < pre.comments.len() && pre.comments[k] == post.comments[i];
        assert(1 <= pre.comments[k].id < pre.next_comment_id);
        assert(pred_c(pre.comments[k]));
        assert(has_account_id(pre, pre.comments[k].account_id));
        let m = choose|m: int|
            0 <= m < pre.accounts.len() && (#[trigger] pre.accounts[m]).id
                == pre.comments[k].account_id;
        assert(pred_a(pre.accounts[m]));
        assert(pre.accounts.filter(pred_a).contains(pre.accounts[m]));
        let j = choose|j: int|
            0 <= j < post.accounts.len() && post.accounts[j] == pre.accounts[m];
        assert(post.accounts[j].id == post.comments[i].account_id);
        assert(has_post_id(pre, pre.comments[k].post_id));
        let p = choose|p: int|
            0 <= p < pre.posts.len() && (#[trigger] pre.posts[p]).id == pre.comments[k].post_id;
        assert(pre.posts[p].account_id != id) by {
            if pre.posts[p].account_id == id {
                assert(owned_in(pre.posts, pre.comments[k].post_id, id));
            }
        }
        assert(pred_p(pre.posts[p]));
        assert(pre.posts.filter(pred_p).contains(pre.posts[p]));
        let q = choose|q: int| 0 <= q < post.posts.len() && post.posts[q] == pre.posts[p];
        assert(post.posts[q].id == post.comments[i].post_id);
    }
}

/// Deleting a session identifier no session carries changes nothing.
pub proof fn lemma_delete_session_absent(s: DbState, identifier: Seq<char>)
    requires
        !identifier_taken(s, identifier),
    ensures
        delete_session_tr(s, identifier) == s,
{
    let pred = |x: SessionRec| x.identifier != identifier;
    assert forall|i: int| 0 <= i < s.sessions.len() implies pred(#[trigger] s.sessions[i]) by {
        if s.sessions[i].identifier == identifier {
            assert(identifier_taken(s, identifier));
        }
    }
    lemma_filter_all(s.sessions, pred);
    assert(delete_session_tr(s, identifier) =~= s);
}

/// Deleting an account id no account carries changes nothing: under the
/// schema invariants nothing else can reference it either.
pub proof fn lemma_delete_account_absent(s: DbState, id: int)
    requires
        Database::wf_state(s),
        !has_account_id(s, id),
    ensures
        delete_account_tr(s, id) == s,
{
    let pred_a = |a: AccountRec| a.id != id;
    let pred_s = |x: SessionRec| x.account_id != id;
    let pred_p = |p: PostRowRec| p.account_id != id;
    let pred_l = |l: LikeRec| l.account_id != id && !owned_in(s.posts, l.post_id, id);
    let pred_c = |c: CommentRowRec| c.account_id != id && !owned_in(s.posts, c.post_id, id);
    assert forall|i: int| 0 <= i < s.accounts.len() implies pred_a(#[trigger] s.accounts[i]) by {
        if s.accounts[i].id == id {
            assert(has_account_id(s, id));
        }
    }
    assert forall|i: int| 0 <= i < s.posts.len() implies pred_p(#[trigger] s.posts[i]) by {
        if s.posts[i].account_id == id {
            assert(has_account_id(s, id));
        }
    }
    assert forall|i: int| 0 <= i < s.sessions.len() implies pred_s(#[trigger] s.sessions[i]) by {
        if s.sessions[i].account_id == id {
            assert(has_account_id(s, id));
        }
    }
    assert forall|i: int| 0 <= i < s.likes.len() implies pred_l(#[trigger] s.likes[i]) by {
        if s.likes[i].account_id == id {
            assert(has_account_id(s, id));
        }
        if owned_in(s.posts, s.likes[i].post_id, id) {
            let k = choose|k: int|
                0 <= k < s.posts.len() && (#[trigger] s.posts[k]).id == s.likes[i].post_id
                    && s.posts[k].account_id == id;
            assert(has_account_id(s, id));
        }
    }
    assert forall|i: int| 0 <= i < s.comments.len() implies pred_c(#[trigger] s.comments[i]) by {
        if s.comments[i].account_id == id {
            assert(has_account_id(s, id));
        }
        if owned_in(s.posts, s.comments[i].post_id, id) {
            let k = choose|k: int|
                0 <= k < s.posts.len() && (#[trigger] s.posts[k]).id == s.comments[i].post_id
                    && s.posts[k].account_id == id;
            assert(has_account_id(s, id));
        }
    }
    lemma_filter_all(s.accounts, pred_a);
    lemma_filter_all(s.sessions, pred_s);
    lemma_filter_all(s.posts, pred_p);
    lemma_filter_all(s.likes, pred_l);
    lemma_filter_all(s.comments, pred_c);
    assert(delete_account_tr(s, id) =~= s);
}

impl Database {
    /// Schema invariants of the store. Every operation preserves this.
    pub open spec fn wf_state(s: DbState) -> bool {
        &&& forall|i: int, j: int|
            0 <= i < j < s.accounts.len() ==> (#[trigger] s.accounts[i]).id < (
            #[trigger] s.accounts[j]).id
        &&& forall|i: int|
            0 <= i < s.accounts.len() ==> 1 <= (#[trigger] s.accounts[i]).id
                < s.next_account_id
        &&& forall|i: int, j: int|
            0 <= i < j < s.accounts.len() ==> (#[trigger] s.accounts[i]).name != (
            #[trigger] s.accounts[j]).name
        &&& forall|i: int, j: int|
            0 <= i < j < s.accounts.len() ==> (#[trigger] s.accounts[i]).login_code != (
            #[trigger] s.accounts[j]).login_code
        &&& forall|i: int, j: int|
            0 <= i < j < s.sessions.len() ==> (#[trigger] s.sessions[i]).id < (
            #[trigger] s.sessions[j]).id
        &&& forall|i: int|
            0 <= i < s.sessions.len() ==> 1 <= (#[trigger] s.sessions[i]).id
                < s.next_session_id
        &&& forall|i: int, j: int|
            0 <= i < j < s.sessions.len() ==> (#[trigger] s.sessions[i]).identifier != (
            #[trigger] s.sessions[j]).identifier
        &&& forall|i: int|
            0 <= i < s.sessions.len() ==> has_account_id(s, (#[trigger] s.sessions[i]).account_id)
        &&& forall|i: int, j: int|
            0 <= i < j < s.posts.len() ==> (#[trigger] s.posts[i]).id < (#[trigger] s.posts[j]).id
        &&& forall|i: int|
            0 <= i < s.posts.len() ==> 1 <= (#[trigger] s.posts[i]).id < s.next_post_id
        &&& forall|i: int|
            0 <= i < s.posts.len() ==> has_account_id(s, (#[trigger] s.posts[i]).account_id)
        &&& forall|i: int, j: int|
            0 <= i < j < s.likes.len() ==> (#[trigger] s.likes[i]).id < (#[trigger] s.likes[j]).id
        &&& forall|i: int|
            0 <= i < s.likes.len() ==> 1 <= (#[trigger] s.likes[i]).id < s.next_like_id
        &&& forall|i: int|
            0 <= i < s.likes.len() ==> has_account_id(s, (#[trigger] s.likes[i]).account_id)
        &&& forall|i: int|
            0 <= i < s.likes.len() ==> has_post_id(s, (#[trigger] s.likes[i]).post_id)
        &&& forall|i: int, j: int|
            0 <= i < j < s.likes.len() ==> !((#[trigger] s.likes[i]).account_id == (
            #[trigger] s.likes[j]).account_id && s.likes[i].post_id == s.likes[j].post_id)
        &&& forall|i: int, j: int|
            0 <= i < j < s.comments.len() ==> (#[trigger] s.comments[i]).id < (
            #[trigger] s.comments[j]).id
        &&& forall|i: int|
            0 <= i < s.comments.len() ==> 1 <= (#[trigger] s.comments[i]).id
                < s.next_comment_id
        &&& forall|i: int|
            0 <= i < s.comments.len() ==> has_account_id(
                s,
                (#[trigger] s.comments[i]).account_id,
            )
        &&& forall|i: int|
            0 <= i < s.comments.len() ==> has_post_id(s, (#[trigger] s.comments[i]).post_id)
        &&& 1 <= s.next_account_id <= i64::MAX as int
        &&& 1 <= s.next_session_id <= i64::MAX as int
        &&& 1 <= s.next_post_id <= i64::MAX as int
        &&& 1 <= s.next_like_id <= i64::MAX as int
        &&& 1 <= s.next_comment_id <= i64::MAX as int
        &&& 0 <= s.schema_version <= 1
    }

    /// The store satisfies its schema invariants.
    pub open spec fn wf(&self) -> bool {
        Self::wf_state(self@)
    }

    /// Migrations were applied: data operations are available.
    pub open spec fn migrated(&self) -> bool {
        self@.schema_version == 1
    }

    /// A fresh, empty store. Migrations are not applied yet; run
    /// [`Database::migrate`] before the first data operation, as the serving
    /// process does at startup.
    pub fn new() -> (r: Database)
        ensures
            r.wf(),
            !r.migrated(),
            r@.accounts.len() == 0,
            r@.sessions.len() == 0,
            r@.posts.len() == 0,
            r@.likes.len() == 0,
            r@.comments.len() == 0,
            r@.schema_version == 0,
    {
        Database {
            accounts: Vec::new(),
            sessions: Vec::new(),
            posts: Vec::new(),
            likes: Vec::new(),
            comments: Vec::new(),
            next_account_id: 1,
            next_session_id: 1,
            next_post_id: 1,
            next_like_id: 1,
            next_comment_id: 1,
            schema_version: 0,
        }
    }

    /// Apply the schema migrations. Idempotent; the data of an already
    /// migrated store is untouched.
    pub fn migrate(&mut self) -> (r: Result<(), AppError>)
        ensures
            (r is Ok),
            final (self)@ == (DbState { schema_version: 1, ..old(self)@ }),
            old(self).wf() ==> final (self).wf(),
    {
        self.schema_version = 1;
        proof {
            if Self::wf_state(old(self)@) {
                lemma_wf_same_data(old(self)@, self@);
            }
        }
        Ok(())
    }

    /// Roll the latest migration back. Fails when there is nothing to roll
    /// back; otherwise the schema version drops and the data stays.
    pub fn rollback(&mut self) -> (r: Result<(), AppError>)
        ensures
            old(self)@.schema_version <= 0 ==> (r == Err::<(), AppError>(AppError::Rollback)
                && final (self)@ == old(self)@),
            old(self)@.schema_version > 0 ==> ((r is Ok) && final (self)@ == (DbState {
                schema_version: old(self)@.schema_version - 1,
                ..old(self)@
            })),
            old(self).wf() ==> final (self).wf(),
    {
        if self.schema_version <= 0 {
            Err(AppError::Rollback)
        } else {
            self.schema_version = self.schema_version - 1;
            proof {
                if Self::wf_state(old(self)@) {
                    lemma_wf_same_data(old(self)@, self@);
                }
            }
            Ok(())
        }
    }

    /// Some stored account carries this handle or this login code.
    fn account_conflict(&self, name: &String, login_code: &String) -> (r: bool)
        ensures
            r <==> (name_taken(self@, name@) || login_code_taken(self@, login_code@)),
    {
        let n = self.accounts.len();
        let mut i: usize = 0;
        while i < n
            invariant
                i <= n,
                n == self.accounts.len(),
                forall|k: int|
                    0 <= k < i ==> (#[trigger] self@.accounts[k]).name != name@
                        && self@.accounts[k].login_code != login_code@,
            decreases n - i,
        {
            let a = &self.accounts[i];
            if a.name.eq(name) || a.login_code.eq(login_code) {
                assert(self@.accounts[i as int].name == name@ || self@.accounts[i as int].login_code
                    == login_code@);
                assert(name_taken(self@, name@) || login_code_taken(self@, login_code@));
                return true;
            }
            i = i + 1;
        }
        false
    }

    /// Insert an account whose system-generated login code is handed in by
    /// the caller. Succeeds exactly when both the handle and the code are
    /// still free; a conflict surfaces as the uniqueness-violation error and
    /// leaves the store untouched.
    pub fn insert_account_with_code(&mut self, name: String, login_code: String, now: i64) -> (r:
        Result<Account, AppError>)
        requires
            old(self).wf(),
            old(self).migrated(),
            old(self)@.next_account_id < i64::MAX as int,
        ensures
            final (self).wf(),
            final (self).migrated(),
            (r is Ok) <==> (!name_taken(old(self)@, name@) && !login_code_taken(
                old(self)@,
                login_code@,
            )),
            r matches Ok(a) ==> (a@ == (AccountRec {
                id: old(self)@.next_account_id,
                name: name@,
                login_code: login_code@,
                updated_at: now as int,
                created_at: now as int,
            }) && final (self)@ == insert_account_tr(old(self)@, name@, login_code@, now as int)),
            (r is Err) ==> (r == Err::<Account, AppError>(AppError::DatabaseUniqueIndex)
                && final (self)@ == old(self)@),
    {
        if self.account_conflict(&name, &login_code) {
            return Err(AppError::DatabaseUniqueIndex);
        }
        let ghost pre = self@;
        let account = Account {
            id: self.next_account_id,
            name: name,
            login_code: login_code,
            updated_at: now,
            created_at: now,
        };
        let result = account.clone();
        let ghost rec = account@;
        self.accounts.push(account);
        self.next_account_id = self.next_account_id + 1;
        proof {
            assert(self@.accounts =~= pre.accounts.push(rec));
            assert(self@ =~= insert_account_tr(pre, rec.name, rec.login_code, now as int));
            lemma_wf_insert_account(pre, rec.name, rec.login_code, now as int);
        }
        Ok(result)
    }

    /// Insert an account under a handle picked by the user, minting a fresh
    /// random login code. A taken handle surfaces as the uniqueness-violation
    /// error; the code is random, so success additionally hinges on the mint
    /// not colliding with a stored code.
    pub fn insert_account(&mut self, name: String, now: i64) -> (r: Result<Account, AppError>)
        requires
            old(self).wf(),
            old(self).migrated(),
            old(self)@.next_account_id < i64::MAX as int,
        ensures
            final (self).wf(),
            final (self).migrated(),
            name_taken(old(self)@, name@) ==> (r is Err),
            r matches Ok(a) ==> (!name_taken(old(self)@, name@) && !login_code_taken(
                old(self)@,
                a@.login_code,
            ) && a@.login_code.len() == 21 && a@ == (AccountRec {
                id: old(self)@.next_account_id,
                name: name@,
                login_code: a@.login_code,
                updated_at: now as int,
                created_at: now as int,
            }) && final (self)@ == insert_account_tr(old(self)@, name@, a@.login_code, now as int)),
            (r is Err) ==> (r == Err::<Account, AppError>(AppError::DatabaseUniqueIndex)
                && final (self)@ == old(self)@),
    {
        let login_code = mint_token();
        self.insert_account_with_code(name, login_code, now)
    }

    /// Some stored session carries this identifier token.
    fn session_conflict(&self, identifier: &String) -> (r: bool)
        ensures
            r <==> identifier_taken(self@, identifier@),
    {
        let n = self.sessions.len();
        let mut i: usize = 0;
        while i < n
            invariant
                i <= n,
                n == self.sessions.len(),
                forall|k: int| 0 <= k < i ==> (#[trigger] self@.sessions[k]).identifier
                    != identifier@,
            decreases n - i,
        {
            let s = &self.sessions[i];
            if s.identifier.eq(identifier) {
                assert(self@.sessions[i as int].identifier == identifier@);
                assert(identifier_taken(self@, identifier@));
                return true;
            }
            i = i + 1;
        }
        false
    }

    /// Insert a session whose opaque identifier is handed in by the caller,
    /// for an existing account. Succeeds exactly when the identifier is
    /// still free; a conflict surfaces as the uniqueness-violation error and
    /// leaves the store untouched.
    pub fn insert_session_with_identifier(
        &mut self,
        identifier: String,
        account_id: i64,
        now: i64,
    ) -> (r: Result<Session, AppError>)
        requires
            old(self).wf(),
            old(self).migrated(),
            old(self)@.next_session_id < i64::MAX as int,
            has_account_id(old(self)@, account_id as int),
        ensures
            final (self).wf(),
            final (self).migrated(),
            (r is Ok) <==> !identifier_taken(old(self)@, identifier@),
            r matches Ok(s) ==> (s@ == (SessionRec {
                id: old(self)@.next_session_id,
                identifier: identifier@,
                account_id: account_id as int,
                updated_at: now as int,
                created_at: now as int,
            }) && final (self)@ == insert_session_tr(
                old(self)@,
                identifier@,
                account_id as int,
                now as int,
            )),
            (r is Err) ==> (r == Err::<Session, AppError>(AppError::DatabaseUniqueIndex)
                && final (self)@ == old(self)@),
    {
        if self.session_conflict(&identifier) {
            return Err(AppError::DatabaseUniqueIndex);
        }
        let ghost pre = self@;
        let session = Session {
            id: self.next_session_id,
            identifier: identifier,
            account_id: account_id,
            updated_at: now,
            created_at: now,
        };
        let result = session.clone();
        let ghost rec = session@;
        self.sessions.push(session);
        self.next_session_id = self.next_session_id + 1;
        proof {
            assert(self@.sessions =~= pre.sessions.push(rec));
            assert(self@ =~= insert_session_tr(pre, rec.identifier, account_id as int, now as int));
            lemma_wf_insert_session(pre, rec.identifier, account_id as int, now as int);
        }
        Ok(result)
    }

    /// Insert a session for an existing account, minting a fresh random
    /// identifier token. The token is random, so success hinges on the mint
    /// not colliding with a stored identifier.
    pub fn insert_session(&mut self, account_id: i64, now: i64) -> (r: Result<Session, AppError>)
        requires
            old(self).wf(),
            old(self).migrated(),
            old(self)@.next_session_id < i64::MAX as int,
            has_account_id(old(self)@, account_id as int),
        ensures
            final (self).wf(),
            final (self).migrated(),
            r matches Ok(s) ==> (!identifier_taken(old(self)@, s@.identifier)
                && s@.identifier.len() == 21 && s@ == (SessionRec {
                id: old(self)@.next_session_id,
                identifier: s@.identifier,
                account_id: account_id as int,
                updated_at: now as int,
                created_at: now as int,
            }) && final (self)@ == insert_session_tr(
                old(self)@,
                s@.identifier,
                account_id as int,
                now as int,
            )),
            (r is Err) ==> (r == Err::<Session, AppError>(AppError::DatabaseUniqueIndex)
                && final (self)@ == old(self)@),
    {
        let identifier = mint_token();
        self.insert_session_with_identifier(identifier, account_id, now)
    }

    /// Look an account up by id.
    pub fn account_by_id(&self, id: i64) -> (r: Result<Account, AppError>)
        ensures
            (r is Ok) <==> has_account_id(self@, id as int),
            r matches Ok(a) ==> self@.accounts.contains(a@) && a@.id == id as int,
            (r is Err) ==> r == Err::<Account, AppError>(AppError::NotFound),
    {
        let n = self.accounts.len();
        let mut i: usize = 0;
        while i < n
            invariant
                i <= n,
                n == self.accounts.len(),
                forall|k: int| 0 <= k < i ==> (#[trigger] self@.accounts[k]).id != id as int,
            decreases n - i,
        {
            if self.accounts[i].id == id {
                let a = self.accounts[i].clone();
                assert(self@.accounts[i as int] == a@);
                return Ok(a);
            }
            i = i + 1;
        }
        Err(AppError::NotFound)
    }

    /// Look a session up by its opaque identifier token.
    pub fn session_by_identifer(&self, identifier: &str) -> (r: Result<Session, AppError>)
        ensures
            (r is Ok) <==> identifier_taken(self@, identifier@),
            r matches Ok(s) ==> self@.sessions.contains(s@) && s@.identifier == identifier@,
            (r is Err) ==> r == Err::<Session, AppError>(AppError::NotFound),
    {
        let wanted = identifier.to_owned();
        let n = self.sessions.len();
        let mut i: usize = 0;
        while i < n
            invariant
                i <= n,
                n == self.sessions.len(),
                wanted@ == identifier@,
                forall|k: int| 0 <= k < i ==> (#[trigger] self@.sessions[k]).identifier
                    != identifier@,
            decreases n - i,
        {
            if self.sessions[i].identifier.eq(&wanted) {
                let s = self.sessions[i].clone();
                assert(self@.sessions[i as int] == s@);
                return Ok(s);
            }
            i = i + 1;
        }
        Err(AppError::NotFound)
    }

    /// Delete the session carrying this identifier token, handing the
    /// deleted row back; fails with the not-found error when no session
    /// carries it, leaving the store untouched.
    pub fn delete_session_by_identifier(&mut self, identifier: &str) -> (r: Result<
        Session,
        AppError,
    >)
        requires
            old(self).wf(),
            old(self).migrated(),
        ensures
            final (self).wf(),
            final (self).migrated(),
            (r is Ok) <==> identifier_taken(old(self)@, identifier@),
            r matches Ok(s) ==> (old(self)@.sessions.contains(s@) && s@.identifier == identifier@
                && final (self)@ == delete_session_tr(old(self)@, identifier@)),
            (r is Err) ==> (r == Err::<Session, AppError>(AppError::NotFound) && final (self)@
                == old(self)@),
    {
        let ghost pre = self@;
        let ghost pred = |x: SessionRec| x.identifier != identifier@;
        let wanted = identifier.to_owned();
        let mut kept: Vec<Session> = Vec::new();
        let mut found: Option<Session> = None;
        let n = self.sessions.len();
        let mut i: usize = 0;
        while i < n
            invariant
                i <= n,
                n == self.sessions.len(),
                self@ == pre,
                wanted@ == identifier@,
                pred == (|x: SessionRec| x.identifier != identifier@),
                kept@.map_values(|s: Session| s@) =~= pre.sessions.take(i as int).filter(pred),
                (found is Some) <==> (exists|k: int|
                    0 <= k < i && (#[trigger] pre.sessions[k]).identifier == identifier@),
                found matches Some(s) ==> pre.sessions.contains(s@) && s@.identifier
                    == identifier@,
            decreases n - i,
        {
            proof {
                assert(pre.sessions.take(i + 1) =~= pre.sessions.take(i as int).push(
                    pre.sessions[i as int],
                ));
                lemma_filter_push(pre.sessions.take(i as int), pre.sessions[i as int], pred);
            }
            let s = &self.sessions[i];
            if s.identifier.eq(&wanted) {
                assert(pre.sessions[i as int].identifier == identifier@);
                assert(!pred(pre.sessions[i as int]));
                if found.is_none() {
                    found = Some(s.clone());
                }
            } else {
                assert(pred(pre.sessions[i as int]));
                kept.push(s.clone());
            }
            i = i + 1;
            proof {
                assert(kept@.map_values(|s: Session| s@) =~= pre.sessions.take(i as int).filter(
                    pred,
                ));
            }
        }
        proof {
            assert(pre.sessions.take(n as int) =~= pre.sessions);
        }
        self.sessions = kept;
        proof {
            assert(self@.sessions =~= pre.sessions.filter(pred));
            lemma_wf_delete_session(pre, identifier@);
            assert(self@ =~= delete_session_tr(pre, identifier@));
            if !identifier_taken(pre, identifier@) {
                assert(forall|k: int|
                    0 <= k < pre.sessions.len() ==> pred(#[trigger] pre.sessions[k]));
                assert(self@.sessions =~= pre.sessions) by {
                    lemma_filter_all(pre.sessions, pred);
                }
                assert(self@ =~= pre);
            }
        }
        match found {
            Some(s) => Ok(s),
            None => Err(AppError::NotFound),
        }
    }

    /// The rows of `v` whose id is not `id`, in order.
    fn retain_accounts(v: &Vec<Account>, id: i64) -> (kept: Vec<Account>)
        ensures
            kept@.map_values(|a: Account| a@) == v@.map_values(|a: Account| a@).filter(
                (|a: AccountRec| a.id != id as int),
            ),
    {
        let ghost all = v@.map_values(|a: Account| a@);
        let ghost pred = |a: AccountRec| a.id != id as int;
        let mut kept: Vec<Account> = Vec::new();
        let n = v.len();
        let mut i: usize = 0;
        while i < n
            invariant
                i <= n,
                n == v.len(),
                all == v@.map_values(|a: Account| a@),
                pred == (|a: AccountRec| a.id != id as int),
                kept@.map_values(|a: Account| a@) =~= all.take(i as int).filter(pred),
            decreases n - i,
        {
            proof {
                assert(all.take(i + 1) =~= all.take(i as int).push(all[i as int]));
                lemma_filter_push(all.take(i as int), all[i as int], pred);
            }
            if v[i].id != id {
                kept.push(v[i].clone());
            }
            i = i + 1;
            proof {
                assert(kept@.map_values(|a: Account| a@) =~= all.take(i as int).filter(pred));
            }
        }
        proof {
            assert(all.take(n as int) =~= all);
        }
        kept
    }

    /// The rows of `v` not owned by account `id`, in order.
    fn retain_sessions(v: &Vec<Session>, id: i64) -> (kept: Vec<Session>)
        ensures
            kept@.map_values(|s: Session| s@) == v@.map_values(|s: Session| s@).filter(
                (|s: SessionRec| s.account_id != id as int),
            ),
    {
        let ghost all = v@.map_values(|s: Session| s@);
        let ghost pred = |s: SessionRec| s.account_id != id as int;
        let mut kept: Vec<Session> = Vec::new();
        let n = v.len();
        let mut i: usize = 0;
        while i < n
            invariant
                i <= n,
                n == v.len(),
                all == v@.map_values(|s: Session| s@),
                pred == (|s: SessionRec| s.account_id != id as int),
                kept@.map_values(|s: Session| s@) =~= all.take(i as int).filter(pred),
            decreases n - i,
        {
            proof {
                assert(all.take(i + 1) =~= all.take(i as int).push(all[i as int]));
                lemma_filter_push(all.take(i as int), all[i as int], pred);
            }
            if v[i].account_id != id {
                kept.push(v[i].clone());
            }
            i = i + 1;
            proof {
                assert(kept@.map_values(|s: Session| s@) =~= all.take(i as int).filter(pred));
            }
        }
        proof {
            assert(all.take(n as int) =~= all);
        }
        kept
    }

    /// The rows of `v` not authored by account `id`, in order.
    fn retain_posts(v: &Vec<PostRow>, id: i64) -> (kept: Vec<PostRow>)
        ensures
            kept@.map_values(|p: PostRow| p@) == v@.map_values(|p: PostRow| p@).filter(
                (|p: PostRowRec| p.account_id != id as int),
            ),
    {
        let ghost all = v@.map_values(|p: PostRow| p@);
        let ghost pred = |p: PostRowRec| p.account_id != id as int;
        let mut kept: Vec<PostRow> = Vec::new();
        let n = v.len();
        let mut i: usize = 0;
        while i < n
            invariant
                i <= n,
                n == v.len(),
                all == v@.map_values(|p: PostRow| p@),
                pred == (|p: PostRowRec| p.account_id != id as int),
                kept@.map_values(|p: PostRow| p@) =~= all.take(i as int).filter(pred),
            decreases n - i,
        {
            proof {
                assert(all.take(i + 1) =~= all.take(i as int).push(all[i as int]));
                lemma_filter_push(all.take(i as int), all[i as int], pred);
            }
            if v[i].account_id != id {
                kept.push(v[i].clone());
            }
            i = i + 1;
            proof {
                assert(kept@.map_values(|p: PostRow| p@) =~= all.take(i as int).filter(pred));
            }
        }
        proof {
            assert(all.take(n as int) =~= all);
        }
        kept
    }

    /// Among these post rows, one with this id is authored by this account.
    fn post_owned(posts: &Vec<PostRow>, post_id: i64, account_id: i64) -> (r: bool)
        ensures
            r == owned_in(
                posts@.map_values(|p: PostRow| p@),
                post_id as int,
                account_id as int,
            ),
    {
        let ghost all = posts@.map_values(|p: PostRow| p@);
        let n = posts.len();
        let mut i: usize = 0;
        while i < n
            invariant
                i <= n,
                n == posts.len(),
                all == posts@.map_values(|p: PostRow| p@),
                forall|k: int|
                    0 <= k < i ==> !((#[trigger] all[k]).id == post_id as int && all[k].account_id
                        == account_id as int),
            decreases n - i,
        {
            if posts[i].id == post_id && posts[i].account_id == account_id {
                assert(all[i as int].id == post_id as int && all[i as int].account_id
                    == account_id as int);
                return true;
            }
            i = i + 1;
        }
        false
    }

    /// The like rows of `v` surviving the deletion of account `id`: those
    /// neither given by that account nor attached to one of its posts.
    fn retain_likes(v: &Vec<Like>, posts: &Vec<PostRow>, id: i64) -> (kept: Vec<Like>)
        ensures
            kept@.map_values(|l: Like| l@) == v@.map_values(|l: Like| l@).filter(
                (|l: LikeRec| l.account_id != id as int && !owned_in(
                    posts@.map_values(|p: PostRow| p@),
                    l.post_id,
                    id as int,
                )),
            ),
    {
        let ghost all = v@.map_values(|l: Like| l@);
        let ghost rows = posts@.map_values(|p: PostRow| p@);
        let ghost pred = |l: LikeRec| l.account_id != id as int && !owned_in(
            rows,
            l.post_id,
            id as int,
        );
        let mut kept: Vec<Like> = Vec::new();
        let n = v.len();
        let mut i: usize = 0;
        while i < n
            invariant
                i <= n,
                n == v.len(),
                all == v@.map_values(|l: Like| l@),
                rows == posts@.map_values(|p: PostRow| p@),
                pred == (|l: LikeRec| l.account_id != id as int && !owned_in(
                    rows,
                    l.post_id,
                    id as int,
                )),
                kept@.map_values(|l: Like| l@) =~= all.take(i as int).filter(pred),
            decreases n - i,
        {
            proof {
                assert(all.take(i + 1) =~= all.take(i as int).push(all[i as int]));
                lemma_filter_push(all.take(i as int), all[i as int], pred);
            }
            if v[i].account_id != id && !Self::post_owned(posts, v[i].post_id, id) {
                kept.push(v[i]);
            }
            i = i + 1;
            proof {
                assert(kept@.map_values(|l: Like| l@) =~= all.take(i as int).filter(pred));
            }
        }
        proof {
            assert(all.take(n as int) =~= all);
        }
        kept
    }

    /// The comment rows of `v` surviving the deletion of account `id`: those
    /// neither written by that account nor attached to one of its posts.
    fn retain_comments(v: &Vec<CommentRow>, posts: &Vec<PostRow>, id: i64) -> (kept: Vec<
        CommentRow,
    >)
        ensures
            kept@.map_values(|c: CommentRow| c@) == v@.map_values(|c: CommentRow| c@).filter(
                (|c: CommentRowRec| c.account_id != id as int && !owned_in(
                    posts@.map_values(|p: PostRow| p@),
                    c.post_id,
                    id as int,
                )),
            ),
    {
        let ghost all = v@.map_values(|c: CommentRow| c@);
        let ghost rows = posts@.map_values(|p: PostRow| p@);
        let ghost pred = |c: CommentRowRec| c.account_id != id as int && !owned_in(
            rows,
            c.post_id,
            id as int,
        );
        let mut kept: Vec<CommentRow> = Vec::new();
        let n = v.len();
        let mut i: usize = 0;
        while i < n
            invariant
                i <= n,
                n == v.len(),
                all == v@.map_values(|c: CommentRow| c@),
                rows == posts@.map_values(|p: PostRow| p@),
                pred == (|c: CommentRowRec| c.account_id != id as int && !owned_in(
                    rows,
                    c.post_id,
                    id as int,
                )),
                kept@.map_values(|c: CommentRow| c@) =~= all.take(i as int).filter(pred),
            decreases n - i,
        {
            proof {
                assert(all.take(i + 1) =~= all.take(i as int).push(all[i as int]));
                lemma_filter_push(all.take(i as int), all[i as int], pred);
            }
            if v[i].account_id != id && !Self::post_owned(posts, v[i].post_id, id) {
                kept.push(v[i].clone());
            }
            i = i + 1;
            proof {
                assert(kept@.map_values(|c: CommentRow| c@) =~= all.take(i as int).filter(pred));
            }
        }
        proof {
            assert(all.take(n as int) =~= all);
        }
        kept
    }

    /// Delete the account carrying this id, handing the deleted row back.
    /// The deletion cascades: the account's sessions and posts go with it,
    /// as does every like and comment either written by the account or
    /// attached to one of its posts. Fails with the not-found error when no
    /// account carries the id, leaving the store untouched.
    pub fn delete_account_by_id(&mut self, id: i64) -> (r: Result<Account, AppError>)
        requires
            old(self).wf(),
            old(self).migrated(),
        ensures
            final (self).wf(),
            final (self).migrated(),
            (r is Ok) <==> has_account_id(old(self)@, id as int),
            r matches Ok(a) ==> (old(self)@.accounts.contains(a@) && a@.id == id as int && final (
            self)@ == delete_account_tr(old(self)@, id as int)),
            (r is Err) ==> (r == Err::<Account, AppError>(AppError::NotFound) && final (self)@
                == old(self)@),
    {
        let ghost pre = self@;
        let found = match self.account_by_id(id) {
            Ok(a) => a,
            Err(_) => {
                return Err(AppError::NotFound);
            },
        };
        let kept_likes = Self::retain_likes(&self.likes, &self.posts, id);
        let kept_comments = Self::retain_comments(&self.comments, &self.posts, id);
        let kept_posts = Self::retain_posts(&self.posts, id);
        let kept_sessions = Self::retain_sessions(&self.sessions, id);
        let kept_accounts = Self::retain_accounts(&self.accounts, id);
        self.likes = kept_likes;
        self.comments = kept_comments;
        self.posts = kept_posts;
        self.sessions = kept_sessions;
        self.accounts = kept_accounts;
        proof {
            lemma_wf_delete_account(pre, id as int);
            assert(self@ =~= delete_account_tr(pre, id as int));
        }
        Ok(found)
    }

    /// Some post row carries this id.
    fn post_exists(&self, id: i64) -> (r: bool)
        ensures
            r == has_post_id(self@, id as int),
    {
        let n = self.posts.len();
        let mut i: usize = 0;
        while i < n
            invariant
                i <= n,
                n == self.posts.len(),
                forall|k: int| 0 <= k < i ==> (#[trigger] self@.posts[k]).id != id as int,
            decreases n - i,
        {
            if self.posts[i].id == id {
                assert(self@.posts[i as int].id == id as int);
                return true;
            }
            i = i + 1;
        }
        false
    }

    /// Some like row pairs this account with this post.
    fn like_exists(&self, account_id: i64, post_id: i64) -> (r: bool)
        ensures
            r == has_like(self@, account_id as int, post_id as int),
    {
        let n = self.likes.len();
        let mut i: usize = 0;
        while i < n
            invariant
                i <= n,
                n == self.likes.len(),
                forall|k: int|
                    0 <= k < i ==> !((#[trigger] self@.likes[k]).account_id == account_id as int
                        && self@.likes[k].post_id == post_id as int),
            decreases n - i,
        {
            if self.likes[i].account_id == account_id && self.likes[i].post_id == post_id {
                assert(self@.likes[i as int].account_id == account_id as int
                    && self@.likes[i as int].post_id == post_id as int);
                return true;
            }
            i = i + 1;
        }
        false
    }

    /// Number of like rows for this post; zero when there is none.
    fn count_likes(&self, post_id: i64) -> (c: i64)
        requires
            self.wf(),
        ensures
            c as int == like_count_of(self@, post_id as int),
            c >= 0,
    {
        proof {
            lemma_len_bounds(self@);
        }
        let ghost pred = |l: LikeRec| l.post_id == post_id as int;
        let n = self.likes.len();
        let mut c: i64 = 0;
        let mut i: usize = 0;
        while i < n
            invariant
                i <= n,
                n == self.likes.len(),
                self@.likes.len() < self@.next_like_id <= i64::MAX as int,
                pred == (|l: LikeRec| l.post_id == post_id as int),
                0 <= c as int <= i as int,
                c as int == self@.likes.take(i as int).filter(pred).len(),
            decreases n - i,
        {
            proof {
                assert(self@.likes.take(i + 1) =~= self@.likes.take(i as int).push(
                    self@.likes[i as int],
                ));
                lemma_filter_push(self@.likes.take(i as int), self@.likes[i as int], pred);
            }
            if self.likes[i].post_id == post_id {
                c = c + 1;
            }
            i = i + 1;
        }
        proof {
            assert(self@.likes.take(n as int) =~= self@.likes);
        }
        c
    }

    /// Number of comment rows for this post; zero when there is none.
    fn count_comments(&self, post_id: i64) -> (c: i64)
        requires
            self.wf(),
        ensures
            c as int == comment_count_of(self@, post_id as int),
            c >= 0,
    {
        proof {
            lemma_len_bounds(self@);
        }
        let ghost pred = |x: CommentRowRec| x.post_id == post_id as int;
        let n = self.comments.len();
        let mut c: i64 = 0;
        let mut i: usize = 0;
        while i < n
            invariant
                i <= n,
                n == self.comments.len(),
                self@.comments.len() < self@.next_comment_id <= i64::MAX as int,
                pred == (|x: CommentRowRec| x.post_id == post_id as int),
                0 <= c as int <= i as int,
                c as int == self@.comments.take(i as int).filter(pred).len(),
            decreases n - i,
        {
            proof {
                assert(self@.comments.take(i + 1) =~= self@.comments.take(i as int).push(
                    self@.comments[i as int],
                ));
                lemma_filter_push(self@.comments.take(i as int), self@.comments[i as int], pred);
            }
            if self.comments[i].post_id == post_id {
                c = c + 1;
            }
            i = i + 1;
        }
        proof {
            assert(self@.comments.take(n as int) =~= self@.comments);
        }
        c
    }

    /// A post row as the viewer sees it: author handle, like count, the
    /// viewer's own like, comment count.
    fn annotate(&self, row: &PostRow, viewer: i64) -> (p: Post)
        requires
            self.wf(),
            has_account_id(self@, row@.account_id),
        ensures
            p@ == annotate_post(self@, viewer as int, row@),
    {
        let author = match self.account_by_id(row.account_id) {
            Ok(a) => a,
            Err(_) => {
                return vstd::pervasive::unreached();
            },
        };
        proof {
            lemma_find_account(self@.accounts, row@.account_id);
            let k = choose|k: int|
                0 <= k < self@.accounts.len() && self@.accounts[k] == author@;
            assert(find_account(self@.accounts, row@.account_id) == Some(self@.accounts[k]));
            assert(author_name(self@, row@.account_id) == author@.name);
        }
        let like_count = self.count_likes(row.id);
        let liked = self.like_exists(viewer, row.id);
        let comment_count = self.count_comments(row.id);
        Post {
            id: row.id,
            body: row.body.clone(),
            account_id: row.account_id,
            account_name: author.name,
            like_count: Some(like_count),
            liked_by_current_account: if liked {
                Some(viewer)
            } else {
                None
            },
            updated_at: row.updated_at,
            created_at: row.created_at,
            comment_count: comment_count,
        }
    }

    /// Insert a post authored by the given stored account and hand it back
    /// as the author sees it: no likes yet, no comments, the author's own
    /// handle joined in.
    pub fn insert_post(&mut self, body: String, current_account: Account, now: i64) -> (r: Result<
        Post,
        AppError,
    >)
        requires
            old(self).wf(),
            old(self).migrated(),
            old(self)@.next_post_id < i64::MAX as int,
            old(self)@.accounts.contains(current_account@),
        ensures
            final (self).wf(),
            final (self).migrated(),
            (r is Ok),
            r matches Ok(p) ==> (p@ == (PostRec {
                id: old(self)@.next_post_id,
                body: body@,
                account_id: current_account@.id,
                account_name: current_account@.name,
                like_count: Some(0),
                liked_by_current_account: None,
                updated_at: now as int,
                created_at: now as int,
                comment_count: 0,
            }) && final (self)@ == insert_post_tr(
                old(self)@,
                body@,
                current_account@.id,
                now as int,
            )),
    {
        let ghost pre = self@;
        proof {
            let k = choose|k: int|
                0 <= k < pre.accounts.len() && pre.accounts[k] == current_account@;
            assert(has_account_id(pre, current_account@.id));
        }
        let row = PostRow {
            id: self.next_post_id,
            body: body,
            account_id: current_account.id,
            updated_at: now,
            created_at: now,
        };
        let result = Post {
            id: row.id,
            body: row.body.clone(),
            account_id: row.account_id,
            account_name: current_account.name,
            like_count: Some(0),
            liked_by_current_account: None,
            updated_at: now,
            created_at: now,
            comment_count: 0,
        };
        let ghost rec = row@;
        self.posts.push(row);
        self.next_post_id = self.next_post_id + 1;
        proof {
            assert(self@.posts =~= pre.posts.push(rec));
            assert(self@ =~= insert_post_tr(pre, rec.body, current_account@.id, now as int));
            lemma_wf_insert_post(pre, rec.body, current_account@.id, now as int);
        }
        Ok(result)
    }

    /// Insert a like pairing this account with this post. The pair behaves
    /// as if under a unique constraint: liking a post twice surfaces the
    /// uniqueness-violation error, a missing account or post the generic
    /// database error, and either failure leaves the store untouched.
    pub fn insert_like(&mut self, account_id: i64, post_id: i64, now: i64) -> (r: Result<
        Like,
        AppError,
    >)
        requires
            old(self).wf(),
            old(self).migrated(),
            old(self)@.next_like_id < i64::MAX as int,
        ensures
            final (self).wf(),
            final (self).migrated(),
            (r is Ok) <==> (has_account_id(old(self)@, account_id as int) && has_post_id(
                old(self)@,
                post_id as int,
            ) && !has_like(old(self)@, account_id as int, post_id as int)),
            r matches Ok(l) ==> (l@ == (LikeRec {
                id: old(self)@.next_like_id,
                account_id: account_id as int,
                post_id: post_id as int,
                updated_at: now as int,
                created_at: now as int,
            }) && final (self)@ == insert_like_tr(
                old(self)@,
                account_id as int,
                post_id as int,
                now as int,
            )),
            (r is Err) ==> final (self)@ == old(self)@,
            (has_account_id(old(self)@, account_id as int) && has_post_id(
                old(self)@,
                post_id as int,
            ) && has_like(old(self)@, account_id as int, post_id as int)) ==> r == Err::<
                Like,
                AppError,
            >(AppError::DatabaseUniqueIndex),
            !(has_account_id(old(self)@, account_id as int) && has_post_id(
                old(self)@,
                post_id as int,
            )) ==> r == Err::<Like, AppError>(AppError::Database),
    {
        let account_ok = match self.account_by_id(account_id) {
            Ok(_) => true,
            Err(_) => false,
        };
        if !account_ok || !self.post_exists(post_id) {
            return Err(AppError::Database);
        }
        if self.like_exists(account_id, post_id) {
            return Err(AppError::DatabaseUniqueIndex);
        }
        let ghost pre = self@;
        let like = Like {
            id: self.next_like_id,
            account_id: account_id,
            post_id: post_id,
            updated_at: now,
            created_at: now,
        };
        let ghost rec = like@;
        self.likes.push(like);
        self.next_like_id = self.next_like_id + 1;
        proof {
            assert(self@.likes =~= pre.likes.push(rec));
            assert(self@ =~= insert_like_tr(pre, account_id as int, post_id as int, now as int));
            lemma_wf_insert_like(pre, account_id as int, post_id as int, now as int);
        }
        Ok(like)
    }

    /// Delete every like pairing this account with this post. Succeeds
    /// whether or not such a like exists, mirroring an unconditional SQL
    /// delete.
    pub fn delete_like(&mut self, account_id: i64, post_id: i64) -> (r: Result<bool, AppError>)
        requires
            old(self).wf(),
            old(self).migrated(),
        ensures
            final (self).wf(),
            final (self).migrated(),
            r == Ok::<bool, AppError>(true),
            final (self)@ == delete_like_tr(old(self)@, account_id as int, post_id as int),
    {
        let ghost pre = self@;
        let ghost pred = |l: LikeRec| !(l.account_id == account_id as int && l.post_id
            == post_id as int);
        let mut kept: Vec<Like> = Vec::new();
        let n = self.likes.len();
        let mut i: usize = 0;
        while i < n
            invariant
                i <= n,
                n == self.likes.len(),
                self@ == pre,
                pred == (|l: LikeRec| !(l.account_id == account_id as int && l.post_id
                    == post_id as int)),
                kept@.map_values(|l: Like| l@) =~= pre.likes.take(i as int).filter(pred),
            decreases n - i,
        {
            proof {
                assert(pre.likes.take(i + 1) =~= pre.likes.take(i as int).push(
                    pre.likes[i as int],
                ));
                lemma_filter_push(pre.likes.take(i as int), pre.likes[i as int], pred);
            }
            if !(self.likes[i].account_id == account_id && self.likes[i].post_id == post_id) {
                kept.push(self.likes[i]);
            }
            i = i + 1;
            proof {
                assert(kept@.map_values(|l: Like| l@) =~= pre.likes.take(i as int).filter(pred));
            }
        }
        proof {
            assert(pre.likes.take(n as int) =~= pre.likes);
        }
        self.likes = kept;
        proof {
            lemma_wf_delete_like(pre, account_id as int, post_id as int);
            assert(self@ =~= delete_like_tr(pre, account_id as int, post_id as int));
        }
        Ok(true)
    }

    /// Insert a comment by an existing account and hand it back with the
    /// author's handle joined in. A missing post surfaces as the generic
    /// database error and leaves the store untouched.
    pub fn insert_comment(
        &mut self,
        post_id: i64,
        account_id: i64,
        body: String,
        now: i64,
    ) -> (r: Result<Comment, AppError>)
        requires
            old(self).wf(),
            old(self).migrated(),
            old(self)@.next_comment_id < i64::MAX as int,
            has_account_id(old(self)@, account_id as int),
        ensures
            final (self).wf(),
            final (self).migrated(),
            (r is Ok) <==> has_post_id(old(self)@, post_id as int),
            r matches Ok(c) ==> (c@ == (CommentRec {
                id: old(self)@.next_comment_id,
                account_id: account_id as int,
                account_name: author_name(old(self)@, account_id as int),
                post_id: post_id as int,
                body: body@,
                updated_at: now as int,
                created_at: now as int,
            }) && final (self)@ == insert_comment_tr(
                old(self)@,
                post_id as int,
                account_id as int,
                body@,
                now as int,
            )),
            (r is Err) ==> (r == Err::<Comment, AppError>(AppError::Database) && final (self)@
                == old(self)@),
    {
        if !self.post_exists(post_id) {
            return Err(AppError::Database);
        }
        let author = match self.account_by_id(account_id) {
            Ok(a) => a,
            Err(_) => {
                return vstd::pervasive::unreached();
            },
        };
        proof {
            lemma_find_account(self@.accounts, account_id as int);
            let k = choose|k: int|
                0 <= k < self@.accounts.len() && self@.accounts[k] == author@;
            assert(find_account(self@.accounts, account_id as int) == Some(self@.accounts[k]));
            assert(author_name(self@, account_id as int) == author@.name);
        }
        let ghost pre = self@;
        let row = CommentRow {
            id: self.next_comment_id,
            account_id: account_id,
            post_id: post_id,
            body: body,
            updated_at: now,
            created_at: now,
        };
        let result = Comment {
            id: row.id,
            account_id: row.account_id,
            account_name: author.name,
            post_id: row.post_id,
            body: row.body.clone(),
            updated_at: now,
            created_at: now,
        };
        let ghost rec = row@;
        self.comments.push(row);
        self.next_comment_id = self.next_comment_id + 1;
        proof {
            assert(self@.comments =~= pre.comments.push(rec));
            assert(self@ =~= insert_comment_tr(
                pre,
                post_id as int,
                account_id as int,
                rec.body,
                now as int,
            ));
            lemma_wf_insert_comment(pre, post_id as int, account_id as int, rec.body, now as int);
        }
        Ok(result)
    }

    /// Feed comparison on stored rows.
    fn row_earlier(a: &PostRow, b: &PostRow) -> (r: bool)
        ensures
            r == row_before(a@, b@),
    {
        a.created_at > b.created_at || (a.created_at == b.created_at && a.id < b.id)
    }

    /// A row-for-row copy of stored posts.
    fn copy_posts(v: &Vec<PostRow>) -> (r: Vec<PostRow>)
        ensures
            rows_of(r@) == rows_of(v@),
    {
        let mut out: Vec<PostRow> = Vec::new();
        let n = v.len();
        let mut i: usize = 0;
        while i < n
            invariant
                i <= n,
                n == v.len(),
                out@.len() == i,
                forall|t: int| 0 <= t < i ==> (#[trigger] out@[t])@ == v@[t]@,
            decreases n - i,
        {
            out.push(v[i].clone());
            i = i + 1;
        }
        proof {
            assert forall|t: int| 0 <= t < n implies rows_of(out@)[t] == rows_of(v@)[t] by {
                assert(out@[t]@ == v@[t]@);
            }
            assert(rows_of(out@) =~= rows_of(v@));
        }
        out
    }

    /// Take the row that the feed reports next out of those still in play:
    /// the newest, a timestamp tie broken toward the earlier row.
    fn take_best(v: &mut Vec<PostRow>) -> (row: PostRow)
        requires
            old(v)@.len() > 0,
            forall|i: int, j: int|
                0 <= i < j < rows_of(old(v)@).len() ==> (#[trigger] rows_of(old(v)@)[i]).id != (
                #[trigger] rows_of(old(v)@)[j]).id,
        ensures
            (exists|idx: int|
                0 <= idx < rows_of(old(v)@).len() && row@ == rows_of(old(v)@)[idx] && rows_of(
                    final (v)@,
                ) == rows_of(old(v)@).remove(idx)),
            forall|j: int|
                0 <= j < rows_of(final (v)@).len() ==> row_before(
                    row@,
                    #[trigger] rows_of(final (v)@)[j],
                ),
    {
        let ghost rem_snap = rows_of(v@);
        let m = v.len();
        let mut best: usize = 0;
        let mut j: usize = 1;
        while j < m
            invariant
                rows_of(v@) == rem_snap,
                m == v@.len(),
                0 < m,
                (best as int) < (j as int),
                j <= m,
                forall|i2: int, j2: int|
                    0 <= i2 < j2 < rem_snap.len() ==> (#[trigger] rem_snap[i2]).id != (
                    #[trigger] rem_snap[j2]).id,
                forall|t: int|
                    0 <= t < j && t != best as int ==> row_before(
                        rem_snap[best as int],
                        #[trigger] rem_snap[t],
                    ),
            decreases m - j,
        {
            if Self::row_earlier(&v[j], &v[best]) {
                proof {
                    assert(row_before(rem_snap[j as int], rem_snap[best as int]));
                    assert forall|t: int|
                        0 <= t < j + 1 && t != j as int implies row_before(
                        rem_snap[j as int],
                        #[trigger] rem_snap[t],
                    ) by {
                        if t != best as int {
                            assert(row_before(rem_snap[best as int], rem_snap[t]));
                        }
                    }
                }
                best = j;
            } else {
                proof {
                    assert(!row_before(rem_snap[j as int], rem_snap[best as int]));
                    assert(rem_snap[j as int].id != rem_snap[best as int].id);
                    assert(row_before(rem_snap[best as int], rem_snap[j as int]));
                }
            }
            j = j + 1;
        }
        let ghost vec_snap = v@;
        let row = v.remove(best);
        proof {
            vec_snap.remove_ensures(best as int);
            rem_snap.remove_ensures(best as int);
            assert forall|t: int|
                0 <= t < rows_of(v@).len() implies rows_of(v@)[t] == rem_snap.remove(
                best as int,
            )[t] by {
                if t < best as int {
                    assert(v@[t] == vec_snap[t]);
                } else {
                    assert(v@[t] == vec_snap[t + 1]);
                }
            }
            assert(rows_of(v@) =~= rem_snap.remove(best as int));
            assert(row@ == rem_snap[best as int]);
            assert forall|t: int|
                0 <= t < rows_of(v@).len() implies row_before(
                row@,
                #[trigger] rows_of(v@)[t],
            ) by {
                let ot = if t < best as int {
                    t
                } else {
                    t + 1
                };
                assert(rows_of(v@)[t] == rem_snap[ot]);
                assert(row_before(rem_snap[best as int], rem_snap[ot]));
            }
        }
        row
    }

    /// The feed: the thirty most recent posts — all of them when fewer are
    /// stored — newest first, a timestamp tie broken toward the earlier
    /// row, each annotated for the viewing account. An anonymous viewer is
    /// treated as an id no account carries, so no like marker is set.
    pub fn posts(&self, current_account: Option<&Account>) -> (r: Result<Vec<Post>, AppError>)
        requires
            self.wf(),
            self.migrated(),
        ensures
            (r is Ok),
            r matches Ok(v) ==> is_feed_of(
                self@,
                match current_account {
                    Some(a) => a@.id,
                    None => 0,
                },
                posts_of(v@),
            ),
    {
        let viewer: i64 = match current_account {
            Some(a) => a.id,
            None => 0,
        };
        let ghost s = self@;
        let mut remaining = Self::copy_posts(&self.posts);
        let mut out: Vec<Post> = Vec::new();
        proof {
            lemma_feed_init(s, viewer as int);
            assert(posts_of(out@) =~= Seq::<PostRec>::empty());
        }
        while out.len() < 30 && remaining.len() > 0
            invariant
                self.wf(),
                self.migrated(),
                s == self@,
                viewer as int == (match current_account {
                    Some(a) => a@.id,
                    None => 0,
                }),
                out@.len() <= 30,
                feed_inv(s, viewer as int, posts_of(out@), rows_of(remaining@)),
            decreases remaining@.len(),
        {
            let ghost rem_snap = rows_of(remaining@);
            let ghost res_snap = posts_of(out@);
            let row = Self::take_best(&mut remaining);
            let ghost idx = choose|idx: int|
                0 <= idx < rem_snap.len() && row@ == rem_snap[idx] && rows_of(remaining@)
                    == rem_snap.remove(idx);
            proof {
                let k = choose|k: int|
                    0 <= k < s.posts.len() && (#[trigger] rem_snap[idx]) == s.posts[k];
                assert(has_account_id(s, s.posts[k].account_id));
            }
            let p = self.annotate(&row, viewer);
            proof {
                rem_snap.remove_ensures(idx);
                assert forall|t: int|
                    0 <= t < rem_snap.len() && t != idx implies row_before(
                    rem_snap[idx],
                    #[trigger] rem_snap[t],
                ) by {
                    let nt = if t < idx {
                        t
                    } else {
                        t - 1
                    };
                    assert(rows_of(remaining@)[nt] == rem_snap[t]);
                    assert(row_before(row@, rows_of(remaining@)[nt]));
                }
                lemma_feed_step(s, viewer as int, res_snap, rem_snap, idx, p@);
            }
            out.push(p);
            proof {
                assert(posts_of(out@) =~= res_snap.push(p@));
            }
        }
        proof {
            lemma_feed_done(
                s,
                viewer as int,
                posts_of(out@),
                rows_of(remaining@),
            );
        }
        Ok(out)
    }

    /// Look a post up by id, annotated for the viewing account; an absent
    /// viewer is treated as an id no account carries.
    pub fn post_by_id(&self, id: i64, current_account: Option<Account>) -> (r: Result<
        Post,
        AppError,
    >)
        requires
            self.wf(),
            self.migrated(),
        ensures
            (r is Ok) <==> has_post_id(self@, id as int),
            r matches Ok(p) ==> (exists|k: int|
                0 <= k < self@.posts.len() && (#[trigger] self@.posts[k]).id == id as int && p@
                    == annotate_post(
                    self@,
                    match current_account {
                        Some(a) => a@.id,
                        None => 0,
                    },
                    self@.posts[k],
                )),
            (r is Err) ==> r == Err::<Post, AppError>(AppError::NotFound),
    {
        let viewer: i64 = match &current_account {
            Some(a) => a.id,
            None => 0,
        };
        proof {
            assert(viewer as int == (match current_account {
                Some(a) => a@.id,
                None => 0,
            }));
        }
        let n = self.posts.len();
        let mut i: usize = 0;
        while i < n
            invariant
                i <= n,
                n == self.posts.len(),
                self.wf(),
                viewer as int == (match current_account {
                    Some(a) => a@.id,
                    None => 0,
                }),
                forall|k: int| 0 <= k < i ==> (#[trigger] self@.posts[k]).id != id as int,
            decreases n - i,
        {
            if self.posts[i].id == id {
                let row = self.posts[i].clone();
                proof {
                    assert(self@.posts[i as int].id == id as int);
                    assert(row@ == self@.posts[i as int]);
                    assert(has_account_id(self@, self@.posts[i as int].account_id));
                }
                let p = self.annotate(&row, viewer);
                proof {
                    let ki = i as int;
                    assert(0 <= ki < self@.posts.len() && self@.posts[ki].id == id as int && p@
                        == annotate_post(
                        self@,
                        match current_account {
                            Some(a) => a@.id,
                            None => 0,
                        },
                        self@.posts[ki],
                    ));
                }
                return Ok(p);
            }
            i = i + 1;
        }
        Err(AppError::NotFound)
    }

    /// A comment row as reported: its author's handle joined in.
    fn annotate_comment_row(&self, row: &CommentRow) -> (c: Comment)
        requires
            self.wf(),
            has_account_id(self@, row@.account_id),
        ensures
            c@ == annotate_comment(self@, row@),
    {
        let author = match self.account_by_id(row.account_id) {
            Ok(a) => a,
            Err(_) => {
                return vstd::pervasive::unreached();
            },
        };
        proof {
            lemma_find_account(self@.accounts, row@.account_id);
            let k = choose|k: int|
                0 <= k < self@.accounts.len() && self@.accounts[k] == author@;
            assert(find_account(self@.accounts, row@.account_id) == Some(self@.accounts[k]));
            assert(author_name(self@, row@.account_id) == author@.name);
        }
        Comment {
            id: row.id,
            account_id: row.account_id,
            account_name: author.name,
            post_id: row.post_id,
            body: row.body.clone(),
            updated_at: row.updated_at,
            created_at: row.created_at,
        }
    }

    /// Look a comment up by id, its author's handle joined in.
    pub fn comment_by_id(&self, id: i64) -> (r: Result<Comment, AppError>)
        requires
            self.wf(),
            self.migrated(),
        ensures
            (r is Ok) <==> has_comment_id(self@, id as int),
            r matches Ok(c) ==> (exists|k: int|
                0 <= k < self@.comments.len() && (#[trigger] self@.comments[k]).id == id as int
                    && c@ == annotate_comment(self@, self@.comments[k])),
            (r is Err) ==> r == Err::<Comment, AppError>(AppError::NotFound),
    {
        let n = self.comments.len();
        let mut i: usize = 0;
        while i < n
            invariant
                i <= n,
                n == self.comments.len(),
                self.wf(),
                forall|k: int| 0 <= k < i ==> (#[trigger] self@.comments[k]).id != id as int,
            decreases n - i,
        {
            if self.comments[i].id == id {
                let row = self.comments[i].clone();
                proof {
                    assert(self@.comments[i as int].id == id as int);
                    assert(row@ == self@.comments[i as int]);
                    assert(has_account_id(self@, self@.comments[i as int].account_id));
                }
                let c = self.annotate_comment_row(&row);
                return Ok(c);
            }
            i = i + 1;
        }
        Err(AppError::NotFound)
    }

    /// Listing comparison on comment rows.
    fn crow_earlier(a: &CommentRow, b: &CommentRow) -> (r: bool)
        ensures
            r == crow_before(a@, b@),
    {
        a.created_at < b.created_at || (a.created_at == b.created_at && a.id < b.id)
    }

    /// The stored comment rows on one post, in storage order.
    fn comments_for_post(&self, post_id: i64) -> (out: Vec<CommentRow>)
        ensures
            comment_rows_of(out@) == comments_on(self@, post_id as int),
    {
        let ghost pred = |c: CommentRowRec| c.post_id == post_id as int;
        let mut out: Vec<CommentRow> = Vec::new();
        let n = self.comments.len();
        let mut i: usize = 0;
        while i < n
            invariant
                i <= n,
                n == self.comments.len(),
                pred == (|c: CommentRowRec| c.post_id == post_id as int),
                comment_rows_of(out@) =~= self@.comments.take(i as int).filter(pred),
            decreases n - i,
        {
            proof {
                assert(self@.comments.take(i + 1) =~= self@.comments.take(i as int).push(
                    self@.comments[i as int],
                ));
                lemma_filter_push(self@.comments.take(i as int), self@.comments[i as int], pred);
            }
            if self.comments[i].post_id == post_id {
                out.push(self.comments[i].clone());
            }
            i = i + 1;
            proof {
                assert(comment_rows_of(out@) =~= self@.comments.take(i as int).filter(pred));
            }
        }
        proof {
            assert(self@.comments.take(n as int) =~= self@.comments);
        }
        out
    }

    /// Take the comment that the listing reports next out of those still in
    /// play: the oldest, a timestamp tie broken toward the earlier row.
    fn take_first_comment(v: &mut Vec<CommentRow>) -> (row: CommentRow)
        requires
            old(v)@.len() > 0,
            forall|i: int, j: int|
                0 <= i < j < comment_rows_of(old(v)@).len() ==> (#[trigger] comment_rows_of(
                    old(v)@,
                )[i]).id != (#[trigger] comment_rows_of(old(v)@)[j]).id,
        ensures
            (exists|idx: int|
                0 <= idx < comment_rows_of(old(v)@).len() && row@ == comment_rows_of(old(v)@)[idx]
                    && comment_rows_of(final (v)@) == comment_rows_of(old(v)@).remove(idx)),
            forall|j: int|
                0 <= j < comment_rows_of(final (v)@).len() ==> crow_before(
                    row@,
                    #[trigger] comment_rows_of(final (v)@)[j],
                ),
    {
        let ghost rem_snap = comment_rows_of(v@);
        let m = v.len();
        let mut best: usize = 0;
        let mut j: usize = 1;
        while j < m
            invariant
                comment_rows_of(v@) == rem_snap,
                m == v@.len(),
                0 < m,
                (best as int) < (j as int),
                j <= m,
                forall|i2: int, j2: int|
                    0 <= i2 < j2 < rem_snap.len() ==> (#[trigger] rem_snap[i2]).id != (
                    #[trigger] rem_snap[j2]).id,
                forall|t: int|
                    0 <= t < j && t != best as int ==> crow_before(
                        rem_snap[best as int],
                        #[trigger] rem_snap[t],
                    ),
            decreases m - j,
        {
            if Self::crow_earlier(&v[j], &v[best]) {
                proof {
                    assert(crow_before(rem_snap[j as int], rem_snap[best as int]));
                    assert forall|t: int|
                        0 <= t < j + 1 && t != j as int implies crow_before(
                        rem_snap[j as int],
                        #[trigger] rem_snap[t],
                    ) by {
                        if t != best as int {
                            assert(crow_before(rem_snap[best as int], rem_snap[t]));
                        }
                    }
                }
                best = j;
            } else {
                proof {
                    assert(!crow_before(rem_snap[j as int], rem_snap[best as int]));
                    assert(rem_snap[j as int].id != rem_snap[best as int].id);
                    assert(crow_before(rem_snap[best as int], rem_snap[j as int]));
                }
            }
            j = j + 1;
        }
        let ghost vec_snap = v@;
        let row = v.remove(best);
        proof {
            vec_snap.remove_ensures(best as int);
            rem_snap.remove_ensures(best as int);
            assert forall|t: int|
                0 <= t < comment_rows_of(v@).len() implies comment_rows_of(v@)[t]
                == rem_snap.remove(best as int)[t] by {
                if t < best as int {
                    assert(v@[t] == vec_snap[t]);
                } else {
                    assert(v@[t] == vec_snap[t + 1]);
                }
            }
            assert(comment_rows_of(v@) =~= rem_snap.remove(best as int));
            assert(row@ == rem_snap[best as int]);
            assert forall|t: int|
                0 <= t < comment_rows_of(v@).len() implies crow_before(
                row@,
                #[trigger] comment_rows_of(v@)[t],
            ) by {
                let ot = if t < best as int {
                    t
                } else {
                    t + 1
                };
                assert(comment_rows_of(v@)[t] == rem_snap[ot]);
                assert(crow_before(rem_snap[best as int], rem_snap[ot]));
            }
        }
        row
    }

    /// The comment listing of one post: its thirty oldest comments — all
    /// of them when fewer are stored — oldest first, a timestamp tie
    /// broken toward the earlier row, each with its author's handle joined
    /// in.
    pub fn comments_by_post_id(&self, post_id: i64) -> (r: Result<Vec<Comment>, AppError>)
        requires
            self.wf(),
            self.migrated(),
        ensures
            (r is Ok),
            r matches Ok(v) ==> is_comments_of(self@, post_id as int, comments_of(v@)),
    {
        let ghost s = self@;
        let ghost base = comments_on(s, post_id as int);
        let mut remaining = self.comments_for_post(post_id);
        let mut out: Vec<Comment> = Vec::new();
        proof {
            lemma_filter_elems(s.comments, |c: CommentRowRec| c.post_id == post_id as int);
            lemma_filter_pairwise(
                s.comments,
                |c: CommentRowRec| c.post_id == post_id as int,
                |a: CommentRowRec, b: CommentRowRec| a.id < b.id,
            );
            lemma_listing_init(s, base);
            assert(comments_of(out@) =~= Seq::<CommentRec>::empty());
        }
        while out.len() < 30 && remaining.len() > 0
            invariant
                self.wf(),
                self.migrated(),
                s == self@,
                base == comments_on(s, post_id as int),
                forall|i: int, j: int|
                    0 <= i < j < base.len() ==> (#[trigger] base[i]).id < (#[trigger] base[j]).id,
                out@.len() <= 30,
                listing_inv(s, base, comments_of(out@), comment_rows_of(remaining@)),
            decreases remaining@.len(),
        {
            let ghost rem_snap = comment_rows_of(remaining@);
            let ghost res_snap = comments_of(out@);
            let row = Self::take_first_comment(&mut remaining);
            let ghost idx = choose|idx: int|
                0 <= idx < rem_snap.len() && row@ == rem_snap[idx] && comment_rows_of(remaining@)
                    == rem_snap.remove(idx);
            proof {
                lemma_filter_elems(s.comments, |c: CommentRowRec| c.post_id == post_id as int);
                assert(crow_among(base, rem_snap[idx]));
                let k = choose|k: int|
                    0 <= k < base.len() && (#[trigger] base[k]) == rem_snap[idx];
                assert(s.comments.contains(base[k]));
                let m = choose|m: int|
                    0 <= m < s.comments.len() && s.comments[m] == base[k];
                assert(has_account_id(s, s.comments[m].account_id));
            }
            let c = self.annotate_comment_row(&row);
            proof {
                rem_snap.remove_ensures(idx);
                assert forall|t: int|
                    0 <= t < rem_snap.len() && t != idx implies crow_before(
                    rem_snap[idx],
                    #[trigger] rem_snap[t],
                ) by {
                    let nt = if t < idx {
                        t
                    } else {
                        t - 1
                    };
                    assert(comment_rows_of(remaining@)[nt] == rem_snap[t]);
                    assert(crow_before(row@, comment_rows_of(remaining@)[nt]));
                }
                lemma_listing_step(s, base, res_snap, rem_snap, idx, c@);
            }
            out.push(c);
            proof {
                assert(comments_of(out@) =~= res_snap.push(c@));
            }
        }
        proof {
            lemma_listing_done(s, post_id as int, comments_of(out@), comment_rows_of(remaining@));
        }
        Ok(out)
    }

    /// Look an account up by its secret login code.
    pub fn account_by_login_code(&self, login_code: String) -> (r: Result<Account, AppError>)
        ensures
            (r is Ok) <==> login_code_taken(self@, login_code@),
            r matches Ok(a) ==> self@.accounts.contains(a@) && a@.login_code == login_code@,
            (r is Err) ==> r == Err::<Account, AppError>(AppError::NotFound),
    {
        let n = self.accounts.len();
        let mut i: usize = 0;
        while i < n
            invariant
                i <= n,
                n == self.accounts.len(),
                forall|k: int| 0 <= k < i ==> (#[trigger] self@.accounts[k]).login_code
                    != login_code@,
            decreases n - i,
        {
            if self.accounts[i].login_code.eq(&login_code) {
                let a = self.accounts[i].clone();
                assert(self@.accounts[i as int] == a@);
                return Ok(a);
            }
            i = i + 1;
        }
        Err(AppError::NotFound)
    }
}

} // verus!
