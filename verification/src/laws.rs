//! Laws of the service, proved once and for all over the store's state
//! transitions. Each law here is stated for every input its hypotheses
//! allow; the matching handler contracts carry the per-call halves.
use vstd::prelude::*;

use crate::models::{LikeRec, SessionRec};
use crate::store::{
    delete_like_tr, delete_session_tr, has_like, identifier_taken, insert_account_tr,
    insert_like_tr, insert_session_tr, lemma_filter_all, lemma_filter_elems,
    lemma_filter_pairwise, lemma_filter_push, like_count_of, name_taken, Database, DbState,
};

verus! {

/// A free, rule-passing handle signs up exactly once: the signup stores
/// it, so the handle is taken in the resulting state — and with it taken,
/// the signup contract allows only the name-unavailable verdict for every
/// later attempt, never a generic failure.
pub proof fn lemma_signup_exactly_once(
    s: DbState,
    name: Seq<char>,
    login_code: Seq<char>,
    identifier: Seq<char>,
    now: int,
)
    requires
        Database::wf_state(s),
        !name_taken(s, name),
    ensures
        name_taken(insert_account_tr(s, name, login_code, now), name),
        name_taken(
            insert_session_tr(
                insert_account_tr(s, name, login_code, now),
                identifier,
                s.next_account_id,
                now,
            ),
            name,
        ),
{
    let post = insert_account_tr(s, name, login_code, now);
    assert(post.accounts[post.accounts.len() - 1].name == name);
    let post2 = insert_session_tr(post, identifier, s.next_account_id, now);
    assert(post2.accounts[post2.accounts.len() - 1].name == name);
}

/// A created session round-trips: the identifier handed out at creation
/// is taken in the resulting state, and every session carrying it belongs
/// to the created account — so looking the token up resolves back to the
/// same account.
pub proof fn lemma_session_round_trip(
    s: DbState,
    identifier: Seq<char>,
    account_id: int,
    now: int,
)
    requires
        Database::wf_state(s),
        !identifier_taken(s, identifier),
    ensures
        identifier_taken(insert_session_tr(s, identifier, account_id, now), identifier),
        forall|i: int|
            0 <= i < insert_session_tr(s, identifier, account_id, now).sessions.len() && (
            #[trigger] insert_session_tr(s, identifier, account_id, now).sessions[i]).identifier
                == identifier ==> insert_session_tr(
                s,
                identifier,
                account_id,
                now,
            ).sessions[i].account_id == account_id,
{
    let post = insert_session_tr(s, identifier, account_id, now);
    assert(post.sessions[post.sessions.len() - 1].identifier == identifier);
    assert forall|i: int|
        0 <= i < post.sessions.len() && (#[trigger] post.sessions[i]).identifier
            == identifier implies post.sessions[i].account_id == account_id by {
        if i < s.sessions.len() {
            assert(identifier_taken(s, identifier));
        }
    }
}

/// Deleting a session token leaves it resolving to anonymous: after the
/// deletion no session carries it, and the resolver's contract maps an
/// unknown token to no session — never to an error.
pub proof fn lemma_deleted_session_is_anonymous(s: DbState, identifier: Seq<char>)
    ensures
        !identifier_taken(delete_session_tr(s, identifier), identifier),
{
    let pred = |x: SessionRec| x.identifier != identifier;
    let post = delete_session_tr(s, identifier);
    if identifier_taken(post, identifier) {
        let i = choose|i: int|
            0 <= i < post.sessions.len() && (#[trigger] post.sessions[i]).identifier
                == identifier;
        s.sessions.lemma_filter_pred(pred, i);
        assert(false);
    }
}

/// Toggling a like on and off restores the stored likes exactly: for an
/// account that does not yet like the post, inserting the like and then
/// deleting the pair hands the like table back unchanged — only the id
/// counter has moved on.
pub proof fn lemma_toggle_like_round_trip(s: DbState, account_id: int, post_id: int, now: int)
    requires
        Database::wf_state(s),
        !has_like(s, account_id, post_id),
    ensures
        delete_like_tr(insert_like_tr(s, account_id, post_id, now), account_id, post_id) == (
        DbState { next_like_id: s.next_like_id + 1, ..s }),
{
    let pred = |l: LikeRec| !(l.account_id == account_id && l.post_id == post_id);
    let mid = insert_like_tr(s, account_id, post_id, now);
    assert forall|i: int| 0 <= i < s.likes.len() implies pred(#[trigger] s.likes[i]) by {
        if s.likes[i].account_id == account_id && s.likes[i].post_id == post_id {
            assert(has_like(s, account_id, post_id));
        }
    }
    lemma_filter_all(s.likes, pred);
    lemma_filter_push(s.likes, mid.likes.last(), pred);
    assert(mid.likes =~= s.likes.push(mid.likes.last()));
    assert(delete_like_tr(mid, account_id, post_id).likes == s.likes);
    assert(delete_like_tr(mid, account_id, post_id) =~= (DbState {
        next_like_id: s.next_like_id + 1,
        ..s
    }));
}

/// The stored state never double-counts a like: in every well-formed
/// state at most one like row pairs a given account with a given post, so
/// however two racing toggles serialize, the count moves by at most one.
pub proof fn lemma_no_double_like(s: DbState, account_id: int, post_id: int)
    requires
        Database::wf_state(s),
    ensures
        s.likes.filter(
            |l: LikeRec| l.account_id == account_id && l.post_id == post_id,
        ).len() <= 1,
{
    let pred = |l: LikeRec| l.account_id == account_id && l.post_id == post_id;
    let out = s.likes.filter(pred);
    lemma_filter_elems(s.likes, pred);
    lemma_filter_pairwise(s.likes, pred, |a: LikeRec, b: LikeRec| a.id < b.id);
    if out.len() >= 2 {
        assert(out[0].id < out[1].id);
        assert(s.likes.contains(out[0]));
        assert(s.likes.contains(out[1]));
        s.likes.lemma_filter_pred(pred, 0);
        s.likes.lemma_filter_pred(pred, 1);
        let i = choose|i: int| 0 <= i < s.likes.len() && s.likes[i] == out[0];
        let j = choose|j: int| 0 <= j < s.likes.len() && s.likes[j] == out[1];
        assert(pred(out[0]) && pred(out[1]));
        assert(i != j);
        if i < j {
            assert(!(s.likes[i].account_id == s.likes[j].account_id && s.likes[i].post_id
                == s.likes[j].post_id));
        } else {
            assert(!(s.likes[j].account_id == s.likes[i].account_id && s.likes[j].post_id
                == s.likes[i].post_id));
        }
        assert(false);
    }
}

/// A post nothing likes reports a count of zero — a number, never an
/// absent value: the feed annotation carries `Some` of this count.
pub proof fn lemma_like_count_zero(s: DbState, post_id: int)
    requires
        forall|i: int| 0 <= i < s.likes.len() ==> (#[trigger] s.likes[i]).post_id != post_id,
    ensures
        like_count_of(s, post_id) == 0,
{
    let pred = |l: LikeRec| l.post_id == post_id;
    lemma_filter_elems(s.likes, pred);
    let out = s.likes.filter(pred);
    if out.len() > 0 {
        s.likes.lemma_filter_pred(pred, 0);
        assert(s.likes.contains(out[0]));
        let i = choose|i: int| 0 <= i < s.likes.len() && s.likes[i] == out[0];
        assert(false);
    }
}

} // verus!
