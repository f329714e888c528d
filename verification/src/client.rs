//! The untrusted side of the stub layer: one marshaling function per
//! remote operation, producing exactly the wire payload the dispatcher
//! decodes back into that operation.
//!
//! Performing the network call is the surrounding program's affair; it
//! POSTs the payload to the RPC endpoint under the negotiated content
//! type, and unwraps the reply frame with [`crate::codec::decode_response`]
//! — a transport failure and a business failure arrive as distinguishable
//! layers.
use vstd::prelude::*;

use crate::codec::{
    encode_call, spec_encode_call, AddPost, BackendFn, CallRec, CommentsByPostId, DeleteAccount,
    DislikePost, LeaveComment, LikePost, Login, Logout, Signup,
};

verus! {

/// The wire payload of a signup call.
pub fn marshal_signup(name: String) -> (r: Vec<u8>)
    ensures
        r@ == spec_encode_call(CallRec::Signup { name: name@ }),
{
    encode_call(&BackendFn::Signup(Signup { name: name }))
}

/// The wire payload of a login call.
pub fn marshal_login(login_code: String) -> (r: Vec<u8>)
    ensures
        r@ == spec_encode_call(CallRec::Login { login_code: login_code@ }),
{
    encode_call(&BackendFn::Login(Login { login_code: login_code }))
}

/// The wire payload of a logout call.
pub fn marshal_logout() -> (r: Vec<u8>)
    ensures
        r@ == spec_encode_call(CallRec::Logout),
{
    encode_call(&BackendFn::Logout(Logout {  }))
}

/// The wire payload of an account-deletion call.
pub fn marshal_delete_account() -> (r: Vec<u8>)
    ensures
        r@ == spec_encode_call(CallRec::DeleteAccount),
{
    encode_call(&BackendFn::DeleteAccount(DeleteAccount {  }))
}

/// The wire payload of a like call.
pub fn marshal_like_post(post_id: i64) -> (r: Vec<u8>)
    ensures
        r@ == spec_encode_call(CallRec::LikePost { post_id }),
{
    encode_call(&BackendFn::LikePost(LikePost { post_id: post_id }))
}

/// The wire payload of an unlike call.
pub fn marshal_dislike_post(post_id: i64) -> (r: Vec<u8>)
    ensures
        r@ == spec_encode_call(CallRec::DislikePost { post_id }),
{
    encode_call(&BackendFn::DislikePost(DislikePost { post_id: post_id }))
}

/// The wire payload of a post-creation call.
pub fn marshal_add_post(body: String) -> (r: Vec<u8>)
    ensures
        r@ == spec_encode_call(CallRec::AddPost { body: body@ }),
{
    encode_call(&BackendFn::AddPost(AddPost { body: body }))
}

/// The wire payload of a comment-creation call.
pub fn marshal_leave_comment(post_id: i64, body: String) -> (r: Vec<u8>)
    ensures
        r@ == spec_encode_call(CallRec::LeaveComment { post_id, body: body@ }),
{
    encode_call(&BackendFn::LeaveComment(LeaveComment { post_id: post_id, body: body }))
}

/// The wire payload of a comment-listing call.
pub fn marshal_comments_by_post_id(post_id: i64) -> (r: Vec<u8>)
    ensures
        r@ == spec_encode_call(CallRec::CommentsByPostId { post_id }),
{
    encode_call(&BackendFn::CommentsByPostId(CommentsByPostId { post_id: post_id }))
}

} // verus!
