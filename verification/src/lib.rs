//! Core of a small social-posting service: a typed RPC protocol between an
//! untrusted client and a trusted server, an opaque-token session system, and
//! a relational data-access service answering feed queries.
//!
//! The crate is organised bottom-up: `models` holds the persisted entities,
//! `store` the data-access service owning every state transition, `session`
//! the cookie-token resolver, `signup` the handle validation, `codec` the
//! wire framing of calls and replies, `handlers` the remote operations
//! themselves, `dispatch` the single entry point that ties content-type
//! gating, decoding, session resolution and handler dispatch together,
//! `client` the marshaling side of the stub layer, and `laws` the proofs
//! that hold across operations. `external` is the trusted boundary to the
//! outside crates.
use vstd::prelude::*;

pub mod assets;
pub mod client;
pub mod codec;
pub mod dispatch;
pub mod errors;
pub mod external;
pub mod handlers;
pub mod laws;
pub mod models;
pub mod session;
pub mod signup;
pub mod store;

verus! {

/// Path of the single RPC endpoint every remote call is POSTed to.
pub const BACKEND_FN_URL: &'static str = "/backend_fn";

/// Path of the dedicated signup endpoint.
pub const SIGNUP_URL: &'static str = "/signup";

/// Path of the dedicated login endpoint.
pub const LOGIN_URL: &'static str = "/login";

/// Path of the dedicated logout endpoint.
pub const LOGOUT_URL: &'static str = "/logout";

/// Path of the dedicated account-deletion endpoint.
pub const DELETE_ACCOUNT_URL: &'static str = "/delete_account";

/// Transport-level failure of a remote call: opaque to business logic,
/// distinguishable from an operation's own (business) error.
#[derive(Clone, Copy, Debug, PartialEq, Eq, Structural)]
pub enum BackendFnError {
    JsonSerialize,
    JsonParse,
    Request,
    JsError,
    SerdeError,
    GlooError,
}

impl BackendFnError {
    /// The HTTP status and body a transport error is rendered as: always
    /// the failure status, with a fixed body leaking no internal detail.
    pub fn response_parts(&self) -> (r: (u16, String))
        ensures
            r.0 == 500,
            r.1@ =~= "{\"error\": \"Probably a json parse error\"}"@,
    {
        (500, String::from_str("{\"error\": \"Probably a json parse error\"}"))
    }
}

} // verus!
