//! The persisted entities of the service and their mathematical views.
//!
//! Each executable struct mirrors one row shape of the relational store; its
//! `View` is a record over `int` and `Seq<char>` that the contracts and the
//! state-transition specifications speak of.
use vstd::prelude::*;

verus! {

/// A registered account: public unique handle plus a secret login code.
#[derive(Debug, PartialEq)]
pub struct Account {
    pub id: i64,
    pub name: String,
    pub login_code: String,
    pub updated_at: i64,
    pub created_at: i64,
}

/// Mathematical view of an [`Account`].
pub struct AccountRec {
    pub id: int,
    pub name: Seq<char>,
    pub login_code: Seq<char>,
    pub updated_at: int,
    pub created_at: int,
}

impl View for Account {
    type V = AccountRec;

    open spec fn view(&self) -> AccountRec {
        AccountRec {
            id: self.id as int,
            name: self.name@,
            login_code: self.login_code@,
            updated_at: self.updated_at as int,
            created_at: self.created_at as int,
        }
    }
}

/// A login session binding an opaque identifier token to an account.
#[derive(Debug, PartialEq)]
pub struct Session {
    pub id: i64,
    pub identifier: String,
    pub account_id: i64,
    pub updated_at: i64,
    pub created_at: i64,
}

/// Mathematical view of a [`Session`].
pub struct SessionRec {
    pub id: int,
    pub identifier: Seq<char>,
    pub account_id: int,
    pub updated_at: int,
    pub created_at: int,
}

impl View for Session {
    type V = SessionRec;

    open spec fn view(&self) -> SessionRec {
        SessionRec {
            id: self.id as int,
            identifier: self.identifier@,
            account_id: self.account_id as int,
            updated_at: self.updated_at as int,
            created_at: self.created_at as int,
        }
    }
}

/// A stored post row, before any per-viewer annotation.
#[derive(Debug, PartialEq)]
pub struct PostRow {
    pub id: i64,
    pub body: String,
    pub account_id: i64,
    pub updated_at: i64,
    pub created_at: i64,
}

/// Mathematical view of a [`PostRow`].
pub struct PostRowRec {
    pub id: int,
    pub body: Seq<char>,
    pub account_id: int,
    pub updated_at: int,
    pub created_at: int,
}

impl View for PostRow {
    type V = PostRowRec;

    open spec fn view(&self) -> PostRowRec {
        PostRowRec {
            id: self.id as int,
            body: self.body@,
            account_id: self.account_id as int,
            updated_at: self.updated_at as int,
            created_at: self.created_at as int,
        }
    }
}

/// A post as reported to a viewer: the stored row joined with the author's
/// name, the aggregate like count, whether the viewing account has liked it,
/// and the aggregate comment count.
#[derive(Debug, PartialEq)]
pub struct Post {
    pub id: i64,
    pub body: String,
    pub account_id: i64,
    pub account_name: String,
    pub like_count: Option<i64>,
    pub liked_by_current_account: Option<i64>,
    pub updated_at: i64,
    pub created_at: i64,
    pub comment_count: i64,
}

/// Mathematical view of a [`Post`].
pub struct PostRec {
    pub id: int,
    pub body: Seq<char>,
    pub account_id: int,
    pub account_name: Seq<char>,
    pub like_count: Option<int>,
    pub liked_by_current_account: Option<int>,
    pub updated_at: int,
    pub created_at: int,
    pub comment_count: int,
}

impl View for Post {
    type V = PostRec;

    open spec fn view(&self) -> PostRec {
        PostRec {
            id: self.id as int,
            body: self.body@,
            account_id: self.account_id as int,
            account_name: self.account_name@,
            like_count: match self.like_count {
                Some(n) => Some(n as int),
                None => None,
            },
            liked_by_current_account: match self.liked_by_current_account {
                Some(n) => Some(n as int),
                None => None,
            },
            updated_at: self.updated_at as int,
            created_at: self.created_at as int,
            comment_count: self.comment_count as int,
        }
    }
}

/// The row handed back by the insert-post statement: the fresh id alone.
#[derive(Clone, Copy, Debug, PartialEq)]
pub struct InsertPost {
    pub id: i64,
}

/// One like of one post by one account.
#[derive(Clone, Copy, Debug, PartialEq)]
pub struct Like {
    pub id: i64,
    pub account_id: i64,
    pub post_id: i64,
    pub updated_at: i64,
    pub created_at: i64,
}

/// Mathematical view of a [`Like`].
pub struct LikeRec {
    pub id: int,
    pub account_id: int,
    pub post_id: int,
    pub updated_at: int,
    pub created_at: int,
}

impl View for Like {
    type V = LikeRec;

    open spec fn view(&self) -> LikeRec {
        LikeRec {
            id: self.id as int,
            account_id: self.account_id as int,
            post_id: self.post_id as int,
            updated_at: self.updated_at as int,
            created_at: self.created_at as int,
        }
    }
}

/// A stored comment row, before the author's name is joined in.
#[derive(Debug, PartialEq)]
pub struct CommentRow {
    pub id: i64,
    pub account_id: i64,
    pub post_id: i64,
    pub body: String,
    pub updated_at: i64,
    pub created_at: i64,
}

/// Mathematical view of a [`CommentRow`].
pub struct CommentRowRec {
    pub id: int,
    pub account_id: int,
    pub post_id: int,
    pub body: Seq<char>,
    pub updated_at: int,
    pub created_at: int,
}

impl View for CommentRow {
    type V = CommentRowRec;

    open spec fn view(&self) -> CommentRowRec {
        CommentRowRec {
            id: self.id as int,
            account_id: self.account_id as int,
            post_id: self.post_id as int,
            body: self.body@,
            updated_at: self.updated_at as int,
            created_at: self.created_at as int,
        }
    }
}

/// A comment as reported to a viewer: the stored row joined with the
/// denormalized author name.
#[derive(Debug, PartialEq)]
pub struct Comment {
    pub id: i64,
    pub account_id: i64,
    pub account_name: String,
    pub post_id: i64,
    pub body: String,
    pub updated_at: i64,
    pub created_at: i64,
}

/// Mathematical view of a [`Comment`].
pub struct CommentRec {
    pub id: int,
    pub account_id: int,
    pub account_name: Seq<char>,
    pub post_id: int,
    pub body: Seq<char>,
    pub updated_at: int,
    pub created_at: int,
}

impl View for Comment {
    type V = CommentRec;

    open spec fn view(&self) -> CommentRec {
        CommentRec {
            id: self.id as int,
            account_id: self.account_id as int,
            account_name: self.account_name@,
            post_id: self.post_id as int,
            body: self.body@,
            updated_at: self.updated_at as int,
            created_at: self.created_at as int,
        }
    }
}

impl Clone for Account {
    fn clone(&self) -> (r: Self)
        ensures
            r@ == self@,
    {
        Account {
            id: self.id,
            name: self.name.clone(),
            login_code: self.login_code.clone(),
            updated_at: self.updated_at,
            created_at: self.created_at,
        }
    }
}

impl Clone for Session {
    fn clone(&self) -> (r: Self)
        ensures
            r@ == self@,
    {
        Session {
            id: self.id,
            identifier: self.identifier.clone(),
            account_id: self.account_id,
            updated_at: self.updated_at,
            created_at: self.created_at,
        }
    }
}

impl Clone for PostRow {
    fn clone(&self) -> (r: Self)
        ensures
            r@ == self@,
    {
        PostRow {
            id: self.id,
            body: self.body.clone(),
            account_id: self.account_id,
            updated_at: self.updated_at,
            created_at: self.created_at,
        }
    }
}

impl Clone for Post {
    fn clone(&self) -> (r: Self)
        ensures
            r@ == self@,
    {
        Post {
            id: self.id,
            body: self.body.clone(),
            account_id: self.account_id,
            account_name: self.account_name.clone(),
            like_count: self.like_count,
            liked_by_current_account: self.liked_by_current_account,
            updated_at: self.updated_at,
            created_at: self.created_at,
            comment_count: self.comment_count,
        }
    }
}

impl Clone for CommentRow {
    fn clone(&self) -> (r: Self)
        ensures
            r@ == self@,
    {
        CommentRow {
            id: self.id,
            account_id: self.account_id,
            post_id: self.post_id,
            body: self.body.clone(),
            updated_at: self.updated_at,
            created_at: self.created_at,
        }
    }
}

impl Clone for Comment {
    fn clone(&self) -> (r: Self)
        ensures
            r@ == self@,
    {
        Comment {
            id: self.id,
            account_id: self.account_id,
            account_name: self.account_name.clone(),
            post_id: self.post_id,
            body: self.body.clone(),
            updated_at: self.updated_at,
            created_at: self.created_at,
        }
    }
}

/// Anything that carries the id and public handle of its author. The account
/// handed out holds those two fields alone; the secret login code and the
/// timestamps stay at their defaults, as the store never surfaces a login
/// code with a post or comment.
pub trait HasAccount {
    /// The author's id, at the specification level.
    spec fn spec_account_id(&self) -> int;

    /// The author's public handle, at the specification level.
    spec fn spec_account_name(&self) -> Seq<char>;

    fn account(&self) -> (r: Account)
        ensures
            r@.id == self.spec_account_id(),
            r@.name == self.spec_account_name(),
            r@.login_code.len() == 0,
            r@.updated_at == 0,
            r@.created_at == 0,
    ;
}

impl HasAccount for Post {
    open spec fn spec_account_id(&self) -> int {
        self@.account_id
    }

    open spec fn spec_account_name(&self) -> Seq<char> {
        self@.account_name
    }

    fn account(&self) -> (r: Account) {
        Account {
            id: self.account_id,
            name: self.account_name.clone(),
            login_code: String::new(),
            updated_at: 0,
            created_at: 0,
        }
    }
}

impl HasAccount for Comment {
    open spec fn spec_account_id(&self) -> int {
        self@.account_id
    }

    open spec fn spec_account_name(&self) -> Seq<char> {
        self@.account_name
    }

    fn account(&self) -> (r: Account) {
        Account {
            id: self.account_id,
            name: self.account_name.clone(),
            login_code: String::new(),
            updated_at: 0,
            created_at: 0,
        }
    }
}

impl Account {
    /// The first character of the handle, as a one-character string.
    pub fn initial(&self) -> (r: String)
        requires
            self@.name.len() > 0,
        ensures
            r@ =~= seq![self@.name[0]],
    {
        let c = self.name.as_str().substring_char(0, 1);
        c.to_owned()
    }
}

} // verus!
