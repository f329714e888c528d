//! The wire codec of the RPC protocol.
//!
//! A remote call travels as a tagged payload: one byte naming the
//! operation, then that operation's arguments — a 64-bit little-endian
//! count of bytes before each string, a 64-bit little-endian two's
//! complement integer for each id. A payload whose tag names no known
//! operation, or whose body is not the exact encoding of the tagged
//! operation's arguments, is rejected with a transport-level error before
//! any handler runs.
//!
//! The reply is framed as a two-layer result: a leading byte tells a
//! transport failure (followed by the error's tag) from a transport
//! success (followed by the operation's encoded result). A business
//! failure is carried inside the success payload — it is data, not a
//! transport error.
use vstd::prelude::*;

use vstd::bytes::{spec_u64_to_le_bytes, u64_from_le_bytes, u64_to_le_bytes};
use vstd::slice::{slice_subrange, slice_to_vec};
use vstd::utf8::encode_utf8;

use crate::external::string_from_utf8;
use crate::BackendFnError;

verus! {

/// Arguments of the signup operation.
#[derive(Debug, PartialEq)]
pub struct Signup {
    pub name: String,
}

/// Arguments of the login operation.
#[derive(Debug, PartialEq)]
pub struct Login {
    pub login_code: String,
}

/// Arguments of the logout operation.
#[derive(Debug, PartialEq)]
pub struct Logout {
}

/// Arguments of the account-deletion operation.
#[derive(Debug, PartialEq)]
pub struct DeleteAccount {
}

/// Arguments of the like operation.
#[derive(Debug, PartialEq)]
pub struct LikePost {
    pub post_id: i64,
}

/// Arguments of the unlike operation.
#[derive(Debug, PartialEq)]
pub struct DislikePost {
    pub post_id: i64,
}

/// Arguments of the post-creation operation.
#[derive(Debug, PartialEq)]
pub struct AddPost {
    pub body: String,
}

/// Arguments of the comment-creation operation.
#[derive(Debug, PartialEq)]
pub struct LeaveComment {
    pub post_id: i64,
    pub body: String,
}

/// Arguments of the comment-listing operation.
#[derive(Debug, PartialEq)]
pub struct CommentsByPostId {
    pub post_id: i64,
}

/// The tagged union of every remote operation: one variant per operation,
/// each holding that operation's argument struct.
#[derive(Debug, PartialEq)]
pub enum BackendFn {
    Signup(Signup),
    Login(Login),
    Logout(Logout),
    DeleteAccount(DeleteAccount),
    LikePost(LikePost),
    DislikePost(DislikePost),
    AddPost(AddPost),
    LeaveComment(LeaveComment),
    CommentsByPostId(CommentsByPostId),
}

/// Mathematical view of a remote call. Ids stay machine integers: the
/// wire carries exactly sixty-four bits of them.
pub enum CallRec {
    Signup { name: Seq<char> },
    Login { login_code: Seq<char> },
    Logout,
    DeleteAccount,
    LikePost { post_id: i64 },
    DislikePost { post_id: i64 },
    AddPost { body: Seq<char> },
    LeaveComment { post_id: i64, body: Seq<char> },
    CommentsByPostId { post_id: i64 },
}

impl View for BackendFn {
    type V = CallRec;

    open spec fn view(&self) -> CallRec {
        match self {
            BackendFn::Signup(a) => CallRec::Signup { name: a.name@ },
            BackendFn::Login(a) => CallRec::Login { login_code: a.login_code@ },
            BackendFn::Logout(_) => CallRec::Logout,
            BackendFn::DeleteAccount(_) => CallRec::DeleteAccount,
            BackendFn::LikePost(a) => CallRec::LikePost { post_id: a.post_id },
            BackendFn::DislikePost(a) => CallRec::DislikePost { post_id: a.post_id },
            BackendFn::AddPost(a) => CallRec::AddPost { body: a.body@ },
            BackendFn::LeaveComment(a) => CallRec::LeaveComment {
                post_id: a.post_id,
                body: a.body@,
            },
            BackendFn::CommentsByPostId(a) => CallRec::CommentsByPostId { post_id: a.post_id },
        }
    }
}

/// The eight wire bytes of an id.
pub open spec fn spec_encode_i64(x: i64) -> Seq<u8> {
    spec_u64_to_le_bytes(x as u64)
}

/// The wire bytes of a string: its byte count, then its UTF-8 bytes.
pub open spec fn spec_encode_str(s: Seq<char>) -> Seq<u8> {
    spec_u64_to_le_bytes(encode_utf8(s).len() as u64) + encode_utf8(s)
}

/// The wire bytes of a remote call: the operation's tag, then its
/// arguments.
pub open spec fn spec_encode_call(c: CallRec) -> Seq<u8> {
    match c {
        CallRec::Signup { name } => seq![0u8] + spec_encode_str(name),
        CallRec::Login { login_code } => seq![1u8] + spec_encode_str(login_code),
        CallRec::Logout => seq![2u8],
        CallRec::DeleteAccount => seq![3u8],
        CallRec::LikePost { post_id } => seq![4u8] + spec_encode_i64(post_id),
        CallRec::DislikePost { post_id } => seq![5u8] + spec_encode_i64(post_id),
        CallRec::AddPost { body } => seq![6u8] + spec_encode_str(body),
        CallRec::LeaveComment { post_id, body } => seq![7u8] + spec_encode_i64(post_id)
            + spec_encode_str(body),
        CallRec::CommentsByPostId { post_id } => seq![8u8] + spec_encode_i64(post_id),
    }
}

/// Append the eight wire bytes of `x`.
fn put_u64(buf: &mut Vec<u8>, x: u64)
    ensures
        final (buf)@ == old(buf)@ + spec_u64_to_le_bytes(x),
{
    let mut b = u64_to_le_bytes(x);
    buf.append(&mut b);
}

/// Append the eight wire bytes of an id.
fn put_i64(buf: &mut Vec<u8>, x: i64)
    ensures
        final (buf)@ == old(buf)@ + spec_encode_i64(x),
{
    put_u64(buf, #[verifier::truncate] (x as u64));
}

/// Append the wire bytes of a string.
fn put_str(buf: &mut Vec<u8>, s: &str)
    ensures
        final (buf)@ == old(buf)@ + spec_encode_str(s@),
{
    let bytes = s.as_bytes_vec();
    put_u64(buf, bytes.len() as u64);
    let mut b = bytes;
    buf.append(&mut b);
    proof {
        assert(buf@ =~= old(buf)@ + spec_encode_str(s@));
    }

}

/// Encode a remote call for the wire.
pub fn encode_call(f: &BackendFn) -> (r: Vec<u8>)
    ensures
        r@ == spec_encode_call(f@),
{
    let mut buf: Vec<u8> = Vec::new();
    match f {
        BackendFn::Signup(a) => {
            buf.push(0);
            put_str(&mut buf, a.name.as_str());
        },
        BackendFn::Login(a) => {
            buf.push(1);
            put_str(&mut buf, a.login_code.as_str());
        },
        BackendFn::Logout(_) => {
            buf.push(2);
        },
        BackendFn::DeleteAccount(_) => {
            buf.push(3);
        },
        BackendFn::LikePost(a) => {
            buf.push(4);
            put_i64(&mut buf, a.post_id);
        },
        BackendFn::DislikePost(a) => {
            buf.push(5);
            put_i64(&mut buf, a.post_id);
        },
        BackendFn::AddPost(a) => {
            buf.push(6);
            put_str(&mut buf, a.body.as_str());
        },
        BackendFn::LeaveComment(a) => {
            buf.push(7);
            put_i64(&mut buf, a.post_id);
            put_str(&mut buf, a.body.as_str());
        },
        BackendFn::CommentsByPostId(a) => {
            buf.push(8);
            put_i64(&mut buf, a.post_id);
        },
    }
    proof {
        assert(buf@ =~= spec_encode_call(f@));
    }
    buf
}

/// Read the eight wire bytes at `pos` as a u64.
fn read_u64(bytes: &Vec<u8>, pos: usize) -> (r: Option<(u64, usize)>)
    ensures
        match r {
            Some(xp) => pos + 8 <= bytes@.len() && xp.1 == pos + 8 && spec_u64_to_le_bytes(xp.0)
                == bytes@.subrange(pos as int, pos as int + 8),
            None => pos + 8 > bytes@.len(),
        },
{
    if bytes.len() < 8 || pos > bytes.len() - 8 {
        return None;
    }
    let sl = slice_subrange(bytes.as_slice(), pos, pos + 8);
    let x = u64_from_le_bytes(sl);
    proof {
        vstd::bytes::lemma_auto_spec_u64_to_from_le_bytes();
    }
    Some((x, pos + 8))
}

/// Read the eight wire bytes at `pos` as an id.
fn read_i64(bytes: &Vec<u8>, pos: usize) -> (r: Option<(i64, usize)>)
    ensures
        match r {
            Some(xp) => pos + 8 <= bytes@.len() && xp.1 == pos + 8 && spec_encode_i64(xp.0)
                == bytes@.subrange(pos as int, pos as int + 8),
            None => pos + 8 > bytes@.len(),
        },
{
    match read_u64(bytes, pos) {
        Some((x, p2)) => {
            let y = #[verifier::truncate] (x as i64);
            proof {
                assert(#[verifier::truncate] ((y as u64)) == x) by (bit_vector)
                    requires
                        y == #[verifier::truncate] (x as i64),
                ;
            }
            Some((y, p2))
        },
        None => None,
    }
}

/// Read a length-prefixed string at `pos`.
fn read_str(bytes: &Vec<u8>, pos: usize) -> (r: Option<(String, usize)>)
    ensures
        r matches Some(sp) ==> (pos <= sp.1 <= bytes@.len() && bytes@.subrange(
            pos as int,
            sp.1 as int,
        ) == spec_encode_str(sp.0@)),
        forall|t: Seq<char>|
            #![trigger spec_encode_str(t)]
            ((pos + spec_encode_str(t).len() <= bytes@.len() && bytes@.subrange(
                pos as int,
                pos + spec_encode_str(t).len(),
            ) == spec_encode_str(t)) ==> (r matches Some(sp) && sp.0@ == t && sp.1 == pos
                + spec_encode_str(t).len())),
{
    let (n, p2) = match read_u64(bytes, pos) {
        Some(xp) => xp,
        None => {
            proof {
                assert forall|t: Seq<char>|
                    #![trigger spec_encode_str(t)]
                    !(pos + spec_encode_str(t).len() <= bytes@.len()) by {
                    assert(spec_encode_str(t).len() >= 8) by {
                        vstd::bytes::lemma_auto_spec_u64_to_from_le_bytes();
                    }
                }
            }
            return None;
        },
    };
    proof {
        assert(bytes@.len() == bytes.len());
    }
    if n > (bytes.len() - p2) as u64 {
        proof {
            lemma_read_str_short(bytes@, pos as int, n, p2 as int);
        }
        return None;
    }
    let m = n as usize;
    let sl = slice_subrange(bytes.as_slice(), p2, p2 + m);
    let chunk_vec = slice_to_vec(sl);
    match string_from_utf8(chunk_vec) {
        Some(s) => {
            proof {
                vstd::utf8::encode_utf8_decode_utf8(s@);
                assert(bytes@.subrange(pos as int, (p2 + m) as int) =~= spec_encode_str(s@)) by {
                    assert(encode_utf8(s@) =~= bytes@.subrange(p2 as int, (p2 + m) as int));
                    assert(spec_u64_to_le_bytes(n) == bytes@.subrange(pos as int, pos as int + 8));
                }
                lemma_read_str_complete(bytes@, pos as int, n, p2 as int, s@);
            }
            Some((s, p2 + m))
        },
        None => {
            proof {
                lemma_read_str_invalid(bytes@, pos as int, n, p2 as int);
            }
            None
        },
    }
}

/// When the advertised byte count overruns the buffer, no string encoding
/// starts at `pos`.
proof fn lemma_read_str_short(b: Seq<u8>, pos: int, n: u64, p2: int)
    requires
        0 <= pos,
        b.len() < 0x1_0000_0000_0000_0000,
        p2 == pos + 8,
        p2 <= b.len(),
        spec_u64_to_le_bytes(n) == b.subrange(pos, pos + 8),
        n > b.len() - p2,
    ensures
        forall|t: Seq<char>|
            #![trigger spec_encode_str(t)]
            (!(pos + spec_encode_str(t).len() <= b.len() && b.subrange(
                pos,
                pos + spec_encode_str(t).len(),
            ) == spec_encode_str(t))),
{
    vstd::bytes::lemma_auto_spec_u64_to_from_le_bytes();
    assert forall|t: Seq<char>|
        #![trigger spec_encode_str(t)]
        (!(pos + spec_encode_str(t).len() <= b.len() && b.subrange(
            pos,
            pos + spec_encode_str(t).len(),
        ) == spec_encode_str(t))) by {
        let chunk = spec_encode_str(t);
        let el = encode_utf8(t).len();
        if pos + chunk.len() <= b.len() && b.subrange(pos, pos + chunk.len()) == chunk {
            assert(el < 0x1_0000_0000_0000_0000);
            assert(el as u64 == el);
            assert(b.subrange(pos, pos + 8) =~= chunk.subrange(0, 8));
            assert(chunk.subrange(0, 8) =~= spec_u64_to_le_bytes(el as u64));
            assert(n == el as u64);
            assert(el <= b.len() - p2);
            assert(el as u64 <= b.len() - p2);
        }
    }
}

/// When the counted bytes are not valid UTF-8, no string encoding starts
/// at `pos`.
proof fn lemma_read_str_invalid(b: Seq<u8>, pos: int, n: u64, p2: int)
    requires
        0 <= pos,
        b.len() < 0x1_0000_0000_0000_0000,
        p2 == pos + 8,
        p2 <= b.len(),
        spec_u64_to_le_bytes(n) == b.subrange(pos, pos + 8),
        n <= b.len() - p2,
        !vstd::utf8::valid_utf8(b.subrange(p2, p2 + n)),
    ensures
        forall|t: Seq<char>|
            #![trigger spec_encode_str(t)]
            (!(pos + spec_encode_str(t).len() <= b.len() && b.subrange(
                pos,
                pos + spec_encode_str(t).len(),
            ) == spec_encode_str(t))),
{
    vstd::bytes::lemma_auto_spec_u64_to_from_le_bytes();
    assert forall|t: Seq<char>|
        #![trigger spec_encode_str(t)]
        (!(pos + spec_encode_str(t).len() <= b.len() && b.subrange(
            pos,
            pos + spec_encode_str(t).len(),
        ) == spec_encode_str(t))) by {
        let chunk = spec_encode_str(t);
        let el = encode_utf8(t).len();
        if pos + chunk.len() <= b.len() && b.subrange(pos, pos + chunk.len()) == chunk {
            assert(el < 0x1_0000_0000_0000_0000);
            assert(el as u64 == el);
            assert(b.subrange(pos, pos + 8) =~= chunk.subrange(0, 8));
            assert(chunk.subrange(0, 8) =~= spec_u64_to_le_bytes(el as u64));
            assert(n == el as u64);
            assert(b.subrange(p2, p2 + n) =~= chunk.subrange(8, chunk.len() as int));
            assert(chunk.subrange(8, chunk.len() as int) =~= encode_utf8(t));
            vstd::utf8::encode_utf8_valid_utf8(t);
        }
    }
}

/// The operation tag leading a call's encoding.
pub open spec fn call_tag(c: CallRec) -> u8 {
    match c {
        CallRec::Signup { .. } => 0,
        CallRec::Login { .. } => 1,
        CallRec::Logout => 2,
        CallRec::DeleteAccount => 3,
        CallRec::LikePost { .. } => 4,
        CallRec::DislikePost { .. } => 5,
        CallRec::AddPost { .. } => 6,
        CallRec::LeaveComment { .. } => 7,
        CallRec::CommentsByPostId { .. } => 8,
    }
}

/// Every call encoding opens with its operation tag.
proof fn lemma_encode_call_head(c: CallRec)
    ensures
        spec_encode_call(c).len() >= 1,
        spec_encode_call(c)[0] == call_tag(c),
{
}

/// Two identical string encodings carry identical strings.
proof fn lemma_encode_str_injective(t1: Seq<char>, t2: Seq<char>)
    requires
        spec_encode_str(t1) == spec_encode_str(t2),
    ensures
        t1 == t2,
{
    vstd::bytes::lemma_auto_spec_u64_to_from_le_bytes();
    let a = spec_encode_str(t1);
    assert(spec_u64_to_le_bytes(encode_utf8(t1).len() as u64).len() == 8);
    assert(spec_u64_to_le_bytes(encode_utf8(t2).len() as u64).len() == 8);
    assert(spec_encode_str(t1).len() == spec_encode_str(t2).len());
    assert(spec_encode_str(t1).len() == 8 + encode_utf8(t1).len());
    assert(spec_encode_str(t2).len() == 8 + encode_utf8(t2).len());
    assert(encode_utf8(t1).len() == encode_utf8(t2).len());
    assert(encode_utf8(t1) =~= a.subrange(8, a.len() as int));
    assert(encode_utf8(t2) =~= a.subrange(8, a.len() as int));
    vstd::utf8::encode_utf8_decode_utf8(t1);
    vstd::utf8::encode_utf8_decode_utf8(t2);
}

/// Two identical id encodings carry identical ids.
proof fn lemma_encode_i64_injective(x1: i64, x2: i64)
    requires
        spec_encode_i64(x1) == spec_encode_i64(x2),
    ensures
        x1 == x2,
{
    vstd::bytes::lemma_auto_spec_u64_to_from_le_bytes();
    assert(x1 as u64 == x2 as u64);
    assert(x1 as u64 == x2 as u64 ==> x1 == x2) by (bit_vector);
}

/// The wire encoding names its call uniquely.
proof fn lemma_encode_call_injective(c1: CallRec, c2: CallRec)
    requires
        spec_encode_call(c1) == spec_encode_call(c2),
    ensures
        c1 == c2,
{
    vstd::bytes::lemma_auto_spec_u64_to_from_le_bytes();
    lemma_encode_call_head(c1);
    lemma_encode_call_head(c2);
    assert(call_tag(c1) == call_tag(c2));
    let b = spec_encode_call(c1);
    match c1 {
        CallRec::Signup { name: n1 } => {
            match c2 {
                CallRec::Signup { name: n2 } => {
                    assert(spec_encode_str(n1) =~= b.subrange(1, b.len() as int));
                    assert(spec_encode_str(n2) =~= b.subrange(1, b.len() as int));
                    lemma_encode_str_injective(n1, n2);
                },
                _ => {
                    assert(false);
                },
            }
        },
        CallRec::Login { login_code: n1 } => {
            match c2 {
                CallRec::Login { login_code: n2 } => {
                    assert(spec_encode_str(n1) =~= b.subrange(1, b.len() as int));
                    assert(spec_encode_str(n2) =~= b.subrange(1, b.len() as int));
                    lemma_encode_str_injective(n1, n2);
                },
                _ => {
                    assert(false);
                },
            }
        },
        CallRec::Logout => {
        },
        CallRec::DeleteAccount => {
        },
        CallRec::LikePost { post_id: x1 } => {
            match c2 {
                CallRec::LikePost { post_id: x2 } => {
                    assert(spec_encode_i64(x1) =~= b.subrange(1, b.len() as int));
                    assert(spec_encode_i64(x2) =~= b.subrange(1, b.len() as int));
                    lemma_encode_i64_injective(x1, x2);
                },
                _ => {
                    assert(false);
                },
            }
        },
        CallRec::DislikePost { post_id: x1 } => {
            match c2 {
                CallRec::DislikePost { post_id: x2 } => {
                    assert(spec_encode_i64(x1) =~= b.subrange(1, b.len() as int));
                    assert(spec_encode_i64(x2) =~= b.subrange(1, b.len() as int));
                    lemma_encode_i64_injective(x1, x2);
                },
                _ => {
                    assert(false);
                },
            }
        },
        CallRec::AddPost { body: n1 } => {
            match c2 {
                CallRec::AddPost { body: n2 } => {
                    assert(spec_encode_str(n1) =~= b.subrange(1, b.len() as int));
                    assert(spec_encode_str(n2) =~= b.subrange(1, b.len() as int));
                    lemma_encode_str_injective(n1, n2);
                },
                _ => {
                    assert(false);
                },
            }
        },
        CallRec::LeaveComment { post_id: x1, body: n1 } => {
            match c2 {
                CallRec::LeaveComment { post_id: x2, body: n2 } => {
                    assert(spec_encode_i64(x1) =~= b.subrange(1, 9));
                    assert(spec_encode_i64(x2) =~= b.subrange(1, 9));
                    lemma_encode_i64_injective(x1, x2);
                    assert(spec_encode_str(n1) =~= b.subrange(9, b.len() as int));
                    assert(spec_encode_str(n2) =~= b.subrange(9, b.len() as int));
                    lemma_encode_str_injective(n1, n2);
                },
                _ => {
                    assert(false);
                },
            }
        },
        CallRec::CommentsByPostId { post_id: x1 } => {
            match c2 {
                CallRec::CommentsByPostId { post_id: x2 } => {
                    assert(spec_encode_i64(x1) =~= b.subrange(1, b.len() as int));
                    assert(spec_encode_i64(x2) =~= b.subrange(1, b.len() as int));
                    lemma_encode_i64_injective(x1, x2);
                },
                _ => {
                    assert(false);
                },
            }
        },
    }
}

/// Decode a wire payload into a remote call. Exactly the payloads that are
/// the encoding of some call decode, to that call; an unknown tag, a
/// malformed argument or a trailing byte is a transport-level parse error,
/// reported before any handler could run.
#[verifier::rlimit(100)]
pub fn decode_call(bytes: &Vec<u8>) -> (r: Result<BackendFn, BackendFnError>)
    ensures
        r matches Ok(f) ==> bytes@ == spec_encode_call(f@),
        forall|c: CallRec|
            #![trigger spec_encode_call(c)]
            bytes@ == spec_encode_call(c) ==> (r matches Ok(f) && f@ == c),
        r matches Err(e) ==> e == BackendFnError::JsonParse,
{
    proof {
        assert(bytes@.len() == bytes.len());
    }
    if bytes.len() < 1 {
        proof {
            assert forall|c: CallRec| bytes@ != spec_encode_call(c) by {
                lemma_encode_call_head(c);
            }
        }
        return Err(BackendFnError::JsonParse);
    }
    let tag = bytes[0];
    if tag == 2 || tag == 3 {
        if bytes.len() != 1 {
            proof {
                assert forall|c: CallRec| bytes@ != spec_encode_call(c) by {
                    lemma_encode_call_head(c);
                    vstd::bytes::lemma_auto_spec_u64_to_from_le_bytes();
                    if bytes@ == spec_encode_call(c) {
                        assert(call_tag(c) == tag);
                        assert(spec_encode_call(c).len() == 1);
                    }
                }
            }
            return Err(BackendFnError::JsonParse);
        }
        let f = if tag == 2 {
            BackendFn::Logout(Logout {  })
        } else {
            BackendFn::DeleteAccount(DeleteAccount {  })
        };
        proof {
            assert(bytes@ =~= spec_encode_call(f@));
            assert forall|c: CallRec| bytes@ == spec_encode_call(c) implies c == f@ by {
                lemma_encode_call_injective(c, f@);
            }
        }
        return Ok(f);
    }
    if tag == 0 || tag == 1 || tag == 6 {
        let parsed = read_str(bytes, 1);
        proof {
            if bytes@.len() >= 1 {
                assert forall|c: CallRec|
                    bytes@ == spec_encode_call(c) && call_tag(c) == tag implies (
                spec_encode_str(call_str_arg(c)).len() + 1 == bytes@.len() && bytes@.subrange(
                    1,
                    1 + spec_encode_str(call_str_arg(c)).len() as int,
                ) == spec_encode_str(call_str_arg(c))) by {
                    assert(spec_encode_str(call_str_arg(c)) =~= bytes@.subrange(
                        1,
                        bytes@.len() as int,
                    ));
                }
            }
        }
        match parsed {
            Some((s, p)) => {
                if p != bytes.len() {
                    proof {
                        assert forall|c: CallRec| bytes@ != spec_encode_call(c) by {
                            lemma_encode_call_head(c);
                            if bytes@ == spec_encode_call(c) {
                                assert(call_tag(c) == tag);
                            }
                        }
                    }
                    return Err(BackendFnError::JsonParse);
                }
                let f = if tag == 0 {
                    BackendFn::Signup(Signup { name: s })
                } else if tag == 1 {
                    BackendFn::Login(Login { login_code: s })
                } else {
                    BackendFn::AddPost(AddPost { body: s })
                };
                proof {
                    assert(bytes@.subrange(1, bytes@.len() as int) == spec_encode_str(s@));
                    assert(bytes@ =~= spec_encode_call(f@));
                    assert forall|c: CallRec| bytes@ == spec_encode_call(c) implies c == f@ by {
                        lemma_encode_call_injective(c, f@);
                    }
                }
                return Ok(f);
            },
            None => {
                proof {
                    assert forall|c: CallRec| bytes@ != spec_encode_call(c) by {
                        lemma_encode_call_head(c);
                        if bytes@ == spec_encode_call(c) {
                            assert(call_tag(c) == tag);
                        }
                    }
                }
                return Err(BackendFnError::JsonParse);
            },
        }
    }
    if tag == 4 || tag == 5 || tag == 8 {
        let parsed = read_i64(bytes, 1);
        proof {
            assert forall|c: CallRec|
                bytes@ == spec_encode_call(c) && call_tag(c) == tag implies (bytes@.len() == 9
                && bytes@.subrange(1, 9) == spec_encode_i64(call_id_arg(c))) by {
                vstd::bytes::lemma_auto_spec_u64_to_from_le_bytes();
                assert(spec_encode_i64(call_id_arg(c)) =~= bytes@.subrange(
                    1,
                    bytes@.len() as int,
                ));
            }
        }
        match parsed {
            Some((x, p)) => {
                if p != bytes.len() {
                    proof {
                        assert forall|c: CallRec| bytes@ != spec_encode_call(c) by {
                            lemma_encode_call_head(c);
                            if bytes@ == spec_encode_call(c) {
                                assert(call_tag(c) == tag);
                            }
                        }
                    }
                    return Err(BackendFnError::JsonParse);
                }
                let f = if tag == 4 {
                    BackendFn::LikePost(LikePost { post_id: x })
                } else if tag == 5 {
                    BackendFn::DislikePost(DislikePost { post_id: x })
                } else {
                    BackendFn::CommentsByPostId(CommentsByPostId { post_id: x })
                };
                proof {
                    assert(bytes@ =~= spec_encode_call(f@));
                    assert forall|c: CallRec| bytes@ == spec_encode_call(c) implies c == f@ by {
                        lemma_encode_call_injective(c, f@);
                    }
                }
                return Ok(f);
            },
            None => {
                proof {
                    assert forall|c: CallRec| bytes@ != spec_encode_call(c) by {
                        lemma_encode_call_head(c);
                        if bytes@ == spec_encode_call(c) {
                            assert(call_tag(c) == tag);
                        }
                    }
                }
                return Err(BackendFnError::JsonParse);
            },
        }
    }
    if tag == 7 {
        let parsed_id = read_i64(bytes, 1);
        proof {
            assert forall|c: CallRec|
                bytes@ == spec_encode_call(c) && call_tag(c) == tag implies (bytes@.len() >= 9
                && bytes@.subrange(1, 9) == spec_encode_i64(call_id_arg(c)) && bytes@.subrange(
                    9,
                    bytes@.len() as int,
                ) == spec_encode_str(call_str_arg(c))) by {
                vstd::bytes::lemma_auto_spec_u64_to_from_le_bytes();
                assert(spec_encode_i64(call_id_arg(c)) + spec_encode_str(call_str_arg(c))
                    =~= bytes@.subrange(1, bytes@.len() as int));
                assert(spec_encode_i64(call_id_arg(c)) =~= bytes@.subrange(1, 9));
                assert(spec_encode_str(call_str_arg(c)) =~= bytes@.subrange(
                    9,
                    bytes@.len() as int,
                ));
            }
        }
        match parsed_id {
            Some((x, p9)) => {
                let parsed_body = read_str(bytes, p9);
                proof {
                    assert forall|c: CallRec|
                        bytes@ == spec_encode_call(c) && call_tag(c) == tag implies (
                    spec_encode_str(call_str_arg(c)).len() + 9 == bytes@.len()
                        && bytes@.subrange(
                        9,
                        9 + spec_encode_str(call_str_arg(c)).len() as int,
                    ) == spec_encode_str(call_str_arg(c))) by {
                        assert(bytes@.subrange(9, bytes@.len() as int) == spec_encode_str(
                            call_str_arg(c),
                        ));
                    }
                }
                match parsed_body {
                    Some((s, p)) => {
                        if p != bytes.len() {
                            proof {
                                assert forall|c: CallRec| bytes@ != spec_encode_call(c) by {
                                    lemma_encode_call_head(c);
                                    if bytes@ == spec_encode_call(c) {
                                        assert(call_tag(c) == tag);
                                    }
                                }
                            }
                            return Err(BackendFnError::JsonParse);
                        }
                        let f = BackendFn::LeaveComment(
                            LeaveComment { post_id: x, body: s },
                        );
                        proof {
                            assert(bytes@ =~= spec_encode_call(f@));
                            assert forall|c: CallRec|
                                bytes@ == spec_encode_call(c) implies c == f@ by {
                                lemma_encode_call_injective(c, f@);
                            }
                        }
                        return Ok(f);
                    },
                    None => {
                        proof {
                            assert forall|c: CallRec| bytes@ != spec_encode_call(c) by {
                                lemma_encode_call_head(c);
                                if bytes@ == spec_encode_call(c) {
                                    assert(call_tag(c) == tag);
                                }
                            }
                        }
                        return Err(BackendFnError::JsonParse);
                    },
                }
            },
            None => {
                proof {
                    assert forall|c: CallRec| bytes@ != spec_encode_call(c) by {
                        lemma_encode_call_head(c);
                        vstd::bytes::lemma_auto_spec_u64_to_from_le_bytes();
                        if bytes@ == spec_encode_call(c) {
                            assert(call_tag(c) == tag);
                        }
                    }
                }
                return Err(BackendFnError::JsonParse);
            },
        }
    }
    proof {
        assert forall|c: CallRec| bytes@ != spec_encode_call(c) by {
            lemma_encode_call_head(c);
            if bytes@ == spec_encode_call(c) {
                assert(bytes@[0] == call_tag(c));
            }
        }
    }
    Err(BackendFnError::JsonParse)
}

/// The string argument of a call that carries one.
pub open spec fn call_str_arg(c: CallRec) -> Seq<char> {
    match c {
        CallRec::Signup { name } => name,
        CallRec::Login { login_code } => login_code,
        CallRec::AddPost { body } => body,
        CallRec::LeaveComment { body, .. } => body,
        _ => Seq::empty(),
    }
}

/// The id argument of a call that carries one.
pub open spec fn call_id_arg(c: CallRec) -> i64 {
    match c {
        CallRec::LikePost { post_id } => post_id,
        CallRec::DislikePost { post_id } => post_id,
        CallRec::LeaveComment { post_id, .. } => post_id,
        CallRec::CommentsByPostId { post_id } => post_id,
        _ => 0,
    }
}

/// A parse that consumed the advertised count and decoded its bytes is the
/// only string encoding starting at `pos`.
proof fn lemma_read_str_complete(b: Seq<u8>, pos: int, n: u64, p2: int, s: Seq<char>)
    requires
        0 <= pos,
        b.len() < 0x1_0000_0000_0000_0000,
        p2 == pos + 8,
        p2 + n <= b.len(),
        spec_u64_to_le_bytes(n) == b.subrange(pos, pos + 8),
        b.subrange(pos, p2 + n) == spec_encode_str(s),
    ensures
        forall|t: Seq<char>|
            #![trigger spec_encode_str(t)]
            ((pos + spec_encode_str(t).len() <= b.len() && b.subrange(
                pos,
                pos + spec_encode_str(t).len(),
            ) == spec_encode_str(t)) ==> (t == s && pos + spec_encode_str(t).len() == p2 + n)),
{
    vstd::bytes::lemma_auto_spec_u64_to_from_le_bytes();
    assert forall|t: Seq<char>|
        #![trigger spec_encode_str(t)]
        ((pos + spec_encode_str(t).len() <= b.len() && b.subrange(
            pos,
            pos + spec_encode_str(t).len(),
        ) == spec_encode_str(t)) ==> (t == s && pos + spec_encode_str(t).len() == p2 + n)) by {
        let chunk = spec_encode_str(t);
        let el = encode_utf8(t).len();
        if pos + chunk.len() <= b.len() && b.subrange(pos, pos + chunk.len()) == chunk {
            assert(el < 0x1_0000_0000_0000_0000);
            assert(el as u64 == el);
            assert(b.subrange(pos, pos + 8) =~= chunk.subrange(0, 8));
            assert(chunk.subrange(0, 8) =~= spec_u64_to_le_bytes(el as u64));
            assert(n == el as u64);
            assert(pos + chunk.len() == p2 + n);
            assert(b.subrange(pos, p2 + n) == chunk);
            let own = spec_encode_str(s);
            assert(encode_utf8(t) =~= own.subrange(8, own.len() as int));
            assert(own.subrange(8, own.len() as int) =~= encode_utf8(s));
            vstd::utf8::encode_utf8_decode_utf8(t);
            vstd::utf8::encode_utf8_decode_utf8(s);
            assert(t == s);
        }
    }
}

/// The byte tagging each transport error on the wire.
pub open spec fn spec_err_tag(e: BackendFnError) -> u8 {
    match e {
        BackendFnError::JsonSerialize => 0,
        BackendFnError::JsonParse => 1,
        BackendFnError::Request => 2,
        BackendFnError::JsError => 3,
        BackendFnError::SerdeError => 4,
        BackendFnError::GlooError => 5,
    }
}

/// Mathematical view of a framed reply.
pub open spec fn resp_rec(p: Result<Vec<u8>, BackendFnError>) -> Result<Seq<u8>, BackendFnError> {
    match p {
        Ok(b) => Ok(b@),
        Err(e) => Err(e),
    }
}

/// The wire bytes of a framed reply: a transport success carries its
/// payload behind a success byte; a transport failure carries the error's
/// tag behind a failure byte.
pub open spec fn spec_encode_response(p: Result<Seq<u8>, BackendFnError>) -> Seq<u8> {
    match p {
        Ok(b) => seq![1u8] + b,
        Err(e) => seq![0u8, spec_err_tag(e)],
    }
}

/// Frame a reply for the wire.
pub fn encode_response(inner: Result<Vec<u8>, BackendFnError>) -> (r: Vec<u8>)
    ensures
        r@ == spec_encode_response(resp_rec(inner)),
{
    match inner {
        Ok(payload) => {
            let mut buf: Vec<u8> = Vec::new();
            buf.push(1);
            let mut b = payload;
            buf.append(&mut b);
            proof {
                assert(buf@ =~= spec_encode_response(resp_rec(inner)));
            }
            buf
        },
        Err(e) => {
            let mut buf: Vec<u8> = Vec::new();
            buf.push(0);
            let t: u8 = match e {
                BackendFnError::JsonSerialize => 0,
                BackendFnError::JsonParse => 1,
                BackendFnError::Request => 2,
                BackendFnError::JsError => 3,
                BackendFnError::SerdeError => 4,
                BackendFnError::GlooError => 5,
            };
            buf.push(t);
            proof {
                assert(buf@ =~= spec_encode_response(resp_rec(inner)));
            }
            buf
        },
    }
}

/// Unframe a reply from the wire: exactly the frames some reply encodes to
/// decode, to that reply; anything else is itself a transport parse error.
pub fn decode_response(bytes: &Vec<u8>) -> (r: Result<
    Result<Vec<u8>, BackendFnError>,
    BackendFnError,
>)
    ensures
        r matches Ok(inner) ==> bytes@ == spec_encode_response(resp_rec(inner)),
        forall|p: Result<Seq<u8>, BackendFnError>|
            #![trigger spec_encode_response(p)]
            bytes@ == spec_encode_response(p) ==> (r matches Ok(inner) && resp_rec(inner) == p),
        r matches Err(e) ==> e == BackendFnError::JsonParse,
{
    proof {
        assert(bytes@.len() == bytes.len());
    }
    if bytes.len() < 1 {
        return Err(BackendFnError::JsonParse);
    }
    let head = bytes[0];
    if head == 1 {
        let sl = slice_subrange(bytes.as_slice(), 1, bytes.len());
        let payload = slice_to_vec(sl);
        let inner: Result<Vec<u8>, BackendFnError> = Ok(payload);
        proof {
            assert(bytes@ =~= spec_encode_response(resp_rec(inner)));
            assert forall|p: Result<Seq<u8>, BackendFnError>|
                bytes@ == spec_encode_response(p) implies resp_rec(inner) == p by {
                match p {
                    Ok(b) => {
                        assert(b =~= bytes@.subrange(1, bytes@.len() as int));
                    },
                    Err(_) => {},
                }
            }
        }
        return Ok(inner);
    }
    if head == 0 && bytes.len() == 2 {
        let t = bytes[1];
        let e: BackendFnError = if t == 0 {
            BackendFnError::JsonSerialize
        } else if t == 1 {
            BackendFnError::JsonParse
        } else if t == 2 {
            BackendFnError::Request
        } else if t == 3 {
            BackendFnError::JsError
        } else if t == 4 {
            BackendFnError::SerdeError
        } else if t == 5 {
            BackendFnError::GlooError
        } else {
            return Err(BackendFnError::JsonParse);
        };
        let inner: Result<Vec<u8>, BackendFnError> = Err(e);
        proof {
            assert(bytes@ =~= spec_encode_response(resp_rec(inner)));
        }
        return Ok(inner);
    }
    Err(BackendFnError::JsonParse)
}

} // verus!
