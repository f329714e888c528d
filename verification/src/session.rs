//! The session resolver: from an opaque cookie-carried token to an
//! authenticated account, and the cookie that hands a fresh token out.
//!
//! Resolution never fails: a missing cookie, an unknown token, or a session
//! whose account is gone all read as anonymous. Every request resolves
//! independently against the store — there is no session cache.
use vstd::prelude::*;

use crate::models::{Account, Session};
use crate::store::{identifier_taken, Database};

verus! {

/// What a request executes against: the identity its cookie resolved to,
/// if any. The store handle travels alongside as a separate argument, so
/// nothing ambient is consulted.
pub struct Context {
    pub session: Option<Session>,
}

/// Resolve a cookie-carried token to its session. No token, or a token no
/// session carries, resolves to anonymous — never to an error.
pub fn resolve_session(db: &Database, token: Option<&str>) -> (r: Option<Session>)
    requires
        db.wf(),
        db.migrated(),
    ensures
        match token {
            None => (r is None),
            Some(t) => {
                &&& ((r is Some) <==> identifier_taken(db@, t@))
                &&& (r matches Some(s) ==> db@.sessions.contains(s@) && s@.identifier == t@)
            },
        },
{
    match token {
        None => None,
        Some(t) => match db.session_by_identifer(t) {
            Ok(s) => Some(s),
            Err(_) => None,
        },
    }
}

/// The account behind a resolved session, if both still exist. A session
/// whose account has been deleted reads as anonymous.
pub fn get_account(db: &Database, ctx: &Context) -> (r: Option<Account>)
    requires
        db.wf(),
        db.migrated(),
    ensures
        match ctx.session {
            None => (r is None),
            Some(s) => (r matches Some(a) ==> db@.accounts.contains(a@) && a@.id == s@.account_id)
                && ((r is Some) <==> crate::store::has_account_id(db@, s@.account_id)),
        },
{
    match &ctx.session {
        None => None,
        Some(s) => match db.account_by_id(s.account_id) {
            Ok(a) => Some(a),
            Err(_) => None,
        },
    }
}

/// Index of the first occurrence of `c` in `s`; negative when absent.
pub open spec fn first_idx(s: Seq<char>, c: char) -> int
    decreases s.len(),
{
    if s.len() == 0 {
        -1
    } else if s[0] == c {
        0
    } else {
        let r = first_idx(s.drop_first(), c);
        if r < 0 {
            -1
        } else {
            r + 1
        }
    }
}

/// What `first_idx` finds is characterized by its position: the first
/// index carrying `c`, or nothing anywhere.
proof fn lemma_first_idx(s: Seq<char>, c: char)
    ensures
        first_idx(s, c) < 0 ==> (forall|k: int| 0 <= k < s.len() ==> s[k] != c),
        first_idx(s, c) >= 0 ==> (0 <= first_idx(s, c) < s.len() && s[first_idx(s, c)] == c
            && (forall|k: int| 0 <= k < first_idx(s, c) ==> s[k] != c)),
    decreases s.len(),
{
    if s.len() > 0 && s[0] != c {
        let t = s.drop_first();
        lemma_first_idx(t, c);
        assert forall|k: int| 1 <= k < s.len() implies #[trigger] s[k] == t[k - 1] by {
            assert(t[k - 1] == s[k]);
        }
        if first_idx(s, c) < 0 {
            assert forall|k: int| 0 <= k < s.len() implies s[k] != c by {
                if k >= 1 {
                    assert(t[k - 1] != c);
                }
            }
        } else {
            let i = first_idx(s, c);
            assert(s[i] == t[i - 1]);
            assert forall|k: int| 0 <= k < i implies s[k] != c by {
                if k >= 1 {
                    assert(t[k - 1] != c);
                }
            }
        }
    }
}

/// A position that carries `c` after positions that do not is exactly what
/// `first_idx` finds; a sequence with no `c` at all yields nothing.
proof fn lemma_first_idx_at(s: Seq<char>, c: char, j: int)
    requires
        0 <= j <= s.len(),
        forall|k: int| 0 <= k < j ==> s[k] != c,
        j < s.len() ==> s[j] == c,
    ensures
        j < s.len() ==> first_idx(s, c) == j,
        j == s.len() ==> first_idx(s, c) < 0,
    decreases s.len(),
{
    if s.len() > 0 && s[0] != c {
        let t = s.drop_first();
        assert forall|k: int| 0 <= k < j - 1 implies #[trigger] t[k] != c by {
            assert(t[k] == s[k + 1]);
        }
        if j - 1 < t.len() {
            assert(t[j - 1] == s[j]);
        }
        lemma_first_idx_at(t, c, j - 1);
    }
}

/// The value a cookie pair binds to `name`: everything past the first `=`,
/// when everything before it is exactly `name`.
pub open spec fn pair_value(p: Seq<char>, name: Seq<char>) -> Option<Seq<char>> {
    let e = first_idx(p, '=');
    if e >= 0 && p.take(e) == name {
        Some(p.skip(e + 1))
    } else {
        None
    }
}

/// The value bound to `name` in a cookie header: pairs are separated by a
/// semicolon and an optional following space, each pair binds what stands
/// before its first `=` to what stands after, and the first binding of
/// `name` wins.
pub open spec fn cookie_value(s: Seq<char>, name: Seq<char>) -> Option<Seq<char>>
    decreases s.len(),
    via cookie_value_decreases
{
    let i = first_idx(s, ';');
    let head = if i < 0 {
        s
    } else {
        s.take(i)
    };
    if pair_value(head, name) is Some {
        pair_value(head, name)
    } else if i < 0 {
        None
    } else {
        let rest = s.skip(i + 1);
        if rest.len() > 0 && rest[0] == ' ' {
            cookie_value(rest.drop_first(), name)
        } else {
            cookie_value(rest, name)
        }
    }
}

#[via_fn]
proof fn cookie_value_decreases(s: Seq<char>, name: Seq<char>) {
    lemma_first_idx(s, ';');
}

/// Extract the session token a request's cookie header carries under the
/// `id` name, if any: the resolver's input, pulled out of the raw header
/// exactly as [`cookie_value`] reads it.
#[verifier::rlimit(60)]
pub fn cookie_token(header: &str) -> (r: Option<String>)
    ensures
        match r {
            Some(v) => cookie_value(header@, "id"@) == Some(v@),
            None => (cookie_value(header@, "id"@) is None),
        },
{
    proof {
        reveal_strlit("id");
    }
    let n = header.unicode_len();
    let mut pos: usize = 0;
    proof {
        assert(header@.skip(0) =~= header@);
    }
    loop
        invariant
            0 <= pos <= n,
            n == header@.len(),
            cookie_value(header@, "id"@) == cookie_value(header@.skip(pos as int), "id"@),
            "id"@.len() == 2 && "id"@[0] == 'i' && "id"@[1] == 'd',
        decreases n - pos,
    {
        let ghost tail = header@.skip(pos as int);
        // find the end of the current pair
        let mut j: usize = pos;
        while j < n && header.get_char(j) != ';'
            invariant
                pos <= j <= n,
                n == header@.len(),
                forall|k: int| pos <= k < j ==> header@[k] != ';',
            decreases n - j,
        {
            j = j + 1;
        }
        proof {
            assert(forall|k: int| 0 <= k < j - pos ==> tail[k] == header@[k + pos]);
            lemma_first_idx_at(tail, ';', j - pos);
        }
        let ghost head = if j < n {
            tail.take(j - pos)
        } else {
            tail
        };
        proof {
            if j == n {
                assert(head =~= tail.take(j - pos));
            }
        }
        // find the first separator of the current pair
        let mut e: usize = pos;
        while e < j && header.get_char(e) != '='
            invariant
                pos <= e <= j <= n,
                n == header@.len(),
                forall|k: int| pos <= k < e ==> header@[k] != '=',
            decreases j - e,
        {
            e = e + 1;
        }
        proof {
            assert(forall|k: int| 0 <= k < head.len() ==> head[k] == header@[k + pos]);
            lemma_first_idx_at(head, '=', e - pos);
        }
        let name_matches = e < j && e - pos == 2 && header.get_char(pos) == 'i' && header.get_char(
            pos + 1,
        ) == 'd';
        proof {
            if e < j {
                assert(head.take(e - pos) == "id"@ <==> (e - pos == 2 && header@[pos as int]
                    == 'i' && header@[pos as int + 1] == 'd')) by {
                    if e - pos == 2 && header@[pos as int] == 'i' && header@[pos as int + 1]
                        == 'd' {
                        assert(head.take(e - pos) =~= "id"@);
                    }
                }
            }
        }
        if name_matches {
            let value = header.substring_char(e + 1, j).to_owned();
            proof {
                assert(value@ =~= head.skip(e - pos + 1));
                assert(pair_value(head, "id"@) == Some(value@));
            }
            return Some(value);
        }
        proof {
            assert(pair_value(head, "id"@) is None);
        }
        if j == n {
            proof {
                assert(cookie_value(tail, "id"@) is None);
            }
            return None;
        }
        let mut next = j + 1;
        if next < n && header.get_char(next) == ' ' {
            next = next + 1;
        }
        proof {
            let rest = header@.skip(pos as int).skip(j - pos + 1);
            assert(rest =~= header@.skip(j + 1));
            if j + 1 < n && header@[j as int + 1] == ' ' {
                assert(rest.drop_first() =~= header@.skip(j + 2));
            }
            assert(cookie_value(tail, "id"@) == cookie_value(
                header@.skip(next as int),
                "id"@,
            ));
        }
        pos = next;
    }
}

/// The characters of the session cookie a fresh login or signup sends
/// back: HttpOnly, lax same-site, site-wide, a multi-week max-age, and —
/// outside debug runs — secure.
pub open spec fn spec_set_cookie(identifier: Seq<char>, debug: bool) -> Seq<char> {
    "id="@ + identifier + "; HttpOnly; SameSite=Lax; Path=/; Max-Age=2629746; "@ + (if debug {
        ""@
    } else {
        "Secure;"@
    })
}

/// Render the set-cookie header value binding the session's identifier.
/// `debug` drops the secure attribute, as a local debug run does.
pub fn set_cookie(session: Session, debug: bool) -> (r: String)
    ensures
        r@ == spec_set_cookie(session@.identifier, debug),
{
    let mut out = String::new();
    out.append("id=");
    out.append(session.identifier.as_str());
    out.append("; HttpOnly; SameSite=Lax; Path=/; Max-Age=2629746; ");
    if !debug {
        out.append("Secure;");
    }
    proof {
        reveal_strlit("");
        assert(out@ =~= spec_set_cookie(session@.identifier, debug));
    }
    out
}

} // verus!
