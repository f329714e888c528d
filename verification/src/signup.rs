//! Validation of requested account handles: the rules a name must pass
//! before signup ever touches the store, and the per-rule verdict handed
//! back to the client so it can render which rule failed.
use vstd::prelude::*;

verus! {

/// Verdict of one validation rule: not yet checked, passed, or failed.
#[derive(Clone, Copy, Debug, PartialEq, Eq, Structural)]
pub enum SignupNameState {
    Valid,
    Invalid,
    Initial,
}

impl Default for SignupNameState {
    fn default() -> (r: Self)
        ensures
            r == SignupNameState::Initial,
    {
        SignupNameState::Initial
    }
}

impl From<bool> for SignupNameState {
    fn from(value: bool) -> (r: Self) {
        match value {
            true => SignupNameState::Valid,
            false => SignupNameState::Invalid,
        }
    }
}

impl vstd::std_specs::convert::FromSpecImpl<bool> for SignupNameState {
    open spec fn obeys_from_spec() -> bool {
        true
    }

    open spec fn from_spec(value: bool) -> Self {
        if value {
            SignupNameState::Valid
        } else {
            SignupNameState::Invalid
        }
    }
}

/// The per-rule verdicts on a requested handle.
#[derive(Clone, Copy, Debug, PartialEq, Eq, Structural)]
pub struct SignupName {
    pub is_alphanumeric: SignupNameState,
    pub less_than_max_len: SignupNameState,
    pub greater_than_min_len: SignupNameState,
    pub is_available: SignupNameState,
}

impl Default for SignupName {
    fn default() -> (r: Self)
        ensures
            r == (SignupName {
                is_alphanumeric: SignupNameState::Initial,
                less_than_max_len: SignupNameState::Initial,
                greater_than_min_len: SignupNameState::Initial,
                is_available: SignupNameState::Initial,
            }),
    {
        SignupName {
            is_alphanumeric: SignupNameState::Initial,
            less_than_max_len: SignupNameState::Initial,
            greater_than_min_len: SignupNameState::Initial,
            is_available: SignupNameState::Initial,
        }
    }
}

/// An ASCII letter or digit.
pub open spec fn is_alnum(c: char) -> bool {
    ('0' <= c && c <= '9') || ('a' <= c && c <= 'z') || ('A' <= c && c <= 'Z')
}

/// Every character is an ASCII letter or digit.
pub open spec fn all_alnum(s: Seq<char>) -> bool {
    forall|i: int| 0 <= i < s.len() ==> is_alnum(#[trigger] s[i])
}

/// The number of bytes the handle occupies on the wire; the stored length
/// limits are byte limits.
pub open spec fn name_byte_len(s: Seq<char>) -> nat {
    vstd::utf8::encode_utf8(s).len()
}

/// A handle the service accepts: three to twenty characters, every one an
/// ASCII letter or digit. For such handles the byte length and the
/// character count coincide.
pub open spec fn valid_name(s: Seq<char>) -> bool {
    all_alnum(s) && 3 <= s.len() <= 20
}

/// An all-alphanumeric handle is ASCII, so its byte length equals its
/// character count.
pub proof fn lemma_alnum_byte_len(s: Seq<char>)
    requires
        all_alnum(s),
    ensures
        name_byte_len(s) == s.len(),
{
    assert(vstd::utf8::is_ascii_chars(s));
    vstd::utf8::is_ascii_chars_encode_utf8(s);
}

/// The three local rules hold together exactly when the handle is one the
/// service accepts.
pub proof fn lemma_valid_name_flags(s: Seq<char>)
    ensures
        (all_alnum(s) && 3 <= name_byte_len(s) && name_byte_len(s) <= 20) <==> valid_name(s),
{
    if all_alnum(s) {
        lemma_alnum_byte_len(s);
    }
}

impl SignupName {
    /// Every local rule passed; availability is the store's affair.
    pub fn is_valid(&self) -> (r: bool)
        ensures
            r == (self.is_alphanumeric == SignupNameState::Valid && self.less_than_max_len
                == SignupNameState::Valid && self.greater_than_min_len == SignupNameState::Valid),
    {
        self.is_alphanumeric == SignupNameState::Valid && self.less_than_max_len
            == SignupNameState::Valid && self.greater_than_min_len == SignupNameState::Valid
    }
}

/// Check a requested handle against each rule: every character an ASCII
/// letter or digit, at least three bytes, at most twenty. Availability is
/// not checked here — it stays at its initial verdict until the store
/// answers.
pub fn validate_name(name: &String) -> (r: SignupName)
    ensures
        r.is_alphanumeric == (if all_alnum(name@) {
            SignupNameState::Valid
        } else {
            SignupNameState::Invalid
        }),
        r.greater_than_min_len == (if name_byte_len(name@) >= 3 {
            SignupNameState::Valid
        } else {
            SignupNameState::Invalid
        }),
        r.less_than_max_len == (if name_byte_len(name@) <= 20 {
            SignupNameState::Valid
        } else {
            SignupNameState::Invalid
        }),
        r.is_available == SignupNameState::Initial,
{
    let byte_len = name.as_str().as_bytes().len();
    let greater_than_min_len = SignupNameState::from(byte_len >= 3);
    let less_than_max_len = SignupNameState::from(byte_len <= 20);
    let n = name.as_str().unicode_len();
    let mut alnum = true;
    let mut i: usize = 0;
    while i < n
        invariant
            i <= n,
            n == name@.len(),
            alnum == (forall|k: int| 0 <= k < i ==> is_alnum(#[trigger] name@[k])),
        decreases n - i,
    {
        let c = name.as_str().get_char(i);
        let c_ok = ('0' <= c && c <= '9') || ('a' <= c && c <= 'z') || ('A' <= c && c <= 'Z');
        proof {
            assert(c_ok == is_alnum(name@[i as int]));
        }
        alnum = alnum && c_ok;
        i = i + 1;
    }
    let is_alphanumeric = SignupNameState::from(alnum);
    SignupName {
        is_alphanumeric: is_alphanumeric,
        less_than_max_len: less_than_max_len,
        greater_than_min_len: greater_than_min_len,
        is_available: SignupNameState::Initial,
    }
}

} // verus!
