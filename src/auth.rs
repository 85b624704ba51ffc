//! Reading the caller's identity from an `Authorization` header.
use vstd::prelude::*;
use vstd::string::*;

use crate::error::BrokerError;
use crate::events::{has_prefix, starts_with};
use crate::token::{bearer_accepts, token_claims, JwtService};

verus! {

/// Whether `w` occurs in `h` at some position.
pub open spec fn contains_text(h: Seq<char>, w: Seq<char>) -> bool {
    exists|i: int| 0 <= i && i + w.len() <= h.len() && #[trigger] h.subrange(i, i + w.len()) == w
}

/// `h` holds exactly one space, at `i`.
pub open spec fn single_space_at(h: Seq<char>, i: int) -> bool {
    &&& 0 <= i < h.len()
    &&& h[i] == ' '
    &&& forall|j: int| 0 <= j < h.len() && j != i ==> #[trigger] h[j] != ' '
}

/// The token a header carries under `scheme`: the header must mention the
/// scheme and split at spaces into exactly two parts, the second being the token.
pub open spec fn header_token(h: Seq<char>, scheme: Seq<char>) -> Option<Seq<char>> {
    if contains_text(h, scheme) && exists|i: int| single_space_at(h, i) {
        Some(h.subrange((choose|i: int| single_space_at(h, i)) + 1, h.len() as int))
    } else {
        None
    }
}

pub open spec fn bearer_word() -> Seq<char> {
    seq!['B', 'e', 'a', 'r', 'e', 'r']
}

pub open spec fn token_word() -> Seq<char> {
    seq!['T', 'o', 'k', 'e', 'n']
}

fn mentions(h: &str, w: &str) -> (r: bool)
    ensures
        r == contains_text(h@, w@),
{
    let n = h.unicode_len();
    let m = w.unicode_len();
    if m > n {
        return false;
    }
    if m == 0 {
        assert(h@.subrange(0int, 0int + w@.len()) =~= w@);
        return true;
    }
    let mut i: usize = 0;
    while i <= n - m
        invariant
            0 < m <= n,
            n == h@.len(),
            m == w@.len(),
            i <= n - m + 1,
            forall|k: int| 0 <= k < i ==> #[trigger] h@.subrange(k, k + w@.len()) != w@,
        decreases n - m + 1 - i,
    {
        let rest = h.substring_char(i, n);
        if has_prefix(rest, w) {
            assert(rest@.subrange(0, m as int) =~= h@.subrange(i as int, i + w@.len()));
            return true;
        }
        assert(rest@.subrange(0, m as int) =~= h@.subrange(i as int, i + w@.len()));
        i = i + 1;
    }
    assert forall|k: int| 0 <= k && k + w@.len() <= h@.len() implies #[trigger] h@.subrange(
        k,
        k + w@.len(),
    ) != w@ by {}
    false
}

fn token_after_space(h: &str) -> (r: Option<String>)
    ensures
        match r {
            Some(t) => exists|i: int| single_space_at(h@, i) && t@ == h@.subrange(i + 1, h@.len() as int),
            None => !exists|i: int| single_space_at(h@, i),
        },
{
    let n = h.unicode_len();
    let mut first: Option<usize> = None;
    let mut k: usize = 0;
    while k < n
        invariant
            k <= n,
            n == h@.len(),
            match first {
                None => forall|j: int| 0 <= j < k ==> h@[j] != ' ',
                Some(p) => p < k && h@[p as int] == ' ' && forall|j: int|
                    0 <= j < k && j != p ==> h@[j] != ' ',
            },
        decreases n - k,
    {
        if h.get_char(k) == ' ' {
            match first {
                None => {
                    first = Some(k);
                },
                Some(p) => {
                    proof {
                        assert forall|i: int| !single_space_at(h@, i) by {
                            if single_space_at(h@, i) {
                                if i != p {
                                    assert(h@[p as int] != ' ');
                                } else {
                                    assert(h@[k as int] != ' ');
                                }
                            }
                        }
                    }
                    return None;
                },
            }
        }
        k = k + 1;
    }
    match first {
        None => {
            assert forall|i: int| !single_space_at(h@, i) by {
                if single_space_at(h@, i) {
                    assert(h@[i] != ' ');
                }
            }
            None
        },
        Some(p) => {
            let t = String::from_str(h.substring_char(p + 1, n));
            assert(single_space_at(h@, p as int));
            Some(t)
        },
    }
}

/// The token that `header` carries under `scheme`.
pub fn header_token_of(header: &str, scheme: &str) -> (r: Option<String>)
    ensures
        match header_token(header@, scheme@) {
            Some(t) => r matches Some(s) && s@ == t,
            None => r is None,
        },
{
    if !mentions(header, scheme) {
        return None;
    }
    let r = token_after_space(header);
    proof {
        if r is Some {
            let t = r->Some_0;
            let i = choose|i: int| single_space_at(header@, i) && t@ == header@.subrange(i + 1, header@.len() as int);
            let c = choose|c: int| single_space_at(header@, c);
            assert(c == i) by {
                if c != i {
                    assert(header@[c] != ' ');
                }
            }
        }
    }
    r
}

/// A caller that must be signed in, with its user id.
pub struct RequiredAuthentication(pub i64);

/// A caller that may be signed in.
pub struct OptionalAuthentication(pub Option<i64>);

impl RequiredAuthentication {
    /// Reads `Authorization: Bearer <token>` at time `now`; anything else is
    /// `Unauthorized`.
    pub fn from_header(header: Option<&str>, jwt: &JwtService, now: u64) -> (r: Result<
        RequiredAuthentication,
        BrokerError,
    >)
        ensures
            match header {
                Some(h) => match header_token(h@, bearer_word()) {
                    Some(t) => match token_claims(t, jwt.bearer_secret()) {
                        Some(c) if bearer_accepts(c, now) => r matches Ok(a) && Some(a.0) == c.user_id,
                        _ => r == Err::<RequiredAuthentication, BrokerError>(BrokerError::Unauthorized),
                    },
                    None => r == Err::<RequiredAuthentication, BrokerError>(BrokerError::Unauthorized),
                },
                None => r == Err::<RequiredAuthentication, BrokerError>(BrokerError::Unauthorized),
            },
    {
        proof {
            reveal_strlit("Bearer");
            assert("Bearer"@ =~= bearer_word());
        }
        match header {
            None => Err(BrokerError::Unauthorized),
            Some(h) => match header_token_of(h, "Bearer") {
                None => Err(BrokerError::Unauthorized),
                Some(t) => {
                    let claims = jwt.decode_bearer_token(t.as_str(), now)?;
                    Ok(RequiredAuthentication(claims.user_id))
                },
            },
        }
    }
}

impl OptionalAuthentication {
    /// Reads `Authorization: Token <token>` at time `now`; a missing or
    /// unreadable header, or a refused token, gives no user.
    pub fn from_header(header: Option<&str>, jwt: &JwtService, now: u64) -> (r: OptionalAuthentication)
        ensures
            match header {
                Some(h) => match header_token(h@, token_word()) {
                    Some(t) => match token_claims(t, jwt.bearer_secret()) {
                        Some(c) if bearer_accepts(c, now) => r.0 == c.user_id,
                        _ => r.0 is None,
                    },
                    None => r.0 is None,
                },
                None => r.0 is None,
            },
    {
        proof {
            reveal_strlit("Token");
            assert("Token"@ =~= token_word());
        }
        match header {
            None => OptionalAuthentication(None),
            Some(h) => match header_token_of(h, "Token") {
                None => OptionalAuthentication(None),
                Some(t) => match jwt.decode_bearer_token(t.as_str(), now) {
                    Ok(claims) => OptionalAuthentication(Some(claims.user_id)),
                    Err(_) => OptionalAuthentication(None),
                },
            },
        }
    }
}

} // verus!
