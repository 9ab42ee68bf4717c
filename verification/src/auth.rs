//! Request authentication: extracting the bearer token every route
//! requires, and unpacking the basic credentials the token-issuing route
//! receives.
//!
//! Nothing here interprets a token; tokens are opaque and are only carried
//! to the backends.

use vstd::prelude::*;
use vstd::string::*;
use vstd::utf8::*;
use crate::encoding::{base64_decode, base64_decoded, utf8_to_string};
use crate::error::ApiError;

verus! {

/// The first index of `c` in `s`, or -1 when `c` does not occur.
pub open spec fn spec_find_char(s: Seq<char>, c: char) -> int
    decreases s.len(),
{
    if s.len() == 0 {
        -1
    } else if s[0] == c {
        0
    } else {
        let r = spec_find_char(s.drop_first(), c);
        if r < 0 {
            -1
        } else {
            r + 1
        }
    }
}

/// `spec_find_char` finds the first occurrence: -1 exactly when the
/// character is absent, otherwise a valid index holding `c` with nothing
/// equal to `c` before it.
pub proof fn lemma_find_char_props(s: Seq<char>, c: char)
    ensures
        (spec_find_char(s, c) == -1 <==> forall|j: int| 0 <= j < s.len() ==> s[j] != c),
        spec_find_char(s, c) >= 0 ==> {
            &&& spec_find_char(s, c) < s.len()
            &&& s[spec_find_char(s, c)] == c
            &&& forall|j: int| 0 <= j < spec_find_char(s, c) ==> s[j] != c
        },
    decreases s.len(),
{
    if s.len() == 0 {
    } else if s[0] == c {
    } else {
        lemma_find_char_props(s.drop_first(), c);
        let r0 = spec_find_char(s.drop_first(), c);
        if r0 == -1 {
            assert forall|j: int| 0 <= j < s.len() implies s[j] != c by {
                if j > 0 {
                    assert(s.drop_first()[j - 1] == s[j]);
                }
            }
        } else {
            assert(s.drop_first()[r0] == s[r0 + 1]);
            assert forall|j: int| 0 <= j < r0 + 1 implies s[j] != c by {
                if j > 0 {
                    assert(s.drop_first()[j - 1] == s[j]);
                }
            }
        }
    }
}

/// Finds the first occurrence of `c` in `s`.
pub(crate) fn find_char(s: &str, c: char) -> (r: Option<usize>)
    ensures
        match r {
            Some(i) => {
                &&& i < s@.len()
                &&& s@[i as int] == c
                &&& forall|j: int| 0 <= j < i ==> s@[j] != c
                &&& spec_find_char(s@, c) == i
            },
            None => {
                &&& forall|j: int| 0 <= j < s@.len() ==> s@[j] != c
                &&& spec_find_char(s@, c) == -1
            },
        },
{
    let n = s.unicode_len();
    let mut i: usize = 0;
    while i < n
        invariant
            i <= n,
            n == s@.len(),
            forall|j: int| 0 <= j < i ==> s@[j] != c,
        decreases n - i,
    {
        if s.get_char(i) == c {
            proof {
                lemma_find_char_props(s@, c);
            }
            return Some(i);
        }
        i = i + 1;
    }
    proof {
        lemma_find_char_props(s@, c);
    }
    None
}

/// Splits `s` at its first `c`: the part before it, and the part between
/// it and the next `c` (or the end). `None` when `s` holds no `c` at all.
pub open spec fn spec_split_two(s: Seq<char>, c: char) -> Option<(Seq<char>, Seq<char>)> {
    let i = spec_find_char(s, c);
    if i < 0 {
        None
    } else {
        let rest = s.skip(i + 1);
        let j = spec_find_char(rest, c);
        if j < 0 {
            Some((s.take(i), rest))
        } else {
            Some((s.take(i), rest.take(j)))
        }
    }
}

/// Splits `s` at its first `c` as `spec_split_two` describes.
fn split_two(s: &str, c: char) -> (r: Option<(String, String)>)
    ensures
        match r {
            Some(p) => spec_split_two(s@, c) == Some((p.0@, p.1@)),
            None => spec_split_two(s@, c) is None,
        },
{
    let n = s.unicode_len();
    match find_char(s, c) {
        None => None,
        Some(i) => {
            let first = s.substring_char(0, i).to_owned();
            let rest = s.substring_char(i + 1, n);
            proof {
                assert(first@ =~= s@.take(i as int));
                assert(rest@ =~= s@.skip(i as int + 1));
            }
            let m = rest.unicode_len();
            match find_char(rest, c) {
                None => {
                    let second = rest.to_owned();
                    Some((first, second))
                },
                Some(j) => {
                    let second = rest.substring_char(0, j).to_owned();
                    proof {
                        assert(second@ =~= rest@.take(j as int));
                    }
                    Some((first, second))
                },
            }
        },
    }
}

/// The bearer token carried by an `Authorization` header value: the value
/// must be exactly `Bearer ` followed by a non-empty token without spaces.
pub open spec fn spec_bearer_token(h: Seq<char>) -> Option<Seq<char>> {
    if h.len() >= 7 && h.take(7) == "Bearer "@ && h.skip(7).len() > 0 && !h.skip(7).contains(' ') {
        Some(h.skip(7))
    } else {
        None
    }
}

/// Extracts the caller's bearer token from the `Authorization` header
/// value, if any. A missing header or a value not of the form
/// `Bearer <token>` is rejected as `Unauthorized` before anything else
/// happens to the request.
pub fn get_auth_token(header: Option<&String>) -> (r: Result<String, ApiError>)
    ensures
        match r {
            Ok(t) => header matches Some(h) && spec_bearer_token(h@) == Some(t@),
            Err(e) => e is Unauthorized && (header matches Some(h) ==> spec_bearer_token(h@)
                is None),
        },
{
    let h = match header {
        None => { return Err(ApiError::Unauthorized) },
        Some(h) => h,
    };
    let s = h.as_str();
    let n = s.unicode_len();
    if n < 7 {
        return Err(ApiError::Unauthorized);
    }
    let prefix = s.substring_char(0, 7).to_owned();
    let bearer = String::from_str("Bearer ");
    if !(prefix == bearer) {
        proof {
            assert(prefix@ =~= h@.take(7));
        }
        return Err(ApiError::Unauthorized);
    }
    let tail = s.substring_char(7, n);
    proof {
        assert(tail@ =~= h@.skip(7));
        assert(prefix@ =~= h@.take(7));
    }
    if tail.is_empty() {
        return Err(ApiError::Unauthorized);
    }
    match find_char(tail, ' ') {
        Some(i) => {
            proof {
                assert(tail@.contains(' ')) by {
                    assert(tail@[i as int] == ' ');
                }
            }
            Err(ApiError::Unauthorized)
        },
        None => {
            let token = tail.to_owned();
            proof {
                assert(!tail@.contains(' '));
                assert(spec_bearer_token(h@) == Some(token@));
            }
            Ok(token)
        },
    }
}

/// Splits decoded basic-auth text into user name and password: the user
/// name stands before the first colon, the password between the first
/// colon and the second (or the end). Text without a colon is rejected as
/// `Unauthorized`.
pub fn split_credentials(text: &String) -> (r: Result<(String, String), ApiError>)
    ensures
        match r {
            Ok(p) => spec_split_two(text@, ':') == Some((p.0@, p.1@)),
            Err(e) => e is Unauthorized && spec_split_two(text@, ':') is None,
        },
{
    match split_two(text.as_str(), ':') {
        Some(p) => Ok(p),
        None => Err(ApiError::Unauthorized),
    }
}

/// Unpacks the basic credentials of an `Authorization` header value: the
/// base64 word after the scheme is decoded, read as UTF-8 and split at
/// colons into user name and password. Every malformed shape is rejected
/// as `Unauthorized`; nothing of the credentials is interpreted further.
pub fn parse_basic_credentials(header: Option<&String>) -> (r: Result<(String, String), ApiError>)
    ensures
        r matches Err(e) ==> e is Unauthorized,
        header is None ==> r is Err,
        r matches Ok(p) ==> header matches Some(h) && (spec_split_two(h@, ' ') matches Some(w)
            && valid_utf8(base64_decoded(w.1)) && spec_split_two(
            decode_utf8(base64_decoded(w.1)),
            ':',
        ) == Some((p.0@, p.1@))),
        header matches Some(h) && spec_split_two(h@, ' ') is None ==> r is Err,
{
    let h = match header {
        None => { return Err(ApiError::Unauthorized) },
        Some(h) => h,
    };
    let word = match split_two(h.as_str(), ' ') {
        None => { return Err(ApiError::Unauthorized) },
        Some(p) => p.1,
    };
    let decoded = match base64_decode(&word) {
        None => { return Err(ApiError::Unauthorized) },
        Some(v) => v,
    };
    let text = match utf8_to_string(&decoded) {
        None => { return Err(ApiError::Unauthorized) },
        Some(t) => t,
    };
    split_credentials(&text)
}

} // verus!
