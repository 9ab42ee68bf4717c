//! Error taxonomy of the gateway and the JSON error bodies sent to clients.
//!
//! Every failure that reaches a client is one of the five `ApiError` kinds,
//! never a bare string; each kind maps to one HTTP status code, and the body
//! of an error response is always `{"error":"<reason>"}`.

use vstd::prelude::*;
use vstd::string::*;

verus! {

/// A typed failure of the gateway.
///
/// `Unauthorized` is a missing or malformed bearer token; `InvalidArgument`
/// a bad technology tag or malformed query; `NotFound` an unknown site,
/// node, session or group; `BackendUnavailable` an upstream failure;
/// `Internal` anything unexpected. All but `Unauthorized` carry a reason
/// that ends up in the response body.
#[derive(Debug)]
pub enum ApiError {
    Unauthorized,
    InvalidArgument(String),
    NotFound(String),
    BackendUnavailable(String),
    Internal(String),
}

impl ApiError {
    /// The HTTP status code of this error kind.
    pub open spec fn spec_status(&self) -> u16 {
        match self {
            ApiError::Unauthorized => 401,
            ApiError::InvalidArgument(_) => 400,
            ApiError::NotFound(_) => 404,
            ApiError::BackendUnavailable(_) => 500,
            ApiError::Internal(_) => 500,
        }
    }

    /// The reason line of this error.
    pub open spec fn spec_reason(&self) -> Seq<char> {
        match self {
            ApiError::Unauthorized => "Unauthorized access"@,
            ApiError::InvalidArgument(m) => m@,
            ApiError::NotFound(m) => m@,
            ApiError::BackendUnavailable(m) => m@,
            ApiError::Internal(m) => m@,
        }
    }

    pub fn status(&self) -> (code: u16)
        ensures
            code == self.spec_status(),
    {
        match self {
            ApiError::Unauthorized => 401,
            ApiError::InvalidArgument(_) => 400,
            ApiError::NotFound(_) => 404,
            ApiError::BackendUnavailable(_) => 500,
            ApiError::Internal(_) => 500,
        }
    }

    pub fn reason(&self) -> (r: String)
        ensures
            r@ == self.spec_reason(),
    {
        match self {
            ApiError::Unauthorized => String::from_str("Unauthorized access"),
            ApiError::InvalidArgument(m) => m.clone(),
            ApiError::NotFound(m) => m.clone(),
            ApiError::BackendUnavailable(m) => m.clone(),
            ApiError::Internal(m) => m.clone(),
        }
    }

    /// The full HTTP shape of this error: status code plus JSON body.
    pub fn response(&self) -> (r: ErrorResponse)
        ensures
            r.code == self.spec_status(),
            r.reason@ == self.spec_reason(),
    {
        ErrorResponse::new(self.status(), self.reason())
    }
}

/// An HTTP error reply before it is handed to the transport: a status code
/// and the reason that becomes the `{"error":...}` body.
#[derive(Debug)]
pub struct ErrorResponse {
    pub code: u16,
    pub reason: String,
}

impl ErrorResponse {
    pub fn new(code: u16, reason: String) -> (r: ErrorResponse)
        ensures
            r.code == code,
            r.reason == reason,
    {
        ErrorResponse { code, reason }
    }

    /// The JSON body of this reply, `{"error":"<reason>"}` with the reason
    /// escaped as a JSON string.
    pub fn body(&self) -> (b: String)
        ensures
            b@ == spec_error_body(self.reason@),
    {
        let mut b = String::from_str("{\"error\":");
        let quoted = json_quote(&self.reason);
        b.append(quoted.as_str());
        b.append("}");
        proof {
            assert(b@ =~= spec_error_body(self.reason@));
        }
        b
    }
}

/// Builds an error reply from a status code and a reason line.
pub fn error_respond(code: u16, reason: String) -> (r: ErrorResponse)
    ensures
        r.code == code,
        r.reason == reason,
{
    ErrorResponse::new(code, reason)
}

/// The body of an error reply for a given reason.
pub open spec fn spec_error_body(reason: Seq<char>) -> Seq<char> {
    "{\"error\":"@ + spec_json_quote(reason) + "}"@
}

/// A JSON string literal for `s`: surrounding quotes with every character
/// escaped as JSON requires.
pub open spec fn spec_json_quote(s: Seq<char>) -> Seq<char> {
    seq!['"'] + spec_json_escaped(s) + seq!['"']
}

/// `s` with each character replaced by its JSON escape.
pub open spec fn spec_json_escaped(s: Seq<char>) -> Seq<char>
    decreases s.len(),
{
    if s.len() == 0 {
        Seq::empty()
    } else {
        spec_json_escaped(s.drop_last()) + spec_json_escape_char(s.last())
    }
}

/// The JSON escape of one character: quotes and backslashes get a
/// backslash, the named control characters their short escapes, all other
/// control characters a `\u00XX` escape, and everything else stands as is.
pub open spec fn spec_json_escape_char(c: char) -> Seq<char> {
    if c == '"' {
        seq!['\\', '"']
    } else if c == '\\' {
        seq!['\\', '\\']
    } else if c == '\u{8}' {
        seq!['\\', 'b']
    } else if c == '\u{c}' {
        seq!['\\', 'f']
    } else if c == '\n' {
        seq!['\\', 'n']
    } else if c == '\r' {
        seq!['\\', 'r']
    } else if c == '\t' {
        seq!['\\', 't']
    } else if (c as u32) < 0x20 {
        seq!['\\', 'u', '0', '0', spec_hex_digit((c as u32) / 16), spec_hex_digit((c as u32) % 16)]
    } else {
        seq![c]
    }
}

/// The lower-case hexadecimal digit for a value below 16.
pub open spec fn spec_hex_digit(n: u32) -> char {
    if n == 0 { '0' } else if n == 1 { '1' } else if n == 2 { '2' } else if n == 3 { '3' }
    else if n == 4 { '4' } else if n == 5 { '5' } else if n == 6 { '6' } else if n == 7 { '7' }
    else if n == 8 { '8' } else if n == 9 { '9' } else if n == 10 { 'a' } else if n == 11 { 'b' }
    else if n == 12 { 'c' } else if n == 13 { 'd' } else if n == 14 { 'e' } else { 'f' }
}

/// The one-character string holding the hexadecimal digit for `n`.
fn hex_digit_str(n: u32) -> (r: &'static str)
    requires
        n < 16,
    ensures
        r@ == seq![spec_hex_digit(n)],
{
    let r = match n {
        0 => "0", 1 => "1", 2 => "2", 3 => "3", 4 => "4", 5 => "5", 6 => "6", 7 => "7",
        8 => "8", 9 => "9", 10 => "a", 11 => "b", 12 => "c", 13 => "d", 14 => "e", _ => "f",
    };
    proof {
        reveal_strlit("0"); reveal_strlit("1"); reveal_strlit("2"); reveal_strlit("3");
        reveal_strlit("4"); reveal_strlit("5"); reveal_strlit("6"); reveal_strlit("7");
        reveal_strlit("8"); reveal_strlit("9"); reveal_strlit("a"); reveal_strlit("b");
        reveal_strlit("c"); reveal_strlit("d"); reveal_strlit("e"); reveal_strlit("f");
        assert(r@ =~= seq![spec_hex_digit(n)]);
    }
    r
}

/// Appends the JSON escape of the character `ch` to `out`; `one` is the
/// one-character slice holding `ch`.
fn push_json_escape_char(out: &mut String, one: &str, ch: char)
    requires
        one@ == seq![ch],
    ensures
        final(out)@ == old(out)@ + spec_json_escape_char(ch),
{
    if ch == '"' {
        out.append("\\\"");
        proof { reveal_strlit("\\\""); assert(out@ =~= old(out)@ + spec_json_escape_char(ch)); }
    } else if ch == '\\' {
        out.append("\\\\");
        proof { reveal_strlit("\\\\"); assert(out@ =~= old(out)@ + spec_json_escape_char(ch)); }
    } else if ch == '\u{8}' {
        out.append("\\b");
        proof { reveal_strlit("\\b"); assert(out@ =~= old(out)@ + spec_json_escape_char(ch)); }
    } else if ch == '\u{c}' {
        out.append("\\f");
        proof { reveal_strlit("\\f"); assert(out@ =~= old(out)@ + spec_json_escape_char(ch)); }
    } else if ch == '\n' {
        out.append("\\n");
        proof { reveal_strlit("\\n"); assert(out@ =~= old(out)@ + spec_json_escape_char(ch)); }
    } else if ch == '\r' {
        out.append("\\r");
        proof { reveal_strlit("\\r"); assert(out@ =~= old(out)@ + spec_json_escape_char(ch)); }
    } else if ch == '\t' {
        out.append("\\t");
        proof { reveal_strlit("\\t"); assert(out@ =~= old(out)@ + spec_json_escape_char(ch)); }
    } else if (ch as u32) < 0x20 {
        let code: u32 = ch as u32;
        out.append("\\u00");
        out.append(hex_digit_str(code / 16));
        out.append(hex_digit_str(code % 16));
        proof {
            reveal_strlit("\\u00");
            assert(out@ =~= old(out)@ + spec_json_escape_char(ch));
        }
    } else {
        out.append(one);
        proof {
            assert(out@ =~= old(out)@ + spec_json_escape_char(ch));
        }
    }
}

/// Renders `s` as a JSON string literal, quotes included.
pub fn json_quote(s: &String) -> (r: String)
    ensures
        r@ == spec_json_quote(s@),
{
    let mut r = String::from_str("\"");
    proof {
        reveal_strlit("\"");
        assert(r@ =~= seq!['"']);
    }
    let slice = s.as_str();
    let n = slice.unicode_len();
    let mut i: usize = 0;
    while i < n
        invariant
            i <= n,
            n == s@.len(),
            slice@ == s@,
            r@ == seq!['"'] + spec_json_escaped(s@.take(i as int)),
        decreases n - i,
    {
        let one = slice.substring_char(i, i + 1);
        proof {
            assert(one@ =~= seq![s@[i as int]]);
        }
        let ch = one.get_char(0);
        push_json_escape_char(&mut r, one, ch);
        proof {
            assert(s@.take(i as int + 1).drop_last() =~= s@.take(i as int));
            assert(s@.take(i as int + 1).last() == s@[i as int]);
        }
        i = i + 1;
    }
    r.append("\"");
    proof {
        assert(s@.take(n as int) =~= s@);
        assert(r@ =~= spec_json_quote(s@));
    }
    r
}

} // verus!
