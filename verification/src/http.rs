//! What the server reads off the headers of a request: the bearer token, the
//! time limit and the request id.

use axum::http::{HeaderMap, HeaderValue};
use vstd::prelude::*;
use vstd::string::*;

use crate::counters::ApiErrorCategory;
use crate::text::{chars_of, parse_unsigned, str_eq, unsigned_value};

verus! {

/// The largest request body, in bytes: an audio upload of 25 MiB and 1 MiB for
/// what frames it.
pub const MAX_BODY_BYTES: usize = 27_262_976;

/// The longest request id that is taken over from a client.
pub const MAX_REQUEST_ID_CHARS: usize = 128;

/// `axum::http::HeaderValue`, the bytes of one header.
#[verifier::external_type_specification]
#[verifier::external_body]
pub struct ExHeaderValue(HeaderValue);

/// `axum::http::HeaderMap`, the headers of a request by name.
#[verifier::external_type_specification]
#[verifier::external_body]
#[verifier::reject_recursive_types(T)]
pub struct ExHeaderMap<T>(HeaderMap<T>);

/// The bytes of a header value.
pub uninterp spec fn header_bytes(v: HeaderValue) -> Seq<u8>;

/// The headers of a request: by the lower-case name, the bytes of the first
/// value.
pub uninterp spec fn header_fields(h: HeaderMap<HeaderValue>) -> Map<Seq<char>, Seq<u8>>;

/// Whether a header can be looked up by this spelling of its name as it is: lower-case
/// letters, digits and hyphens.
pub open spec fn is_plain_name(name: Seq<char>) -> bool {
    forall|i: int|
        0 <= i < name.len() ==> 'a' <= #[trigger] name[i] <= 'z' || '0' <= name[i] <= '9' || name[i]
            == '-'
}

/// `HeaderMap::get` returns the first value under a header name, and `None` where
/// the header is absent.
#[verifier::external_body]
fn header<'a>(headers: &'a HeaderMap<HeaderValue>, name: &str) -> (r: Option<&'a HeaderValue>)
    requires
        is_plain_name(name@),
    ensures
        match r {
            Some(v) => header_fields(*headers).contains_key(name@) && header_fields(*headers)[name@]
                == header_bytes(*v),
            None => !header_fields(*headers).contains_key(name@),
        },
{
    headers.get(name)
}

/// Whether a byte may stand in a header that is read as text: visible ASCII, a
/// space or a tab.
pub open spec fn is_text_byte(b: u8) -> bool {
    32 <= b < 127 || b == 9
}

/// A header value read as text, where every byte may stand in one.
pub open spec fn header_text(bytes: Seq<u8>) -> Option<Seq<char>> {
    if forall|i: int| 0 <= i < bytes.len() ==> is_text_byte(#[trigger] bytes[i]) {
        Some(Seq::new(bytes.len(), |i: int| bytes[i] as char))
    } else {
        None
    }
}

/// `HeaderValue::to_str` gives the value as text if every byte is visible ASCII, a
/// space or a tab, and fails otherwise.
#[verifier::external_body]
fn to_text(value: &HeaderValue) -> (r: Option<&str>)
    ensures
        match r {
            Some(s) => header_text(header_bytes(*value)) == Some(s@),
            None => header_text(header_bytes(*value)) is None,
        },
{
    value.to_str().ok()
}

/// A header of a request read as text.
pub open spec fn text_of(headers: HeaderMap<HeaderValue>, name: Seq<char>) -> Option<Seq<char>> {
    if header_fields(headers).contains_key(name) {
        header_text(header_fields(headers)[name])
    } else {
        None
    }
}

/// Whether a request may pass: no token is asked for, it is a health check, or it
/// shows the token.
pub open spec fn may_pass(
    token: Option<Seq<char>>,
    path: Seq<char>,
    authorization: Option<Seq<char>>,
) -> bool {
    match token {
        None => true,
        Some(t) => path == "/health"@ || authorization == Some("Bearer "@ + t),
    }
}

/// Whether a request may pass with the given `Authorization` header.
pub fn authorized(token: Option<&str>, path: &str, authorization: Option<&str>) -> (r: bool)
    ensures
        r == may_pass(
            match token {
                Some(t) => Some(t@),
                None => None,
            },
            path@,
            match authorization {
                Some(a) => Some(a@),
                None => None,
            },
        ),
{
    match token {
        None => true,
        Some(t) => {
            if str_eq(path, "/health") {
                return true;
            }
            match authorization {
                None => false,
                Some(a) => {
                    let mut expected: String = "Bearer ".to_owned();
                    expected.append(t);
                    str_eq(a, expected.as_str())
                },
            }
        },
    }
}

/// Whether a request may pass. One that may not is answered with status 401.
pub fn authorize(token: Option<&str>, path: &str, headers: &HeaderMap<HeaderValue>) -> (r: bool)
    ensures
        r == may_pass(
            match token {
                Some(t) => Some(t@),
                None => None,
            },
            path@,
            text_of(*headers, "authorization"@),
        ),
{
    proof {
        reveal_strlit("authorization");
    }
    let shown: Option<&str> = match header(headers, "authorization") {
        Some(v) => to_text(v),
        None => None,
    };
    authorized(token, path, shown)
}

/// Why the header with the time limit of a request is refused, with status 400.
#[derive(Debug, Clone, Copy, PartialEq, Eq, Structural)]
pub enum TimeoutError {
    /// The header is not a whole number of seconds.
    NotANumber,
    /// The header is zero.
    Zero,
}

impl TimeoutError {
    /// The category that the refusal is answered and counted under.
    pub fn category(self) -> (r: ApiErrorCategory)
        ensures
            r == ApiErrorCategory::BadRequest,
    {
        ApiErrorCategory::BadRequest
    }

    pub open spec fn text(self) -> Seq<char> {
        match self {
            TimeoutError::NotANumber => "X-Request-Timeout-Seconds must be a whole number"@,
            TimeoutError::Zero => "X-Request-Timeout-Seconds must be > 0"@,
        }
    }

    /// The words in which the refusal is shown.
    pub fn message(self) -> (r: &'static str)
        ensures
            r@ == self.text(),
    {
        match self {
            TimeoutError::NotANumber => "X-Request-Timeout-Seconds must be a whole number",
            TimeoutError::Zero => "X-Request-Timeout-Seconds must be > 0",
        }
    }
}

/// The header of a request that bears on its time limit.
pub enum TimeoutHeader {
    Absent,
    /// The header is not text.
    Unreadable,
    Given(Seq<char>),
}

/// The time limit of a request in seconds: what its header asks for, at most
/// `max_secs`. With a maximum of zero there is no limit, whatever the header says.
pub open spec fn effective_timeout(h: TimeoutHeader, max_secs: u64) -> Result<
    Option<u64>,
    TimeoutError,
> {
    if max_secs == 0 {
        Ok(None)
    } else {
        match h {
            TimeoutHeader::Absent => Ok(Some(max_secs)),
            TimeoutHeader::Unreadable => Err(TimeoutError::NotANumber),
            TimeoutHeader::Given(s) => match unsigned_value(s, u64::MAX as nat) {
                Err(_) => Err(TimeoutError::NotANumber),
                Ok(n) => if n == 0 {
                    Err(TimeoutError::Zero)
                } else if n < max_secs {
                    Ok(Some(n as u64))
                } else {
                    Ok(Some(max_secs))
                },
            },
        }
    }
}

/// The time limit that a readable header makes.
pub fn timeout_from_header(header: Option<&str>, max_secs: u64) -> (r: Result<
    Option<u64>,
    TimeoutError,
>)
    ensures
        r == effective_timeout(
            match header {
                Some(s) => TimeoutHeader::Given(s@),
                None => TimeoutHeader::Absent,
            },
            max_secs,
        ),
{
    if max_secs == 0 {
        return Ok(None);
    }
    match header {
        None => Ok(Some(max_secs)),
        Some(s) => match parse_unsigned(s, u64::MAX) {
            Err(_) => Err(TimeoutError::NotANumber),
            Ok(n) => {
                if n == 0 {
                    Err(TimeoutError::Zero)
                } else if n < max_secs {
                    Ok(Some(n))
                } else {
                    Ok(Some(max_secs))
                }
            },
        },
    }
}

/// The `X-Request-Timeout-Seconds` header of a request.
pub open spec fn timeout_header(headers: HeaderMap<HeaderValue>) -> TimeoutHeader {
    if !header_fields(headers).contains_key("x-request-timeout-seconds"@) {
        TimeoutHeader::Absent
    } else {
        match header_text(header_fields(headers)["x-request-timeout-seconds"@]) {
            Some(s) => TimeoutHeader::Given(s),
            None => TimeoutHeader::Unreadable,
        }
    }
}

/// The time limit of a request in seconds; `None` where there is no limit.
pub fn compute_effective_timeout(headers: &HeaderMap<HeaderValue>, max_secs: u64) -> (r: Result<
    Option<u64>,
    TimeoutError,
>)
    ensures
        r == effective_timeout(timeout_header(*headers), max_secs),
{
    proof {
        reveal_strlit("x-request-timeout-seconds");
    }
    match header(headers, "x-request-timeout-seconds") {
        None => timeout_from_header(None, max_secs),
        Some(v) => match to_text(v) {
            Some(s) => timeout_from_header(Some(s), max_secs),
            None => if max_secs == 0 {
                Ok(None)
            } else {
                Err(TimeoutError::NotANumber)
            },
        },
    }
}

/// A request's time limit never exceeds the server's, and a server with a limit
/// lets no request go without one.
pub proof fn timeout_is_bounded(h: TimeoutHeader, max_secs: u64)
    ensures
        match effective_timeout(h, max_secs) {
            Ok(Some(n)) => 0 < n <= max_secs,
            Ok(None) => max_secs == 0,
            Err(_) => max_secs > 0,
        },
{
}

/// Whether a character is printed as itself: ASCII from the space on.
pub open spec fn is_printable(c: char) -> bool {
    ' ' <= c <= '~'
}

/// The printable characters of a text.
pub open spec fn printable(s: Seq<char>) -> Seq<char> {
    s.filter(|c: char| is_printable(c))
}

/// Whether a text holds nothing but spaces.
pub open spec fn is_blank(s: Seq<char>) -> bool {
    forall|i: int| 0 <= i < s.len() ==> #[trigger] s[i] == ' '
}

/// The request id that a header gives: its printable characters, cut off behind
/// the longest length. A header without any but spaces gives none.
pub open spec fn inbound_id(header: Option<Seq<char>>) -> Option<Seq<char>> {
    match header {
        None => None,
        Some(s) => if is_blank(printable(s)) {
            None
        } else if printable(s).len() > 128 {
            Some(printable(s).take(128))
        } else {
            Some(printable(s))
        },
    }
}

/// The request id that a header gives, if it gives one.
pub fn request_id_from_header(header: Option<&str>) -> (r: Option<String>)
    ensures
        match r {
            Some(id) => inbound_id(
                match header {
                    Some(s) => Some(s@),
                    None => None,
                },
            ) == Some(id@),
            None => inbound_id(
                match header {
                    Some(s) => Some(s@),
                    None => None,
                },
            ) is None,
        },
{
    let s: &str = match header {
        Some(s) => s,
        None => {
            return None;
        },
    };
    let cs: Vec<char> = chars_of(s);
    let mut out: String = String::new();
    let mut len: usize = 0;
    let mut blank: bool = true;
    let mut i: usize = 0;
    let ghost keep = |c: char| is_printable(c);
    proof {
        reveal(Seq::filter);
        assert(s@.take(0).filter(keep) =~= Seq::<char>::empty());
    }
    while i < cs.len()
        invariant
            i <= cs.len(),
            cs@ == s@,
            keep == (|c: char| is_printable(c)),
            blank == is_blank(s@.take(i as int).filter(keep)),
            len == s@.take(i as int).filter(keep).len() || (len == 128 && s@.take(
                i as int,
            ).filter(keep).len() > 128),
            len <= 128,
            out@ == s@.take(i as int).filter(keep).take(len as int),
        decreases cs.len() - i,
    {
        let c: char = cs[i];
        let ghost before = s@.take(i as int).filter(keep);
        let ghost after = s@.take(i + 1).filter(keep);
        proof {
            reveal(Seq::filter);
            assert(s@.take(i + 1).drop_last() =~= s@.take(i as int));
            assert(after == if keep(c) {
                before.push(c)
            } else {
                before
            });
        }
        if ' ' <= c && c <= '~' {
            proof {
                if is_blank(before) && c == ' ' {
                    assert(is_blank(after));
                }
                if !is_blank(before) {
                    let k = choose|k: int| 0 <= k < before.len() && before[k] != ' ';
                    assert(after[k] != ' ');
                }
                assert(after[before.len() as int] == c);
            }
            if c != ' ' {
                blank = false;
            }
            if len < MAX_REQUEST_ID_CHARS {
                out.push(c);
                len += 1;
                assert(out@ =~= after.take(len as int));
            } else {
                assert(before.take(128) =~= after.take(128));
            }
        }
        i += 1;
    }
    assert(s@.take(i as int) =~= s@);
    if blank {
        return None;
    }
    assert(printable(s@).len() <= 128 ==> printable(s@).take(len as int) =~= printable(s@));
    Some(out)
}

/// Whether a character is a lower-case hexadecimal digit.
pub open spec fn is_hex(c: char) -> bool {
    '0' <= c <= '9' || 'a' <= c <= 'f'
}

/// Whether a text is that of a random UUID: groups of 8, 4, 4, 4 and 12 lower-case
/// hexadecimal digits with hyphens between them, where the third group begins with
/// the version and the fourth with the variant.
pub open spec fn is_random_uuid(s: Seq<char>) -> bool {
    &&& s.len() == 36
    &&& forall|i: int|
        0 <= i < 36 ==> if i == 8 || i == 13 || i == 18 || i == 23 {
            #[trigger] s[i] == '-'
        } else {
            is_hex(s[i])
        }
    &&& s[14] == '4'
    &&& s[19] == '8' || s[19] == '9' || s[19] == 'a' || s[19] == 'b'
}

/// `Uuid::new_v4` makes a random UUID, here as text. Which one is left open. It
/// panics on a system that has no source of random numbers.
#[verifier::external_body]
pub(crate) fn fresh_uuid() -> (r: String)
    ensures
        is_random_uuid(r@),
{
    uuid::Uuid::new_v4().to_string()
}

/// The id of a request: the one that its `X-Request-Id` header gives, else a new
/// one.
pub fn resolve_request_id(headers: &HeaderMap<HeaderValue>) -> (r: String)
    ensures
        match inbound_id(text_of(*headers, "x-request-id"@)) {
            Some(id) => r@ == id,
            None => r@.len() == 40 && r@.take(4) == "req-"@ && is_random_uuid(r@.skip(4)),
        },
{
    proof {
        reveal_strlit("x-request-id");
        reveal_strlit("req-");
    }
    let shown: Option<&str> = match header(headers, "x-request-id") {
        Some(v) => to_text(v),
        None => None,
    };
    match request_id_from_header(shown) {
        Some(id) => id,
        None => {
            let fresh: String = fresh_uuid();
            let mut r: String = "req-".to_owned();
            r.append(fresh.as_str());
            assert(r@.take(4) =~= "req-"@);
            assert(r@.skip(4) =~= fresh@);
            r
        },
    }
}

} // verus!
