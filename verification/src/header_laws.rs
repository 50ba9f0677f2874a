//! What the headers of a request lead to.

use axum::http::{HeaderMap, HeaderValue};
use vstd::prelude::*;
use vstd::string::*;

use crate::counters::ApiErrorCategory;
use crate::http::{
    authorize, authorized, compute_effective_timeout, header_fields, header_text, is_printable,
    is_random_uuid, is_text_byte, printable, request_id_from_header, resolve_request_id,
    timeout_from_header, TimeoutError, MAX_BODY_BYTES, MAX_REQUEST_ID_CHARS,
};
use crate::text::{
    is_number, lemma_digits_then, lemma_no_value, number_of, reads_as_number, unsigned_body,
    unsigned_value,
};

verus! {

/// Whether the bytes of a header spell a text.
pub open spec fn spells(bytes: Seq<u8>, text: Seq<char>) -> bool {
    &&& bytes.len() == text.len()
    &&& forall|i: int| 0 <= i < text.len() ==> bytes[i] as char == #[trigger] text[i]
}

/// Whether every character is visible ASCII or a space.
pub open spec fn is_plain(text: Seq<char>) -> bool {
    forall|i: int| 0 <= i < text.len() ==> ' ' <= #[trigger] text[i] <= '~'
}

/// A server without a token lets every request pass, and a health check always passes. Any
/// other request has to show the token, and nothing but it.
pub proof fn only_the_token_lets_pass(
    token: Option<&str>,
    path: &str,
    shown: Option<&str>,
    r: bool,
)
    requires
        call_ensures(authorized, (token, path, shown), r),
    ensures
        token is None ==> r,
        path@ == "/health"@ ==> r,
        token is Some && path@ != "/health"@ ==> r == (shown is Some && shown->0@ == "Bearer "@
            + token->0@),
{
}

proof fn lemma_header_text(bytes: Seq<u8>, text: Seq<char>)
    requires
        spells(bytes, text),
        is_plain(text),
    ensures
        header_text(bytes) == Some(text),
{
    assert forall|i: int| 0 <= i < bytes.len() implies is_text_byte(#[trigger] bytes[i]) by {
        assert(bytes[i] as char == text[i]);
        assert(' ' <= text[i] <= '~');
    }
    assert(Seq::new(bytes.len(), |i: int| bytes[i] as char) =~= text);
}

/// The token is looked for in the `Authorization` header, as it stands there.
pub proof fn the_token_stands_in_its_header(
    token: &str,
    path: &str,
    headers: &HeaderMap<HeaderValue>,
    r: bool,
)
    requires
        path@ != "/health"@,
        call_ensures(authorize, (Some(token), path, headers), r),
    ensures
        r ==> header_fields(*headers).contains_key("authorization"@) && spells(
            header_fields(*headers)["authorization"@],
            "Bearer "@ + token@,
        ),
        header_fields(*headers).contains_key("authorization"@) && is_plain("Bearer "@ + token@)
            && spells(header_fields(*headers)["authorization"@], "Bearer "@ + token@) ==> r,
{
    let fields = header_fields(*headers);
    if fields.contains_key("authorization"@) {
        let bytes = fields["authorization"@];
        let text = "Bearer "@ + token@;
        if is_plain(text) && spells(bytes, text) {
            lemma_header_text(bytes, text);
        }
        if r {
            assert(header_text(bytes) == Some(text));
            assert(text == Seq::new(bytes.len(), |i: int| bytes[i] as char));
        }
    }
}

/// A request passes without a token where none is asked for, and to the health check.
pub proof fn some_requests_need_no_token(
    token: Option<&str>,
    path: &str,
    headers: &HeaderMap<HeaderValue>,
    r: bool,
)
    requires
        token is None || path@ == "/health"@,
        call_ensures(authorize, (token, path, headers), r),
    ensures
        r,
{
}

/// The smaller of two numbers.
pub open spec fn smaller(a: nat, b: nat) -> nat {
    if a < b {
        a
    } else {
        b
    }
}

/// Whether a time limit is what a header with these digits leads to: their number of
/// seconds, at most the server's limit; zero is refused. Without a limit of the server
/// there is none at all.
pub open spec fn limits(
    r: Result<Option<u64>, TimeoutError>,
    digits: Seq<char>,
    max_secs: u64,
) -> bool {
    if max_secs == 0 {
        r == Ok::<Option<u64>, TimeoutError>(None)
    } else if number_of(digits) == 0 {
        r == Err::<Option<u64>, TimeoutError>(TimeoutError::Zero)
    } else if number_of(digits) > u64::MAX {
        r == Err::<Option<u64>, TimeoutError>(TimeoutError::NotANumber)
    } else {
        r is Ok && r->Ok_0 is Some && r->Ok_0->0 == smaller(number_of(digits), max_secs as nat)
    }
}

proof fn lemma_signed_value(text: Seq<char>)
    requires
        text.len() > 1,
        text[0] == '+',
        is_number(text.skip(1)),
    ensures
        number_of(text.skip(1)) <= u64::MAX ==> unsigned_value(text, u64::MAX as nat) == Ok::<
            nat,
            crate::text::IntParseError,
        >(number_of(text.skip(1))),
        number_of(text.skip(1)) > u64::MAX ==> unsigned_value(text, u64::MAX as nat) is Err,
{
    let digits = text.skip(1);
    assert(unsigned_body(text) == digits);
    assert(digits + Seq::<char>::empty() =~= digits);
    lemma_digits_then(digits, Seq::empty(), 0);
}

proof fn lemma_digits_value(digits: Seq<char>)
    requires
        is_number(digits),
    ensures
        number_of(digits) <= u64::MAX ==> unsigned_value(digits, u64::MAX as nat) == Ok::<
            nat,
            crate::text::IntParseError,
        >(number_of(digits)),
        number_of(digits) > u64::MAX ==> unsigned_value(digits, u64::MAX as nat) is Err,
{
    assert('0' <= digits[0] <= '9');
    assert(unsigned_body(digits) == digits);
    assert(digits + Seq::<char>::empty() =~= digits);
    lemma_digits_then(digits, Seq::empty(), 0);
}

/// The time limit of a request is what its header asks for, and never more than the
/// server's; a request without the header has the server's. What is not a number is
/// refused.
pub proof fn the_time_limit_is_the_smaller_one(
    header: Option<&str>,
    max_secs: u64,
    r: Result<Option<u64>, TimeoutError>,
)
    requires
        call_ensures(timeout_from_header, (header, max_secs), r),
    ensures
        max_secs == 0 ==> r == Ok::<Option<u64>, TimeoutError>(None),
        header is None && max_secs > 0 ==> r == Ok::<Option<u64>, TimeoutError>(Some(max_secs)),
        header is Some && is_number(header->0@) ==> limits(r, header->0@, max_secs),
        header is Some && header->0@.len() > 1 && header->0@[0] == '+' && is_number(
            header->0@.skip(1),
        ) ==> limits(r, header->0@.skip(1), max_secs),
        header is Some && max_secs > 0 && !reads_as_number(header->0@) ==> r == Err::<
            Option<u64>,
            TimeoutError,
        >(TimeoutError::NotANumber),
{
    if header is Some && reads_as_number(header->0@) {
        if is_number(header->0@) {
            assert('0' <= header->0@[0] <= '9');
            lemma_digits_value(header->0@);
        } else {
            lemma_signed_value(header->0@);
        }
    } else if header is Some {
        lemma_no_value(header->0@, u64::MAX as nat);
    }
}

/// The time limit stands in the `X-Request-Timeout-Seconds` header, in decimal digits.
pub proof fn the_time_limit_stands_in_its_header(
    headers: &HeaderMap<HeaderValue>,
    max_secs: u64,
    r: Result<Option<u64>, TimeoutError>,
    text: Seq<char>,
)
    requires
        call_ensures(compute_effective_timeout, (headers, max_secs), r),
    ensures
        max_secs == 0 ==> r == Ok::<Option<u64>, TimeoutError>(None),
        max_secs > 0 && !header_fields(*headers).contains_key("x-request-timeout-seconds"@) ==> r
            == Ok::<Option<u64>, TimeoutError>(Some(max_secs)),
        header_fields(*headers).contains_key("x-request-timeout-seconds"@) && spells(
            header_fields(*headers)["x-request-timeout-seconds"@],
            text,
        ) && is_number(text) ==> limits(r, text, max_secs),
        max_secs > 0 && header_fields(*headers).contains_key("x-request-timeout-seconds"@) && spells(
            header_fields(*headers)["x-request-timeout-seconds"@],
            text,
        ) && is_plain(text) && !reads_as_number(text) ==> r == Err::<Option<u64>, TimeoutError>(TimeoutError::NotANumber),
{
    let fields = header_fields(*headers);
    if fields.contains_key("x-request-timeout-seconds"@) {
        let bytes = fields["x-request-timeout-seconds"@];
        if spells(bytes, text) && (is_number(text) || is_plain(text)) {
            assert(is_plain(text)) by {
                if is_number(text) {
                    assert forall|i: int| 0 <= i < text.len() implies ' ' <= #[trigger] text[i]
                        <= '~' by {
                        assert('0' <= text[i] <= '9');
                    }
                }
            }
            lemma_header_text(bytes, text);
            if is_number(text) {
                lemma_digits_value(text);
            } else if !reads_as_number(text) {
                lemma_no_value(text, u64::MAX as nat);
            }
        }
    }
}

/// A refused time limit is answered with status 400.
pub proof fn a_refused_time_limit_is_a_bad_request(e: TimeoutError, c: ApiErrorCategory, status: u16)
    requires
        call_ensures(TimeoutError::category, (e,), c),
        call_ensures(ApiErrorCategory::status, (c,), status),
    ensures
        status == 400,
{
}

/// Whether a text has a character other than a space.
pub open spec fn says_something(text: Seq<char>) -> bool {
    exists|i: int| 0 <= i < text.len() && #[trigger] text[i] != ' '
}

proof fn lemma_all_printable(text: Seq<char>)
    requires
        is_plain(text),
    ensures
        printable(text) == text,
    decreases text.len(),
{
    reveal(Seq::filter);
    let keep = |c: char| is_printable(c);
    if text.len() > 0 {
        let d = text.drop_last();
        assert forall|i: int| 0 <= i < d.len() implies ' ' <= #[trigger] d[i] <= '~' by {
            assert(' ' <= text[i] <= '~');
        }
        lemma_all_printable(d);
        assert(' ' <= text[text.len() - 1] <= '~');
        assert(text =~= d.push(text.last()));
    } else {
        assert(text.filter(keep) =~= text);
    }
}

/// A request id that a client gives is taken over as it is, cut off behind 128 characters.
/// A header of spaces alone gives none.
pub proof fn a_given_request_id_is_kept(header: Option<&str>, r: Option<String>)
    requires
        call_ensures(request_id_from_header, (header,), r),
    ensures
        header is None ==> r is None,
        header is Some && is_plain(header->0@) && says_something(header->0@) ==> {
            &&& r is Some
            &&& header->0@.len() <= 128 ==> r->0@ == header->0@
            &&& header->0@.len() > 128 ==> r->0@ == header->0@.take(128)
        },
        header is Some && is_plain(header->0@) && !says_something(header->0@) ==> r is None,
{
    if header is Some && is_plain(header->0@) {
        lemma_all_printable(header->0@);
    }
}

/// Characters that cannot be printed do not count: with one of them anywhere in the header
/// the request id is the same as without it.
pub proof fn unprintable_characters_are_left_out(
    with: &str,
    without: &str,
    r: Option<String>,
    q: Option<String>,
    a: Seq<char>,
    c: char,
    b: Seq<char>,
)
    requires
        !(' ' <= c <= '~'),
        with@ == a + seq![c] + b,
        without@ == a + b,
        call_ensures(request_id_from_header, (Some(with),), r),
        call_ensures(request_id_from_header, (Some(without),), q),
    ensures
        r is Some <==> q is Some,
        r is Some ==> r->0@ == q->0@,
{
    let keep = |x: char| is_printable(x);
    Seq::filter_distributes_over_add(a + seq![c], b, keep);
    Seq::filter_distributes_over_add(a, seq![c], keep);
    Seq::filter_distributes_over_add(a, b, keep);
    reveal_with_fuel(Seq::<_>::filter, 2);
    assert(seq![c].drop_last() =~= Seq::<char>::empty());
    assert(seq![c].filter(keep) =~= Seq::<char>::empty());
    assert(printable(with@) =~= printable(without@));
}

/// The id of a request is what its `X-Request-Id` header gives. Where it gives none, the id
/// is `req-` and a random UUID.
pub proof fn a_request_id_is_given_or_new(
    headers: &HeaderMap<HeaderValue>,
    r: String,
    shown: &str,
    q: Option<String>,
)
    requires
        call_ensures(resolve_request_id, (headers,), r),
        call_ensures(request_id_from_header, (Some(shown),), q),
        is_plain(shown@),
    ensures
        !header_fields(*headers).contains_key("x-request-id"@) ==> r@.len() == 40 && r@.take(4)
            == "req-"@ && is_random_uuid(r@.skip(4)),
        header_fields(*headers).contains_key("x-request-id"@) && spells(
            header_fields(*headers)["x-request-id"@],
            shown@,
        ) ==> {
            &&& q is Some ==> r@ == q->0@
            &&& q is None ==> r@.len() == 40 && r@.take(4) == "req-"@ && is_random_uuid(r@.skip(4))
        },
{
    let fields = header_fields(*headers);
    if fields.contains_key("x-request-id"@) && spells(fields["x-request-id"@], shown@) {
        lemma_header_text(fields["x-request-id"@], shown@);
    }
}

/// A body may hold an upload of 25 MiB and one more MiB for what frames it.
pub proof fn a_body_holds_an_upload_and_its_frame()
    ensures
        MAX_BODY_BYTES == (25 + 1) * 1024 * 1024,
        MAX_REQUEST_ID_CHARS == 128,
{
}

} // verus!
