use vstd::prelude::*;

use base64::Engine;

use crate::reply::Reply;

verus! {

broadcast use vstd::string::group_string_axioms;

#[verifier::external_type_specification]
#[verifier::external_body]
pub struct ExDecodeError(base64::DecodeError);

/// What the standard (RFC 4648, padded) base64 engine of the `base64` crate
/// decodes `input` to, or `None` where it refuses the input.
pub uninterp spec fn base64_standard_decode(input: Seq<u8>) -> Option<Seq<u8>>;

/// Calls `base64::engine::general_purpose::STANDARD.decode`.
///
/// Trusted: the outcome is the one named by `base64_standard_decode`; the
/// call depends on its input alone.
#[verifier::external_body]
fn decode_base64(input: &[u8]) -> (r: Result<Vec<u8>, base64::DecodeError>)
    ensures
        match base64_standard_decode(input@) {
            Some(v) => r matches Ok(out) && out@ == v,
            None => r is Err,
        },
{
    base64::engine::general_purpose::STANDARD.decode(input)
}

/// The verdict on a request's credentials.
#[derive(Clone, Copy, Debug, PartialEq, Eq, Structural)]
pub enum AuthOutcome {
    /// The request carries the expected credentials and goes on.
    Authorized,
    /// Missing, non-Basic or wrong credentials.
    AccessDenied,
    /// The Basic credentials are not valid base64.
    DecodeFailed,
}

/// The bytes that an HTTP header value may hold to be read as text:
/// visible ASCII and horizontal tab.
pub open spec fn is_visible_ascii(b: u8) -> bool {
    (32 <= b && b < 127) || b == 9
}

pub open spec fn all_visible_ascii(s: Seq<u8>) -> bool {
    forall|i: int| 0 <= i < s.len() ==> is_visible_ascii(#[trigger] s[i])
}

/// `Basic ` (with its trailing space), as bytes.
pub open spec fn basic_scheme() -> Seq<u8> {
    seq![66u8, 97u8, 115u8, 105u8, 99u8, 32u8]
}

/// The white space that trimming removes from a header's text: space and tab.
pub open spec fn is_header_space(b: u8) -> bool {
    b == 32 || b == 9
}

pub open spec fn trim_start_space(s: Seq<u8>) -> Seq<u8>
    decreases s.len(),
{
    if s.len() > 0 && is_header_space(s[0]) {
        trim_start_space(s.skip(1))
    } else {
        s
    }
}

pub open spec fn trim_end_space(s: Seq<u8>) -> Seq<u8>
    decreases s.len(),
{
    if s.len() > 0 && is_header_space(s.last()) {
        trim_end_space(s.drop_last())
    } else {
        s
    }
}

/// `s` without leading and trailing spaces and tabs.
pub open spec fn trim_space(s: Seq<u8>) -> Seq<u8> {
    trim_end_space(trim_start_space(s))
}

/// `raw`, read one byte per character (ISO-8859-1), spells `expected`.
pub open spec fn latin1_equals(raw: Seq<u8>, expected: Seq<char>) -> bool {
    raw.len() == expected.len() && forall|i: int|
        0 <= i < raw.len() ==> (#[trigger] expected[i]) as int == raw[i] as int
}

/// The verdict once the credentials have been base64-decoded (`None` when
/// decoding failed).
pub open spec fn spec_auth_decoded(decoded: Option<Seq<u8>>, expected: Seq<char>) -> AuthOutcome {
    match decoded {
        None => AuthOutcome::DecodeFailed,
        Some(raw) => if latin1_equals(raw, expected) {
            AuthOutcome::Authorized
        } else {
            AuthOutcome::AccessDenied
        },
    }
}

/// The credentials part of an `Authorization` header value that is text
/// and uses the Basic scheme.
pub open spec fn basic_credentials(h: Seq<u8>) -> Option<Seq<u8>> {
    if all_visible_ascii(h) && h.len() >= 6 && h.take(6) == basic_scheme() {
        Some(trim_space(h.skip(6)))
    } else {
        None
    }
}

/// The verdict on a request whose first `Authorization` header value is
/// `header` (`None` when there is none), against the token `expected`.
pub open spec fn spec_require_basic_auth(header: Option<Seq<u8>>, expected: Seq<char>) -> AuthOutcome {
    match header {
        None => AuthOutcome::AccessDenied,
        Some(h) => match basic_credentials(h) {
            None => AuthOutcome::AccessDenied,
            Some(c) => spec_auth_decoded(base64_standard_decode(c), expected),
        },
    }
}

/// Decides on decoded credentials: `None` (decoding failed) gives
/// `DecodeFailed`; otherwise the bytes, read as ISO-8859-1, must spell
/// `expected`.
pub fn authorize_decoded(decoded: Option<&[u8]>, expected: &str) -> (r: AuthOutcome)
    ensures
        r == spec_auth_decoded(
            match decoded {
                Some(d) => Some(d@),
                None => None,
            },
            expected@,
        ),
{
    match decoded {
        None => AuthOutcome::DecodeFailed,
        Some(raw) => {
            let n = expected.unicode_len();
            if n != raw.len() {
                return AuthOutcome::AccessDenied;
            }
            let mut i: usize = 0;
            while i < n
                invariant
                    decoded == Some(raw),
                    n == expected@.len(),
                    n == raw@.len(),
                    i <= n,
                    forall|j: int| 0 <= j < i ==> (#[trigger] expected@[j]) as int == raw@[j] as int,
                decreases n - i,
            {
                let c = expected.get_char(i);
                if c as u32 != raw[i] as u32 {
                    assert(expected@[i as int] as int != raw@[i as int] as int);
                    return AuthOutcome::AccessDenied;
                }
                i = i + 1;
            }
            AuthOutcome::Authorized
        },
    }
}

/// The credentials part of header value `h`, if `h` is text using the
/// Basic scheme: what follows `Basic `, without surrounding spaces and tabs.
pub fn basic_credentials_of(h: &[u8]) -> (r: Option<Vec<u8>>)
    ensures
        match basic_credentials(h@) {
            Some(c) => r matches Some(v) && v@ == c,
            None => r is None,
        },
{
    let n = h.len();
    let mut i: usize = 0;
    while i < n
        invariant
            n == h@.len(),
            i <= n,
            forall|j: int| 0 <= j < i ==> is_visible_ascii(#[trigger] h@[j]),
        decreases n - i,
    {
        let b = h[i];
        if !((32 <= b && b < 127) || b == 9) {
            return None;
        }
        i = i + 1;
    }
    if n < 6 || h[0] != 66 || h[1] != 97 || h[2] != 115 || h[3] != 105 || h[4] != 99 || h[5] != 32 {
        assert(n >= 6 ==> h@.take(6) != basic_scheme()) by {
            if n >= 6 && h@.take(6) == basic_scheme() {
                assert(h@.take(6)[0] == h@[0]);
                assert(h@.take(6)[1] == h@[1]);
                assert(h@.take(6)[2] == h@[2]);
                assert(h@.take(6)[3] == h@[3]);
                assert(h@.take(6)[4] == h@[4]);
                assert(h@.take(6)[5] == h@[5]);
            }
        }
        return None;
    }
    assert(h@.take(6) =~= basic_scheme());
    let ghost rest = h@.skip(6);
    let mut start: usize = 6;
    while start < n && (h[start] == 32 || h[start] == 9)
        invariant
            6 <= start <= n,
            n == h@.len(),
            rest == h@.skip(6),
            trim_start_space(rest) == trim_start_space(h@.skip(start as int)),
        decreases n - start,
    {
        assert(h@.skip(start as int).skip(1) =~= h@.skip(start + 1));
        start = start + 1;
    }
    let mut end: usize = n;
    assert(h@.skip(start as int).take((end - start) as int) =~= h@.skip(start as int));
    while end > start && (h[end - 1] == 32 || h[end - 1] == 9)
        invariant
            6 <= start <= end <= n,
            n == h@.len(),
            trim_end_space(h@.skip(start as int)) == trim_end_space(h@.subrange(start as int, end as int)),
        decreases end - start,
    {
        assert(h@.subrange(start as int, end as int).drop_last() =~= h@.subrange(start as int, end - 1));
        end = end - 1;
    }
    assert(h@.skip(start as int) =~= h@.subrange(start as int, n as int));
    let mut out: Vec<u8> = Vec::new();
    let mut k: usize = start;
    while k < end
        invariant
            start <= k <= end <= n,
            n == h@.len(),
            out@ == h@.subrange(start as int, k as int),
        decreases end - k,
    {
        out.push(h[k]);
        k = k + 1;
        assert(out@ =~= h@.subrange(start as int, k as int));
    }
    Some(out)
}

/// The verdict on a request's first `Authorization` header value (`None` when
/// the request has none) against the token `expected`: the value must be
/// text, start with `Basic `, and carry base64 that decodes, byte for
/// character, to `expected`. Undecodable base64 gets its own verdict.
pub fn require_basic_auth(authorization: Option<&[u8]>, expected: &str) -> (r: AuthOutcome)
    ensures
        r == spec_require_basic_auth(
            match authorization {
                Some(h) => Some(h@),
                None => None,
            },
            expected@,
        ),
{
    let h = match authorization {
        None => return AuthOutcome::AccessDenied,
        Some(h) => h,
    };
    let creds = match basic_credentials_of(h) {
        None => return AuthOutcome::AccessDenied,
        Some(c) => c,
    };
    match decode_base64(creds.as_slice()) {
        Ok(raw) => authorize_decoded(Some(raw.as_slice()), expected),
        Err(_) => authorize_decoded(None, expected),
    }
}

/// A request without an `Authorization` header is refused.
pub proof fn law_missing_header_denied(expected: Seq<char>)
    ensures
        spec_require_basic_auth(None, expected) == AuthOutcome::AccessDenied,
{
}

/// A header value that does not start with `Basic `, or that is not text,
/// is refused without any decoding.
pub proof fn law_non_basic_denied(h: Seq<u8>, expected: Seq<char>)
    requires
        h.len() < 6 || h.take(6) != basic_scheme() || !all_visible_ascii(h),
    ensures
        spec_require_basic_auth(Some(h), expected) == AuthOutcome::AccessDenied,
{
}

/// A request goes on exactly when its header is text, uses the Basic scheme,
/// and its credentials decode, byte for character, to the expected token; a
/// Basic header whose credentials do not decode is told so.
pub proof fn law_authorized_iff_expected_credentials(h: Seq<u8>, expected: Seq<char>)
    ensures
        spec_require_basic_auth(Some(h), expected) == AuthOutcome::Authorized <==> (
        basic_credentials(h) matches Some(c) && base64_standard_decode(c) matches Some(raw)
            && latin1_equals(raw, expected)),
        spec_require_basic_auth(Some(h), expected) == AuthOutcome::DecodeFailed <==> (
        basic_credentials(h) matches Some(c) && base64_standard_decode(c) is None),
{
}

/// A byte of the standard base64 alphabet (`A`-`Z`, `a`-`z`, `0`-`9`, `+`,
/// `/`) or its padding `=`.
pub open spec fn is_base64_byte(b: u8) -> bool {
    (65 <= b && b <= 90) || (97 <= b && b <= 122) || (48 <= b && b <= 57) || b == 43 || b == 47
        || b == 61
}

/// What a client such as `curl -u` sends is accepted: a header value that is
/// `Basic ` followed by base64 text (padding included) which decodes, one
/// byte per character, to the expected token lets the request go on.
pub proof fn law_base64_credentials_accepted(payload: Seq<u8>, expected: Seq<char>)
    requires
        forall|i: int| 0 <= i < payload.len() ==> is_base64_byte(#[trigger] payload[i]),
        base64_standard_decode(payload) matches Some(raw) && raw.len() == expected.len() && (
        forall|i: int| 0 <= i < raw.len() ==> (#[trigger] expected[i]) as int == raw[i] as int),
    ensures
        spec_require_basic_auth(
            Some(seq![66u8, 97u8, 115u8, 105u8, 99u8, 32u8] + payload),
            expected,
        ) == AuthOutcome::Authorized,
{
    let h = seq![66u8, 97u8, 115u8, 105u8, 99u8, 32u8] + payload;
    assert(h.take(6) =~= basic_scheme());
    assert(h.skip(6) =~= payload);
    assert forall|i: int| 0 <= i < h.len() implies is_visible_ascii(#[trigger] h[i]) by {
        if i >= 6 {
            assert(h[i] == payload[i - 6]);
            assert(is_base64_byte(payload[i - 6]));
        }
    }
    if payload.len() > 0 {
        assert(is_base64_byte(payload[0]));
        assert(is_base64_byte(payload.last()));
    }
    assert(trim_start_space(payload) == payload);
    assert(trim_end_space(payload) == payload);
}

/// The answer to a request whose credentials are refused.
pub fn access_denied() -> (r: Reply)
    ensures
        r.status == 403,
        r.body == "Access Denied!",
{
    Reply { status: 403, body: "Access Denied!" }
}

/// The answer to a request whose Basic credentials are not valid base64.
pub fn failed_to_decode() -> (r: Reply)
    ensures
        r.status == 403,
        r.body == "Failed to decode auth 1",
{
    Reply { status: 403, body: "Failed to decode auth 1" }
}

impl AuthOutcome {
    /// The answer that ends a refused request; `None` when it may go on.
    pub fn rejection(&self) -> (r: Option<Reply>)
        ensures
            match *self {
                AuthOutcome::Authorized => r is None,
                AuthOutcome::AccessDenied => r == Some(Reply { status: 403, body: "Access Denied!" }),
                AuthOutcome::DecodeFailed => r == Some(
                    Reply { status: 403, body: "Failed to decode auth 1" },
                ),
            },
    {
        match self {
            AuthOutcome::Authorized => None,
            AuthOutcome::AccessDenied => Some(access_denied()),
            AuthOutcome::DecodeFailed => Some(failed_to_decode()),
        }
    }
}

} // verus!
