//! What every HTTP request passes before its handler: who the caller is, which
//! namespace is meant, and whether there is memory for the body.

use vstd::prelude::*;

use crate::auth::{anonymous, AuthConfig, AuthModel, Principal, PrincipalModel, Role};
use crate::memory::{saturated, MemoryGovernor, MemoryHeadroomReservation};
use crate::reply::{
    error_model, error_reply, memory_pressure_response, pressure_text, unauthorized,
    unauthorized_model, Reply,
};
use crate::text::{
    cut, decimal, eq_ignore_ascii_case, find_char, parse_number, parsed_number, push_decimal,
    same_ignoring_ascii_case, split_once, str_eq,
};

verus! {

/// The largest accepted JSON body of a query, in bytes.
pub const HTTP_CYPHER_BODY_LIMIT_BYTES: usize = 2_097_152;

/// What every byte on the wire is charged as, for decoding and execution.
pub const HTTP_MEMORY_BYTES_PER_WIRE_BYTE: usize = 16;

/// What every request is charged at least.
pub const HTTP_MEMORY_BASE_BYTES: usize = 65_536;

/// A header of a request.
#[derive(Debug, Clone, Copy)]
pub enum Header<'a> {
    Absent,
    /// There, but not a text.
    Unreadable,
    Text(&'a str),
}

impl<'a> Header<'a> {
    /// What the header says, if it says something.
    pub open spec fn said(self) -> Option<Seq<char>> {
        match self {
            Header::Text(s) => Some(s@),
            _ => None,
        }
    }
}

// ---------------------------------------------------------------------------
// Admission
// ---------------------------------------------------------------------------

/// The memory that a request of this size is charged.
pub open spec fn charged(wire_bytes: int) -> int {
    let sum = 65_536 + if wire_bytes * 16 <= usize::MAX {
        wire_bytes * 16
    } else {
        usize::MAX as int
    };
    if sum <= usize::MAX {
        sum
    } else {
        usize::MAX as int
    }
}

/// The memory that a request of this size is charged.
pub fn estimated_http_request_memory_bytes(wire_bytes: usize) -> (r: usize)
    ensures
        r == charged(wire_bytes as int),
{
    let amplified: usize = match wire_bytes.checked_mul(HTTP_MEMORY_BYTES_PER_WIRE_BYTE) {
        Some(n) => n,
        None => usize::MAX,
    };
    HTTP_MEMORY_BASE_BYTES.saturating_add(amplified)
}

/// Why a body is refused by its size.
#[derive(Debug, Clone, Copy, PartialEq, Eq, Structural)]
pub enum HttpBodyAdmissionError {
    InvalidContentLength,
    TooLarge { observed: u64 },
}

/// The bound on the size of a body that is known before it is read: the
/// announced length, or else the body's own upper bound, or else the limit.
pub open spec fn body_bound(content_length: Option<Option<Seq<char>>>, upper: Option<u64>) -> Result<
    u64,
    HttpBodyAdmissionError,
> {
    let observed = match content_length {
        Some(Some(raw)) => match parsed_number(raw, u64::MAX as nat) {
            Ok(n) => Some(n as u64),
            Err(_) => None,
        },
        Some(None) => None,
        None => match upper {
            Some(n) => Some(n),
            None => Some(2_097_152),
        },
    };
    match observed {
        None => Err(HttpBodyAdmissionError::InvalidContentLength),
        Some(n) => if n > 2_097_152 {
            Err(HttpBodyAdmissionError::TooLarge { observed: n })
        } else {
            Ok(n)
        },
    }
}

impl<'a> Header<'a> {
    /// The header as it was received: absent, there but not a text, or a text.
    pub open spec fn received(self) -> Option<Option<Seq<char>>> {
        match self {
            Header::Absent => None,
            Header::Unreadable => Some(None),
            Header::Text(s) => Some(Some(s@)),
        }
    }
}

/// The bound on the size of a body that is known before it is read.
pub fn http_cypher_wire_bytes(content_length: Header<'_>, upper: Option<u64>) -> (r: Result<
    usize,
    HttpBodyAdmissionError,
>)
    ensures
        match r {
            Ok(n) => body_bound(content_length.received(), upper) == Ok::<
                u64,
                HttpBodyAdmissionError,
            >(n as u64),
            Err(e) => body_bound(content_length.received(), upper) == Err::<
                u64,
                HttpBodyAdmissionError,
            >(e),
        },
        r matches Ok(n) ==> n <= HTTP_CYPHER_BODY_LIMIT_BYTES,
{
    let observed: u64 = match content_length {
        Header::Text(raw) => match parse_number(raw, u64::MAX) {
            Ok(n) => n,
            Err(_) => {
                return Err(HttpBodyAdmissionError::InvalidContentLength);
            },
        },
        Header::Unreadable => {
            return Err(HttpBodyAdmissionError::InvalidContentLength);
        },
        Header::Absent => match upper {
            Some(n) => n,
            None => HTTP_CYPHER_BODY_LIMIT_BYTES as u64,
        },
    };
    if observed > HTTP_CYPHER_BODY_LIMIT_BYTES as u64 {
        Err(HttpBodyAdmissionError::TooLarge { observed })
    } else {
        Ok(observed as usize)
    }
}

/// What a caller with too large a body is told.
pub open spec fn too_large_text(observed: u64) -> Seq<char> {
    "Cypher JSON body is "@ + decimal(observed as nat) + " bytes; maximum is 2097152 bytes"@
}

/// Admits a query request by its size, before its body is read, or refuses it.
/// `resident` is the memory sample after any relief. The reservation is held
/// until the response is complete.
pub fn admit_http_cypher_request(
    memory: &mut MemoryGovernor,
    resident: Option<usize>,
    content_length: Header<'_>,
    upper: Option<u64>,
) -> (r: Result<MemoryHeadroomReservation, Reply>)
    ensures
        match body_bound(content_length.received(), upper) {
            Err(HttpBodyAdmissionError::InvalidContentLength) => {
                &&& r matches Err(reply) && reply@ == error_model(
                    400,
                    "invalid Content-Length for /v0/cypher"@,
                )
                &&& final(memory)@ == old(memory)@
            },
            Err(HttpBodyAdmissionError::TooLarge { observed }) => {
                &&& r matches Err(reply) && reply@ == error_model(413, too_large_text(observed))
                &&& final(memory)@ == old(memory)@
            },
            Ok(wire) => {
                let bytes = charged(wire as int) as usize;
                if old(memory)@.max_bytes == 0 || resident is None {
                    r is Ok && r->Ok_0.spec_bytes() == 0 && final(memory)@ == old(memory)@
                } else if old(memory)@.reservable(resident->Some_0, bytes) {
                    &&& r is Ok && r->Ok_0.spec_bytes() == bytes
                    &&& final(memory)@ == old(memory)@.promised(bytes)
                } else {
                    &&& r matches Err(reply) && reply@ == error_model(
                        503,
                        pressure_text(
                            old(memory)@.pressure(
                                resident->Some_0,
                                saturated(old(memory)@.reserved_headroom_bytes, bytes),
                            ),
                        ),
                    )
                    &&& final(memory)@ == old(memory)@.refused()
                }
            },
        },
{
    let wire: usize = match http_cypher_wire_bytes(content_length, upper) {
        Ok(n) => n,
        Err(HttpBodyAdmissionError::InvalidContentLength) => {
            return Err(error_reply(400, "invalid Content-Length for /v0/cypher"));
        },
        Err(HttpBodyAdmissionError::TooLarge { observed }) => {
            let mut text = "Cypher JSON body is ".to_owned();
            push_decimal(&mut text, observed);
            text.append(" bytes; maximum is 2097152 bytes");
            return Err(error_reply(413, text.as_str()));
        },
    };
    let bytes: usize = estimated_http_request_memory_bytes(wire);
    match memory.reserve_query_headroom(resident, bytes) {
        Ok(guard) => Ok(guard),
        Err(pressure) => Err(memory_pressure_response(&pressure)),
    }
}

/// A larger body is never charged less, and none is charged less than the base.
pub proof fn law_charge_is_monotone(a: int, b: int)
    requires
        0 <= a <= b,
    ensures
        65_536 <= charged(a) <= charged(b),
        charged(b) <= usize::MAX,
{
}

/// Every byte on the wire is charged sixteen bytes, above a base, as long as that
/// can be counted; what cannot be counted is charged everything.
pub proof fn law_charge_is_sixteenfold(wire_bytes: int)
    requires
        0 <= wire_bytes,
    ensures
        65_536 + 16 * wire_bytes <= usize::MAX ==> charged(wire_bytes) == 65_536 + 16 * wire_bytes,
        65_536 + 16 * wire_bytes > usize::MAX ==> charged(wire_bytes) == usize::MAX,
{
}

/// An announced length counts, whatever the body's own bound says; without one
/// that bound counts, and without either the limit. What passes the limit is
/// refused with what was announced, and what is no number is refused.
pub proof fn law_body_bound(n: u64, upper: Option<u64>)
    ensures
        n <= 2_097_152 ==> body_bound(Some(Some(decimal(n as nat))), upper) == Ok::<
            u64,
            HttpBodyAdmissionError,
        >(n),
        n > 2_097_152 ==> body_bound(Some(Some(decimal(n as nat))), upper) == Err::<
            u64,
            HttpBodyAdmissionError,
        >(HttpBodyAdmissionError::TooLarge { observed: n }),
        n <= 2_097_152 ==> body_bound(None, Some(n)) == Ok::<u64, HttpBodyAdmissionError>(n),
        n > 2_097_152 ==> body_bound(None, Some(n)) == Err::<u64, HttpBodyAdmissionError>(
            HttpBodyAdmissionError::TooLarge { observed: n },
        ),
        body_bound(None, None) == Ok::<u64, HttpBodyAdmissionError>(2_097_152),
        body_bound(Some(None), upper) == Err::<u64, HttpBodyAdmissionError>(
            HttpBodyAdmissionError::InvalidContentLength,
        ),
        body_bound(Some(Some(Seq::empty())), upper) == Err::<u64, HttpBodyAdmissionError>(
            HttpBodyAdmissionError::InvalidContentLength,
        ),
{
    crate::text::law_decimal_round_trip(n as nat, u64::MAX as nat);
}

// ---------------------------------------------------------------------------
// Namespaces
// ---------------------------------------------------------------------------

/// The namespace of a request without one in its path: the header's, if it says
/// one, or else the default.
pub open spec fn header_namespace(said: Option<Seq<char>>, default: Seq<char>) -> Seq<char> {
    match said {
        Some(s) if s.len() > 0 => s,
        _ => default,
    }
}

/// The namespace of a request without one in its path.
pub fn namespace_from_header(header: Header<'_>, default_namespace: &str) -> (r: String)
    ensures
        r@ == header_namespace(header.said(), default_namespace@),
{
    match header {
        Header::Text(s) => {
            if s.is_empty() {
                default_namespace.to_owned()
            } else {
                s.to_owned()
            }
        },
        _ => default_namespace.to_owned(),
    }
}

/// The path parameters as they were captured.
pub open spec fn captured(params: Seq<(String, String)>) -> Seq<(Seq<char>, Seq<char>)> {
    params.map_values(|p: (String, String)| (p.0@, p.1@))
}

/// The first captured parameter of that name.
pub open spec fn param(params: Seq<(Seq<char>, Seq<char>)>, name: Seq<char>) -> Option<Seq<char>>
    decreases params.len(),
{
    if params.len() == 0 {
        None
    } else if params[0].0 == name {
        Some(params[0].1)
    } else {
        param(params.skip(1), name)
    }
}

/// The namespace that a request is checked against: what the path captured, or
/// else what the header or the default says.
pub open spec fn request_namespace(
    params: Seq<(Seq<char>, Seq<char>)>,
    said: Option<Seq<char>>,
    default: Seq<char>,
) -> Seq<char> {
    match param(params, "namespace"@) {
        Some(ns) => ns,
        None => header_namespace(said, default),
    }
}

/// The namespace that a request is checked against. It is read from what the
/// router captured and not parsed from the path anew, so that it is the
/// namespace that the handler serves.
pub fn resolve_request_namespace(
    params: &Vec<(String, String)>,
    header: Header<'_>,
    default_namespace: &str,
) -> (r: String)
    ensures
        r@ == request_namespace(captured(params@), header.said(), default_namespace@),
{
    let ghost all = captured(params@);
    let mut i: usize = 0;
    assert(all.skip(0) =~= all);
    while i < params.len()
        invariant
            i <= params@.len(),
            all == captured(params@),
            param(all, "namespace"@) == param(all.skip(i as int), "namespace"@),
        decreases params.len() - i,
    {
        assert(all.skip(i as int)[0] == (params@[i as int].0@, params@[i as int].1@));
        if str_eq(params[i].0.as_str(), "namespace") {
            return params[i].1.clone();
        }
        assert(all.skip(i as int).skip(1) =~= all.skip(i + 1));
        i = i + 1;
    }
    namespace_from_header(header, default_namespace)
}

/// The namespace that a handler serves: the one in the path of a prefixed route,
/// the header's or the default on an unprefixed one.
pub open spec fn served_namespace(
    prefix: Option<Seq<char>>,
    said: Option<Seq<char>>,
    default: Seq<char>,
) -> Seq<char> {
    match prefix {
        Some(ns) => ns,
        None => header_namespace(said, default),
    }
}

/// The namespace that a caller is checked against is the one that is served,
/// whatever the header says besides: a token that is scoped to one namespace
/// never reaches another.
pub proof fn law_checked_namespace_is_served(
    prefix: Option<Seq<char>>,
    said: Option<Seq<char>>,
    default: Seq<char>,
)
    ensures
        ({
            let params = match prefix {
                Some(ns) => seq![("namespace"@, ns)],
                None => Seq::empty(),
            };
            request_namespace(params, said, default) == served_namespace(prefix, said, default)
        }),
{
}

// ---------------------------------------------------------------------------
// Callers
// ---------------------------------------------------------------------------

/// The token of an authorization header: what follows the scheme `Bearer`, in
/// any case, and one space.
pub open spec fn bearer(header: Seq<char>) -> Option<Seq<char>> {
    match cut(header, ' ') {
        Some((scheme, token)) => if same_ignoring_ascii_case(scheme, "bearer"@) {
            Some(token)
        } else {
            None
        },
        None => None,
    }
}

/// The token of an authorization header.
pub fn strip_bearer(header: &str) -> (r: Option<String>)
    ensures
        match r {
            Some(token) => bearer(header@) == Some(token@),
            None => bearer(header@) is None,
        },
{
    match split_once(header, ' ') {
        Some((scheme, token)) => {
            if eq_ignore_ascii_case(scheme.as_str(), "bearer") {
                Some(token)
            } else {
                None
            }
        },
        None => None,
    }
}

/// A header that writes the scheme in any case, one space and a token presents that
/// token, to the last character; one with another scheme, or without a space,
/// presents none.
pub proof fn law_bearer_is_stripped(scheme: Seq<char>, token: Seq<char>)
    requires
        forall|i: int| 0 <= i < scheme.len() ==> #[trigger] scheme[i] != ' ',
    ensures
        same_ignoring_ascii_case(scheme, "bearer"@) ==> bearer(scheme.push(' ') + token) == Some(
            token,
        ),
        !same_ignoring_ascii_case(scheme, "bearer"@) ==> bearer(scheme.push(' ') + token) is None,
        bearer(scheme) is None,
        bearer("Bearer "@ + token) == Some(token),
{
    lemma_scheme_is_cut(scheme, token);
    crate::text::lemma_find_char(scheme, ' ');
    reveal_strlit("Bearer ");
    reveal_strlit("bearer");
    let word = "Bearer "@.take(6);
    assert(word.push(' ') =~= "Bearer "@);
    assert(same_ignoring_ascii_case(word, "bearer"@));
    lemma_scheme_is_cut(word, token);
}

/// The first space of a header ends the scheme.
proof fn lemma_scheme_is_cut(scheme: Seq<char>, token: Seq<char>)
    requires
        forall|i: int| 0 <= i < scheme.len() ==> #[trigger] scheme[i] != ' ',
    ensures
        cut(scheme.push(' ') + token, ' ') == Some((scheme, token)),
{
    let header = scheme.push(' ') + token;
    crate::text::lemma_find_char(header, ' ');
    let at = find_char(header, ' ') as int;
    assert(header[scheme.len() as int] == ' ');
    if at < scheme.len() {
        assert(header[at] == scheme[at]);
    }
    assert(header.take(at) =~= scheme);
    assert(header.skip(at + 1) =~= token);
}

/// What a caller without valid credentials is told.
pub const BAD_TOKEN: &'static str = "missing or invalid bearer token";

/// What a caller without valid credentials for the namespace is told.
pub const BAD_TOKEN_OR_SCOPE: &'static str =
    "missing or invalid bearer token, or token not scoped to this namespace";

/// The principal that was found, or the challenge.
pub fn principal_or_challenge(found: Option<Principal>, text: &str) -> (r: Result<Principal, Reply>)
    ensures
        match found {
            Some(p) => r matches Ok(got) && got@ == p@,
            None => r matches Err(reply) && reply@ == unauthorized_model(text@),
        },
{
    match found {
        Some(p) => Ok(p),
        None => Err(unauthorized(text)),
    }
}

/// The token that a request presents.
pub open spec fn presented(authorization: Option<Seq<char>>) -> Option<Seq<char>> {
    match authorization {
        Some(h) => bearer(h),
        None => None,
    }
}

/// Who a request was let through for.
pub open spec fn let_through(r: Result<Principal, Reply>) -> Option<PrincipalModel> {
    match r {
        Ok(p) => Some(p@),
        Err(_) => None,
    }
}

/// What holds of a request that was checked: everyone passes an open server;
/// otherwise the token decides, and who is turned away is challenged.
pub open spec fn checked(
    auth: AuthModel,
    authorization: Option<Seq<char>>,
    namespace: Seq<char>,
    text: Seq<char>,
    r: Result<Principal, Reply>,
) -> bool {
    &&& r matches Err(reply) ==> reply@ == unauthorized_model(text)
    &&& if auth.is_open() {
        let_through(r) == Some(anonymous())
    } else {
        match presented(authorization) {
            Some(token) => auth.may_resolve(token, namespace, let_through(r)),
            None => r is Err,
        }
    }
}

/// Lets a request of a server with one namespace through, or challenges it.
pub fn require_auth(auth: &AuthConfig, authorization: Header<'_>) -> (r: Result<Principal, Reply>)
    ensures
        checked(auth@, authorization.said(), Seq::empty(), BAD_TOKEN@, r),
{
    if auth.is_open() {
        return Ok(Principal::anonymous_rw());
    }
    let token = match authorization {
        Header::Text(h) => strip_bearer(h),
        _ => None,
    };
    let found = match &token {
        Some(t) => auth.principal_for(t.as_str()),
        None => None,
    };
    principal_or_challenge(found, BAD_TOKEN)
}

/// Lets a request of a server with many namespaces through, or challenges it:
/// the token must reach the namespace that the request is for.
pub fn require_auth_multi(
    auth: &AuthConfig,
    authorization: Header<'_>,
    params: &Vec<(String, String)>,
    namespace_header: Header<'_>,
    default_namespace: &str,
) -> (r: Result<Principal, Reply>)
    ensures
        checked(
            auth@,
            authorization.said(),
            request_namespace(captured(params@), namespace_header.said(), default_namespace@),
            BAD_TOKEN_OR_SCOPE@,
            r,
        ),
{
    if auth.is_open() {
        return Ok(Principal::anonymous_rw());
    }
    let namespace = resolve_request_namespace(params, namespace_header, default_namespace);
    let token = match authorization {
        Header::Text(h) => strip_bearer(h),
        _ => None,
    };
    let found = match &token {
        Some(t) => auth.principal_for_in(t.as_str(), namespace.as_str()),
        None => None,
    };
    principal_or_challenge(found, BAD_TOKEN_OR_SCOPE)
}

/// A caller who presents a static token that reaches the namespace is let through,
/// with that token's name and role if no web tokens are accepted; and on an open
/// server everyone is, as the anonymous caller who may write.
pub proof fn law_good_tokens_are_let_through(
    auth: AuthModel,
    secret: Seq<char>,
    namespace: Seq<char>,
    text: Seq<char>,
    i: int,
    r: Result<Principal, Reply>,
)
    requires
        0 <= i < auth.tokens.len(),
        auth.tokens[i].secret@ == secret,
        auth.tokens[i].reaches(namespace),
        checked(auth, Some("Bearer "@ + secret), namespace, text, r),
    ensures
        r is Ok,
        auth.jwt is None ==> exists|j: int|
            {
                &&& i <= j < auth.tokens.len()
                &&& (#[trigger] auth.tokens[j]).secret@ == secret
                &&& r->Ok_0@.subject == auth.tokens[j].name@
                &&& r->Ok_0@.role == auth.tokens[j].role
            },
{
    law_bearer_is_stripped(Seq::empty(), secret);
    crate::auth::law_granted_tokens_are_honoured(auth, secret, namespace, i, let_through(r));
}

/// Nobody is turned away from an open server, and there everyone may write.
pub proof fn law_open_server_asks_nothing(
    auth: AuthModel,
    authorization: Option<Seq<char>>,
    namespace: Seq<char>,
    text: Seq<char>,
    r: Result<Principal, Reply>,
)
    requires
        auth.tokens.len() == 0,
        auth.jwt is None,
        checked(auth, authorization, namespace, text, r),
    ensures
        r is Ok,
        r->Ok_0@.role == Role::ReadWrite,
        r->Ok_0@.subject == "anonymous"@,
{
}

/// On a server of static tokens, a caller whose token reaches no further than
/// other namespaces is turned away, and so is one who presents no token.
pub proof fn law_out_of_scope_is_challenged(
    auth: AuthModel,
    authorization: Option<Seq<char>>,
    namespace: Seq<char>,
    text: Seq<char>,
    r: Result<Principal, Reply>,
)
    requires
        auth.jwt is None,
        !auth.is_open(),
        checked(auth, authorization, namespace, text, r),
        presented(authorization) matches Some(token) ==> forall|i: int|
            0 <= i < auth.tokens.len() ==> !(#[trigger] auth.tokens[i]).grants(token, namespace),
    ensures
        r matches Err(reply) && reply@ == unauthorized_model(text),
{
    match presented(authorization) {
        Some(token) => {
            crate::auth::law_grants_are_scoped(auth.tokens, token, namespace);
        },
        None => {},
    }
}

} // verus!
