//! Client identification behind proxies, login rate-limit keys and CSRF
//! tokens.
use vstd::prelude::*;
use crate::error::ApiError;
use crate::net::{ip_address_of, ip_text, ip_to_string, parse_ip_address, IpAddress, SocketAddress};
use crate::text::{
    ascii_lowercase, ascii_lowercase_chars, chars_eq, chars_of, lemma_split_on_joined,
    lemma_split_on_without, push_chars, split_chars, split_on, string_of, trim, trim_chars,
};

verus! {

/// Name of the request header that carries the CSRF token.
pub const CSRF_HEADER: &'static str = "x-csrf-token";

/// The view of an optional text.
pub open spec fn opt_text(o: Option<&str>) -> Option<Seq<char>> {
    match o {
        Some(s) => Some(s@),
        None => None,
    }
}

/// The candidate address text of an `x-forwarded-for` value: its first
/// comma-separated element, trimmed, when that is not empty.
pub open spec fn forwarded_for_candidate(v: Seq<char>) -> Option<Seq<char>> {
    let t = trim(split_on(v, ',')[0]);
    if t.len() > 0 {
        Some(t)
    } else {
        None
    }
}

/// The candidate address text of an `x-real-ip` value: the trimmed value,
/// when it is not empty.
pub open spec fn real_ip_candidate(v: Seq<char>) -> Option<Seq<char>> {
    let t = trim(v);
    if t.len() > 0 {
        Some(t)
    } else {
        None
    }
}

/// The address text that `x-forwarded-for` offers, if any.
pub fn forwarded_for_text(value: Option<&str>) -> (r: Option<String>)
    ensures
        match value {
            Some(v) => match r {
                Some(t) => forwarded_for_candidate(v@) == Some(t@),
                None => forwarded_for_candidate(v@) is None,
            },
            None => r is None,
        },
{
    match value {
        Some(v) => {
            let cs = chars_of(v);
            let parts = split_chars(cs.as_slice(), ',');
            proof {
                crate::text::lemma_split_on_nonempty(v@, ',');
            }
            let first = trim_chars(parts[0].as_slice());
            if first.len() > 0 {
                Some(string_of(first.as_slice()))
            } else {
                None
            }
        },
        None => None,
    }
}

/// The address text that `x-real-ip` offers, if any.
pub fn real_ip_text(value: Option<&str>) -> (r: Option<String>)
    ensures
        match value {
            Some(v) => match r {
                Some(t) => real_ip_candidate(v@) == Some(t@),
                None => real_ip_candidate(v@) is None,
            },
            None => r is None,
        },
{
    match value {
        Some(v) => {
            let cs = chars_of(v);
            let t = trim_chars(cs.as_slice());
            if t.len() > 0 {
                Some(string_of(t.as_slice()))
            } else {
                None
            }
        },
        None => None,
    }
}

/// The address a candidate text parses to, if any.
pub open spec fn parsed_candidate(c: Option<Seq<char>>) -> Option<IpAddress> {
    match c {
        Some(t) => ip_address_of(t),
        None => None,
    }
}

/// The address the proxy headers give: the first element of
/// `x-forwarded-for` (trimmed) when it parses, else the trimmed `x-real-ip`
/// when it parses.  An unparsable header is ignored.
pub open spec fn forwarded_ip_spec(forwarded_for: Option<Seq<char>>, real_ip: Option<Seq<char>>) -> Option<
    IpAddress,
> {
    let f = match forwarded_for {
        Some(v) => parsed_candidate(forwarded_for_candidate(v)),
        None => None,
    };
    match f {
        Some(ip) => Some(ip),
        None => match real_ip {
            Some(v) => parsed_candidate(real_ip_candidate(v)),
            None => None,
        },
    }
}

/// Reads the address the proxy headers give (see `forwarded_ip_spec`).
pub fn forwarded_ip(forwarded_for: Option<&str>, real_ip: Option<&str>) -> (r: Option<IpAddress>)
    ensures
        r == forwarded_ip_spec(opt_text(forwarded_for), opt_text(real_ip)),
{
    let f = match forwarded_for_text(forwarded_for) {
        Some(t) => parse_ip_address(t.as_str()),
        None => None,
    };
    match f {
        Some(ip) => Some(ip),
        None => match real_ip_text(real_ip) {
            Some(t) => parse_ip_address(t.as_str()),
            None => None,
        },
    }
}

/// The client's address: the peer's, unless proxy headers are trusted, in
/// which case the address the proxy headers give, else the peer's.
pub open spec fn client_ip_spec(
    header_ip: Option<IpAddress>,
    peer_addr: Option<SocketAddress>,
    trust_proxy_headers: bool,
) -> Option<IpAddress> {
    let peer_ip = match peer_addr {
        Some(a) => Some(a.ip),
        None => None,
    };
    if !trust_proxy_headers {
        peer_ip
    } else {
        match header_ip {
            Some(ip) => Some(ip),
            None => peer_ip,
        }
    }
}

/// Picks the client address from the address the proxy headers gave
/// (`None` where they give none) and the peer address.
pub fn pick_client_ip(
    header_ip: Option<IpAddress>,
    peer_addr: Option<SocketAddress>,
    trust_proxy_headers: bool,
) -> (r: Option<IpAddress>)
    ensures
        r == client_ip_spec(header_ip, peer_addr, trust_proxy_headers),
{
    let peer_ip = match peer_addr {
        Some(a) => Some(a.ip),
        None => None,
    };
    if !trust_proxy_headers {
        return peer_ip;
    }
    match header_ip {
        Some(ip) => Some(ip),
        None => peer_ip,
    }
}

/// The client address of a request, from the values of its
/// `x-forwarded-for` and `x-real-ip` headers and its peer address.  The
/// headers are read only when they are trusted.
pub fn request_client_ip(
    forwarded_for: Option<&str>,
    real_ip: Option<&str>,
    peer_addr: Option<SocketAddress>,
    trust_proxy_headers: bool,
) -> (r: Option<IpAddress>)
    ensures
        r == client_ip_spec(
            forwarded_ip_spec(opt_text(forwarded_for), opt_text(real_ip)),
            peer_addr,
            trust_proxy_headers,
        ),
{
    if !trust_proxy_headers {
        return pick_client_ip(None, peer_addr, false);
    }
    let header_ip = forwarded_ip(forwarded_for, real_ip);
    pick_client_ip(header_ip, peer_addr, true)
}

/// The login rate-limit key: the client address (or `unknown`), a colon,
/// and the trimmed, ASCII-lower-cased user name.
pub open spec fn login_key_text(client_ip: Option<IpAddress>, username: Seq<char>) -> Seq<char> {
    let ip = match client_ip {
        Some(ip) => ip_text(ip),
        None => "unknown"@,
    };
    ip + seq![':'] + ascii_lowercase(trim(username))
}

/// Builds the login rate-limit key of a request.
pub fn login_rate_limit_key(
    forwarded_for: Option<&str>,
    real_ip: Option<&str>,
    username: &str,
    peer_addr: Option<SocketAddress>,
    trust_proxy_headers: bool,
) -> (r: String)
    ensures
        r@ == login_key_text(
            client_ip_spec(
                forwarded_ip_spec(opt_text(forwarded_for), opt_text(real_ip)),
                peer_addr,
                trust_proxy_headers,
            ),
            username@,
        ),
{
    let ip = request_client_ip(forwarded_for, real_ip, peer_addr, trust_proxy_headers);
    let mut s = match ip {
        Some(ip) => ip_to_string(ip),
        None => String::from_str("unknown"),
    };
    push_chars(&mut s, &[':']);
    let cs = chars_of(username);
    let t = trim_chars(cs.as_slice());
    let lower = ascii_lowercase_chars(t.as_slice());
    push_chars(&mut s, lower.as_slice());
    s
}

/// The client address recorded in request traces: the first element of
/// `x-forwarded-for` (trimmed), else the raw `x-real-ip` value, else `unknown`.
pub open spec fn traced_client_ip(forwarded_for: Option<Seq<char>>, real_ip: Option<Seq<char>>) -> Seq<
    char,
> {
    match forwarded_for {
        Some(v) => trim(split_on(v, ',')[0]),
        None => match real_ip {
            Some(v) => v,
            None => "unknown"@,
        },
    }
}

/// The client address written into request traces.
pub fn extract_client_ip(forwarded_for: Option<&str>, real_ip: Option<&str>) -> (r: String)
    ensures
        r@ == traced_client_ip(opt_text(forwarded_for), opt_text(real_ip)),
{
    match forwarded_for {
        Some(v) => {
            let cs = chars_of(v);
            let parts = split_chars(cs.as_slice(), ',');
            proof {
                crate::text::lemma_split_on_nonempty(v@, ',');
            }
            let first = trim_chars(parts[0].as_slice());
            string_of(first.as_slice())
        },
        None => match real_ip {
            Some(v) => String::from_str(v),
            None => String::from_str("unknown"),
        },
    }
}

/// Outcome of a CSRF check: accepted, or refused with one of three reasons.
pub open spec fn csrf_refusal(session_token: Option<Seq<char>>, header_token: Option<Seq<char>>) -> Option<
    Seq<char>,
> {
    match session_token {
        None => Some("missing csrf token in session"@),
        Some(expected) => match header_token {
            None => Some("missing csrf token header"@),
            Some(actual) => if trim(actual) != expected {
                Some("invalid csrf token"@)
            } else {
                None
            },
        },
    }
}

/// Checks the CSRF token sent in the request header against the one kept in
/// the session; a refusal is a 403 with the reason.
pub fn verify_csrf(session_token: Option<&str>, header_token: Option<&str>) -> (r: Result<
    (),
    ApiError,
>)
    ensures
        match csrf_refusal(opt_text(session_token), opt_text(header_token)) {
            Some(reason) => r is Err && r->Err_0.status == 403 && r->Err_0.message@ == reason,
            None => r is Ok,
        },
{
    let expected = match session_token {
        Some(t) => t,
        None => {
            return Err(ApiError::forbidden(String::from_str("missing csrf token in session")));
        },
    };
    let actual = match header_token {
        Some(t) => t,
        None => {
            return Err(ApiError::forbidden(String::from_str("missing csrf token header")));
        },
    };
    let a = chars_of(actual);
    let trimmed = trim_chars(a.as_slice());
    let e = chars_of(expected);
    if !chars_eq(trimmed.as_slice(), e.as_slice()) {
        return Err(ApiError::forbidden(String::from_str("invalid csrf token")));
    }
    Ok(())
}

/// The version and variant fields of a random (version 4, RFC 4122 variant)
/// UUID's 128 bits.
pub open spec fn uuid_v4_fields(bits: u128) -> bool {
    (bits >> 76u128) & 0xf == 4 && (bits >> 62u128) & 0x3 == 2
}

/// A random version-4 UUID from the `uuid` crate, as its 128 bits.
#[verifier::external_body]
fn random_uuid_v4_bits() -> (r: u128)
    ensures
        (r >> 76u128) & 0xf == 4,
        (r >> 62u128) & 0x3 == 2,
{
    uuid::Uuid::new_v4().as_u128()
}

/// The `i`-th hexadecimal digit (most significant first) of 128 bits.
pub open spec fn nibble(bits: u128, i: int) -> nat {
    ((bits >> ((124 - 4 * i) as u128)) & 0xf) as nat
}

/// The 32 lower-case hexadecimal digits of 128 bits, as the `simple` form of
/// a UUID writes them.
pub open spec fn simple_hex(bits: u128) -> Seq<char> {
    Seq::new(32, |i: int| crate::net::hex_digit(nibble(bits, i)))
}

/// The hyphenated form of a UUID: 8-4-4-4-12 lower-case hexadecimal digits.
pub open spec fn hyphenated_hex(bits: u128) -> Seq<char> {
    let h = simple_hex(bits);
    h.subrange(0, 8) + seq!['-'] + h.subrange(8, 12) + seq!['-'] + h.subrange(12, 16) + seq!['-']
        + h.subrange(16, 20) + seq!['-'] + h.subrange(20, 32)
}

fn simple_hex_chars(bits: u128) -> (r: Vec<char>)
    ensures
        r@ == simple_hex(bits),
{
    let mut r: Vec<char> = Vec::new();
    let mut i: usize = 0;
    while i < 32
        invariant
            i <= 32,
            r@ == simple_hex(bits).subrange(0, i as int),
        decreases 32 - i,
    {
        let shift: u128 = (124 - 4 * i) as u128;
        let w: u128 = (bits >> shift) & 0xf;
        assert(w < 16) by (bit_vector)
            requires
                w == (bits >> shift) & 0xf,
        ;
        let d = w as u64;
        assert(d as nat == nibble(bits, i as int));
        r.push(crate::net::hex_digit_char(d));
        i = i + 1;
        assert(r@ =~= simple_hex(bits).subrange(0, i as int));
    }
    assert(r@ =~= simple_hex(bits));
    r
}

/// A fresh random CSRF token: a random (version-4) UUID in its simple form.
pub fn new_csrf_token() -> (r: String)
    ensures
        r@.len() == 32,
        exists|bits: u128| r@ == simple_hex(bits) && uuid_v4_fields(bits),
{
    let bits = random_uuid_v4_bits();
    let h = simple_hex_chars(bits);
    string_of(h.as_slice())
}

/// A fresh request id: a random (version-4) UUID in its hyphenated form.
pub fn new_request_id() -> (r: String)
    ensures
        r@.len() == 36,
        exists|bits: u128| r@ == hyphenated_hex(bits) && uuid_v4_fields(bits),
{
    let bits = random_uuid_v4_bits();
    let h = simple_hex_chars(bits);
    let mut s = String::new();
    let a = crate::text::sub_chars(h.as_slice(), 0, 8);
    push_chars(&mut s, a.as_slice());
    push_chars(&mut s, &['-']);
    let b = crate::text::sub_chars(h.as_slice(), 8, 12);
    push_chars(&mut s, b.as_slice());
    push_chars(&mut s, &['-']);
    let c = crate::text::sub_chars(h.as_slice(), 12, 16);
    push_chars(&mut s, c.as_slice());
    push_chars(&mut s, &['-']);
    let d = crate::text::sub_chars(h.as_slice(), 16, 20);
    push_chars(&mut s, d.as_slice());
    push_chars(&mut s, &['-']);
    let e = crate::text::sub_chars(h.as_slice(), 20, 32);
    push_chars(&mut s, e.as_slice());
    assert(s@ =~= hyphenated_hex(bits));
    s
}

/// The CSRF token to hand out: the one the session already holds, or a fresh
/// one, together with whether the session must store it.
pub fn csrf_token_for_session(stored: Option<String>) -> (r: (String, bool))
    ensures
        match stored {
            Some(t) => r.0@ == t@ && !r.1,
            None => r.1 && r.0@.len() == 32 && exists|bits: u128|
                r.0@ == simple_hex(bits) && uuid_v4_fields(bits),
        },
{
    match stored {
        Some(t) => (t, false),
        None => (new_csrf_token(), true),
    }
}

/// The request id of a traced request: the one the client sent in
/// `x-request-id`, else a fresh one.
pub fn request_id_for(sent: Option<&str>) -> (r: String)
    ensures
        match sent {
            Some(t) => r@ == t@,
            None => r@.len() == 36 && exists|bits: u128|
                r@ == hyphenated_hex(bits) && uuid_v4_fields(bits),
        },
{
    match sent {
        Some(t) => String::from_str(t),
        None => new_request_id(),
    }
}

/// The first element of an `x-forwarded-for` value: the text before its
/// first comma, with or without further elements after it.
proof fn lemma_first_forwarded_element(a: Seq<char>, rest: Seq<char>)
    requires
        forall|i: int| 0 <= i < a.len() ==> a[i] != ',',
    ensures
        split_on(a, ',')[0] == a,
        split_on(a + seq![','] + rest, ',')[0] == a,
{
    lemma_split_on_without(a, ',');
    lemma_split_on_joined(a, rest, ',');
    assert((seq![a] + split_on(rest, ','))[0] == a);
}

/// With trusted proxy headers, when the first element of `x-forwarded-for`
/// (the text `a` before any comma, trimmed) is an IP address, the client
/// address is that address, whatever `x-real-ip` holds and whatever follows
/// in `x-forwarded-for`; the peer address is not used either.
pub proof fn law_forwarded_for_wins(
    a: Seq<char>,
    rest: Seq<char>,
    real_ip: Option<Seq<char>>,
    peer_addr: Option<SocketAddress>,
    ip: IpAddress,
)
    requires
        forall|i: int| 0 <= i < a.len() ==> a[i] != ',',
        trim(a).len() > 0,
        ip_address_of(trim(a)) == Some(ip),
    ensures
        forwarded_ip_spec(Some(a), real_ip) == Some(ip),
        forwarded_ip_spec(Some(a + seq![','] + rest), real_ip) == Some(ip),
        client_ip_spec(forwarded_ip_spec(Some(a + seq![','] + rest), real_ip), peer_addr, true)
            == Some(ip),
        client_ip_spec(forwarded_ip_spec(Some(a), real_ip), peer_addr, true) == Some(ip),
{
    lemma_first_forwarded_element(a, rest);
}

/// `x-real-ip` is only a fallback: when `x-forwarded-for` gives no address
/// (it is absent, or its first element `a`, trimmed, is empty or not an IP
/// address), the client address is the trimmed `x-real-ip` value when that
/// is an IP address.
pub proof fn law_real_ip_fallback(
    a: Seq<char>,
    rest: Seq<char>,
    r: Seq<char>,
    peer_addr: Option<SocketAddress>,
    ip: IpAddress,
)
    requires
        forall|i: int| 0 <= i < a.len() ==> a[i] != ',',
        trim(a).len() == 0 || ip_address_of(trim(a)) is None,
        trim(r).len() > 0,
        ip_address_of(trim(r)) == Some(ip),
    ensures
        forwarded_ip_spec(None, Some(r)) == Some(ip),
        forwarded_ip_spec(Some(a), Some(r)) == Some(ip),
        forwarded_ip_spec(Some(a + seq![','] + rest), Some(r)) == Some(ip),
        client_ip_spec(forwarded_ip_spec(None, Some(r)), peer_addr, true) == Some(ip),
        client_ip_spec(forwarded_ip_spec(Some(a), Some(r)), peer_addr, true) == Some(ip),
        client_ip_spec(forwarded_ip_spec(Some(a + seq![','] + rest), Some(r)), peer_addr, true)
            == Some(ip),
{
    lemma_first_forwarded_element(a, rest);
}

/// Without trusted proxy headers the client address is the peer's, whatever
/// the headers say.
pub proof fn law_untrusted_headers_ignored(
    forwarded_for: Option<Seq<char>>,
    real_ip: Option<Seq<char>>,
    peer: SocketAddress,
)
    ensures
        client_ip_spec(forwarded_ip_spec(forwarded_for, real_ip), Some(peer), false) == Some(peer.ip),
        client_ip_spec(forwarded_ip_spec(forwarded_for, real_ip), None, false) is None,
{
}

} // verus!
