//! IP and socket addresses as plain values, their text forms, and parsing.
use vstd::prelude::*;
use crate::text::{decimal, push_chars, push_decimal};

verus! {

/// An IP address: four octets, or the 128 bits of an IPv6 address.
#[derive(Clone, Copy, Debug, PartialEq, Eq)]
pub enum IpAddress {
    V4(u8, u8, u8, u8),
    V6(u128),
}

/// A socket address: an IP address, a port, and (for IPv6) a scope id.
#[derive(Clone, Copy, Debug, PartialEq, Eq)]
pub struct SocketAddress {
    pub ip: IpAddress,
    pub port: u16,
    pub scope_id: u32,
}

/// Dot-decimal notation of an IPv4 address.
pub open spec fn ipv4_text(a: u8, b: u8, c: u8, d: u8) -> Seq<char> {
    decimal(a as nat) + seq!['.'] + decimal(b as nat) + seq!['.'] + decimal(c as nat) + seq!['.']
        + decimal(d as nat)
}

/// The text `Ipv6Addr`'s `Display` writes for the IPv6 address with the
/// given 128 bits (the RFC 5952 form: lower-case hexadecimal groups, the
/// longest run of two or more zero groups written `::`, an IPv4-mapped
/// address as `::ffff:` and dot-decimal).
pub uninterp spec fn ipv6_display(bits: u128) -> Seq<char>;

/// Writes an IPv6 address with `Ipv6Addr`'s `Display` (the `core::net`
/// type).  The contract names the text, a function of the bits alone.
#[verifier::external_body]
fn ipv6_to_string(bits: u128) -> (r: String)
    ensures
        r@ == ipv6_display(bits),
{
    core::net::Ipv6Addr::from(bits).to_string()
}

/// The text form of an IP address, as `IpAddr`'s `Display` writes it:
/// dot-decimal for IPv4.
pub open spec fn ip_text(ip: IpAddress) -> Seq<char> {
    match ip {
        IpAddress::V4(a, b, c, d) => ipv4_text(a, b, c, d),
        IpAddress::V6(bits) => ipv6_display(bits),
    }
}

/// Lower-case hexadecimal digit for `d < 16`.
pub open spec fn hex_digit(d: nat) -> char {
    if d < 10 {
        crate::text::digit_char(d)
    } else if d == 10 {
        'a'
    } else if d == 11 {
        'b'
    } else if d == 12 {
        'c'
    } else if d == 13 {
        'd'
    } else if d == 14 {
        'e'
    } else {
        'f'
    }
}

pub(crate) fn hex_digit_char(d: u64) -> (c: char)
    requires
        d < 16,
    ensures
        c == hex_digit(d as nat),
{
    if d < 10 {
        crate::text::digit_to_char(d)
    } else if d == 10 {
        'a'
    } else if d == 11 {
        'b'
    } else if d == 12 {
        'c'
    } else if d == 13 {
        'd'
    } else if d == 14 {
        'e'
    } else {
        'f'
    }
}

fn ipv4_to_string(a: u8, b: u8, c: u8, d: u8) -> (r: String)
    ensures
        r@ == ipv4_text(a, b, c, d),
{
    let mut s = String::new();
    push_decimal(&mut s, a as u64);
    push_chars(&mut s, &['.']);
    push_decimal(&mut s, b as u64);
    push_chars(&mut s, &['.']);
    push_decimal(&mut s, c as u64);
    push_chars(&mut s, &['.']);
    push_decimal(&mut s, d as u64);
    assert(s@ =~= ipv4_text(a, b, c, d));
    s
}

/// The text form of an IP address.
pub fn ip_to_string(ip: IpAddress) -> (r: String)
    ensures
        r@ == ip_text(ip),
{
    match ip {
        IpAddress::V4(a, b, c, d) => ipv4_to_string(a, b, c, d),
        IpAddress::V6(bits) => ipv6_to_string(bits),
    }
}

/// The address `str::parse::<IpAddr>` reads from a text (IPv4 in
/// dot-decimal, IPv6 in its colon forms), `None` where it refuses it.
pub uninterp spec fn ip_address_of(t: Seq<char>) -> Option<IpAddress>;

/// Parses an IP address with `str::parse::<IpAddr>` (the `core::net`
/// parser).  The contract names the result, a function of the text alone.
#[verifier::external_body]
pub fn parse_ip_address(t: &str) -> (r: Option<IpAddress>)
    ensures
        r == ip_address_of(t@),
{
    match t.parse::<core::net::IpAddr>() {
        Ok(core::net::IpAddr::V4(a)) => {
            let o = a.octets();
            Some(IpAddress::V4(o[0], o[1], o[2], o[3]))
        },
        Ok(core::net::IpAddr::V6(a)) => Some(IpAddress::V6(u128::from(a))),
        Err(_) => None,
    }
}

/// The socket address `str::parse::<SocketAddr>` reads from a text
/// (`a.b.c.d:port`, `[v6]:port` or `[v6%scope]:port`), `None` where it
/// refuses it.
pub uninterp spec fn socket_address_of(t: Seq<char>) -> Option<SocketAddress>;

/// Parses a socket address with `str::parse::<SocketAddr>` (the
/// `core::net` parser); the parser never gives an IPv6 flow label, so
/// nothing is lost.  The contract names the result, a function of the text
/// alone.
#[verifier::external_body]
pub fn parse_socket_address(t: &str) -> (r: Option<SocketAddress>)
    ensures
        r == socket_address_of(t@),
{
    match t.parse::<core::net::SocketAddr>() {
        Ok(core::net::SocketAddr::V4(a)) => {
            let o = a.ip().octets();
            Some(SocketAddress { ip: IpAddress::V4(o[0], o[1], o[2], o[3]), port: a.port(), scope_id: 0 })
        },
        Ok(core::net::SocketAddr::V6(a)) => Some(
            SocketAddress { ip: IpAddress::V6(u128::from(*a.ip())), port: a.port(), scope_id: a.scope_id() },
        ),
        Err(_) => None,
    }
}

} // verus!
