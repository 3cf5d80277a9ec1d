//! Addresses and URLs: which destinations are public, and what a URL says.
use vstd::prelude::*;
use vstd::string::*;

verus! {

// ---------------------------------------------------------------------------
// Addresses
// ---------------------------------------------------------------------------

/// An address with its printed form.
#[derive(Debug)]
pub struct IpAddress {
    pub bits: IpBits,
    pub text: String,
}

#[derive(Clone, Copy, Debug, PartialEq, Eq)]
pub enum IpBits {
    V4([u8; 4]),
    V6([u16; 8]),
}

pub enum BitsView {
    V4(Seq<u8>),
    V6(Seq<u16>),
}

impl View for IpBits {
    type V = BitsView;

    open spec fn view(&self) -> BitsView {
        match *self {
            IpBits::V4(o) => BitsView::V4(o@),
            IpBits::V6(s) => BitsView::V6(s@),
        }
    }
}

/// Whether an IPv4 address is one of the private, shared, local, reserved,
/// documentation or benchmarking ranges, a relay, a group, or a broadcast.
pub open spec fn reserved_v4(a: int, b: int, c: int) -> bool {
    ||| a == 0
    ||| a == 10
    ||| a == 127
    ||| a == 172 && 16 <= b <= 31
    ||| a == 192 && b == 168
    ||| a == 169 && b == 254
    ||| a == 100 && 64 <= b <= 127
    ||| a == 192 && b == 0 && (c == 0 || c == 2)
    ||| a == 192 && b == 88 && c == 99
    ||| a == 198 && (b == 18 || b == 19)
    ||| a == 198 && b == 51 && c == 100
    ||| a == 203 && b == 0 && c == 113
    ||| a >= 224
}

pub open spec fn public_v4(o: Seq<u8>) -> bool {
    !reserved_v4(o[0] as int, o[1] as int, o[2] as int)
}

/// Whether an IPv4 address is reachable on the public internet.
pub fn ipv4_is_public(octets: [u8; 4]) -> (r: bool)
    ensures
        r == public_v4(octets@),
{
    let a: u8 = octets[0];
    let b: u8 = octets[1];
    let c: u8 = octets[2];
    let private = a == 10 || (a == 172 && 16 <= b && b <= 31) || (a == 192 && b == 168);
    let loopback = a == 127;
    let link_local = a == 169 && b == 254;
    let multicast = 224 <= a && a <= 239;
    !(private || loopback || link_local || multicast || a == 0 || (a == 100 && 64 <= b && b <= 127)
        || (a == 192 && b == 0 && c == 0) || (a == 198 && (b == 18 || b == 19)) || (a == 192 && b
        == 0 && c == 2) || (a == 198 && b == 51 && c == 100) || (a == 203 && b == 0 && c == 113)
    // 6to4 relay anycast (RFC 7526): a relay would forward onward.
     || (a == 192 && b == 88 && c == 99) || a >= 240)
}

/// The IPv4 address in two segments of an IPv6 address.
pub open spec fn embedded_v4(high: u16, low: u16) -> Seq<u8> {
    seq![
        (high / 256) as u8,
        (high % 256) as u8,
        (low / 256) as u8,
        (low % 256) as u8,
    ]
}

/// Whether an IPv6 address is an IPv4-mapped one, `::ffff:a.b.c.d`.
pub open spec fn is_mapped(s: Seq<u16>) -> bool {
    s[0] == 0 && s[1] == 0 && s[2] == 0 && s[3] == 0 && s[4] == 0 && s[5] == 0xffff
}

/// Whether an IPv6 address has the well-known NAT64 prefix, `64:ff9b::/96`.
pub open spec fn is_nat64(s: Seq<u16>) -> bool {
    s[0] == 0x64 && s[1] == 0xff9b && s[2] == 0 && s[3] == 0 && s[4] == 0 && s[5] == 0
}

pub open spec fn is_6to4(s: Seq<u16>) -> bool {
    s[0] == 0x2002
}

/// Whether an IPv6 address that embeds no other one is reserved: unspecified,
/// loopback, unique local, link local, site local, a group, local-use NAT64 or
/// documentation.
pub open spec fn reserved_v6(s: Seq<u16>) -> bool {
    ||| s[0] == 0 && s[1] == 0 && s[2] == 0 && s[3] == 0 && s[4] == 0 && s[5] == 0 && s[6] == 0
        && s[7] <= 1
    ||| 0xfc00 <= s[0] <= 0xfdff
    ||| 0xfe80 <= s[0] <= 0xfeff
    ||| s[0] >= 0xff00
    ||| s[0] == 0x64 && s[1] == 0xff9b && s[2] == 1
    ||| s[0] == 0x2001 && s[1] == 0xdb8
}

/// Whether an IPv6 address is reachable on the public internet. Addresses that
/// embed an IPv4 address are judged by that address.
pub open spec fn public_v6(s: Seq<u16>) -> bool {
    if is_mapped(s) || is_nat64(s) {
        public_v4(embedded_v4(s[6], s[7]))
    } else if is_6to4(s) {
        public_v4(embedded_v4(s[1], s[2]))
    } else {
        !reserved_v6(s)
    }
}

fn embed_v4(high: u16, low: u16) -> (r: [u8; 4])
    ensures
        r@ == embedded_v4(high, low),
{
    let r: [u8; 4] = [
        (high / 256) as u8,
        (high % 256) as u8,
        (low / 256) as u8,
        (low % 256) as u8,
    ];
    assert(r@ =~= embedded_v4(high, low));
    r
}

/// Whether an IPv6 address is reachable on the public internet.
///
/// A NAT64/6to4 gateway forwards the request to the embedded IPv4 address, so
/// that address is judged, not the IPv6 wrapper. Covers the well-known NAT64
/// prefix 64:ff9b::/96 (RFC 6052) and 6to4 2002::/16 (RFC 3056); without this,
/// on a DNS64 network `[64:ff9b::a9fe:a9fe]` reaches 169.254.169.254.
pub fn ipv6_is_public(segments: [u16; 8]) -> (r: bool)
    ensures
        r == public_v6(segments@),
{
    let s0: u16 = segments[0];
    let s1: u16 = segments[1];
    let zero_2_to_4 = segments[2] == 0 && segments[3] == 0 && segments[4] == 0;
    if s0 == 0 && s1 == 0 && zero_2_to_4 && segments[5] == 0xffff {
        return ipv4_is_public(embed_v4(segments[6], segments[7]));
    }
    if s0 == 0x64 && s1 == 0xff9b && zero_2_to_4 && segments[5] == 0 {
        return ipv4_is_public(embed_v4(segments[6], segments[7]));
    }
    if s0 == 0x2002 {
        return ipv4_is_public(embed_v4(s1, segments[2]));
    }
    let near_zero = s0 == 0 && s1 == 0 && zero_2_to_4 && segments[5] == 0 && segments[6] == 0
        && segments[7] <= 1;
    let multicast = s0 >= 0xff00;
    let unique_local = 0xfc00 <= s0 && s0 <= 0xfdff;
    let link_local = 0xfe80 <= s0 && s0 <= 0xfebf;
    let site_local = 0xfec0 <= s0 && s0 <= 0xfeff;
    !(near_zero || multicast || unique_local || link_local || site_local || (s0 == 0x64 && s1
        == 0xff9b && segments[2] == 1) || (s0 == 0x2001 && s1 == 0xdb8))
}

pub open spec fn public_bits(bits: BitsView) -> bool {
    match bits {
        BitsView::V4(o) => public_v4(o),
        BitsView::V6(s) => public_v6(s),
    }
}

pub fn is_public(bits: &IpBits) -> (r: bool)
    ensures
        r == public_bits(bits@),
{
    match bits {
        IpBits::V4(o) => ipv4_is_public(*o),
        IpBits::V6(s) => ipv6_is_public(*s),
    }
}

/// An IPv4 address that is not public is not public either where an IPv6
/// address maps it, or where a NAT64 or 6to4 prefix embeds it.
pub proof fn embedding_hides_no_private_address(high: u16, low: u16, s: Seq<u16>)
    requires
        s.len() == 8,
        !public_v4(embedded_v4(high, low)),
        ((is_mapped(s) || is_nat64(s)) && s[6] == high && s[7] == low) || (is_6to4(s) && s[1]
            == high && s[2] == low),
    ensures
        !public_v6(s),
{
}

// ---------------------------------------------------------------------------
// URLs
// ---------------------------------------------------------------------------

/// The host of a URL.
#[derive(Debug)]
pub enum UrlHost {
    Missing,
    Domain(String),
    Ip(IpAddress),
}

/// What the library reads of a URL.
#[derive(Debug)]
pub struct ParsedUrl {
    pub scheme: String,
    pub username: String,
    pub has_password: bool,
    pub host: UrlHost,
    /// The port, or the default one of the scheme.
    pub port: Option<u16>,
}

pub enum HostView {
    Missing,
    Domain(Seq<char>),
    Ip(BitsView, Seq<char>),
}

pub struct UrlView {
    pub scheme: Seq<char>,
    pub username: Seq<char>,
    pub has_password: bool,
    pub host: HostView,
    pub port: Option<u16>,
}

impl View for UrlHost {
    type V = HostView;

    open spec fn view(&self) -> HostView {
        match *self {
            UrlHost::Missing => HostView::Missing,
            UrlHost::Domain(d) => HostView::Domain(d@),
            UrlHost::Ip(a) => HostView::Ip(a.bits@, a.text@),
        }
    }
}

impl View for ParsedUrl {
    type V = UrlView;

    open spec fn view(&self) -> UrlView {
        UrlView {
            scheme: self.scheme@,
            username: self.username@,
            has_password: self.has_password,
            host: self.host@,
            port: self.port,
        }
    }
}

pub open spec fn opt_url(o: Option<ParsedUrl>) -> Option<UrlView> {
    match o {
        Some(u) => Some(u@),
        None => None,
    }
}

/// The parts that `url::Url::parse` reads from a text; nothing where it
/// rejects it.
pub uninterp spec fn url_parts(text: Seq<char>) -> Option<UrlView>;

/// Parses a URL with `url::Url::parse` and hands out its scheme, user name,
/// whether it has a password, its host and its port (`port_or_known_default`).
/// All of these are a function of the text; the grammar is not restated.
#[verifier::external_body]
pub(crate) fn parse_url(text: &str) -> (r: Option<ParsedUrl>)
    ensures
        opt_url(r) == url_parts(text@),
{
    let u = url::Url::parse(text).ok()?;
    let host = match u.host() {
        None => UrlHost::Missing,
        Some(url::Host::Domain(d)) => UrlHost::Domain(d.into()),
        Some(url::Host::Ipv4(a)) => UrlHost::Ip(
            IpAddress { bits: IpBits::V4(a.octets()), text: a.to_string() },
        ),
        Some(url::Host::Ipv6(a)) => UrlHost::Ip(
            IpAddress { bits: IpBits::V6(a.segments()), text: a.to_string() },
        ),
    };
    let port = u.port_or_known_default();
    Some(ParsedUrl { scheme: u.scheme().into(), username: u.username().into(),
        has_password: u.password().is_some(), host, port })
}

} // verus!
