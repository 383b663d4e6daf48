//! Parsed URL and IP address values, and the address classes that the
//! daemon's origin and host policies are written in.
use vstd::prelude::*;

verus! {

/// The parts of a parsed URL that the origin policies read.
#[derive(Debug)]
pub struct UrlParts {
    pub scheme: String,
    pub host: Option<String>,
    /// The host as the parser classified it.
    pub host_kind: Option<HostKind>,
    pub path: String,
    pub query: Option<String>,
    pub fragment: Option<String>,
    pub username: String,
    pub password: Option<String>,
    /// ASCII serialization of the URL's origin.
    pub origin: String,
}

pub struct UrlPartsView {
    pub scheme: Seq<char>,
    pub host: Option<Seq<char>>,
    pub host_kind: Option<HostKind>,
    pub path: Seq<char>,
    pub has_query: bool,
    pub has_fragment: bool,
    pub username: Seq<char>,
    pub has_password: bool,
    pub origin: Seq<char>,
}

pub open spec fn opt_string_view(o: Option<String>) -> Option<Seq<char>> {
    match o {
        Some(s) => Some(s@),
        None => None,
    }
}

impl View for UrlParts {
    type V = UrlPartsView;

    open spec fn view(&self) -> UrlPartsView {
        UrlPartsView {
            scheme: self.scheme@,
            host: opt_string_view(self.host),
            host_kind: self.host_kind,
            path: self.path@,
            has_query: self.query is Some,
            has_fragment: self.fragment is Some,
            username: self.username@,
            has_password: self.password is Some,
            origin: self.origin@,
        }
    }
}

/// What `url::Url::parse` yields for a string, as the parts above; `None`
/// when the string is not a valid absolute URL.
pub uninterp spec fn url_parse_result(value: Seq<char>) -> Option<UrlPartsView>;

/// `url::Url`, a parsed URL; opaque to proofs.
#[verifier::external_type_specification]
#[verifier::external_body]
pub struct ExUrl(url::Url);

/// `url::Url::host`, read as the kind of host: a domain name or the parsed
/// address. Nothing is promised of it alone; `parse_url` states the outcome.
#[verifier::external_body]
fn url_host_kind(url: &url::Url) -> Option<HostKind> {
    match url.host() {
        Some(url::Host::Domain(_)) => Some(HostKind::Domain),
        Some(url::Host::Ipv4(ip)) => Some(HostKind::Ip(IpAddress::V4(ip.octets()))),
        Some(url::Host::Ipv6(ip)) => Some(HostKind::Ip(IpAddress::V6(ip.segments()))),
        None => None,
    }
}

/// Calls `url::Url::parse` and reads the scheme, host, path, query,
/// fragment, credentials and ASCII origin serialization of the result.
/// The contract only names the outcome: URL parsing follows the WHATWG URL
/// standard, which is not restated here.
#[verifier::external_body]
pub fn parse_url(value: &str) -> (r: Option<UrlParts>)
    ensures
        match r {
            Some(p) => url_parse_result(value@) == Some(p@),
            None => url_parse_result(value@) is None,
        },
{
    let url = url::Url::parse(value).ok()?;
    Some(UrlParts { scheme: url.scheme().to_owned(), host: url.host_str().map(str::to_owned),
        host_kind: url_host_kind(&url), path: url.path().to_owned(),
        query: url.query().map(str::to_owned), fragment: url.fragment().map(str::to_owned),
        username: url.username().to_owned(), password: url.password().map(str::to_owned),
        origin: url.origin().ascii_serialization() })
}

/// How a URL host was parsed: a domain name or an IP address.
#[derive(Debug, Clone, Copy, PartialEq, Eq)]
pub enum HostKind {
    Domain,
    Ip(IpAddress),
}

/// An IP address: four octets, or eight 16-bit segments.
#[derive(Debug, Clone, Copy, PartialEq, Eq)]
pub enum IpAddress {
    V4([u8; 4]),
    V6([u16; 8]),
}

impl IpAddress {
    /// 127.0.0.0/8, or ::1.
    pub open spec fn loopback(self) -> bool {
        match self {
            IpAddress::V4(o) => o[0] == 127,
            IpAddress::V6(s) => s[0] == 0 && s[1] == 0 && s[2] == 0 && s[3] == 0 && s[4] == 0
                && s[5] == 0 && s[6] == 0 && s[7] == 1,
        }
    }

    /// 0.0.0.0, or ::.
    pub open spec fn unspecified(self) -> bool {
        match self {
            IpAddress::V4(o) => o[0] == 0 && o[1] == 0 && o[2] == 0 && o[3] == 0,
            IpAddress::V6(s) => s[0] == 0 && s[1] == 0 && s[2] == 0 && s[3] == 0 && s[4] == 0
                && s[5] == 0 && s[6] == 0 && s[7] == 0,
        }
    }

    /// IPv4 10/8, 172.16/12, 192.168/16 or 169.254/16; IPv6 fc00::/7 or
    /// fe80::/10.
    pub open spec fn private_or_link_local(self) -> bool {
        match self {
            IpAddress::V4(o) => o[0] == 10 || (o[0] == 172 && 16 <= o[1] && o[1] <= 31) || (o[0]
                == 192 && o[1] == 168) || (o[0] == 169 && o[1] == 254),
            IpAddress::V6(s) => (0xfc00u16 <= s[0] && s[0] <= 0xfdffu16) || (0xfe80u16 <= s[0]
                && s[0] <= 0xfebfu16),
        }
    }

    pub fn is_loopback(&self) -> (r: bool)
        ensures
            r == self.loopback(),
    {
        match self {
            IpAddress::V4(o) => o[0] == 127,
            IpAddress::V6(s) => s[0] == 0 && s[1] == 0 && s[2] == 0 && s[3] == 0 && s[4] == 0
                && s[5] == 0 && s[6] == 0 && s[7] == 1,
        }
    }

    pub fn is_unspecified(&self) -> (r: bool)
        ensures
            r == self.unspecified(),
    {
        match self {
            IpAddress::V4(o) => o[0] == 0 && o[1] == 0 && o[2] == 0 && o[3] == 0,
            IpAddress::V6(s) => s[0] == 0 && s[1] == 0 && s[2] == 0 && s[3] == 0 && s[4] == 0
                && s[5] == 0 && s[6] == 0 && s[7] == 0,
        }
    }

    pub fn is_private_or_link_local(&self) -> (r: bool)
        ensures
            r == self.private_or_link_local(),
    {
        match self {
            IpAddress::V4(o) => o[0] == 10 || (o[0] == 172 && 16 <= o[1] && o[1] <= 31) || (o[0]
                == 192 && o[1] == 168) || (o[0] == 169 && o[1] == 254),
            IpAddress::V6(s) => (0xfc00u16 <= s[0] && s[0] <= 0xfdffu16) || (0xfe80u16 <= s[0]
                && s[0] <= 0xfebfu16),
        }
    }
}

} // verus!
