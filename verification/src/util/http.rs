//! How a feed is requested: the proxy, the headers and the time allowed.

use crate::config::data::{Proxy, ProxyView};
use crate::util::str::{decimal, lowercase, str_eq, to_lowercase, u64_to_string};
use vstd::prelude::*;
use vstd::std_specs::convert::FromSpecImpl;

verus! {

/// The kind of proxy that a request goes through.
#[derive(Debug, PartialEq, Eq, Clone, Copy)]
pub enum ProxyType {
    Http,
    Socks5,
    /// No proxy: the request goes out directly.
    Unknown,
}

/// The kind of proxy that a text names: `http` or `socks5` in any case of
/// letters, and none for every other text.
pub open spec fn spec_proxy_type(pt: Seq<char>) -> ProxyType {
    if lowercase(pt) == "http"@ {
        ProxyType::Http
    } else if lowercase(pt) == "socks5"@ {
        ProxyType::Socks5
    } else {
        ProxyType::Unknown
    }
}

impl From<&str> for ProxyType {
    /// The kind of proxy that a text names.
    fn from(pt: &str) -> (r: ProxyType) {
        let lower = to_lowercase(pt);
        if str_eq(lower.as_str(), "http") {
            ProxyType::Http
        } else if str_eq(lower.as_str(), "socks5") {
            ProxyType::Socks5
        } else {
            ProxyType::Unknown
        }
    }
}

/// The user agent that every request names.
pub const USER_AGENT: &'static str =
    "Mozilla/5.0 (X11; Linux x86_64) AppleWebKit/537.36 (KHTML, like Gecko) Chrome/112.0.0.0 Safari/537.36";

impl FromSpecImpl<&str> for ProxyType {
    open spec fn obeys_from_spec() -> bool {
        true
    }

    open spec fn from_spec(pt: &str) -> ProxyType {
        spec_proxy_type(pt@)
    }
}

/// A header of a request: its name and its value.
#[derive(Debug, PartialEq, Eq)]
pub struct Header {
    pub name: String,
    pub value: String,
}

/// The headers that every request for a feed carries: the user agent of a
/// common browser, acceptance of every media type, and the demand for an
/// uncached answer.
pub fn headers() -> (r: Vec<Header>)
    ensures
        r@.len() == 3,
        r@[0].name@ == "user-agent"@,
        r@[0].value@ == USER_AGENT@,
        r@[1].name@ == "accept"@,
        r@[1].value@ == "*/*"@,
        r@[2].name@ == "cache-control"@,
        r@[2].value@ == "no-cache"@,
{
    let mut r: Vec<Header> = Vec::new();
    r.push(
        Header {
            name: "user-agent".to_string(),
            value: USER_AGENT.to_string(),
        },
    );
    r.push(Header { name: "accept".to_string(), value: "*/*".to_string() });
    r.push(Header { name: "cache-control".to_string(), value: "no-cache".to_string() });
    r
}

/// The address of a proxy: the scheme, the host and the port.
pub open spec fn proxy_url(scheme: Seq<char>, host: Seq<char>, port: u16) -> Seq<char> {
    scheme + "://"@ + host + ":"@ + decimal(port as nat)
}

/// The address of the proxy that a request goes through, or `None` for a
/// direct connection.
pub open spec fn spec_proxy_address(proxy_type: Option<ProxyType>, config: ProxyView) -> Option<
    Seq<char>,
> {
    match proxy_type {
        Some(ProxyType::Http) => Some(proxy_url("http"@, config.http_url, config.http_port)),
        Some(ProxyType::Socks5) => Some(
            proxy_url("socks5"@, config.socks5_url, config.socks5_port),
        ),
        _ => None,
    }
}

/// The address of a proxy.
fn address(scheme: &str, host: &str, port: u16) -> (r: String)
    ensures
        r@ == proxy_url(scheme@, host@, port),
{
    let mut r = scheme.to_string();
    r.append("://");
    r.append(host);
    r.append(":");
    let digits = u64_to_string(port as u64);
    r.append(digits.as_str());
    r
}

/// The address of the proxy that the client of a request has to go
/// through: that of the HTTP proxy or of the SOCKS5 proxy as configured,
/// and none where no proxy, or an unknown kind of proxy, is asked for.
pub fn proxy_address(proxy_type: Option<ProxyType>, config: &Proxy) -> (r: Option<String>)
    ensures
        match spec_proxy_address(proxy_type, config@) {
            Some(a) => r is Some && r->0@ == a,
            None => r is None,
        },
{
    match proxy_type {
        Some(ProxyType::Http) => Some(
            address("http", config.http_url.as_str(), config.http_port),
        ),
        Some(ProxyType::Socks5) => Some(
            address("socks5", config.socks5_url.as_str(), config.socks5_port),
        ),
        _ => None,
    }
}

/// The seconds that a request may take: what is configured, and ten where
/// less is configured.
pub fn request_timeout(sync_timeout: i64) -> (r: u64)
    ensures
        r == if sync_timeout > 10 {
            sync_timeout
        } else {
            10
        },
{
    if sync_timeout > 10 {
        sync_timeout as u64
    } else {
        10
    }
}

} // verus!
