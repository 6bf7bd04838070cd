//! Proxy connection settings: a host and two ports, from which the three
//! conventional proxy environment values are derived — `http://HOST:PORT`
//! for HTTP and HTTPS traffic and `socks5://HOST:PORT` for everything
//! else.

use vstd::prelude::*;
use vstd::string::StringExecFns;
use crate::strutil::push_char;

verus! {

/// The decimal digit character for a value below ten.
pub open spec fn digit_char(d: int) -> char {
    (((48 + d) as u32) as char)
}

/// The decimal rendering of a non-negative number, without leading zeros.
pub open spec fn dec_str(n: int) -> Seq<char>
    decreases n,
{
    if n < 10 {
        seq![digit_char(n)]
    } else {
        dec_str(n / 10).push(digit_char(n % 10))
    }
}

/// Append the decimal rendering of `n`.
fn push_dec(n: u16, out: &mut String)
    ensures
        final(out)@ == old(out)@ + dec_str(n as int),
    decreases n,
{
    if n < 10 {
        push_char(out, (((48 + n) as u8) as char));
        proof {
            assert(old(out)@.push(digit_char(n as int)) =~= old(out)@ + dec_str(n as int));
        }
    } else {
        push_dec(n / 10, out);
        push_char(out, (((48 + (n % 10)) as u8) as char));
        proof {
            assert((old(out)@ + dec_str(n as int / 10)).push(digit_char(n as int % 10)) =~= old(
                out,
            )@ + dec_str(n as int));
        }
    }
}

/// Proxy settings for a single host.
pub struct Proxy {
    /// The proxy host.
    pub host_url: String,
    /// The port of the HTTP proxy.
    pub http_proxy_port: u16,
    /// The port of the SOCKS proxy.
    pub socks_proxy_port: u16,
    /// The derived value `http://HOST:HTTP_PORT`.
    pub http_proxy: String,
    /// The derived value `http://HOST:HTTP_PORT`.
    pub https_proxy: String,
    /// The derived value `socks5://HOST:SOCKS_PORT`.
    pub all_proxy: String,
}

impl Proxy {
    /// Settings for the given host and ports, with the three proxy values
    /// derived from them.
    pub fn new(host_url: String, http_proxy_port: u16, socks_proxy_port: u16) -> (r: Proxy)
        ensures
            r.host_url == host_url,
            r.http_proxy_port == http_proxy_port,
            r.socks_proxy_port == socks_proxy_port,
            r.http_proxy@ == "http://"@ + host_url@ + ":"@ + dec_str(http_proxy_port as int),
            r.https_proxy@ == "http://"@ + host_url@ + ":"@ + dec_str(http_proxy_port as int),
            r.all_proxy@ == "socks5://"@ + host_url@ + ":"@ + dec_str(socks_proxy_port as int),
    {
        let mut http_proxy = String::new();
        http_proxy.append("http://");
        http_proxy.append(host_url.as_str());
        http_proxy.append(":");
        push_dec(http_proxy_port, &mut http_proxy);
        let https_proxy = http_proxy.clone();
        let mut all_proxy = String::new();
        all_proxy.append("socks5://");
        all_proxy.append(host_url.as_str());
        all_proxy.append(":");
        push_dec(socks_proxy_port, &mut all_proxy);
        Proxy {
            host_url,
            http_proxy_port,
            socks_proxy_port,
            http_proxy,
            https_proxy,
            all_proxy,
        }
    }
}

} // verus!
