//! Where the certificate comes from, and where plain requests are sent.

use vstd::prelude::*;
use vstd::string::StringExecFns;

use crate::number::{decimal, push_decimal};
use crate::text::{concat2, opt_str, pieces, split, strings, texts};

verus! {

/// The certificate to use.
#[derive(Debug, Clone, PartialEq, Eq)]
pub enum CertSource<S = String> {
    /// The certificate and the key in these files.
    Files { cert: S, key: S },
    /// A certificate that is made on the spot.
    SelfSigned,
}

impl View for CertSource {
    type V = CertSource<Seq<char>>;

    open spec fn view(&self) -> CertSource<Seq<char>> {
        match *self {
            CertSource::Files { cert, key } => CertSource::Files { cert: cert@, key: key@ },
            CertSource::SelfSigned => CertSource::SelfSigned,
        }
    }
}

/// A path, or `default` where none is set.
pub open spec fn path_or(path: Option<Seq<char>>, default: Seq<char>) -> Seq<char> {
    match path {
        Some(p) => p,
        None => default,
    }
}

fn take_path(path: Option<&str>, default: &str) -> (r: String)
    ensures
        r@ == path_or(opt_str(path), default@),
{
    match path {
        Some(p) => p.to_owned(),
        None => default.to_owned(),
    }
}

/// The path of the certificate, given what is set for it.
pub fn cert_path(set: Option<&str>) -> (r: String)
    ensures
        r@ == path_or(opt_str(set), "cert.pem"@),
{
    take_path(set, "cert.pem")
}

/// The path of the key, given what is set for it.
pub fn key_path(set: Option<&str>) -> (r: String)
    ensures
        r@ == path_or(opt_str(set), "key.pem"@),
{
    take_path(set, "key.pem")
}

/// The certificate to use: the files where both are there.
pub fn cert_source(
    cert: &str,
    key: &str,
    cert_exists: bool,
    key_exists: bool,
) -> (r: CertSource)
    ensures
        r@ == (if cert_exists && key_exists {
            CertSource::Files { cert: cert@, key: key@ }
        } else {
            CertSource::SelfSigned
        }),
{
    if cert_exists && key_exists {
        CertSource::Files { cert: cert.to_owned(), key: key.to_owned() }
    } else {
        CertSource::SelfSigned
    }
}

/// What a certificate that is made on the spot says.
#[derive(Debug, Clone, PartialEq, Eq)]
pub struct CertRequest {
    pub common_name: String,
    pub organization: String,
    pub dns_names: Vec<String>,
    pub ip_addresses: Vec<String>,
}

/// The addresses that gateways usually have.
pub open spec fn gateway_addresses() -> Seq<Seq<char>> {
    seq![
        "127.0.0.1"@,
        "192.168.1.1"@,
        "192.168.0.1"@,
        "192.168.8.1"@,
        "192.168.100.1"@,
    ]
}

/// The certificate to make: for the local host and the addresses that gateways usually have.
pub fn self_signed_request() -> (r: CertRequest)
    ensures
        r.common_name@ == "RM520N 5G WebUI"@,
        r.organization@ == "Argon Cellular"@,
        strings(r.dns_names@) == seq!["localhost"@],
        strings(r.ip_addresses@) == gateway_addresses(),
{
    let mut dns_names: Vec<String> = Vec::new();
    dns_names.push("localhost".to_owned());
    assert(strings(dns_names@) == seq!["localhost"@]);
    let mut ip_addresses: Vec<String> = Vec::new();
    ip_addresses.push("127.0.0.1".to_owned());
    ip_addresses.push("192.168.1.1".to_owned());
    ip_addresses.push("192.168.0.1".to_owned());
    ip_addresses.push("192.168.8.1".to_owned());
    ip_addresses.push("192.168.100.1".to_owned());
    assert(strings(ip_addresses@) == gateway_addresses());
    CertRequest {
        common_name: "RM520N 5G WebUI".to_owned(),
        organization: "Argon Cellular".to_owned(),
        dns_names,
        ip_addresses,
    }
}

/// The host that a request names, without its port.
pub open spec fn host_name(host: Option<Seq<char>>) -> Seq<char> {
    pieces(path_or(host, "localhost"@), ':')[0]
}

/// The secure address of what was asked for. The usual port is left out.
pub open spec fn secure_url(host: Option<Seq<char>>, uri: Seq<char>, https_port: u16) -> Seq<char> {
    if https_port == 443 {
        "https://"@ + host_name(host) + uri
    } else {
        "https://"@ + host_name(host) + ":"@ + decimal(https_port as nat) + uri
    }
}

/// Where a plain request for `uri` is sent.
pub fn redirect_target(host: Option<&str>, uri: &str, https_port: u16) -> (r: String)
    ensures
        r@ == secure_url(opt_str(host), uri@, https_port),
{
    let named = match host {
        Some(h) => h,
        None => "localhost",
    };
    let parts = split(named, ':');
    proof {
        reveal_with_fuel(pieces, 1);
        assert(pieces(named@, ':').len() > 0);
        assert(texts(parts@).len() == parts@.len());
        assert(pieces(named@, ':')[0] == parts@[0]@);
    }
    let mut url = concat2("https://", parts[0]);
    if https_port != 443 {
        url.append(":");
        push_decimal(&mut url, https_port as u64);
    }
    url.append(uri);
    url
}

} // verus!
