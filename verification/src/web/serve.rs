//! Which listeners are started.

use vstd::prelude::*;

use crate::config::AppConfig;

verus! {

/// The listeners of the service.
#[derive(Debug, Clone, Copy, PartialEq, Eq, Structural)]
pub enum ServePlan {
    /// Plain HTTP, because it is configured.
    PlainHttp,
    /// Plain HTTP, because there is no usable certificate.
    FallbackHttp,
    /// HTTPS, with or without a second listener that sends plain requests to it.
    Https { redirect: bool },
}

/// The listeners that a configuration asks for, where a certificate is needed and is usable or
/// not.
pub open spec fn plan_for(c: AppConfig<Seq<char>>, tls_ready: bool) -> ServePlan {
    if !c.enable_https {
        ServePlan::PlainHttp
    } else if !tls_ready {
        ServePlan::FallbackHttp
    } else {
        ServePlan::Https { redirect: c.enable_http_redirect && c.http_port != c.https_port }
    }
}

/// The listeners to start. The certificate matters only where HTTPS is configured.
pub fn serve_plan(config: &AppConfig, tls_ready: bool) -> (r: ServePlan)
    ensures
        r == plan_for(config@, tls_ready),
{
    if !config.enable_https {
        ServePlan::PlainHttp
    } else if !tls_ready {
        ServePlan::FallbackHttp
    } else {
        ServePlan::Https {
            redirect: config.enable_http_redirect && config.http_port != config.https_port,
        }
    }
}

/// A redirecting listener never takes the port of the one that it sends to, and is never started
/// without it.
pub proof fn law_redirect_has_its_own_port(c: AppConfig<Seq<char>>, tls_ready: bool)
    ensures
        plan_for(c, tls_ready) == (ServePlan::Https { redirect: true }) ==> c.http_port
            != c.https_port && c.enable_https && tls_ready,
{
}

} // verus!
