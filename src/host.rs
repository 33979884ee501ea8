//! The base url under which the server is reached.

use crate::settings::opt_str_view;
use vstd::prelude::*;

verus! {

/// The base url of the server as its clients reach it, such as
/// `https://example.com`.
#[derive(Debug, Clone, PartialEq, Eq)]
pub struct HostBase(pub String);

/// The base url that a request's headers give: the protocol of
/// `X-Forwarded-Proto` (else `http`), then `://`, then the host of
/// `X-Forwarded-Host` (else of `Host`); none without a non-empty host.
pub open spec fn base_of(
    forwarded_host: Option<Seq<char>>,
    host: Option<Seq<char>>,
    forwarded_proto: Option<Seq<char>>,
) -> Option<Seq<char>> {
    let h = match forwarded_host {
        Some(h) => Some(h),
        None => host,
    };
    let p = match forwarded_proto {
        Some(p) => p,
        None => "http"@,
    };
    match h {
        Some(h) => if h.len() > 0 {
            Some(p + "://"@ + h)
        } else {
            None
        },
        None => None,
    }
}

impl HostBase {
    /// The base url that a request's `X-Forwarded-Host`, `Host` and
    /// `X-Forwarded-Proto` headers give.
    pub fn from_headers(
        forwarded_host: Option<&str>,
        host: Option<&str>,
        forwarded_proto: Option<&str>,
    ) -> (r: Option<HostBase>)
        ensures
            match base_of(opt_str_view(forwarded_host), opt_str_view(host), opt_str_view(forwarded_proto)) {
                Some(b) => r matches Some(x) && x.0@ == b,
                None => r is None,
            },
    {
        let h = match forwarded_host {
            Some(h) => Some(h),
            None => host,
        };
        let p = match forwarded_proto {
            Some(p) => p,
            None => "http",
        };
        match h {
            Some(h) => if !h.is_empty() {
                let mut b = String::from_str(p);
                b.append("://");
                b.append(h);
                Some(HostBase(b))
            } else {
                None
            },
            None => None,
        }
    }

    /// The absolute url of `path` on this host.
    pub fn with(&self, path: &str) -> (r: String)
        ensures
            r@ == self.0@ + path@,
    {
        let mut r = self.0.clone();
        r.append(path);
        r
    }

    /// The base url itself.
    pub fn into_inner(self) -> (r: String)
        ensures
            r@ == self.0@,
    {
        self.0
    }
}

} // verus!
