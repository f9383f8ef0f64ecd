//! The peer address of a request: either the socket address, or the
//! chain reported by a forwarding proxy.

use vstd::prelude::*;

verus! {

pub enum RequestIp {
    Result(String),
    Forwarded(Vec<String>),
}

impl RequestIp {
    /// The address closest to the client: the first forwarded entry,
    /// or the socket address where nothing was forwarded.
    pub fn get_real_ip(&self) -> (r: &str)
        requires
            self matches RequestIp::Forwarded(ips) ==> ips@.len() > 0,
        ensures
            match self {
                RequestIp::Result(ip) => r@ == ip@,
                RequestIp::Forwarded(ips) => r@ == ips@[0]@,
            },
    {
        match self {
            RequestIp::Result(ip) => ip.as_str(),
            RequestIp::Forwarded(forwarded_ips) => forwarded_ips[0].as_str(),
        }
    }
}

} // verus!
