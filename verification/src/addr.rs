use vstd::prelude::*;

verus! {

/// A socket address: an IP address and a port.
///
/// The version 4 form holds the four octets of the address as one
/// big-endian integer; the version 6 form holds the sixteen octets the same
/// way, with the flow information and the scope identifier that a version 6
/// socket address carries. Two addresses are the same address exactly when
/// all their parts agree.
#[derive(Clone, Copy, Debug, PartialEq, Eq, Structural, Hash)]
pub enum Addr {
    V4 { ipv4: u32, port: u16 },
    V6 { ipv6: u128, port: u16, flowinfo: u32, scope_id: u32 },
}

impl Addr {
    /// The port of the address.
    pub fn port(&self) -> (p: u16)
        ensures
            p == match *self {
                Addr::V4 { port, .. } => port,
                Addr::V6 { port, .. } => port,
            },
    {
        match *self {
            Addr::V4 { port, .. } => port,
            Addr::V6 { port, .. } => port,
        }
    }
}

} // verus!
