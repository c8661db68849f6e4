//! Variants that carry data, and matching on `Option`.

use vstd::prelude::*;

verus! {

/// An address of either version of the protocol.
#[derive(Debug)]
pub enum IpAddrKind {
    /// The four numbers of a version 4 address.
    V4(u8, u8, u8, u8),
    /// A version 6 address, as it is written.
    V6(String),
}

impl IpAddrKind {
    /// The address by which a machine of protocol version `v` reaches itself.
    /// Only the versions 4 and 6 exist.
    pub fn loopback(v: u8) -> (kind: IpAddrKind)
        requires
            v == 4 || v == 6,
        ensures
            v == 4 ==> kind == IpAddrKind::V4(127, 0, 0, 1),
            v == 6 ==> (kind matches IpAddrKind::V6(text) && text@ == "::1"@),
    {
        if v == 4 {
            return IpAddrKind::V4(127, 0, 0, 1);
        }
        IpAddrKind::V6("::1".to_owned())
    }
}

/// Adds one to the number inside an `Option`, and leaves `None` as it is.
/// The largest number has no successor, and is left out.
pub fn plus_one(o: Option<i32>) -> (r: Option<i32>)
    requires
        o != Some(i32::MAX),
    ensures
        r == match o {
            Some(i) => Some((i + 1) as i32),
            None => None,
        },
{
    match o {
        Some(i) => Some(i + 1),
        None => None,
    }
}

} // verus!
