//! IP address families and their well-known addresses.
use vstd::prelude::*;

verus! {

/// IPv4 or IPv6.
#[derive(Debug, Clone, Copy, PartialEq, Eq, Structural)]
pub enum IpFamily {
    V4,
    V6,
}

/// An IP address by its octets.
#[derive(Debug, Clone, Copy, PartialEq, Eq)]
pub enum IpAddress {
    V4([u8; 4]),
    V6([u8; 16]),
}

/// The family of an address.
pub open spec fn family_of(a: IpAddress) -> IpFamily {
    match a {
        IpAddress::V4(_) => IpFamily::V4,
        IpAddress::V6(_) => IpFamily::V6,
    }
}

impl From<IpAddress> for IpFamily {
    fn from(value: IpAddress) -> (f: IpFamily) {
        match value {
            IpAddress::V4(_) => IpFamily::V4,
            IpAddress::V6(_) => IpFamily::V6,
        }
    }
}

impl vstd::std_specs::convert::FromSpecImpl<IpAddress> for IpFamily {
    open spec fn obeys_from_spec() -> bool {
        true
    }

    open spec fn from_spec(v: IpAddress) -> IpFamily {
        family_of(v)
    }
}

/// Whether an address of the family is all zeros (the unspecified address).
pub open spec fn is_unspecified(f: IpFamily, a: IpAddress) -> bool {
    match (f, a) {
        (IpFamily::V4, IpAddress::V4(o)) => o@ == seq![0u8; 4],
        (IpFamily::V6, IpAddress::V6(o)) => o@ == seq![0u8; 16],
        _ => false,
    }
}

/// Whether an address of the family is the loopback address
/// (`127.0.0.1` or `::1`).
pub open spec fn is_loopback(f: IpFamily, a: IpAddress) -> bool {
    match (f, a) {
        (IpFamily::V4, IpAddress::V4(o)) => o@ == seq![127u8, 0, 0, 1],
        (IpFamily::V6, IpAddress::V6(o)) => o@ == seq![0u8; 15].push(1u8),
        _ => false,
    }
}

impl IpFamily {
    /// The unspecified address of the family.
    pub fn unspecified_addr(&self) -> (a: IpAddress)
        ensures
            is_unspecified(*self, a),
    {
        match self {
            IpFamily::V4 => {
                let o = [0u8; 4];
                assert(o@ =~= seq![0u8; 4]);
                IpAddress::V4(o)
            },
            IpFamily::V6 => {
                let o = [0u8; 16];
                assert(o@ =~= seq![0u8; 16]);
                IpAddress::V6(o)
            },
        }
    }

    /// The loopback address of the family.
    pub fn local_addr(&self) -> (a: IpAddress)
        ensures
            is_loopback(*self, a),
    {
        match self {
            IpFamily::V4 => {
                let o = [127u8, 0, 0, 1];
                assert(o@ =~= seq![127u8, 0, 0, 1]);
                IpAddress::V4(o)
            },
            IpFamily::V6 => {
                let mut o = [0u8; 16];
                o[15] = 1;
                assert(o@ =~= seq![0u8; 15].push(1u8));
                IpAddress::V6(o)
            },
        }
    }
}

} // verus!
