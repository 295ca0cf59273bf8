//! The address-family context: a header-derived value threaded through
//! attribute parsing. It never lives in an attribute itself; it selects how
//! kind codes and embedded address widths are read at each nesting level.

use vstd::prelude::*;

verus! {

pub const AF_UNSPEC: u8 = 0;

pub const AF_INET: u8 = 2;

pub const AF_INET6: u8 = 10;

/// An address family, with an escape for codes this codec does not name.
#[derive(Debug, Clone, Copy, PartialEq, Eq, Structural)]
pub enum AddressFamily {
    Unspec,
    Inet,
    Inet6,
    Other(u8),
}

/// The family a one-byte code decodes to.
pub open spec fn address_family_from_code(value: u8) -> AddressFamily {
    if value == AF_UNSPEC {
        AddressFamily::Unspec
    } else if value == AF_INET {
        AddressFamily::Inet
    } else if value == AF_INET6 {
        AddressFamily::Inet6
    } else {
        AddressFamily::Other(value)
    }
}

/// The one-byte code a family encodes to.
pub open spec fn address_family_code(v: AddressFamily) -> u8 {
    match v {
        AddressFamily::Unspec => AF_UNSPEC,
        AddressFamily::Inet => AF_INET,
        AddressFamily::Inet6 => AF_INET6,
        AddressFamily::Other(other) => other,
    }
}

impl From<u8> for AddressFamily {
    fn from(value: u8) -> (r: Self) {
        if value == AF_UNSPEC {
            AddressFamily::Unspec
        } else if value == AF_INET {
            AddressFamily::Inet
        } else if value == AF_INET6 {
            AddressFamily::Inet6
        } else {
            AddressFamily::Other(value)
        }
    }
}

impl vstd::std_specs::convert::FromSpecImpl<u8> for AddressFamily {
    open spec fn obeys_from_spec() -> bool {
        true
    }

    open spec fn from_spec(value: u8) -> Self {
        address_family_from_code(value)
    }
}

impl From<AddressFamily> for u8 {
    fn from(value: AddressFamily) -> (r: Self) {
        match value {
            AddressFamily::Unspec => AF_UNSPEC,
            AddressFamily::Inet => AF_INET,
            AddressFamily::Inet6 => AF_INET6,
            AddressFamily::Other(other) => other,
        }
    }
}

impl vstd::std_specs::convert::FromSpecImpl<AddressFamily> for u8 {
    open spec fn obeys_from_spec() -> bool {
        true
    }

    open spec fn from_spec(value: AddressFamily) -> Self {
        address_family_code(value)
    }
}

/// Decoding any code and re-encoding reproduces it exactly; every code
/// outside the named set decodes to the explicit `Other` escape.
pub proof fn lemma_address_family_forward_compat(value: u8)
    ensures
        address_family_code(address_family_from_code(value)) == value,
        value != AF_UNSPEC && value != AF_INET && value != AF_INET6
            ==> address_family_from_code(value) == AddressFamily::Other(value),
{
}

/// A family value is in the form decoding produces: the `Other` escape
/// never shadows a named code.
pub open spec fn address_family_canonical(v: AddressFamily) -> bool {
    address_family_from_code(address_family_code(v)) == v
}

} // verus!
