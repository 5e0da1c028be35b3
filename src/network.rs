//! Choice of the listening address.
use crate::text::{decimal_string, decimal_text};
use vstd::prelude::*;

verus! {

/// The port on which the service listens on every IPv6 and IPv4 address.
pub const DUAL_STACK_PORT: u16 = 7112;

/// The bind address for `port`: `[::]:port` for the dual-stack port,
/// `0.0.0.0:port` for any other.
pub open spec fn bind_address_text(port: u16) -> Seq<char> {
    if port == DUAL_STACK_PORT {
        "[::]:"@ + decimal_text(port as nat)
    } else {
        "0.0.0.0:"@ + decimal_text(port as nat)
    }
}

/// The address to bind for `port`.
pub fn get_bind_address(port: u16) -> (r: String)
    ensures
        r@ == bind_address_text(port),
{
    let mut addr = if port == DUAL_STACK_PORT {
        String::from_str("[::]:")
    } else {
        String::from_str("0.0.0.0:")
    };
    let digits = decimal_string(port as u64);
    addr.append(digits.as_str());
    addr
}

} // verus!
