//! Routing of setpoint messages: from the address of a message to the
//! device that it is meant for.

use vstd::prelude::*;
use crate::text::chars_of;

verus! {

/// The device that a message is routed to.
#[derive(Clone, Copy, Debug, PartialEq, Eq, Structural)]
pub struct Route {
    /// The device's id, counted from 0.
    pub id: i8,
    /// The address named a device. Where it did not, the id is that of the
    /// fallback device, 0, and the caller owes a warning.
    pub matched: bool,
}

/// The device that `address` names: `/Pelt1` to `/Pelt8` name the devices 0 to 7.
pub open spec fn device_of(address: Seq<char>) -> Option<i8> {
    if address.len() == 6 && address.take(5) == "/Pelt"@ && 0x31 <= address[5] as u32 <= 0x38 {
        Some((address[5] as u32 - 0x31) as i8)
    } else {
        None
    }
}

/// Routes a message by its address. An address that names no device goes
/// to device 0.
pub fn route_address(address: &str) -> (route: Route)
    ensures
        route == (match device_of(address@) {
            Some(id) => Route { id, matched: true },
            None => Route { id: 0, matched: false },
        }),
{
    proof {
        reveal_strlit("/Pelt");
    }
    let chars = chars_of(address);
    let fallback = Route { id: 0, matched: false };
    if chars.len() != 6 {
        return fallback;
    }
    if chars[0] != '/' || chars[1] != 'P' || chars[2] != 'e' || chars[3] != 'l' || chars[4] != 't' {
        assert(address@.take(5)[0] == chars@[0]);
        assert(address@.take(5)[1] == chars@[1]);
        assert(address@.take(5)[2] == chars@[2]);
        assert(address@.take(5)[3] == chars@[3]);
        assert(address@.take(5)[4] == chars@[4]);
        return fallback;
    }
    assert(address@.take(5) =~= "/Pelt"@);
    let digit: u32 = chars[5] as u32;
    if 0x31 <= digit && digit <= 0x38 {
        Route { id: (digit - 0x31) as i8, matched: true }
    } else {
        fallback
    }
}

} // verus!
