//! The preview proxy's one piece of engine-visible state: the port it was
//! given at startup, set once and read thereafter.

use vstd::prelude::*;

verus! {

/// The preview proxy port, if it has been set.
pub fn get_proxy_port(slot: &Option<u16>) -> (r: Option<u16>)
    ensures
        r == *slot,
{
    match slot {
        Some(p) => Some(*p),
        None => None,
    }
}

/// Sets the preview proxy port.  It can be set only once: the port comes
/// back when it was recorded, nothing when one was already set.
pub fn set_proxy_port(slot: &mut Option<u16>, port: u16) -> (r: Option<u16>)
    ensures
        *old(slot) is None ==> r == Some(port) && *final(slot) == Some(port),
        *old(slot) is Some ==> r is None && *final(slot) == *old(slot),
{
    match slot {
        Some(_) => None,
        None => {
            *slot = Some(port);
            Some(port)
        },
    }
}

} // verus!