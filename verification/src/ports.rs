//! Port allocation: picks unused local TCP ports through the operating
//! system's free-port probe, with a bounded number of retries.

use vstd::prelude::*;

use crate::inspector::InspectorError;

verus! {

/// The two local TCP ports the tool binds: one user-facing, one for its
/// control channel.
#[derive(Clone, Copy, Debug, PartialEq, Eq, Structural)]
pub struct PortPair {
    pub client_port: u16,
    pub server_port: u16,
}

/// How many samples an allocation draws before treating the port space as
/// exhausted.
pub const MAX_PORT_ATTEMPTS: usize = 64;

/// Relies on `portpicker::pick_unused_port`: a local port that was free on
/// TCP and UDP when probed, or none when the search gave up. The result
/// depends on the machine's state, so nothing is promised of its value.
#[verifier::external_body]
fn os_pick_unused_port() -> Option<u16> {
    portpicker::pick_unused_port()
}

/// The per-sample decision of range-constrained allocation: a sampled port
/// is kept exactly when it lies inside `[min, max]`.
pub fn accept_in_range(p: u16, min: u16, max: u16) -> (r: Option<u16>)
    ensures
        r == (if min <= p && p <= max {
            Some(p)
        } else {
            None::<u16>
        }),
{
    if min <= p && p <= max {
        Some(p)
    } else {
        None
    }
}

/// Picks an unused port inside `[min, max]`, sampling the picker and
/// discarding ports outside the range; gives up when the picker does, or
/// after a bounded number of samples.
pub fn pick_unused_port_in_range(min: u16, max: u16) -> (r: Option<u16>)
    ensures
        r matches Some(p) ==> min <= p <= max,
{
    let mut attempts: usize = 0;
    while attempts < MAX_PORT_ATTEMPTS
        invariant
            attempts <= MAX_PORT_ATTEMPTS,
        decreases MAX_PORT_ATTEMPTS - attempts,
    {
        match os_pick_unused_port() {
            None => {
                return None;
            },
            Some(p) => {
                if let Some(q) = accept_in_range(p, min, max) {
                    return Some(q);
                }
            },
        }
        attempts = attempts + 1;
    }
    None
}

/// The pair-forming decision of allocation: a server-side sample completes
/// the pair exactly when it differs from the client port.
pub fn pair_from_samples(client: u16, cand: u16) -> (r: Option<PortPair>)
    ensures
        r == (if cand != client {
            Some(PortPair { client_port: client, server_port: cand })
        } else {
            None::<PortPair>
        }),
{
    if cand != client {
        Some(PortPair { client_port: client, server_port: cand })
    } else {
        None
    }
}

/// Allocates two distinct unused ports: the client-facing one first, then a
/// server-facing one resampled until it differs. Fails with the documented
/// port-range error for whichever role could not be served.
pub fn allocate_port_pair() -> (r: Result<PortPair, InspectorError>)
    ensures
        r matches Ok(pp) ==> pp.client_port != pp.server_port,
        r matches Err(e) ==> (e matches InspectorError::NoAvailablePort(lo, hi) && ((lo == 5174
            && hi == 5274) || (lo == 6277 && hi == 6377))),
{
    let client = match os_pick_unused_port() {
        None => {
            return Err(InspectorError::NoAvailablePort(5174, 5274));
        },
        Some(p) => p,
    };
    let mut attempts: usize = 0;
    while attempts < MAX_PORT_ATTEMPTS
        invariant
            attempts <= MAX_PORT_ATTEMPTS,
        decreases MAX_PORT_ATTEMPTS - attempts,
    {
        match os_pick_unused_port() {
            None => {
                return Err(InspectorError::NoAvailablePort(6277, 6377));
            },
            Some(p) => {
                if let Some(pp) = pair_from_samples(client, p) {
                    return Ok(pp);
                }
            },
        }
        attempts = attempts + 1;
    }
    Err(InspectorError::NoAvailablePort(6277, 6377))
}

} // verus!
