//! One probe: a single attempt to connect to one port, and what the task
//! that made it passes on.

use vstd::prelude::*;
use vstd::string::StringExecFns;
use crate::numeral::{decimal, port_text};

verus! {

/// What a probe task writes to the progress stream when it found its port
/// open.
pub const PROGRESS_MARK: &'static str = ".";

/// Where a probe connects to: the address as it is written, a colon, and
/// the port as a decimal numeral.
pub open spec fn target_text(address: Seq<char>, port: u16) -> Seq<char> {
    address + seq![':'] + decimal(port as nat)
}

/// Writes the target of the probe of `port` at the host whose address is
/// written `address`.
pub fn connect_target(address: &str, port: u16) -> (target: String)
    ensures
        target@ == target_text(address@, port),
{
    let mut target = String::from_str(address);
    proof {
        reveal_strlit(":");
    }
    target.append(":");
    target.append(port_text(port).as_str());
    assert(target@ =~= target_text(address@, port));
    target
}

/// What one probe found. Why a connection failed is not kept: a port that
/// refused, one that never answered and a host that cannot be reached are
/// all `Closed`.
#[derive(Clone, Copy, Debug, PartialEq, Eq, Structural)]
pub enum ProbeResult {
    Open,
    Closed,
}

impl ProbeResult {
    /// A port is open exactly when the attempt to connect to it succeeded,
    /// whatever the error of one that failed.
    pub fn of_connection<S, E>(attempt: &Result<S, E>) -> (result: ProbeResult)
        ensures
            result == (if attempt is Ok {
                ProbeResult::Open
            } else {
                ProbeResult::Closed
            }),
    {
        match attempt {
            Ok(_) => ProbeResult::Open,
            Err(_) => ProbeResult::Closed,
        }
    }
}

/// What the task that probed `port` sends to the collecting side: the port
/// itself if it is open, and nothing otherwise. A task sends at most this
/// one value, and marks its progress exactly when it sends.
pub fn probe_message(port: u16, result: ProbeResult) -> (message: Option<u16>)
    ensures
        message == (if result == ProbeResult::Open {
            Some(port)
        } else {
            None
        }),
{
    match result {
        ProbeResult::Open => Some(port),
        ProbeResult::Closed => None,
    }
}

} // verus!
