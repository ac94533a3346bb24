//! The scan configuration: a target address and a half-open port range,
//! together with the guards that every configuration has passed.

use vstd::prelude::*;

verus! {

/// The largest port number there is.
pub const MAX: u16 = 65535;

/// The start port that is taken when none is given.
pub const DEFAULT_START_PORT: u16 = 1;

/// The end port that is taken when none is given.
pub const DEFAULT_END_PORT: u16 = MAX;

/// What a rejected start port is answered with.
pub const START_PORT_CONSTRAINT: &'static str = "Must be greater than 0";

/// What a rejected end port is answered with.
pub const END_PORT_CONSTRAINT: &'static str = "Must be less than or equal to 65535";

/// A start port is acceptable exactly when it is not zero.
pub fn start_port_guard(input: &u16) -> (ok: bool)
    ensures
        ok <==> *input > 0,
{
    *input > 0
}

/// An end port is acceptable exactly when it does not exceed [`MAX`].
#[allow(unused_comparisons)]
pub fn end_port_guard(input: &u16) -> (ok: bool)
    ensures
        ok <==> *input <= MAX,
{
    *input <= MAX
}

/// A literal network address, held as the numbers it is written with:
/// the four octets of an IPv4 address or the eight groups of an IPv6 one.
#[derive(Clone, Copy, Debug, PartialEq, Eq, Structural)]
pub enum Address {
    V4(u8, u8, u8, u8),
    V6(u16, u16, u16, u16, u16, u16, u16, u16),
}

impl Address {
    /// The address that is scanned when none is given: `127.0.0.1`.
    pub fn fallback() -> (address: Address)
        ensures
            address == Address::V4(127, 0, 0, 1),
    {
        Address::V4(127, 0, 0, 1)
    }
}

/// A target address and the ports `start_port`, `start_port + 1`, ..., up to
/// but not including `end_port`. A value of this type has passed both guards;
/// that `start_port` lies below `end_port` is not asked, and where it does
/// not the range is empty.
#[derive(Clone, Copy, Debug)]
pub struct Configuration {
    address: Address,
    start_port: u16,
    end_port: u16,
}

impl Configuration {
    /// Both guards hold of the ports.
    #[verifier::type_invariant]
    spec fn guarded(self) -> bool {
        self.start_port > 0 && self.end_port <= MAX
    }

    /// The address that is scanned.
    pub closed spec fn spec_address(&self) -> Address {
        self.address
    }

    /// The first port of the range.
    pub closed spec fn spec_start_port(&self) -> u16 {
        self.start_port
    }

    /// The port at which the range ends.
    pub closed spec fn spec_end_port(&self) -> u16 {
        self.end_port
    }

    /// Puts the three values together if the ports pass their guards, the
    /// start port's first. Otherwise the answer is the constraint that was
    /// broken.
    pub fn new(address: Address, start_port: u16, end_port: u16) -> (made: Result<
        Configuration,
        &'static str,
    >)
        ensures
            made is Ok <==> start_port > 0 && end_port <= MAX,
            made matches Ok(c) ==> c.address() == address && c.start_port() == start_port
                && c.end_port() == end_port,
            made matches Err(constraint) ==> constraint@ == (if start_port == 0 {
                START_PORT_CONSTRAINT@
            } else {
                END_PORT_CONSTRAINT@
            }),
    {
        if !start_port_guard(&start_port) {
            Err(START_PORT_CONSTRAINT)
        } else if !end_port_guard(&end_port) {
            Err(END_PORT_CONSTRAINT)
        } else {
            Ok(Configuration { address, start_port, end_port })
        }
    }

    /// The configuration of a run without arguments: every port below
    /// [`MAX`] on `127.0.0.1`.
    pub fn fallback() -> (c: Configuration)
        ensures
            c.address() == Address::V4(127, 0, 0, 1),
            c.start_port() == DEFAULT_START_PORT,
            c.end_port() == DEFAULT_END_PORT,
    {
        Configuration {
            address: Address::fallback(),
            start_port: DEFAULT_START_PORT,
            end_port: DEFAULT_END_PORT,
        }
    }

    /// The address that is scanned.
    #[verifier::when_used_as_spec(spec_address)]
    pub fn address(&self) -> (address: Address)
        ensures
            address == self.address(),
    {
        self.address
    }

    /// The first port of the range; never zero.
    #[verifier::when_used_as_spec(spec_start_port)]
    pub fn start_port(&self) -> (port: u16)
        ensures
            port == self.start_port(),
            port > 0,
    {
        proof {
            use_type_invariant(self);
        }
        self.start_port
    }

    /// The port at which the range ends, itself left out.
    #[verifier::when_used_as_spec(spec_end_port)]
    pub fn end_port(&self) -> (port: u16)
        ensures
            port == self.end_port(),
            port <= MAX,
    {
        self.end_port
    }
}

} // verus!
