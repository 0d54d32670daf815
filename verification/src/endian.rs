//! The byte orderings a wire value can use.

use vstd::prelude::*;

verus! {

/// The rule mapping a numeric value's bytes to wire positions.
///
/// `Big` puts the most significant byte first, `Little` the least
/// significant byte first. The network ordering used by most protocols is
/// big-endian and is available through [`network_endianness`]; the ordering
/// of the host machine is available through [`native_endianness`].
#[derive(Clone, Copy, Debug, PartialEq, Eq, Structural)]
pub enum Endianness {
    Big,
    Little,
}

/// The ordering used by network protocols: an alias for big-endian.
pub fn network_endianness() -> (r: Endianness)
    ensures
        r == Endianness::Big,
{
    Endianness::Big
}

/// Relies on u16::to_ne_bytes: the native-endian representation of 0x0102
/// starts with 1 on a big-endian host and with 2 on a little-endian host.
#[verifier::external_body]
fn native_probe() -> (r: u8)
    ensures
        r == 1 || r == 2,
{
    258u16.to_ne_bytes()[0]
}

/// The ordering matching the host's in-memory representation.
///
/// Which of the two orderings comes back depends on the machine alone, so
/// nothing more can be promised of the result; values that stay within this
/// crate cannot observe the difference.
pub fn native_endianness() -> (r: Endianness)
    ensures
        r == Endianness::Big || r == Endianness::Little,
{
    if native_probe() == 2 {
        Endianness::Little
    } else {
        Endianness::Big
    }
}

} // verus!
