//! A layered, zero-copy view of network packets: protocol headers are
//! overlaid on a shared byte buffer at computed offsets, chained from the
//! outermost link-layer header down to an application header, with strict
//! offset and length bookkeeping across parse, push and deparse.

use vstd::prelude::*;

pub mod buf;
pub mod checksum;
pub mod echo;
pub mod ethernet;
pub mod icmp;
pub mod ipv4;
pub mod rtp;
pub mod udp;

verus! {

/// A parse failed: the buffer does not hold enough bytes for the fixed
/// header region of the layer being parsed.
#[derive(Clone, Copy, Debug, PartialEq, Eq, Structural)]
pub enum ParseError {
    BufferTooShort,
}

/// A push failed: growing the buffer would exceed its capacity.
#[derive(Clone, Copy, Debug, PartialEq, Eq, Structural)]
pub enum PushError {
    CapacityExceeded,
}

/// A field write would violate a structural invariant of the header,
/// e.g. a count that exceeds the representable range of its field.
#[derive(Clone, Copy, Debug, PartialEq, Eq, Structural)]
pub enum FieldError {
    ValueOutOfRange,
}

} // verus!
