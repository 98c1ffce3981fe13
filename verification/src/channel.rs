//! Type-level names for the delivery channels.
//!
//! The engine's registration tables work over the [`crate::packet::Channel`]
//! value enum; these unit marker types give call sites a compile-time
//! name for each channel, and the [`Channel`] trait maps every marker back
//! to the value it stands for.

use vstd::prelude::*;

verus! {

/// The Reliable-Ordered channel: packets are guaranteed to arrive in the
/// same order they are sent.
#[derive(Debug)]
pub struct Ordered;

/// The Reliable-Unordered channel: packets are guaranteed to arrive, but
/// possibly in a different order than they were sent.
#[derive(Debug)]
pub struct Unordered;

/// The Unreliable-Unordered channel: packets may not arrive, or may arrive
/// in a different order than they were sent.
#[derive(Debug)]
pub struct Unreliable;

/// A type-level name for one of the ways packets can be transmitted over
/// the network.
pub trait Channel {
    /// The delivery class this marker names.
    spec fn spec_kind() -> crate::packet::Channel;

    /// The delivery class this marker names.
    fn kind() -> (c: crate::packet::Channel)
        ensures
            c == Self::spec_kind(),
    ;
}

impl Channel for Ordered {
    open spec fn spec_kind() -> crate::packet::Channel {
        crate::packet::Channel::Ordered
    }

    fn kind() -> (c: crate::packet::Channel)
        ensures
            c == Self::spec_kind(),
    {
        crate::packet::Channel::Ordered
    }
}

impl Channel for Unordered {
    open spec fn spec_kind() -> crate::packet::Channel {
        crate::packet::Channel::Unordered
    }

    fn kind() -> (c: crate::packet::Channel)
        ensures
            c == Self::spec_kind(),
    {
        crate::packet::Channel::Unordered
    }
}

impl Channel for Unreliable {
    open spec fn spec_kind() -> crate::packet::Channel {
        crate::packet::Channel::Unreliable
    }

    fn kind() -> (c: crate::packet::Channel)
        ensures
            c == Self::spec_kind(),
    {
        crate::packet::Channel::Unreliable
    }
}

} // verus!
