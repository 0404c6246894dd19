//! Release channels of Paper builds.

use vstd::prelude::*;

verus! {

/// A release channel that builds can be filtered by.
#[derive(Debug, Clone, Copy, PartialEq, Eq, Structural)]
pub enum Channel {
    Alpha,
    Beta,
    Stable,
}

/// The name of a channel, as the Paper API writes it.
pub open spec fn channel_name(channel: Channel) -> Seq<char> {
    match channel {
        Channel::Alpha => "ALPHA"@,
        Channel::Beta => "BETA"@,
        Channel::Stable => "STABLE"@,
    }
}

impl Channel {
    /// The name of the channel, as the Paper API writes it.
    pub fn as_str(&self) -> (name: &'static str)
        ensures
            name@ == channel_name(*self),
    {
        match *self {
            Self::Alpha => "ALPHA",
            Self::Beta => "BETA",
            Self::Stable => "STABLE",
        }
    }
}

} // verus!
