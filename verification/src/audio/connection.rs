//! Routes from one channel of a source to a destination.

use vstd::prelude::*;

verus! {

/// One of the two channels of the master output.
#[derive(Debug, Clone, Copy, PartialEq, Eq, Structural)]
pub enum MasterChannel {
    Left,
    Right,
}

impl MasterChannel {
    /// Position of the channel in an interleaved master frame.
    pub open spec fn spec_index(self) -> usize {
        match self {
            MasterChannel::Left => 0,
            MasterChannel::Right => 1,
        }
    }

    /// Position of the channel in an interleaved master frame.
    #[verifier::when_used_as_spec(spec_index)]
    pub fn index(self) -> (r: usize)
        ensures
            r == self.spec_index(),
    {
        match self {
            MasterChannel::Left => 0,
            MasterChannel::Right => 1,
        }
    }
}

/// Where a connection delivers its samples.
#[derive(Debug)]
#[allow(inconsistent_fields)]
pub enum ConnectionTarget {
    Master { channel: MasterChannel },
    Scope { name: String, channel: u32 },
}

impl ConnectionTarget {
    /// Whether the target is the scope `name`.
    pub open spec fn targets_scope(&self, name: Seq<char>) -> bool {
        match self {
            ConnectionTarget::Scope { name: target, .. } => target@ == name,
            _ => false,
        }
    }

    /// Whether the target is the scope `name`.
    pub fn is_scope(&self, name: &String) -> (r: bool)
        ensures
            r == self.targets_scope(name@),
    {
        match self {
            ConnectionTarget::Scope { name: target, .. } => *target == *name,
            _ => false,
        }
    }

    /// Whether the target is a channel of the master output.
    pub fn is_master(&self) -> (r: bool)
        ensures
            r == (self is Master),
    {
        match self {
            ConnectionTarget::Master { .. } => true,
            _ => false,
        }
    }
}

/// Routes channel `channel` of a source to `target`.
#[derive(Debug)]
pub struct Connection {
    pub channel: u32,
    pub target: ConnectionTarget,
}

} // verus!
