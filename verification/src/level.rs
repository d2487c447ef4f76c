//! Severities of the logging capability and the logger that filters by them.

use vstd::prelude::*;

verus! {

/// Severity of a log message, most severe first.
#[derive(Clone, Copy, Debug, PartialEq, Eq, Hash, Structural)]
pub enum Level {
    Error,
    Warn,
    Info,
    Debug,
    Trace,
}

impl Level {
    /// Position of the level in the order `Error < Warn < Info < Debug < Trace`.
    pub open spec fn rank(self) -> nat {
        match self {
            Level::Error => 0,
            Level::Warn => 1,
            Level::Info => 2,
            Level::Debug => 3,
            Level::Trace => 4,
        }
    }

    /// The level's ordinal: 0 for `Error` up to 4 for `Trace`.
    pub fn ordinal(self) -> (n: u32)
        ensures
            n == self.rank(),
    {
        match self {
            Level::Error => 0,
            Level::Warn => 1,
            Level::Info => 2,
            Level::Debug => 3,
            Level::Trace => 4,
        }
    }

    /// The level with the given ordinal, if there is one.
    pub fn from_ordinal(n: u32) -> (level: Option<Level>)
        ensures
            n <= 4 <==> level is Some,
            level matches Some(l) ==> l.rank() == n,
    {
        match n {
            0 => Some(Level::Error),
            1 => Some(Level::Warn),
            2 => Some(Level::Info),
            3 => Some(Level::Debug),
            4 => Some(Level::Trace),
            _ => None,
        }
    }
}

/// A logger owned by the host on behalf of one plugin instance.
#[derive(Clone, Copy, Debug, PartialEq, Eq, Structural)]
pub struct FooLogger {
    /// The least severe level that the logger still emits.
    pub max_level: Level,
}

impl FooLogger {
    /// Whether a message of severity `level` passes the logger's filter.
    pub open spec fn passes(self, level: Level) -> bool {
        level.rank() <= self.max_level.rank()
    }

    /// Decides whether a message of severity `level` is emitted.
    pub fn emits(&self, level: Level) -> (emitted: bool)
        ensures
            emitted == self.passes(level),
    {
        level.ordinal() <= self.max_level.ordinal()
    }
}

/// Two levels with the same ordinal are the same level.
pub proof fn lemma_rank_is_injective(a: Level, b: Level)
    requires
        a.rank() == b.rank(),
    ensures
        a == b,
{
}

} // verus!
