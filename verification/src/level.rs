//! Severity levels of log events.

use vstd::prelude::*;

verus! {

/// Severity of an event, from the most verbose to the most severe.
#[derive(Clone, Copy, Debug, PartialEq, Eq, Structural)]
pub enum Level {
    Trace,
    Debug,
    Info,
    Warn,
    Error,
}

impl Level {
    /// Position of the level in the severity order: `Trace` is 0, `Error` is 4.
    pub open spec fn rank(self) -> nat {
        match self {
            Level::Trace => 0,
            Level::Debug => 1,
            Level::Info => 2,
            Level::Warn => 3,
            Level::Error => 4,
        }
    }

    /// The name under which the level is written into a record.
    pub open spec fn name(self) -> Seq<char> {
        match self {
            Level::Trace => "Trace"@,
            Level::Debug => "Debug"@,
            Level::Info => "Info"@,
            Level::Warn => "Warn"@,
            Level::Error => "Error"@,
        }
    }

    /// Numeric severity, usable to order levels at run time.
    pub fn severity(self) -> (r: u8)
        ensures
            r as nat == self.rank(),
    {
        match self {
            Level::Trace => 0,
            Level::Debug => 1,
            Level::Info => 2,
            Level::Warn => 3,
            Level::Error => 4,
        }
    }

    /// Whether an event of this level passes a threshold of `least`.
    pub fn at_least(self, least: Level) -> (r: bool)
        ensures
            r == (self.rank() >= least.rank()),
    {
        self.severity() >= least.severity()
    }

    /// The level's name as text.
    pub fn as_str(self) -> (r: &'static str)
        ensures
            r@ == self.name(),
    {
        match self {
            Level::Trace => "Trace",
            Level::Debug => "Debug",
            Level::Info => "Info",
            Level::Warn => "Warn",
            Level::Error => "Error",
        }
    }
}

/// The levels are totally ordered by severity: of two levels one is at
/// least as severe as the other, two levels of the same rank are the same
/// level, and what is at least as severe as a level is at least as severe
/// as all that this level is at least as severe as.
pub proof fn lemma_levels_are_ordered(a: Level, b: Level, c: Level)
    ensures
        a.rank() >= b.rank() || b.rank() >= a.rank(),
        a.rank() == b.rank() ==> a == b,
        a.rank() >= b.rank() && b.rank() >= c.rank() ==> a.rank() >= c.rank(),
        Level::Trace.rank() < Level::Debug.rank() < Level::Info.rank() < Level::Warn.rank()
            < Level::Error.rank(),
{
}

} // verus!
