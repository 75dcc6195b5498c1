use vstd::prelude::*;

verus! {

/// Severity of an event, from the most severe to the most verbose.
#[derive(Copy, Clone, Debug, PartialEq, Eq, Structural, PartialOrd, Ord)]
pub enum Level {
    Fatal,
    Error,
    Warn,
    Info,
    Debug,
}

/// The name the documentation gives to a level.
pub type Verbosity = Level;

impl Level {
    /// Position of the level in the order `Fatal < Error < Warn < Info < Debug`.
    pub open spec fn spec_rank(self) -> nat {
        match self {
            Level::Fatal => 0,
            Level::Error => 1,
            Level::Warn => 2,
            Level::Info => 3,
            Level::Debug => 4,
        }
    }

    /// Position of the level, as stored in the serialized form of an event.
    pub fn rank(self) -> (r: u8)
        ensures
            r == self.spec_rank(),
    {
        match self {
            Level::Fatal => 0,
            Level::Error => 1,
            Level::Warn => 2,
            Level::Info => 3,
            Level::Debug => 4,
        }
    }

    /// Whether an event of this level is important unless its call says otherwise: an
    /// important event waits for room in a full channel, an ignorable one is dropped.
    /// Fatal and error events are important; warnings, information and debug events are
    /// ignorable.
    pub fn important_by_default(self) -> (r: bool)
        ensures
            r == (self.spec_rank() <= 1),
    {
        match self {
            Level::Fatal | Level::Error => true,
            Level::Warn | Level::Info | Level::Debug => false,
        }
    }

    /// All levels, from the most severe to the most verbose.
    pub fn all() -> (r: &'static [Level])
        ensures
            r@ == seq![Level::Fatal, Level::Error, Level::Warn, Level::Info, Level::Debug],
    {
        &[Level::Fatal, Level::Error, Level::Warn, Level::Info, Level::Debug]
    }
}

} // verus!
