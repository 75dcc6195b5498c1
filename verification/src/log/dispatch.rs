use vstd::prelude::*;
use crate::log::level::Level;
use crate::log::writers::admits;

verus! {

/// The level at position `i` of `Level::all()`.
pub open spec fn level_at(i: int) -> Level {
    if i == 0 {
        Level::Fatal
    } else if i == 1 {
        Level::Error
    } else if i == 2 {
        Level::Warn
    } else if i == 3 {
        Level::Info
    } else {
        Level::Debug
    }
}

/// The most verbose level whose flag is set, where `enabled[i]` tells whether some writer
/// takes the level at position `i` of `Level::all()`; `Fatal` when no flag is set.
pub open spec fn most_verbose_enabled(enabled: Seq<bool>) -> Level {
    if enabled[4] {
        Level::Debug
    } else if enabled[3] {
        Level::Info
    } else if enabled[2] {
        Level::Warn
    } else if enabled[1] {
        Level::Error
    } else {
        Level::Fatal
    }
}

/// The logger's global filter: events more verbose than `max_verbosity` are not built.
#[derive(Copy, Clone, Debug)]
pub struct State {
    pub max_verbosity: Level,
}

impl State {
    /// The filter for a set of writers, given for each level of `Level::all()` whether
    /// some writer takes it: the most verbose level taken, or `Fatal` when none is.
    pub fn init(enabled: &[bool; 5]) -> (r: State)
        ensures
            r.max_verbosity == most_verbose_enabled(enabled@),
    {
        let all = Level::all();
        let mut i: usize = 5;
        while i > 1
            invariant
                1 <= i <= 5,
                all@ == seq![Level::Fatal, Level::Error, Level::Warn, Level::Info, Level::Debug],
                forall|j: int| i <= j < 5 ==> !enabled@[j],
            decreases i,
        {
            if enabled[i - 1] {
                return State { max_verbosity: all[i - 1] };
            }
            i = i - 1;
        }
        State { max_verbosity: Level::Fatal }
    }
}

/// Whether an event of the given level passes the global filter.
pub fn should_write(state: &State, verbosity: Level) -> (r: bool)
    ensures
        r == admits(state.max_verbosity, verbosity),
{
    verbosity.rank() <= state.max_verbosity.rank()
}

/// What a non-blocking send on the event channel reported.
#[derive(Copy, Clone, Debug, PartialEq, Eq, Structural)]
pub enum TrySend {
    Sent,
    Full,
    Disconnected,
}

/// What becomes of an event handed to the event channel.
#[derive(Copy, Clone, Debug, PartialEq, Eq, Structural)]
pub enum Delivery {
    /// The event is in the channel.
    Delivered,
    /// The channel is full and the event is important: wait for a free slot.
    Wait,
    /// The channel is full and the event is ignorable: it is dropped.
    Dropped,
    /// The formatting thread is gone.
    Closed,
}

/// The next step after a non-blocking send: a sent event is delivered; in a full
/// channel an important event waits and an ignorable one is dropped; a disconnected
/// channel is closed.
pub open spec fn delivery(outcome: TrySend, force: bool) -> Delivery {
    match outcome {
        TrySend::Sent => Delivery::Delivered,
        TrySend::Full => if force {
            Delivery::Wait
        } else {
            Delivery::Dropped
        },
        TrySend::Disconnected => Delivery::Closed,
    }
}

/// The next step after a non-blocking send of an event; `force` tells whether the
/// event is important.
pub fn after_try_send(outcome: TrySend, force: bool) -> (r: Delivery)
    ensures
        r == delivery(outcome, force),
{
    match outcome {
        TrySend::Sent => Delivery::Delivered,
        TrySend::Full => if force {
            Delivery::Wait
        } else {
            Delivery::Dropped
        },
        TrySend::Disconnected => Delivery::Closed,
    }
}

/// The outcome of waiting for a free slot: delivered, or the formatting thread is gone.
pub fn after_blocking_send(sent: bool) -> (r: Delivery)
    ensures
        r == (if sent {
            Delivery::Delivered
        } else {
            Delivery::Closed
        }),
{
    if sent {
        Delivery::Delivered
    } else {
        Delivery::Closed
    }
}

/// Law: an important event is never dropped, and an ignorable one is dropped exactly when
/// the channel is full; neither ever blocks on a closed channel.
pub proof fn only_ignorable_events_are_dropped(outcome: TrySend, force: bool)
    ensures
        force ==> delivery(outcome, force) != Delivery::Dropped,
        !force ==> (delivery(outcome, force) == Delivery::Dropped <==> outcome == TrySend::Full),
        !force ==> delivery(outcome, force) != Delivery::Wait,
        outcome == TrySend::Disconnected ==> delivery(outcome, force) == Delivery::Closed,
{
}

/// For each level of `Level::all()`, whether some writer, given by the most verbose level
/// it takes, takes that level.
pub open spec fn enabled_flags(maxima: Seq<Level>) -> Seq<bool> {
    Seq::new(
        5,
        |i: int| exists|k: int| 0 <= k < maxima.len() && admits(#[trigger] maxima[k], level_at(i)),
    )
}

/// Law: for writers that each take every level up to their own most verbose one, the global
/// filter lets an event through exactly when it is fatal or some writer takes it.
pub proof fn filter_passes_what_some_writer_takes(maxima: Seq<Level>, v: Level)
    ensures
        admits(most_verbose_enabled(enabled_flags(maxima)), v) <==> (v == Level::Fatal || exists|
            k: int,
        | 0 <= k < maxima.len() && admits(#[trigger] maxima[k], v)),
{
    let flags = enabled_flags(maxima);
    let m = most_verbose_enabled(flags);
    assert(level_at(v.spec_rank() as int) == v);
    if admits(m, v) && v != Level::Fatal {
        let i = m.spec_rank() as int;
        assert(level_at(i) == m);
        assert(flags[i]);
        let k = choose|k: int| 0 <= k < maxima.len() && admits(#[trigger] maxima[k], level_at(i));
        assert(admits(maxima[k], v));
    }
    if exists|k: int| 0 <= k < maxima.len() && admits(#[trigger] maxima[k], v) {
        let k = choose|k: int| 0 <= k < maxima.len() && admits(#[trigger] maxima[k], v);
        let i = v.spec_rank() as int;
        assert(flags[i]);
    }
}

} // verus!
