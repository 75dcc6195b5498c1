use dgi::log::dispatch::{after_blocking_send, after_try_send, should_write, Delivery, State, TrySend};
use dgi::log::level::Level;
use dgi::log::writers::Console;

#[test]
fn levels_in_order() {
    assert_eq!(
        Level::all(),
        &[Level::Fatal, Level::Error, Level::Warn, Level::Info, Level::Debug]
    );
    let ranks: Vec<u8> = Level::all().iter().map(|l| l.rank()).collect();
    assert_eq!(ranks, vec![0, 1, 2, 3, 4]);
}

#[test]
fn default_importance_follows_the_readme_table() {
    assert!(Level::Fatal.important_by_default());
    assert!(Level::Error.important_by_default());
    assert!(!Level::Warn.important_by_default());
    assert!(!Level::Info.important_by_default());
    assert!(!Level::Debug.important_by_default());
}

#[test]
fn filter_takes_the_most_verbose_enabled_level() {
    assert_eq!(State::init(&[true, true, true, false, false]).max_verbosity, Level::Warn);
    assert_eq!(State::init(&[true, true, true, true, true]).max_verbosity, Level::Debug);
    assert_eq!(State::init(&[false, false, false, false, false]).max_verbosity, Level::Fatal);
    assert_eq!(State::init(&[false, true, false, false, false]).max_verbosity, Level::Error);
    assert_eq!(State::init(&[false, false, false, true, false]).max_verbosity, Level::Info);
}

#[test]
fn should_write_compares_with_the_filter() {
    let state = State { max_verbosity: Level::Warn };
    assert!(should_write(&state, Level::Fatal));
    assert!(should_write(&state, Level::Warn));
    assert!(!should_write(&state, Level::Info));
    assert!(!should_write(&state, Level::Debug));
}

#[test]
fn filter_passes_what_some_writer_takes() {
    let writers = [Console::new().max_verbosity(Level::Error), Console::new().max_verbosity(Level::Info)];
    let mut flags = [false; 5];
    for (i, level) in Level::all().iter().enumerate() {
        flags[i] = writers.iter().any(|w| w.enabled_for(*level));
    }
    let state = State::init(&flags);
    for level in Level::all() {
        let taken = writers.iter().any(|w| w.enabled_for(*level));
        assert_eq!(should_write(&state, *level), *level == Level::Fatal || taken);
    }
}

#[test]
fn fatal_always_passes_the_filter() {
    let state = State::init(&[false; 5]);
    assert!(should_write(&state, Level::Fatal));
    assert!(!should_write(&state, Level::Error));
}

#[test]
fn delivery_decisions() {
    assert_eq!(after_try_send(TrySend::Sent, false), Delivery::Delivered);
    assert_eq!(after_try_send(TrySend::Sent, true), Delivery::Delivered);
    assert_eq!(after_try_send(TrySend::Full, true), Delivery::Wait);
    assert_eq!(after_try_send(TrySend::Full, false), Delivery::Dropped);
    assert_eq!(after_try_send(TrySend::Disconnected, true), Delivery::Closed);
    assert_eq!(after_try_send(TrySend::Disconnected, false), Delivery::Closed);
    assert_eq!(after_blocking_send(true), Delivery::Delivered);
    assert_eq!(after_blocking_send(false), Delivery::Closed);
}

#[test]
fn important_events_are_never_dropped() {
    for outcome in [TrySend::Sent, TrySend::Full, TrySend::Disconnected] {
        assert_ne!(after_try_send(outcome, true), Delivery::Dropped);
        assert_ne!(after_try_send(outcome, false), Delivery::Wait);
    }
}
