use io_timer::timer::{
    Timer, TimerConfig, TimerCycle, TimerCycles, TimerEvent, TimerLoop, TimerState,
};

fn testing_config() -> TimerConfig {
    TimerConfig {
        cycles: TimerCycles::from(vec![
            TimerCycle::new("a", 3),
            TimerCycle::new("b", 2),
            TimerCycle::new("c", 1),
        ]),
        ..Default::default()
    }
}

fn testing_timer() -> Timer {
    Timer {
        config: testing_config(),
        state: TimerState::Running,
        cycle: TimerCycle::new("a", 3),
        started_at: Some(0),
        ..Default::default()
    }
}

#[test]
fn running_infinite_timer() {
    let mut timer = testing_timer();

    assert_eq!(timer.state, TimerState::Running);
    assert_eq!(timer.cycle, TimerCycle::new("a", 3));

    timer.update(2);

    assert_eq!(timer.state, TimerState::Running);
    assert_eq!(timer.cycle, TimerCycle::new("a", 1));

    timer.update(3);

    assert_eq!(timer.state, TimerState::Running);
    assert_eq!(timer.cycle, TimerCycle::new("b", 2));

    timer.update(5);

    assert_eq!(timer.state, TimerState::Running);
    assert_eq!(timer.cycle, TimerCycle::new("c", 1));

    timer.update(6);

    assert_eq!(timer.state, TimerState::Running);
    assert_eq!(timer.cycle, TimerCycle::new("a", 3));
}

#[test]
fn running_timer_events() {
    let mut timer = testing_timer();
    let mut events = Vec::new();

    events.extend(timer.update(1));
    events.extend(timer.update(2));
    events.extend(timer.update(3));
    events.extend(timer.update(4));

    assert_eq!(
        events,
        vec![
            TimerEvent::Running(TimerCycle::new("a", 3)),
            TimerEvent::Running(TimerCycle::new("a", 2)),
            TimerEvent::Running(TimerCycle::new("a", 1)),
            TimerEvent::Ended(TimerCycle::new("a", 0)),
            TimerEvent::Began(TimerCycle::new("b", 2)),
            TimerEvent::Running(TimerCycle::new("b", 2)),
        ]
    );
}

#[test]
fn paused_timer_not_impacted_by_iterator() {
    let mut timer = testing_timer();
    timer.state = TimerState::Paused;
    let prev_timer = timer.clone();
    let events = timer.update(5);
    assert!(events.is_empty());
    assert_eq!(prev_timer.state, timer.state);
    assert_eq!(prev_timer.cycle, timer.cycle);
    assert_eq!(prev_timer.elapsed(5), timer.elapsed(5));
}

#[test]
fn stopped_timer_not_impacted_by_iterator() {
    let mut timer = testing_timer();
    timer.state = TimerState::Stopped;
    let prev_timer = timer.clone();
    let events = timer.update(5);
    assert!(events.is_empty());
    assert_eq!(prev_timer.state, timer.state);
    assert_eq!(prev_timer.cycle, timer.cycle);
    assert_eq!(prev_timer.elapsed(5), timer.elapsed(5));
}

#[test]
fn thread_safe_timer() {
    let mut timer = Timer::default();
    timer.config = testing_config();
    timer.cycle = timer.config.clone_first_cycle().unwrap();
    timer.cycles_count = timer.config.cycles_count;

    let mut events = Vec::new();

    assert_eq!(timer.state, TimerState::Stopped);
    assert_eq!(timer.cycle, TimerCycle::new("a", 3));

    events.extend(timer.start(0));
    events.extend(timer.set(21));

    assert_eq!(timer.state, TimerState::Running);
    assert_eq!(timer.cycle, TimerCycle::new("a", 21));

    events.extend(timer.pause(0));

    assert_eq!(timer.state, TimerState::Paused);
    assert_eq!(timer.cycle, TimerCycle::new("a", 21));

    events.extend(timer.resume(0));

    assert_eq!(timer.state, TimerState::Running);
    assert_eq!(timer.cycle, TimerCycle::new("a", 21));

    events.extend(timer.stop());

    assert_eq!(timer.state, TimerState::Stopped);
    assert_eq!(timer.cycle, TimerCycle::new("a", 3));

    // `stop` reports the ended cycle with no time left.
    assert_eq!(
        events,
        vec![
            TimerEvent::Started,
            TimerEvent::Began(TimerCycle::new("a", 3)),
            TimerEvent::DurationSet(TimerCycle::new("a", 21)),
            TimerEvent::Paused(TimerCycle::new("a", 21)),
            TimerEvent::Resumed(TimerCycle::new("a", 21)),
            TimerEvent::Ended(TimerCycle::new("a", 0)),
            TimerEvent::Stopped,
        ]
    );
}

#[test]
fn started_timer_emits_events_from_ticks() {
    let mut timer = Timer::new(testing_config());
    let mut events = timer.start(100);
    for now in 101..105 {
        events.extend(timer.update(now));
    }
    assert_eq!(
        events,
        vec![
            TimerEvent::Started,
            TimerEvent::Began(TimerCycle::new("a", 3)),
            TimerEvent::Running(TimerCycle::new("a", 3)),
            TimerEvent::Running(TimerCycle::new("a", 2)),
            TimerEvent::Running(TimerCycle::new("a", 1)),
            TimerEvent::Ended(TimerCycle::new("a", 0)),
            TimerEvent::Began(TimerCycle::new("b", 2)),
            TimerEvent::Running(TimerCycle::new("b", 2)),
        ]
    );
}

#[test]
fn irregular_ticks_recompute_position() {
    let mut timer = testing_timer();
    timer.update(13);
    // 13 mod 6 = 1: one second into "a"
    assert_eq!(timer.cycle, TimerCycle::new("a", 2));
    timer.update(17);
    // 17 mod 6 = 5: the whole of "c" is left
    assert_eq!(timer.cycle, TimerCycle::new("c", 1));
}

#[test]
fn pause_then_resume_keeps_remaining_time() {
    let mut timer = Timer::new(testing_config());
    timer.start(0);
    timer.update(1);
    assert_eq!(timer.cycle, TimerCycle::new("a", 2));
    timer.pause(1);
    assert_eq!(timer.elapsed(50), 1);
    timer.update(50);
    assert_eq!(timer.cycle, TimerCycle::new("a", 2));
    timer.resume(50);
    assert_eq!(timer.cycle, TimerCycle::new("a", 2));
    assert_eq!(timer.elapsed(50), 1);
    timer.update(51);
    assert_eq!(timer.cycle, TimerCycle::new("a", 1));
}

#[test]
fn stop_resets_to_configuration() {
    let mut config = testing_config();
    config.cycles_count = TimerLoop::from(2);
    let mut timer = Timer::new(config);
    timer.start(0);
    timer.update(4);
    assert_eq!(timer.cycle, TimerCycle::new("b", 1));
    timer.cycles_count = TimerLoop::Infinite;
    let events = timer.stop();
    assert_eq!(
        events,
        vec![TimerEvent::Ended(TimerCycle::new("b", 0)), TimerEvent::Stopped]
    );
    assert_eq!(timer.state, TimerState::Stopped);
    assert_eq!(timer.cycle, TimerCycle::new("a", 3));
    assert_eq!(timer.cycles_count, TimerLoop::Fixed(2));
    assert_eq!(timer.started_at, None);
    assert_eq!(timer.elapsed, 0);
}

#[test]
fn stop_on_paused_timer_does_nothing() {
    let mut timer = Timer::new(testing_config());
    timer.start(0);
    timer.update(4);
    timer.pause(4);
    assert!(timer.stop().is_empty());
    assert_eq!(timer.state, TimerState::Paused);
    assert_eq!(timer.cycle, TimerCycle::new("b", 1));
}

#[test]
fn fixed_loop_stops_without_events() {
    let mut config = testing_config();
    config.cycles_count = TimerLoop::Fixed(2);
    let mut timer = Timer::new(config);
    timer.start(0);
    assert_eq!(timer.update(11).len(), 3);
    assert_eq!(timer.state, TimerState::Running);
    assert!(timer.update(12).is_empty());
    assert_eq!(timer.state, TimerState::Stopped);
    assert_eq!(timer.started_at, None);
    assert_eq!(timer.elapsed(40), 12);
}

#[test]
fn loop_count_zero_is_infinite() {
    assert_eq!(TimerLoop::from(0), TimerLoop::Infinite);
    assert_eq!(TimerLoop::from(3), TimerLoop::Fixed(3));
}

#[test]
fn first_cycle_of_empty_config_is_none() {
    let config = TimerConfig::default();
    assert_eq!(config.clone_first_cycle(), None);
    assert_eq!(testing_config().clone_first_cycle(), Some(TimerCycle::new("a", 3)));
}

#[test]
fn set_on_stopped_timer_changes_remaining_time_only() {
    let mut timer = Timer::new(testing_config());
    let events = timer.set(9);
    assert_eq!(events, vec![TimerEvent::DurationSet(TimerCycle::new("a", 9))]);
    assert_eq!(timer.state, TimerState::Stopped);
    assert_eq!(timer.cycle, TimerCycle::new("a", 9));
}

#[test]
fn elapsed_counts_from_anchor() {
    let mut timer = Timer::new(testing_config());
    assert_eq!(timer.elapsed(10), 0);
    timer.start(10);
    assert_eq!(timer.elapsed(14), 4);
    assert_eq!(timer.elapsed(5), 0);
}

#[test]
fn timer_needs_a_cycle() {
    assert!(Timer::try_new(TimerConfig::default()).is_none());
    let timer = Timer::try_new(testing_config()).unwrap();
    assert_eq!(timer.state, TimerState::Stopped);
    assert_eq!(timer.cycle, TimerCycle::new("a", 3));
}
