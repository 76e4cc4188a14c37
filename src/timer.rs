//! The timer engine: cycles, loop settings, states, events, and the
//! operations that move a timer between its states.
//!
//! Time is handed in by the caller as a number of seconds read from a
//! monotonic clock (`now`). The timer never reads a clock itself.

use vstd::prelude::*;

verus! {

/// How many full passes through the cycle list the timer makes before it
/// stops by itself.
#[derive(Clone, Copy, Debug, Default, PartialEq, Eq, Structural)]
pub enum TimerLoop {
    /// The timer never stops by itself.
    #[default]
    Infinite,
    /// The timer stops by itself after the given number of passes.
    Fixed(usize),
}

impl From<usize> for TimerLoop {
    /// A count of zero means "loop forever".
    fn from(count: usize) -> (r: TimerLoop)
        ensures
            r == TimerLoop::from_count(count),
    {
        if count == 0 {
            TimerLoop::Infinite
        } else {
            TimerLoop::Fixed(count)
        }
    }
}

impl vstd::std_specs::convert::FromSpecImpl<usize> for TimerLoop {
    open spec fn obeys_from_spec() -> bool {
        true
    }

    open spec fn from_spec(count: usize) -> TimerLoop {
        TimerLoop::from_count(count)
    }
}

impl TimerLoop {
    /// `Fixed(0)` is normalised to `Infinite`.
    pub open spec fn from_count(count: usize) -> TimerLoop {
        if count == 0 {
            TimerLoop::Infinite
        } else {
            TimerLoop::Fixed(count)
        }
    }
}

/// A named phase of the timer.
///
/// In a configuration, `duration` is the total length of the cycle. In the
/// live timer (`Timer::cycle`), it is the time remaining before the cycle
/// ends.
#[derive(Clone, Debug, Default, PartialEq, Eq)]
pub struct TimerCycle {
    /// The name of the cycle.
    pub name: String,
    /// Total length (configuration) or remaining time (live), in seconds.
    pub duration: usize,
}

impl TimerCycle {
    pub fn new(name: &str, duration: usize) -> (r: TimerCycle)
        ensures
            r.name@ == name@,
            r.duration == duration,
    {
        TimerCycle { name: name.to_owned(), duration }
    }

    /// A field-by-field copy.
    pub fn copy(&self) -> (r: TimerCycle)
        ensures
            r == *self,
    {
        TimerCycle { name: self.name.clone(), duration: self.duration }
    }

    /// The same cycle with the given duration.
    pub open spec fn with_duration(self, duration: usize) -> TimerCycle {
        TimerCycle { name: self.name, duration }
    }
}

/// The ordered list of configured cycles.
#[derive(Clone, Debug, Default, PartialEq, Eq)]
pub struct TimerCycles(pub Vec<TimerCycle>);

impl TimerCycles {
    pub open spec fn view(&self) -> Seq<TimerCycle> {
        self.0@
    }

    /// A cycle-by-cycle copy.
    pub fn copy(&self) -> (r: TimerCycles)
        ensures
            r.view() == self.view(),
    {
        let mut out: Vec<TimerCycle> = Vec::new();
        let mut i: usize = 0;
        while i < self.0.len()
            invariant
                i <= self.view().len(),
                out@ == self.view().take(i as int),
            decreases self.view().len() - i,
        {
            out.push(self.0[i].copy());
            i = i + 1;
            proof {
                assert(out@ =~= self.view().take(i as int));
            }
        }
        proof {
            assert(out@ =~= self.view());
        }
        TimerCycles(out)
    }
}

impl From<Vec<TimerCycle>> for TimerCycles {
    fn from(cycles: Vec<TimerCycle>) -> (r: TimerCycles)
        ensures
            r.view() == cycles@,
    {
        TimerCycles(cycles)
    }
}

impl vstd::std_specs::convert::FromSpecImpl<Vec<TimerCycle>> for TimerCycles {
    open spec fn obeys_from_spec() -> bool {
        true
    }

    open spec fn from_spec(cycles: Vec<TimerCycle>) -> TimerCycles {
        TimerCycles(cycles)
    }
}

/// The three states of a timer.
#[derive(Clone, Copy, Debug, Default, PartialEq, Eq, Structural)]
pub enum TimerState {
    Running,
    Paused,
    #[default]
    Stopped,
}

/// What happened to a timer during one operation.
#[derive(Clone, Debug, PartialEq, Eq)]
pub enum TimerEvent {
    /// The timer started.
    Started,
    /// The timer began the given cycle.
    Began(TimerCycle),
    /// The timer is running the given cycle (one tick).
    Running(TimerCycle),
    /// The remaining time of the given cycle was set.
    DurationSet(TimerCycle),
    /// The timer was paused at the given cycle.
    Paused(TimerCycle),
    /// The timer was resumed at the given cycle.
    Resumed(TimerCycle),
    /// The given cycle ended.
    Ended(TimerCycle),
    /// The timer stopped.
    Stopped,
}

/// The cycles of a timer and how often it runs through them.
#[derive(Clone, Debug, Default)]
pub struct TimerConfig {
    pub cycles: TimerCycles,
    pub cycles_count: TimerLoop,
}

/// Sum of the durations of `cycles[i..]`.
pub open spec fn total_from(cycles: Seq<TimerCycle>, i: int) -> nat
    decreases cycles.len() - i,
{
    if i < 0 || i >= cycles.len() {
        0
    } else {
        cycles[i].duration as nat + total_from(cycles, i + 1)
    }
}

/// Sum of the durations of all cycles: the length of one pass.
pub open spec fn total_duration(cycles: Seq<TimerCycle>) -> nat {
    total_from(cycles, 0)
}

/// Where an offset `r` into `cycles[i..]` falls: the index of the first
/// cycle whose end lies strictly after it, and the time left in that cycle.
pub open spec fn locate(cycles: Seq<TimerCycle>, i: int, r: int) -> (int, int)
    decreases cycles.len() - i,
{
    if i < 0 || i >= cycles.len() {
        (cycles.len() - 1, 0)
    } else if r < cycles[i].duration {
        (i, cycles[i].duration - r)
    } else {
        locate(cycles, i + 1, r - cycles[i].duration)
    }
}

impl TimerConfig {
    /// A field-by-field copy.
    pub fn copy(&self) -> (r: TimerConfig)
        ensures
            r.cycles.view() == self.cycles.view(),
            r.cycles_count == self.cycles_count,
    {
        TimerConfig { cycles: self.cycles.copy(), cycles_count: self.cycles_count }
    }

    /// A copy of the first configured cycle, if there is one.
    pub fn clone_first_cycle(&self) -> (r: Option<TimerCycle>)
        ensures
            self.cycles.view().len() == 0 ==> r is None,
            self.cycles.view().len() > 0 ==> r == Some(self.cycles.view()[0]),
    {
        if self.cycles.0.len() == 0 {
            None
        } else {
            Some(self.cycles.0[0].copy())
        }
    }
}

/// The live timer.
///
/// `cycle` holds the current cycle with its *remaining* time. `started_at`
/// is the clock reading (seconds) at which the timer was last set running;
/// it is present exactly while the timer runs. `elapsed` holds the seconds
/// accumulated while not anchored.
#[derive(Clone, Debug, Default)]
pub struct Timer {
    pub config: TimerConfig,
    pub state: TimerState,
    pub cycle: TimerCycle,
    pub cycles_count: TimerLoop,
    pub started_at: Option<usize>,
    pub elapsed: usize,
}

impl Timer {
    /// The configured cycles.
    pub open spec fn cycles(&self) -> Seq<TimerCycle> {
        self.config.cycles.view()
    }

    /// The first configured cycle.
    pub open spec fn first_cycle(&self) -> TimerCycle {
        self.cycles()[0]
    }

    /// A timer is well formed when it has at least one cycle and is anchored
    /// to the clock exactly while it runs.
    pub open spec fn wf(&self) -> bool {
        &&& self.cycles().len() > 0
        &&& (self.started_at is Some <==> self.state == TimerState::Running)
    }

    /// Seconds elapsed at clock reading `now`: the accumulated seconds plus,
    /// while anchored, the seconds since the anchor (none if the clock reads
    /// earlier than the anchor), saturating at the largest `usize`.
    pub open spec fn elapsed_at(&self, now: usize) -> usize {
        match self.started_at {
            Some(anchor) => {
                let since: int = if now >= anchor { now - anchor } else { 0 };
                if self.elapsed + since > usize::MAX {
                    usize::MAX
                } else {
                    (self.elapsed + since) as usize
                }
            },
            None => self.elapsed,
        }
    }

    /// The timer and events after `start(now)`.
    pub open spec fn started(self, now: usize) -> (Timer, Seq<TimerEvent>) {
        if self.state == TimerState::Stopped {
            (
                Timer {
                    state: TimerState::Running,
                    cycle: self.first_cycle(),
                    cycles_count: self.config.cycles_count,
                    started_at: Some(now),
                    elapsed: 0,
                    ..self
                },
                seq![TimerEvent::Started, TimerEvent::Began(self.first_cycle())],
            )
        } else {
            (self, seq![])
        }
    }

    /// The timer and events after `set(duration)`.
    pub open spec fn set_to(self, duration: usize) -> (Timer, Seq<TimerEvent>) {
        let cycle = self.cycle.with_duration(duration);
        (Timer { cycle, ..self }, seq![TimerEvent::DurationSet(cycle)])
    }

    /// The timer and events after `pause(now)`.
    pub open spec fn paused(self, now: usize) -> (Timer, Seq<TimerEvent>) {
        if self.state == TimerState::Running {
            (
                Timer {
                    state: TimerState::Paused,
                    started_at: None,
                    elapsed: self.elapsed_at(now),
                    ..self
                },
                seq![TimerEvent::Paused(self.cycle)],
            )
        } else {
            (self, seq![])
        }
    }

    /// The timer and events after `resume(now)`.
    pub open spec fn resumed(self, now: usize) -> (Timer, Seq<TimerEvent>) {
        if self.state == TimerState::Paused {
            (
                Timer { state: TimerState::Running, started_at: Some(now), ..self },
                seq![TimerEvent::Resumed(self.cycle)],
            )
        } else {
            (self, seq![])
        }
    }

    /// The timer and events after `stop()`.
    pub open spec fn stopped(self) -> (Timer, Seq<TimerEvent>) {
        if self.state == TimerState::Running {
            (
                Timer {
                    state: TimerState::Stopped,
                    cycle: self.first_cycle(),
                    cycles_count: self.config.cycles_count,
                    started_at: None,
                    elapsed: 0,
                    ..self
                },
                seq![TimerEvent::Ended(self.cycle.with_duration(0)), TimerEvent::Stopped],
            )
        } else {
            (self, seq![])
        }
    }

    /// Whether a fixed loop setting is used up after `e` elapsed seconds.
    pub open spec fn exhausted(self, e: usize) -> bool {
        match self.cycles_count {
            TimerLoop::Fixed(n) => e >= total_duration(self.cycles()) * n,
            TimerLoop::Infinite => false,
        }
    }

    /// The cycle in which the timer stands after `e` elapsed seconds, with
    /// its remaining time.
    pub open spec fn cycle_at(self, e: usize) -> TimerCycle {
        let cycles = self.cycles();
        let (k, left) = locate(cycles, 0, (e as int) % (total_duration(cycles) as int));
        TimerCycle { name: cycles[k].name, duration: left as usize }
    }

    /// The timer and events after a running timer has been advanced to `e`
    /// elapsed seconds.
    pub open spec fn advanced(self, e: usize) -> (Timer, Seq<TimerEvent>) {
        if self.exhausted(e) {
            (Timer { state: TimerState::Stopped, started_at: None, elapsed: e, ..self }, seq![])
        } else {
            let next = self.cycle_at(e);
            let tick = seq![TimerEvent::Running(self.cycle)];
            (
                Timer { cycle: next, ..self },
                if next.name@ == self.cycle.name@ {
                    tick
                } else {
                    tick + seq![
                        TimerEvent::Ended(self.cycle.with_duration(0)),
                        TimerEvent::Began(next),
                    ]
                },
            )
        }
    }

    /// The timer and events after `update(now)`.
    pub open spec fn updated(self, now: usize) -> (Timer, Seq<TimerEvent>) {
        if self.state == TimerState::Running {
            self.advanced(self.elapsed_at(now))
        } else {
            (self, seq![])
        }
    }

    /// What `update` needs of the arithmetic: one pass fits in a `usize`,
    /// and an endlessly looping timer has a pass of positive length.
    pub open spec fn can_advance(&self) -> bool {
        &&& total_duration(self.cycles()) <= usize::MAX
        &&& (self.state == TimerState::Running && self.cycles_count == TimerLoop::Infinite
            ==> total_duration(self.cycles()) > 0)
    }

    /// Whether two timers agree on everything but the identity of their
    /// cycle lists, whose contents they share.
    pub open spec fn same_as(self, other: Timer) -> bool {
        &&& self.cycles() == other.cycles()
        &&& self.config.cycles_count == other.config.cycles_count
        &&& self.state == other.state
        &&& self.cycle == other.cycle
        &&& self.cycles_count == other.cycles_count
        &&& self.started_at == other.started_at
        &&& self.elapsed == other.elapsed
    }

    /// A field-by-field copy.
    pub fn copy(&self) -> (r: Timer)
        ensures
            r.same_as(*self),
    {
        Timer {
            config: self.config.copy(),
            state: self.state,
            cycle: self.cycle.copy(),
            cycles_count: self.cycles_count,
            started_at: self.started_at,
            elapsed: self.elapsed,
        }
    }

    /// Whether the timer is well formed.
    pub fn is_well_formed(&self) -> (r: bool)
        ensures
            r == self.wf(),
    {
        self.config.cycles.0.len() > 0 && (self.started_at.is_some() == (self.state
            == TimerState::Running))
    }

    /// Whether `update` can be called on this timer.
    pub fn can_update(&self) -> (r: bool)
        ensures
            r == (self.wf() && self.can_advance()),
    {
        if !self.is_well_formed() {
            return false;
        }
        let cycles = &self.config.cycles.0;
        let mut t: usize = 0;
        let mut i: usize = 0;
        while i < cycles.len()
            invariant
                cycles@ == self.cycles(),
                i <= cycles@.len(),
                t + total_from(cycles@, i as int) == total_duration(cycles@),
            decreases cycles@.len() - i,
        {
            assert(total_from(cycles@, i as int) == cycles@[i as int].duration + total_from(
                cycles@,
                i + 1,
            ));
            match t.checked_add(cycles[i].duration) {
                Some(sum) => t = sum,
                None => return false,
            }
            i = i + 1;
        }
        !(self.state == TimerState::Running && self.cycles_count == TimerLoop::Infinite && t == 0)
    }

    /// A stopped timer on the first cycle of `config`.
    pub fn new(config: TimerConfig) -> (r: Timer)
        requires
            config.cycles.view().len() > 0,
        ensures
            r.wf(),
            r.config == config,
            r.state == TimerState::Stopped,
            r.cycle == config.cycles.view()[0],
            r.cycles_count == config.cycles_count,
            r.started_at is None,
            r.elapsed == 0,
    {
        let cycle = config.cycles.0[0].copy();
        let cycles_count = config.cycles_count;
        Timer {
            config,
            state: TimerState::Stopped,
            cycle,
            cycles_count,
            started_at: None,
            elapsed: 0,
        }
    }

    /// A stopped timer on the first cycle of `config`, or `None` when
    /// `config` has no cycle.
    pub fn try_new(config: TimerConfig) -> (r: Option<Timer>)
        ensures
            config.cycles.view().len() == 0 <==> r is None,
            r matches Some(t) ==> t.wf() && t.config == config && t.state == TimerState::Stopped
                && t.cycle == config.cycles.view()[0] && t.cycles_count == config.cycles_count
                && t.started_at is None && t.elapsed == 0,
    {
        if config.cycles.0.len() == 0 {
            None
        } else {
            Some(Timer::new(config))
        }
    }

    /// Seconds elapsed at clock reading `now`.
    pub fn elapsed(&self, now: usize) -> (r: usize)
        ensures
            r == self.elapsed_at(now),
    {
        match self.started_at {
            Some(anchor) => {
                let since: usize = if now >= anchor { now - anchor } else { 0 };
                if self.elapsed <= usize::MAX - since {
                    self.elapsed + since
                } else {
                    usize::MAX
                }
            },
            None => self.elapsed,
        }
    }

    /// Starts a stopped timer on the first cycle, anchored at `now`.
    pub fn start(&mut self, now: usize) -> (events: Vec<TimerEvent>)
        requires
            old(self).wf(),
        ensures
            final(self).wf(),
            (*final(self), events@) == old(self).started(now),
    {
        let mut events: Vec<TimerEvent> = Vec::new();
        if self.state == TimerState::Stopped {
            self.state = TimerState::Running;
            self.cycle = self.config.cycles.0[0].copy();
            self.cycles_count = self.config.cycles_count;
            self.started_at = Some(now);
            self.elapsed = 0;
            events.push(TimerEvent::Started);
            events.push(TimerEvent::Began(self.cycle.copy()));
        }
        proof {
            assert(events@ =~= old(self).started(now).1);
        }
        events
    }

    /// Overwrites the remaining time of the current cycle.
    pub fn set(&mut self, duration: usize) -> (events: Vec<TimerEvent>)
        ensures
            (*final(self), events@) == old(self).set_to(duration),
            old(self).wf() ==> final(self).wf(),
    {
        self.cycle.duration = duration;
        let mut events: Vec<TimerEvent> = Vec::new();
        events.push(TimerEvent::DurationSet(self.cycle.copy()));
        proof {
            assert(events@ =~= old(self).set_to(duration).1);
        }
        events
    }

    /// Freezes a running timer at clock reading `now`.
    pub fn pause(&mut self, now: usize) -> (events: Vec<TimerEvent>)
        requires
            old(self).wf(),
        ensures
            final(self).wf(),
            (*final(self), events@) == old(self).paused(now),
    {
        let mut events: Vec<TimerEvent> = Vec::new();
        if self.state == TimerState::Running {
            self.elapsed = self.elapsed(now);
            self.state = TimerState::Paused;
            self.started_at = None;
            events.push(TimerEvent::Paused(self.cycle.copy()));
        }
        proof {
            assert(events@ =~= old(self).paused(now).1);
        }
        events
    }

    /// Sets a paused timer running again, anchored at `now`.
    pub fn resume(&mut self, now: usize) -> (events: Vec<TimerEvent>)
        requires
            old(self).wf(),
        ensures
            final(self).wf(),
            (*final(self), events@) == old(self).resumed(now),
    {
        let mut events: Vec<TimerEvent> = Vec::new();
        if self.state == TimerState::Paused {
            self.state = TimerState::Running;
            self.started_at = Some(now);
            events.push(TimerEvent::Resumed(self.cycle.copy()));
        }
        proof {
            assert(events@ =~= old(self).resumed(now).1);
        }
        events
    }

    /// Stops a running timer and resets it to the configuration.
    pub fn stop(&mut self) -> (events: Vec<TimerEvent>)
        requires
            old(self).wf(),
        ensures
            final(self).wf(),
            (*final(self), events@) == old(self).stopped(),
    {
        let mut events: Vec<TimerEvent> = Vec::new();
        if self.state == TimerState::Running {
            let mut ended = self.cycle.copy();
            ended.duration = 0;
            events.push(TimerEvent::Ended(ended));
            events.push(TimerEvent::Stopped);
            self.state = TimerState::Stopped;
            self.cycle = self.config.cycles.0[0].copy();
            self.cycles_count = self.config.cycles_count;
            self.started_at = None;
            self.elapsed = 0;
        }
        proof {
            assert(events@ =~= old(self).stopped().1);
        }
        events
    }

    /// Advances a running timer to clock reading `now`.
    ///
    /// The position is recomputed from the total elapsed time, so calls may
    /// come at any interval. A timer whose fixed loop setting is used up
    /// stops without emitting events.
    pub fn update(&mut self, now: usize) -> (events: Vec<TimerEvent>)
        requires
            old(self).wf(),
            old(self).can_advance(),
        ensures
            final(self).wf(),
            (*final(self), events@) == old(self).updated(now),
            old(self).state != TimerState::Running ==> *final(self) == *old(self) && events@.len()
                == 0,
            old(self).state == TimerState::Running && old(self).exhausted(old(self).elapsed_at(now))
                ==> final(self).state == TimerState::Stopped && events@.len() == 0,
    {
        let mut events: Vec<TimerEvent> = Vec::new();
        if self.state != TimerState::Running {
            proof {
                assert(events@ =~= old(self).updated(now).1);
            }
            return events;
        }
        let e = self.elapsed(now);
        let total = total_of(&self.config.cycles.0);
        let exhausted = match self.cycles_count {
            TimerLoop::Fixed(n) => match total.checked_mul(n) {
                Some(bound) => e >= bound,
                None => false,
            },
            TimerLoop::Infinite => false,
        };
        if exhausted {
            self.state = TimerState::Stopped;
            self.started_at = None;
            self.elapsed = e;
            proof {
                assert(events@ =~= old(self).updated(now).1);
            }
            return events;
        }
        assert(total > 0) by {
            if let TimerLoop::Fixed(n) = self.cycles_count {
                if total == 0 {
                    assert(total * n == 0) by (nonlinear_arith)
                        requires
                            total == 0,
                    ;
                }
            }
        }
        let offset = e % total;
        let next = cycle_at_offset(&self.config.cycles.0, offset);
        assert(next == old(self).cycle_at(e));
        events.push(TimerEvent::Running(self.cycle.copy()));
        if self.cycle.name != next.name {
            let mut ended = self.cycle.copy();
            ended.duration = 0;
            events.push(TimerEvent::Ended(ended));
            events.push(TimerEvent::Began(next.copy()));
        }
        self.cycle = next;
        proof {
            assert(events@ =~= old(self).updated(now).1);
        }
        events
    }
}

/// The length of one pass through `cycles`.
fn total_of(cycles: &Vec<TimerCycle>) -> (t: usize)
    requires
        total_duration(cycles@) <= usize::MAX,
    ensures
        t == total_duration(cycles@),
{
    let mut t: usize = 0;
    let mut i: usize = 0;
    while i < cycles.len()
        invariant
            i <= cycles@.len(),
            t + total_from(cycles@, i as int) == total_duration(cycles@),
            total_duration(cycles@) <= usize::MAX,
        decreases cycles@.len() - i,
    {
        t = t + cycles[i].duration;
        i = i + 1;
    }
    t
}

/// The cycle that offset `r` of a pass falls in, with its remaining time.
fn cycle_at_offset(cycles: &Vec<TimerCycle>, r: usize) -> (c: TimerCycle)
    requires
        r < total_duration(cycles@),
    ensures
        c.name == cycles@[locate(cycles@, 0, r as int).0].name,
        c.duration == locate(cycles@, 0, r as int).1,
{
    let mut i: usize = 0;
    let mut rest: usize = r;
    assert(cycles@.len() > 0);
    loop
        invariant
            i < cycles.len(),
            rest < total_from(cycles@, i as int),
            locate(cycles@, 0, r as int) == locate(cycles@, i as int, rest as int),
        decreases cycles@.len() - i,
    {
        if rest < cycles[i].duration {
            return TimerCycle { name: cycles[i].name.clone(), duration: cycles[i].duration - rest };
        }
        rest = rest - cycles[i].duration;
        i = i + 1;
        assert(total_from(cycles@, i as int) > 0);
        if i >= cycles.len() {
            assert(total_from(cycles@, i as int) == 0);
        }
    }
}

/// Pausing a running timer and resuming it later keeps the current cycle and
/// its remaining time, and the elapsed time read at the moment of resuming is
/// the elapsed time read at the moment of pausing: no time is lost or gained.
pub proof fn lemma_pause_resume_keeps_position(t: Timer, paused_at: usize, resumed_at: usize)
    requires
        t.wf(),
        t.state == TimerState::Running,
    ensures
        t.paused(paused_at).0.resumed(resumed_at).0.state == TimerState::Running,
        t.paused(paused_at).0.resumed(resumed_at).0.cycle == t.cycle,
        t.paused(paused_at).0.resumed(resumed_at).0.cycles_count == t.cycles_count,
        t.paused(paused_at).0.resumed(resumed_at).0.elapsed_at(resumed_at) == t.elapsed_at(
            paused_at,
        ),
{
}

/// Stopping a running timer puts it back on the first configured cycle with
/// the configured loop setting, whatever cycle and loop counter it had.
pub proof fn lemma_stop_resets(t: Timer)
    requires
        t.wf(),
        t.state == TimerState::Running,
    ensures
        t.stopped().0.state == TimerState::Stopped,
        t.stopped().0.cycle == t.first_cycle(),
        t.stopped().0.cycles_count == t.config.cycles_count,
        t.stopped().0.elapsed == 0,
{
}

/// Once a timer with a fixed loop setting of `n` passes has run for at least
/// `n` times the length of a pass, an update stops it and emits no events.
pub proof fn lemma_fixed_loop_stops(t: Timer, now: usize, n: usize)
    requires
        t.wf(),
        t.state == TimerState::Running,
        t.cycles_count == TimerLoop::Fixed(n),
        t.elapsed_at(now) >= total_duration(t.cycles()) * n,
    ensures
        t.updated(now).0.state == TimerState::Stopped,
        t.updated(now).1.len() == 0,
{
}

/// An update leaves a paused or stopped timer exactly as it was and emits
/// no events.
pub proof fn lemma_update_idle(t: Timer, now: usize)
    requires
        t.state != TimerState::Running,
    ensures
        t.updated(now).0 == t,
        t.updated(now).1.len() == 0,
{
}

} // verus!
