//! The decisions of the simulation task: when to advance a generation, when to
//! wait for a resume signal, and when to stop. The task's driver observes the
//! pause channel and the clock, hands each observation here as an [`Event`],
//! and carries out the [`Action`] that comes back.
use vstd::prelude::*;

verus! {

/// The scheduler's mode.
#[derive(Clone, Copy, Debug, PartialEq, Eq, Structural)]
pub enum Phase {
    /// Generations advance on the fixed interval.
    Running,
    /// Nothing advances until a resume signal or shutdown arrives.
    Paused,
    /// The pause channel was closed; the task has ended for good.
    Stopped,
}

/// What the driver observed.
#[derive(Clone, Copy, Debug, PartialEq, Eq, Structural)]
pub enum Event {
    /// No signal was pending; `now_ms` is the monotonic clock in milliseconds.
    Tick { now_ms: u64 },
    /// A pause/resume toggle arrived on the channel.
    Toggle,
    /// The channel was closed: the designated shutdown signal.
    Closed,
}

/// What the driver is to do next.
#[derive(Clone, Copy, Debug, PartialEq, Eq, Structural)]
pub enum Action {
    /// Nothing; observe again.
    Idle,
    /// Compute the next generation of the shared grid into the scratch grid,
    /// then swap the two.
    Step,
    /// Block on the channel until the next signal or its closing.
    AwaitSignal,
    /// Leave the loop.
    Exit,
}

/// The scheduler's state: its phase, the clock reading of the tick that started
/// the last generation (the interval is timed from there, so the time a step
/// takes does not stretch the cadence), and the fixed step interval.
#[derive(Clone, Copy, Debug, PartialEq, Eq, Structural)]
pub struct Scheduler {
    pub phase: Phase,
    pub last_step_ms: u64,
    pub interval_ms: u64,
}

/// The interval has elapsed at `now` since the tick that started the last generation.
pub open spec fn interval_elapsed(s: Scheduler, now: int) -> bool {
    now >= s.last_step_ms + s.interval_ms
}

/// The state machine: the next state and the action for state `s` and event `e`.
pub open spec fn transition(s: Scheduler, e: Event) -> (Scheduler, Action) {
    match s.phase {
        Phase::Stopped => (s, Action::Exit),
        Phase::Running => match e {
            Event::Closed => (Scheduler { phase: Phase::Stopped, ..s }, Action::Exit),
            Event::Toggle => (Scheduler { phase: Phase::Paused, ..s }, Action::AwaitSignal),
            Event::Tick { now_ms } => if interval_elapsed(s, now_ms as int) {
                (Scheduler { last_step_ms: now_ms, ..s }, Action::Step)
            } else {
                (s, Action::Idle)
            },
        },
        Phase::Paused => match e {
            Event::Closed => (Scheduler { phase: Phase::Stopped, ..s }, Action::Exit),
            Event::Toggle => (Scheduler { phase: Phase::Running, ..s }, Action::Idle),
            Event::Tick { .. } => (s, Action::AwaitSignal),
        },
    }
}

/// Feeds `events` to the state machine from `s`: the final state and the number
/// of generations advanced on the way.
pub open spec fn run(s: Scheduler, events: Seq<Event>) -> (Scheduler, nat)
    decreases events.len(),
{
    if events.len() == 0 {
        (s, 0)
    } else {
        let (s1, a) = transition(s, events[0]);
        let (s2, n) = run(s1, events.drop_first());
        (s2, n + if a == Action::Step {
            1nat
        } else {
            0nat
        })
    }
}

/// One tick event for each clock reading, in order.
pub open spec fn ticks(times: Seq<u64>) -> Seq<Event> {
    times.map_values(|t: u64| Event::Tick { now_ms: t })
}

/// The clock readings never go backwards.
pub open spec fn nondecreasing(times: Seq<u64>) -> bool {
    forall|i: int, j: int| 0 <= i <= j < times.len() ==> times[i] <= times[j]
}

impl Scheduler {
    /// A running scheduler whose interval starts at `now_ms`.
    pub fn new(interval_ms: u64, now_ms: u64) -> (r: Scheduler)
        ensures
            r == (Scheduler { phase: Phase::Running, last_step_ms: now_ms, interval_ms }),
    {
        Scheduler { phase: Phase::Running, last_step_ms: now_ms, interval_ms }
    }
}

/// One turn of the simulation task: updates the scheduler for `event` and
/// returns what the driver must do.
pub fn sim_task(sched: &mut Scheduler, event: Event) -> (action: Action)
    ensures
        (*final(sched), action) == transition(*old(sched), event),
{
    match sched.phase {
        Phase::Stopped => Action::Exit,
        Phase::Running => match event {
            Event::Closed => {
                sched.phase = Phase::Stopped;
                Action::Exit
            },
            Event::Toggle => {
                sched.phase = Phase::Paused;
                Action::AwaitSignal
            },
            Event::Tick { now_ms } => {
                if now_ms >= sched.last_step_ms && now_ms - sched.last_step_ms >= sched.interval_ms {
                    sched.last_step_ms = now_ms;
                    Action::Step
                } else {
                    Action::Idle
                }
            },
        },
        Phase::Paused => match event {
            Event::Closed => {
                sched.phase = Phase::Stopped;
                Action::Exit
            },
            Event::Toggle => {
                sched.phase = Phase::Running;
                Action::Idle
            },
            Event::Tick { .. } => Action::AwaitSignal,
        },
    }
}

/// Feeding `a` and then `b` is feeding `a + b`.
pub proof fn lemma_run_append(s: Scheduler, a: Seq<Event>, b: Seq<Event>)
    ensures
        run(s, a + b) == (run(run(s, a).0, b).0, run(s, a).1 + run(run(s, a).0, b).1),
    decreases a.len(),
{
    if a.len() == 0 {
        assert(a + b =~= b);
    } else {
        assert((a + b).drop_first() =~= a.drop_first() + b);
        lemma_run_append(transition(s, a[0]).0, a.drop_first(), b);
    }
}

/// While paused, any number of clock ticks advances nothing and changes nothing.
pub proof fn lemma_paused_ticks_are_inert(s: Scheduler, times: Seq<u64>)
    requires
        s.phase == Phase::Paused,
    ensures
        run(s, ticks(times)) == (s, 0nat),
    decreases times.len(),
{
    if times.len() > 0 {
        assert(ticks(times).drop_first() =~= ticks(times.drop_first()));
        lemma_paused_ticks_are_inert(s, times.drop_first());
    }
}

/// While running, ticks that all come before the interval has elapsed advance nothing.
proof fn lemma_early_ticks_are_inert(s: Scheduler, times: Seq<u64>)
    requires
        s.phase == Phase::Running,
        forall|i: int| 0 <= i < times.len() ==> !interval_elapsed(s, #[trigger] times[i] as int),
    ensures
        run(s, ticks(times)) == (s, 0nat),
    decreases times.len(),
{
    if times.len() > 0 {
        assert(ticks(times).drop_first() =~= ticks(times.drop_first()));
        lemma_early_ticks_are_inert(s, times.drop_first());
    }
}

/// While running, ticks that reach the end of the interval but span less than
/// one interval among themselves advance exactly one generation.
proof fn lemma_one_interval_one_step(s: Scheduler, times: Seq<u64>)
    requires
        s.phase == Phase::Running,
        times.len() > 0,
        nondecreasing(times),
        interval_elapsed(s, times.last() as int),
        times.last() < times[0] + s.interval_ms,
    ensures
        run(s, ticks(times)).1 == 1,
        run(s, ticks(times)).0.phase == Phase::Running,
    decreases times.len(),
{
    let rest = times.drop_first();
    assert(ticks(times).drop_first() =~= ticks(rest));
    if interval_elapsed(s, times[0] as int) {
        let s1 = Scheduler { last_step_ms: times[0], ..s };
        assert forall|i: int| 0 <= i < rest.len() implies !interval_elapsed(s1, #[trigger] rest[i] as int) by {
            assert(rest[i] == times[i + 1]);
            assert(times[i + 1] <= times.last());
        }
        lemma_early_ticks_are_inert(s1, rest);
    } else {
        assert(rest.last() == times.last());
        assert(times[0] <= rest[0]);
        lemma_one_interval_one_step(s, rest);
    }
}

/// Pausing holds the grid still and resuming restarts the cadence: after a
/// pause signal, clock ticks advance no generation however much time passes;
/// after the resume signal, ticks that cover the next elapsed interval, and no
/// more than one interval, advance exactly one generation.
pub proof fn lemma_pause_then_resume(s: Scheduler, paused: Seq<u64>, resumed: Seq<u64>)
    requires
        s.phase == Phase::Running,
        resumed.len() > 0,
        nondecreasing(resumed),
        interval_elapsed(s, resumed.last() as int),
        resumed.last() < resumed[0] + s.interval_ms,
    ensures
        run(s, seq![Event::Toggle] + ticks(paused)).1 == 0,
        run(s, seq![Event::Toggle] + ticks(paused)).0.phase == Phase::Paused,
        run(s, seq![Event::Toggle] + ticks(paused) + seq![Event::Toggle] + ticks(resumed)).1 == 1,
{
    let p = Scheduler { phase: Phase::Paused, ..s };
    let r = Scheduler { phase: Phase::Running, ..s };
    let toggle = seq![Event::Toggle];
    assert(toggle.drop_first() =~= Seq::<Event>::empty());
    assert(run(p, Seq::<Event>::empty()) == (p, 0nat));
    assert(run(r, Seq::<Event>::empty()) == (r, 0nat));
    assert(run(s, toggle) == (p, 0nat));
    assert(run(p, toggle) == (r, 0nat));
    lemma_paused_ticks_are_inert(p, paused);
    lemma_run_append(s, toggle, ticks(paused));
    lemma_one_interval_one_step(r, resumed);
    lemma_run_append(p, toggle, ticks(resumed));
    lemma_run_append(s, toggle + ticks(paused), toggle + ticks(resumed));
    assert(toggle + ticks(paused) + toggle + ticks(resumed) =~= (toggle + ticks(paused)) + (toggle
        + ticks(resumed)));
}

} // verus!
