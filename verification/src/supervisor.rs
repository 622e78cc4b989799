//! The control supervisor and the per-tick decisions of the zone loops.
//!
//! The supervisor owns every hardware session and one task per zone. Its
//! protocol is: record the first terminal event (an external interruption or
//! any task's end) as the process outcome, request cancellation of every
//! remaining task, keep waiting until all tasks have actually finished, and
//! only then release the sessions — so every restore sequence runs before
//! the process reports its outcome.
//!
//! The unverified edge performs the waiting, the sleeping and the hardware
//! calls; everything it must decide — which sessions to open, what one tick
//! writes, how retries proceed, what the first event means — it asks this
//! module.

use vstd::prelude::*;
use crate::aggregate::{agg_spec, agg_wf, aggregate, sorted_desc};
use crate::config::{Config, Zone};
use crate::curve::{compute, duty_for, steps_wf};
use crate::error::Error;
use crate::session::{FanMode, HwCommand, IpmiSession, setup_commands_spec,
    teardown_commands_spec};

verus! {

/// What the source-reading edge produced for one aggregation attempt: every
/// configured source's reading, or a failure of any of them (which fails the
/// whole attempt).
pub enum AttemptOutcome {
    Readings(Vec<u8>),
    Failed,
}

/// The readings of a successful attempt.
pub open spec fn attempt_readings(a: AttemptOutcome) -> Seq<u8> {
    match a {
        AttemptOutcome::Readings(v) => v@,
        AttemptOutcome::Failed => Seq::empty(),
    }
}

/// Index of the first successful attempt at or after `i`, or `a.len()`.
pub open spec fn first_success(a: Seq<AttemptOutcome>, i: int) -> int
    decreases a.len() - i,
{
    if i < 0 || i >= a.len() {
        a.len() as int
    } else if a[i] is Readings {
        i
    } else {
        first_success(a, i + 1)
    }
}

/// Hardware zone indices contributed by the first `i` zones that name this
/// session, in configuration order.
pub open spec fn restore_zones_prefix(name: Seq<char>, zones: Seq<Zone>, i: int) -> Seq<u8>
    decreases i,
{
    if i <= 0 {
        Seq::empty()
    } else {
        restore_zones_prefix(name, zones, i - 1) + if zones[i - 1].session.0@ == name {
            zones[i - 1].ipmi_zones@
        } else {
            Seq::empty()
        }
    }
}

/// Every hardware zone index a session of this name is responsible for.
pub open spec fn restore_zones_spec(name: Seq<char>, zones: Seq<Zone>) -> Seq<u8> {
    restore_zones_prefix(name, zones, zones.len() as int)
}

/// The sessions actually worth opening, among the first `i` configured ones:
/// each name paired with its restore indices, skipping sessions no zone uses.
pub open spec fn session_plans_prefix(c: Config, i: int) -> Seq<(Seq<char>, Seq<u8>)>
    decreases i,
{
    if i <= 0 {
        Seq::empty()
    } else {
        let name = c.sessions.0@[i - 1].0@;
        session_plans_prefix(c, i - 1) + if restore_zones_spec(name, c.zones@).len() > 0 {
            seq![(name, restore_zones_spec(name, c.zones@))]
        } else {
            Seq::empty()
        }
    }
}

/// The full session plan of a configuration.
pub open spec fn session_plans_spec(c: Config) -> Seq<(Seq<char>, Seq<u8>)> {
    session_plans_prefix(c, c.sessions.0@.len() as int)
}

/// One session the supervisor will open: its name and the zone indices it
/// must restore on release.
pub struct SessionPlan {
    pub name: String,
    pub restore_zones: Vec<u8>,
}

/// All hardware zone indices of the zones that name this session.
#[verifier::loop_isolation(false)]
fn restore_zones_for(name: &String, zones: &Vec<Zone>) -> (r: Vec<u8>)
    ensures
        r@ == restore_zones_spec(name@, zones@),
{
    let mut out: Vec<u8> = Vec::new();
    let mut i: usize = 0;
    while i < zones.len()
        invariant
            i <= zones@.len(),
            out@ == restore_zones_prefix(name@, zones@, i as int),
        decreases zones@.len() - i,
    {
        if zones[i].session.0 == *name {
            let mut k: usize = 0;
            while k < zones[i].ipmi_zones.len()
                invariant
                    i < zones@.len(),
                    k <= zones@[i as int].ipmi_zones@.len(),
                    out@ == restore_zones_prefix(name@, zones@, i as int)
                        + zones@[i as int].ipmi_zones@.take(k as int),
                decreases zones@[i as int].ipmi_zones@.len() - k,
            {
                out.push(zones[i].ipmi_zones[k]);
                proof {
                    assert(zones@[i as int].ipmi_zones@.take(k as int + 1)
                        =~= zones@[i as int].ipmi_zones@.take(k as int).push(
                            zones@[i as int].ipmi_zones@[k as int]));
                    assert(out@ =~= restore_zones_prefix(name@, zones@, i as int)
                        + zones@[i as int].ipmi_zones@.take(k as int + 1));
                }
                k = k + 1;
            }
            proof {
                assert(zones@[i as int].ipmi_zones@.take(zones@[i as int].ipmi_zones@.len() as int)
                    =~= zones@[i as int].ipmi_zones@);
                assert(out@ =~= restore_zones_prefix(name@, zones@, i as int + 1));
            }
        } else {
            proof {
                assert(out@ =~= restore_zones_prefix(name@, zones@, i as int + 1));
            }
        }
        i = i + 1;
    }
    out
}

/// The whole control application: the validated configuration and the
/// sessions the supervisor owns.
pub struct MainApp {
    pub config: Config,
    pub sessions: Vec<IpmiSession>,
}

/// Plan which sessions to open: one per configured session that at least one
/// zone references, carrying the union of those zones' hardware indices —
/// sessions nothing uses are never opened.
#[verifier::loop_isolation(false)]
pub fn session_plans(config: &Config) -> (plans: Vec<SessionPlan>)
    ensures
        plans@.len() == session_plans_spec(*config).len(),
        forall|k: int| 0 <= k < plans@.len()
            ==> (#[trigger] plans@[k]).name@ == session_plans_spec(*config)[k].0
                && plans@[k].restore_zones@ == session_plans_spec(*config)[k].1,
{
    let mut plans: Vec<SessionPlan> = Vec::new();
    let mut s: usize = 0;
    while s < config.sessions.0.len()
        invariant
            s <= config.sessions.0@.len(),
            plans@.len() == session_plans_prefix(*config, s as int).len(),
            forall|k: int| 0 <= k < plans@.len()
                ==> (#[trigger] plans@[k]).name@ == session_plans_prefix(*config, s as int)[k].0
                    && plans@[k].restore_zones@
                        == session_plans_prefix(*config, s as int)[k].1,
        decreases config.sessions.0@.len() - s,
    {
        let name = &config.sessions.0[s].0;
        let rz = restore_zones_for(name, &config.zones);
        if rz.len() > 0 {
            plans.push(SessionPlan { name: name.clone(), restore_zones: rz });
        }
        s = s + 1;
    }
    plans
}

/// How a finished zone task ended, as the runtime reports it.
#[derive(Clone, Copy, Debug, PartialEq, Eq, Structural)]
pub enum TaskEnd {
    /// The loop returned normally (it never does on its own, but a cancelled
    /// await surfaces this way on some runtimes).
    Completed,
    /// The loop surfaced a fatal error.
    Failed(Error),
    /// The task acknowledged a cancellation request.
    Cancelled,
    /// The task panicked or was torn down abnormally.
    Panicked,
}

/// A terminal event the supervisor waits on.
#[derive(Clone, Copy, Debug, PartialEq, Eq, Structural)]
pub enum SupEvent {
    /// The process received an external interruption.
    Interrupted,
    /// Some zone task finished.
    TaskFinished(TaskEnd),
}

/// The outcome one event is recorded as: a clean interruption and a
/// cancelled or normally-completed task count as success; a failed task
/// carries its error, and an abnormal end is an error of its own.
pub open spec fn event_outcome(ev: SupEvent) -> Result<(), Error> {
    match ev {
        SupEvent::Interrupted => Ok(()),
        SupEvent::TaskFinished(end) => match end {
            TaskEnd::Completed => Ok(()),
            TaskEnd::Cancelled => Ok(()),
            TaskEnd::Failed(e) => Err(e),
            TaskEnd::Panicked => Err(Error::TaskTerminatedAbnormally),
        },
    }
}

pub fn event_outcome_value(ev: SupEvent) -> (r: Result<(), Error>)
    ensures
        r == event_outcome(ev),
{
    match ev {
        SupEvent::Interrupted => Ok(()),
        SupEvent::TaskFinished(end) => match end {
            TaskEnd::Completed => Ok(()),
            TaskEnd::Cancelled => Ok(()),
            TaskEnd::Failed(e) => Err(e),
            TaskEnd::Panicked => Err(Error::TaskTerminatedAbnormally),
        },
    }
}

/// The supervisor's shutdown bookkeeping: how many tasks are still running,
/// the single-assignment slot for the first terminal outcome, and whether
/// cancellation has been requested.
pub struct Supervisor {
    pub tasks_remaining: usize,
    pub first_outcome: Option<Result<(), Error>>,
    pub cancel_requested: bool,
}

impl Supervisor {
    /// The state after recording one event: a finished task is subtracted,
    /// the outcome slot is filled only if still empty, and cancellation is
    /// (re)requested.
    pub open spec fn spec_on_event(self, ev: SupEvent) -> Supervisor {
        Supervisor {
            tasks_remaining: if ev is TaskFinished {
                (self.tasks_remaining - 1) as usize
            } else {
                self.tasks_remaining
            },
            first_outcome: if self.first_outcome is None {
                Some(event_outcome(ev))
            } else {
                self.first_outcome
            },
            cancel_requested: true,
        }
    }

    /// The process result: the first recorded outcome, success if the tasks
    /// all drained without one (a plain interruption-free run-down).
    pub open spec fn spec_outcome(self) -> Result<(), Error> {
        match self.first_outcome {
            Some(o) => o,
            None => Ok(()),
        }
    }

    pub fn new(tasks: usize) -> (r: Self)
        ensures
            r.tasks_remaining == tasks,
            r.first_outcome is None,
            !r.cancel_requested,
    {
        Supervisor { tasks_remaining: tasks, first_outcome: None, cancel_requested: false }
    }

    /// Record one terminal event. Returns whether to broadcast a
    /// cancellation request — always, since after any terminal event every
    /// remaining task must wind down.
    pub fn on_event(&mut self, ev: SupEvent) -> (cancel: bool)
        requires
            ev is TaskFinished ==> old(self).tasks_remaining > 0,
        ensures
            *final(self) == old(self).spec_on_event(ev),
            cancel,
    {
        match ev {
            SupEvent::TaskFinished(_) => {
                self.tasks_remaining = self.tasks_remaining - 1;
            },
            SupEvent::Interrupted => {},
        }
        if self.first_outcome.is_none() {
            self.first_outcome = Some(event_outcome_value(ev));
        }
        self.cancel_requested = true;
        true
    }

    /// Whether every spawned task has finished (only then may the sessions
    /// be released).
    pub fn done(&self) -> (r: bool)
        ensures
            r == (self.tasks_remaining == 0),
    {
        self.tasks_remaining == 0
    }

    pub fn outcome(&self) -> (r: Result<(), Error>)
        ensures
            r == self.spec_outcome(),
    {
        match self.first_outcome {
            Some(o) => o,
            None => Ok(()),
        }
    }
}

/// The supervisor state after processing a whole event sequence in order.
pub open spec fn sup_run(tasks: usize, events: Seq<SupEvent>) -> Supervisor
    decreases events.len(),
{
    if events.len() == 0 {
        Supervisor { tasks_remaining: tasks, first_outcome: None, cancel_requested: false }
    } else {
        sup_run(tasks, events.drop_last()).spec_on_event(events.last())
    }
}

/// The shutdown law: when the first terminal event is a zone loop's fatal
/// error, the supervisor requests cancellation of every remaining task, no
/// later event changes the recorded outcome, and the process result equals
/// that first error.
pub proof fn lemma_first_error_wins(tasks: usize, events: Seq<SupEvent>, e: Error)
    requires
        events.len() > 0,
        events[0] == SupEvent::TaskFinished(TaskEnd::Failed(e)),
    ensures
        sup_run(tasks, events).first_outcome == Some(Err::<(), Error>(e)),
        sup_run(tasks, events).cancel_requested,
        sup_run(tasks, events).spec_outcome() == Err::<(), Error>(e),
    decreases events.len(),
{
    if events.len() == 1 {
        assert(events.drop_last().len() == 0);
    } else {
        lemma_first_error_wins(tasks, events.drop_last(), e);
    }
}

/// How many of the first `i` events are task endings.
pub open spec fn task_events_count(events: Seq<SupEvent>, i: int) -> int
    decreases i,
{
    if i <= 0 {
        0
    } else {
        task_events_count(events, i - 1) + if events[i - 1] is TaskFinished {
            1int
        } else {
            0int
        }
    }
}

proof fn lemma_task_count_mono(events: Seq<SupEvent>, j: int, k: int)
    requires
        j <= k,
    ensures
        task_events_count(events, j) <= task_events_count(events, k),
    decreases k - j,
{
    if j < k {
        lemma_task_count_mono(events, j, k - 1);
    }
}

impl MainApp {
    /// Build the application: one session per plan entry, each recording the
    /// fan mode the hardware reported for it (`modes`, parallel to the
    /// plans) and the commands to issue before any zone work.
    #[verifier::loop_isolation(false)]
    pub fn new(config: Config, modes: &Vec<FanMode>) -> (r: (MainApp, Vec<Vec<HwCommand>>))
        requires
            modes@.len() == session_plans_spec(config).len(),
        ensures
            r.0.config == config,
            r.0.sessions@.len() == session_plans_spec(config).len(),
            forall|k: int| 0 <= k < r.0.sessions@.len()
                ==> (#[trigger] r.0.sessions@[k]).name@ == session_plans_spec(config)[k].0
                    && r.0.sessions@[k].orig_fan_mode == modes@[k]
                    && r.0.sessions@[k].restore_zones@ == session_plans_spec(config)[k].1,
            r.1@.len() == session_plans_spec(config).len(),
            forall|k: int| 0 <= k < r.1@.len()
                ==> (#[trigger] r.1@[k])@ == setup_commands_spec(modes@[k]),
    {
        let mut plans = session_plans(&config);
        let ghost plans0: Seq<SessionPlan> = plans@;
        let mut sessions: Vec<IpmiSession> = Vec::new();
        let mut setups: Vec<Vec<HwCommand>> = Vec::new();
        while plans.len() > 0
            invariant
                sessions@.len() == setups@.len(),
                sessions@.len() + plans@.len() == plans0.len(),
                plans@ == plans0.subrange(sessions@.len() as int, plans0.len() as int),
                forall|k: int| 0 <= k < sessions@.len()
                    ==> (#[trigger] sessions@[k]).name@ == plans0[k].name@
                        && sessions@[k].orig_fan_mode == modes@[k]
                        && sessions@[k].restore_zones@ == plans0[k].restore_zones@,
                forall|k: int| 0 <= k < setups@.len()
                    ==> (#[trigger] setups@[k])@ == setup_commands_spec(modes@[k]),
            decreases plans@.len(),
        {
            let ghost done: int = sessions@.len() as int;
            let plan = plans.remove(0);
            proof {
                assert(plan == plans0[done]);
                assert(plans@ =~= plans0.subrange(done + 1, plans0.len() as int));
            }
            let mode = modes[sessions.len()];
            let (session, setup) = IpmiSession::new(plan.name, mode, plan.restore_zones);
            sessions.push(session);
            setups.push(setup);
        }
        (MainApp { config, sessions }, setups)
    }

    /// One aggregation pass under the zone's retry policy, over the outcome
    /// the source-reading edge produced for each potential attempt. Returns
    /// the aggregated temperature of the first successful attempt together
    /// with how many attempts were made; when every allowed attempt failed,
    /// the retries are exhausted.
    #[verifier::loop_isolation(false)]
    pub fn get_temp(zone: &Zone, attempts: &Vec<AttemptOutcome>) -> (r: (
        Result<u8, Error>,
        usize,
    ))
        requires
            attempts@.len() == zone.retries.0 + 1,
            agg_wf(zone.aggregation),
            forall|i: int| 0 <= i < attempts@.len() && (#[trigger] attempts@[i]) is Readings
                ==> 1 <= attempt_readings(attempts@[i]).len() <= 0xFFFF_FFFF,
        ensures
            r.1 as int == if first_success(attempts@, 0) < attempts@.len() {
                first_success(attempts@, 0) + 1
            } else {
                attempts@.len() as int
            },
            first_success(attempts@, 0) == attempts@.len()
                ==> r.0 == Err::<u8, Error>(Error::RetryExhausted),
            first_success(attempts@, 0) < attempts@.len() ==> (r.0 matches Ok(v)
                && exists|s: Seq<u8>|
                    sorted_desc(s) && s.to_multiset() == attempt_readings(
                        attempts@[first_success(attempts@, 0)]).to_multiset()
                        && v as int == agg_spec(s, zone.aggregation)),
    {
        let mut idx: usize = 0;
        while idx < attempts.len()
            invariant
                idx <= attempts@.len(),
                first_success(attempts@, 0) == first_success(attempts@, idx as int),
            decreases attempts@.len() - idx,
        {
            match &attempts[idx] {
                AttemptOutcome::Readings(v) => {
                    let val = aggregate(v, zone.aggregation);
                    return (Ok(val), idx + 1);
                },
                AttemptOutcome::Failed => {},
            }
            idx = idx + 1;
        }
        (Err(Error::RetryExhausted), attempts.len())
    }

    /// The writes one tick performs for the first `k` of a zone's hardware
    /// indices, given the freshly computed target: exactly the indices whose
    /// current duty cycle differs are written.
    pub open spec fn duty_writes_prefix(indices: Seq<u8>, current: Seq<u8>, target: u8,
        k: int) -> Seq<HwCommand>
        decreases k,
    {
        if k <= 0 {
            Seq::empty()
        } else {
            Self::duty_writes_prefix(indices, current, target, k - 1)
                + if current[k - 1] != target {
                seq![HwCommand::SetDutyCycle { zone: indices[k - 1], dcycle: target }]
            } else {
                Seq::empty()
            }
        }
    }

    /// One tick's hardware decision for a zone: compute the duty cycle the
    /// curve assigns to the aggregated temperature, compare it with every
    /// controlled index's current value (read back each tick rather than
    /// cached), and write only where it differs.
    #[verifier::loop_isolation(false)]
    pub fn update_duty_cycle(zone: &Zone, temp: u8, current: &Vec<u8>) -> (writes: Vec<
        HwCommand,
    >)
        requires
            current@.len() == zone.ipmi_zones@.len(),
        ensures
            steps_wf(zone.steps@) ==> writes@ == Self::duty_writes_prefix(zone.ipmi_zones@,
                current@, duty_for(temp, zone.steps@) as u8, zone.ipmi_zones@.len() as int),
    {
        let target = compute(temp, &zone.steps);
        let mut writes: Vec<HwCommand> = Vec::new();
        let mut k: usize = 0;
        while k < zone.ipmi_zones.len()
            invariant
                k <= zone.ipmi_zones@.len(),
                writes@ == Self::duty_writes_prefix(zone.ipmi_zones@, current@, target,
                    k as int),
            decreases zone.ipmi_zones@.len() - k,
        {
            if current[k] != target {
                writes.push(HwCommand::SetDutyCycle { zone: zone.ipmi_zones[k], dcycle: target });
                proof {
                    assert(writes@ =~= Self::duty_writes_prefix(zone.ipmi_zones@, current@,
                        target, k as int + 1));
                }
            } else {
                proof {
                    assert(writes@ =~= Self::duty_writes_prefix(zone.ipmi_zones@, current@,
                        target, k as int + 1));
                }
            }
            k = k + 1;
        }
        writes
    }

    /// Drive the shutdown protocol over the terminal events in arrival
    /// order: record the first as the process outcome, request cancellation
    /// after every event, and — only once every task has finished — compute
    /// each owned session's release sequence, before the outcome is
    /// reported.
    #[verifier::loop_isolation(false)]
    pub fn run(&self, events: &Vec<SupEvent>) -> (r: (Result<(), Error>, Vec<Vec<HwCommand>>))
        requires
            task_events_count(events@, events@.len() as int) <= self.config.zones@.len(),
        ensures
            r.0 == sup_run((self.config.zones@.len()) as usize, events@).spec_outcome(),
            r.1@.len() == self.sessions@.len(),
            forall|k: int| 0 <= k < r.1@.len() ==> (#[trigger] r.1@[k])@
                == teardown_commands_spec(self.sessions@[k].orig_fan_mode,
                    self.sessions@[k].restore_zones@),
    {
        let tasks = self.config.zones.len();
        let mut sup = Supervisor::new(tasks);
        let mut i: usize = 0;
        while i < events.len()
            invariant
                i <= events@.len(),
                sup == sup_run(tasks, events@.take(i as int)),
                sup.tasks_remaining == tasks - task_events_count(events@, i as int),
            decreases events@.len() - i,
        {
            let ev = events[i];
            proof {
                lemma_task_count_mono(events@, i as int + 1, events@.len() as int);
            }
            sup.on_event(ev);
            proof {
                assert(events@.take(i as int + 1).drop_last() =~= events@.take(i as int));
                assert(events@.take(i as int + 1).last() == events@[i as int]);
            }
            i = i + 1;
        }
        proof {
            assert(events@.take(events@.len() as int) =~= events@);
        }
        let outcome = sup.outcome();
        let mut teardowns: Vec<Vec<HwCommand>> = Vec::new();
        let mut k: usize = 0;
        while k < self.sessions.len()
            invariant
                k <= self.sessions@.len(),
                teardowns@.len() == k,
                forall|j: int| 0 <= j < k as int ==> (#[trigger] teardowns@[j])@
                    == teardown_commands_spec(self.sessions@[j].orig_fan_mode,
                        self.sessions@[j].restore_zones@),
            decreases self.sessions@.len() - k,
        {
            teardowns.push(self.sessions[k].teardown_commands());
            k = k + 1;
        }
        (outcome, teardowns)
    }
}

} // verus!
