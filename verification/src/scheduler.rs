//! The loop that ties the pipeline together, as a machine of two states.
//!
//! Between cycles the machine is idle. Woken, it runs one cycle: it has the
//! sensor read, has the sample emitted and then sent if there is one, and
//! goes back to sleep. It performs none of this itself. Each step hands the
//! caller one action, and the caller hands back what came of it. Whatever
//! comes of it, the cycle ends in a sleep and the next one follows: no
//! failure of the sensor or of the endpoint leaves the machine anywhere but
//! idle.

use vstd::prelude::*;

use crate::datum::{validated, Datum, Reading, CO2_FLOOR};
use crate::error::{AcquisitionError, Error, ValidationError};
use crate::influxdb::{classified, made, DeliveryOutcome, InfluxDBClient, InfluxDBClientView};
use crate::settings::Settings;

verus! {

/// How far a cycle has come.
#[derive(Debug, Clone, Copy, PartialEq, Eq, Structural)]
pub enum Stage {
    /// The sensor is being read.
    Acquiring,
    /// This sample is being emitted.
    Emitting(Datum),
    /// The sample is being sent.
    Sending,
}

/// The state of the loop.
#[derive(Debug, Clone, Copy, PartialEq, Eq, Structural)]
pub enum State {
    /// Between two cycles.
    Idle,
    /// In a cycle.
    Cycling(Stage),
}

/// How a cycle ended.
#[derive(Debug, PartialEq, Eq)]
pub enum CycleOutcome {
    /// The sensor gave no reading. Nothing was emitted or sent.
    AcquisitionFailed(AcquisitionError),
    /// The sensor gave a reading that is not believed. Nothing was emitted
    /// or sent.
    ReadingRejected(ValidationError),
    /// The sample was emitted, and sending it ended as said.
    Sent(DeliveryOutcome),
}

/// What the caller reports to the machine.
#[derive(Debug, PartialEq, Eq)]
pub enum Event {
    /// The sleep is over, or the program has just started.
    Wake,
    /// The sensor was asked for a reading at the time `now`, in seconds
    /// since the Unix epoch, and this came of it.
    Acquired { outcome: Result<Reading, AcquisitionError>, now: u64 },
    /// The sample was emitted, as well as it could be.
    Emitted,
    /// The sample was sent. The endpoint answered with this status or,
    /// where no answer came, the transport gave this account.
    Responded(Result<u16, String>),
}

/// What the machine asks of the caller.
#[derive(Debug, PartialEq, Eq)]
pub enum Action {
    /// Read the sensor, and report with [`Event::Acquired`].
    Acquire,
    /// Emit the sample locally, and report with [`Event::Emitted`].
    Emit(Datum),
    /// Send the sample to the endpoint, once, and report with
    /// [`Event::Responded`].
    Send(Datum),
    /// The cycle is over. Log how it ended, sleep for so many seconds, and
    /// report with [`Event::Wake`].
    Sleep { seconds: u64, outcome: CycleOutcome },
}

/// How loud a log entry is.
#[derive(Debug, Clone, Copy, PartialEq, Eq, Structural)]
pub enum Level {
    Warn,
    Error,
}

/// One line for the log.
#[derive(Debug, PartialEq, Eq)]
pub struct LogEntry {
    pub level: Level,
    pub message: String,
}

/// One step of the loop: the state that follows `state` on `event`, and the
/// action asked for. An event that the state does not wait for changes
/// nothing and asks for nothing.
///
/// A sample is sent after it was emitted, whatever the emitting came to, and
/// every way out of a cycle is a sleep of `interval` seconds.
pub open spec fn transition(interval: u64, state: State, event: Event) -> (State, Option<Action>) {
    match (state, event) {
        (State::Idle, Event::Wake) => (State::Cycling(Stage::Acquiring), Some(Action::Acquire)),
        (State::Cycling(Stage::Acquiring), Event::Acquired { outcome, now }) => match outcome {
            Err(error) => (
                State::Idle,
                Some(
                    Action::Sleep {
                        seconds: interval,
                        outcome: CycleOutcome::AcquisitionFailed(error),
                    },
                ),
            ),
            Ok(reading) => match validated(reading, now) {
                Err(error) => (
                    State::Idle,
                    Some(
                        Action::Sleep {
                            seconds: interval,
                            outcome: CycleOutcome::ReadingRejected(error),
                        },
                    ),
                ),
                Ok(datum) => (State::Cycling(Stage::Emitting(datum)), Some(Action::Emit(datum))),
            },
        },
        (State::Cycling(Stage::Emitting(datum)), Event::Emitted) => (
            State::Cycling(Stage::Sending),
            Some(Action::Send(datum)),
        ),
        (State::Cycling(Stage::Sending), Event::Responded(response)) => (
            State::Idle,
            Some(
                Action::Sleep {
                    seconds: interval,
                    outcome: CycleOutcome::Sent(classified(response)),
                },
            ),
        ),
        _ => (state, None),
    }
}

/// A loop, as values.
pub struct SchedulerView {
    /// The seconds slept between two cycles.
    pub interval: u64,
    /// Where the loop stands.
    pub state: State,
}

/// The loop: how long it sleeps between cycles, and where it stands.
pub struct Scheduler {
    interval: u64,
    state: State,
}

impl View for Scheduler {
    type V = SchedulerView;

    closed spec fn view(&self) -> SchedulerView {
        SchedulerView { interval: self.interval, state: self.state }
    }
}

impl Scheduler {
    /// A loop that sleeps `interval` seconds between cycles, idle until it is
    /// first woken.
    pub fn new(interval: u64) -> (scheduler: Scheduler)
        ensures
            scheduler@ == (SchedulerView { interval, state: State::Idle }),
    {
        Scheduler { interval, state: State::Idle }
    }

    /// The seconds slept between two cycles.
    pub fn interval(&self) -> (seconds: u64)
        ensures
            seconds == self@.interval,
    {
        self.interval
    }

    /// Where the loop stands.
    pub fn state(&self) -> (state: State)
        ensures
            state == self@.state,
    {
        self.state
    }

    /// Takes one event and says what to do next, or nothing where the event
    /// is not the one waited for: see [`transition`].
    pub fn step(&mut self, event: Event) -> (action: Option<Action>)
        ensures
            final(self)@.interval == old(self)@.interval,
            (final(self)@.state, action) == transition(old(self)@.interval, old(self)@.state, event),
    {
        match (self.state, event) {
            (State::Idle, Event::Wake) => {
                self.state = State::Cycling(Stage::Acquiring);
                Some(Action::Acquire)
            },
            (State::Cycling(Stage::Acquiring), Event::Acquired { outcome, now }) => match outcome {
                Err(error) => {
                    self.state = State::Idle;
                    Some(
                        Action::Sleep {
                            seconds: self.interval,
                            outcome: CycleOutcome::AcquisitionFailed(error),
                        },
                    )
                },
                Ok(reading) => match Datum::validate(reading, now) {
                    Err(error) => {
                        self.state = State::Idle;
                        Some(
                            Action::Sleep {
                                seconds: self.interval,
                                outcome: CycleOutcome::ReadingRejected(error),
                            },
                        )
                    },
                    Ok(datum) => {
                        self.state = State::Cycling(Stage::Emitting(datum));
                        Some(Action::Emit(datum))
                    },
                },
            },
            (State::Cycling(Stage::Emitting(datum)), Event::Emitted) => {
                self.state = State::Cycling(Stage::Sending);
                Some(Action::Send(datum))
            },
            (State::Cycling(Stage::Sending), Event::Responded(response)) => {
                self.state = State::Idle;
                Some(
                    Action::Sleep {
                        seconds: self.interval,
                        outcome: CycleOutcome::Sent(DeliveryOutcome::classify(response)),
                    },
                )
            },
            _ => None,
        }
    }
}

impl CycleOutcome {
    /// How loud the end of the cycle is logged: a sensor that gave nothing
    /// or nothing believable and an endpoint out of reach are warnings, an
    /// endpoint that refused the sample is an error, and a delivered sample
    /// is not logged.
    pub open spec fn log_level(self) -> Option<Level> {
        match self {
            CycleOutcome::AcquisitionFailed(_) => Some(Level::Warn),
            CycleOutcome::ReadingRejected(_) => Some(Level::Warn),
            CycleOutcome::Sent(DeliveryOutcome::Delivered) => None,
            CycleOutcome::Sent(DeliveryOutcome::Rejected(_)) => Some(Level::Error),
            CycleOutcome::Sent(DeliveryOutcome::TransportFailed(_)) => Some(Level::Warn),
        }
    }

    /// The words that the end of the cycle is logged with.
    pub open spec fn log_text(self) -> Seq<char> {
        match self {
            CycleOutcome::AcquisitionFailed(error) => error.message_text(),
            CycleOutcome::ReadingRejected(error) => error.message_text(),
            CycleOutcome::Sent(outcome) => "Reqwest error: "@ + outcome.failure_text(),
        }
    }

    /// The line to log at the end of the cycle, if any.
    pub fn log_entry(&self) -> (entry: Option<LogEntry>)
        ensures
            match entry {
                Some(entry) => {
                    &&& self.log_level() == Some(entry.level)
                    &&& entry.message@ == self.log_text()
                },
                None => self.log_level() is None,
            },
    {
        match self {
            CycleOutcome::AcquisitionFailed(error) => Some(
                LogEntry { level: Level::Warn, message: error.message() },
            ),
            CycleOutcome::ReadingRejected(error) => Some(
                LogEntry { level: Level::Warn, message: error.message() },
            ),
            CycleOutcome::Sent(outcome) => match outcome.error() {
                None => None,
                Some(error) => {
                    let level = match outcome {
                        DeliveryOutcome::Rejected(_) => Level::Error,
                        _ => Level::Warn,
                    };
                    Some(LogEntry { level, message: error.message() })
                },
            },
        }
    }
}

/// Sets the pipeline up from the settings, before the first cycle: the
/// client for the endpoint, and the loop with the settings' interval, idle.
/// Settings that make no client end the program here, and nowhere later.
pub fn start(settings: &Settings) -> (result: Result<(InfluxDBClient, Scheduler), Error>)
    ensures
        match result {
            Ok((client, scheduler)) => {
                &&& made(
                    settings@.influxdb_url,
                    settings@.influxdb_token,
                    settings@.influxdb_bucket,
                    settings@.influxdb_org,
                ) == Ok::<InfluxDBClientView, Seq<char>>(client@)
                &&& scheduler@ == (SchedulerView {
                    interval: settings@.interval,
                    state: State::Idle,
                })
            },
            Err(error) => error matches Error::User { description } && made(
                settings@.influxdb_url,
                settings@.influxdb_token,
                settings@.influxdb_bucket,
                settings@.influxdb_org,
            ) == Err::<InfluxDBClientView, Seq<char>>(description@),
        },
{
    match InfluxDBClient::new(
        settings.influxdb_url(),
        settings.influxdb_token(),
        settings.influxdb_bucket(),
        settings.influxdb_org(),
    ) {
        Ok(client) => Ok((client, Scheduler::new(settings.interval()))),
        Err(error) => Err(error),
    }
}

/// What the world answers in the course of one cycle.
pub struct CycleInput {
    /// What comes of reading the sensor.
    pub outcome: Result<Reading, AcquisitionError>,
    /// The time of the reading, in seconds since the Unix epoch.
    pub now: u64,
    /// What comes of sending the sample. Asked only if one is sent.
    pub response: Result<u16, String>,
}

/// Whether a cycle has a sample to deliver: the sensor gave a reading, and
/// its CO2 concentration reaches the floor.
pub open spec fn has_sample(input: CycleInput) -> bool {
    input.outcome matches Ok(reading) && reading.co2 >= CO2_FLOOR
}

/// What the caller reports after it has done what was asked.
pub open spec fn report(action: Action, input: CycleInput) -> Event {
    match action {
        Action::Acquire => Event::Acquired { outcome: input.outcome, now: input.now },
        Action::Emit(_) => Event::Emitted,
        Action::Send(_) => Event::Responded(input.response),
        Action::Sleep { .. } => Event::Wake,
    }
}

/// The rest of a cycle as the caller drives it: it does what `action` asks,
/// reports, and goes on with the action that the machine answers with, until
/// it is asked to sleep. The result is the state that the machine is left in
/// and the actions asked for, `action` first. No cycle has more than four
/// actions, and `fuel` is how many more may follow `action` here.
pub open spec fn drive(
    interval: u64,
    state: State,
    action: Action,
    input: CycleInput,
    fuel: nat,
) -> (State, Seq<Action>)
    decreases fuel,
{
    if action is Sleep || fuel == 0 {
        (state, seq![action])
    } else {
        let (next, asked) = transition(interval, state, report(action, input));
        match asked {
            Some(asked) => {
                let (last, rest) = drive(interval, next, asked, input, (fuel - 1) as nat);
                (last, seq![action] + rest)
            },
            None => (next, seq![action]),
        }
    }
}

/// One cycle as the caller drives it, on a machine in `state`: it wakes the
/// machine and does what it is asked until it is asked to sleep. The result
/// is the state that the machine is left in and the actions asked for, in
/// order.
pub open spec fn cycle(interval: u64, state: State, input: CycleInput) -> (State, Seq<Action>) {
    let (woken, asked) = transition(interval, state, Event::Wake);
    match asked {
        Some(asked) => drive(interval, woken, asked, input, 3),
        None => (woken, Seq::empty()),
    }
}

/// The state of the machine after the first `n` of the cycles, driven in
/// turn on a machine that was idle to begin with.
pub open spec fn state_after(interval: u64, inputs: Seq<CycleInput>, n: nat) -> State
    decreases n,
{
    if n == 0 {
        State::Idle
    } else {
        cycle(interval, state_after(interval, inputs, (n - 1) as nat), inputs[n - 1]).0
    }
}

/// The actions that the machine asks for over the first `n` of the cycles,
/// in order.
pub open spec fn actions(interval: u64, inputs: Seq<CycleInput>, n: nat) -> Seq<Action>
    decreases n,
{
    if n == 0 {
        Seq::empty()
    } else {
        actions(interval, inputs, (n - 1) as nat) + cycle(
            interval,
            state_after(interval, inputs, (n - 1) as nat),
            inputs[n - 1],
        ).1
    }
}

/// How many of the actions are to send a sample.
pub open spec fn deliveries(actions: Seq<Action>) -> nat
    decreases actions.len(),
{
    if actions.len() == 0 {
        0
    } else {
        deliveries(actions.drop_last()) + (if actions.last() is Send {
            1nat
        } else {
            0nat
        })
    }
}

/// How many of the first `n` cycles have a sample to deliver.
pub open spec fn samples(inputs: Seq<CycleInput>, n: nat) -> nat
    decreases n,
{
    if n == 0 {
        0
    } else {
        samples(inputs, (n - 1) as nat) + (if has_sample(inputs[n - 1]) {
            1nat
        } else {
            0nat
        })
    }
}

/// No state is the last one: in each, some event is taken and answered with
/// an action.
pub proof fn lemma_no_terminal_state(interval: u64, state: State)
    ensures
        exists|event: Event| (#[trigger] transition(interval, state, event)).1 is Some,
{
    let event = match state {
        State::Idle => Event::Wake,
        State::Cycling(Stage::Acquiring) => Event::Acquired {
            outcome: Ok(Reading { co2: 0, temperature: 0 }),
            now: 0,
        },
        State::Cycling(Stage::Emitting(_)) => Event::Emitted,
        State::Cycling(Stage::Sending) => Event::Responded(Ok(200)),
    };
    assert(transition(interval, state, event).1 is Some);
}

/// Every cycle comes to its end, whatever the sensor and the endpoint do:
/// begun on an idle machine, it leaves the machine idle, and its last action
/// is to sleep for the interval.
///
/// Where the sensor gave a reading that is believed, the reading is made a
/// sample stamped with the time given, the sample is emitted, then sent, and
/// the sleep reports what the endpoint's answer means. In every other case
/// nothing is emitted or sent, and the sleep reports why: the sensor's
/// error, or the refusal of the reading.
pub proof fn lemma_cycle(interval: u64, input: CycleInput)
    ensures
        cycle(interval, State::Idle, input).0 == State::Idle,
        cycle(interval, State::Idle, input).1.last() matches Action::Sleep { seconds, .. }
            && seconds == interval,
        has_sample(input) ==> cycle(interval, State::Idle, input).1 == seq![
            Action::Acquire,
            Action::Emit(
                Datum {
                    temperature: input.outcome->Ok_0.temperature,
                    co2: input.outcome->Ok_0.co2,
                    timestamp: input.now,
                },
            ),
            Action::Send(
                Datum {
                    temperature: input.outcome->Ok_0.temperature,
                    co2: input.outcome->Ok_0.co2,
                    timestamp: input.now,
                },
            ),
            Action::Sleep {
                seconds: interval,
                outcome: CycleOutcome::Sent(classified(input.response)),
            },
        ],
        !has_sample(input) ==> cycle(interval, State::Idle, input).1 == seq![
            Action::Acquire,
            Action::Sleep {
                seconds: interval,
                outcome: match input.outcome {
                    Err(error) => CycleOutcome::AcquisitionFailed(error),
                    Ok(reading) => CycleOutcome::ReadingRejected(
                        ValidationError::OutOfRange(reading.co2),
                    ),
                },
            },
        ],
{
    reveal_with_fuel(drive, 4);
}

/// The deliveries among the actions of two stretches are those of the one
/// and those of the other.
proof fn lemma_deliveries_add(left: Seq<Action>, right: Seq<Action>)
    ensures
        deliveries(left + right) == deliveries(left) + deliveries(right),
    decreases right.len(),
{
    if right.len() == 0 {
        assert(left + right == left);
    } else {
        assert((left + right).drop_last() == left + right.drop_last());
        assert((left + right).last() == right.last());
        lemma_deliveries_add(left, right.drop_last());
    }
}

/// A cycle asks for one delivery if it has a sample, and for none if it has
/// not.
proof fn lemma_cycle_deliveries(interval: u64, input: CycleInput)
    ensures
        deliveries(cycle(interval, State::Idle, input).1) == (if has_sample(input) {
            1nat
        } else {
            0nat
        }),
{
    lemma_cycle(interval, input);
    let all = cycle(interval, State::Idle, input).1;
    let first = all.drop_last();
    if has_sample(input) {
        let second = first.drop_last();
        let third = second.drop_last();
        assert(deliveries(third.drop_last()) == 0);
        assert(third.last() == all[0]);
        assert(deliveries(third) == 0);
        assert(second.last() == all[1]);
        assert(deliveries(second) == 0);
        assert(first.last() == all[2]);
        assert(deliveries(first) == 1);
    } else {
        assert(deliveries(first.drop_last()) == 0);
        assert(first.last() == all[0]);
        assert(deliveries(first) == 0);
    }
}

/// One cycle does not reach into the next. After any number of cycles the
/// machine is idle and takes the next, and as many samples have been sent as
/// there were cycles in which the sensor gave a reading that is believed: a
/// cycle that fails, at the sensor or at the endpoint, takes nothing from
/// those after it.
pub proof fn lemma_isolation(interval: u64, inputs: Seq<CycleInput>, n: nat)
    requires
        n <= inputs.len(),
    ensures
        state_after(interval, inputs, n) == State::Idle,
        deliveries(actions(interval, inputs, n)) == samples(inputs, n),
    decreases n,
{
    if n > 0 {
        let before = (n - 1) as nat;
        lemma_isolation(interval, inputs, before);
        lemma_cycle(interval, inputs[n - 1]);
        lemma_cycle_deliveries(interval, inputs[n - 1]);
        lemma_deliveries_add(
            actions(interval, inputs, before),
            cycle(interval, State::Idle, inputs[n - 1]).1,
        );
    }
}

} // verus!
