//! The sensor's session: at most one open handle, opened when first needed
//! and given up as soon as a read fails.
//!
//! The device itself is the caller's. A call of `read` is a few steps of the
//! session: the caller reports that the call has begun, and from then on
//! does what the session asks, which is to open the device or to read from
//! the handle that [`Data::sensor`] lends, and reports what came of it,
//! until the session hands the result of the call back. Nothing is tried
//! twice within a call.

use vstd::prelude::*;

use crate::datum::Reading;
use crate::error::AcquisitionError;

verus! {

/// What the caller reports to the session. `H` is the type of the handle.
#[derive(Debug, PartialEq, Eq)]
pub enum SensorEvent<H> {
    /// A call of `read` has begun.
    Call,
    /// The device was opened and this is its handle, or it could not be
    /// opened and this is the transport's account of why.
    Opened(Result<H, String>),
    /// The handle was read from and gave this reading, or it could not be
    /// read from and this is the transport's account of why.
    Read(Result<Reading, String>),
}

/// What the session asks of the caller.
#[derive(Debug, PartialEq, Eq)]
pub enum SensorAction {
    /// Open the device with the stored options, and report with
    /// [`SensorEvent::Opened`].
    Open,
    /// Read from the handle that is held, and report with
    /// [`SensorEvent::Read`].
    Read,
    /// The call is over, and this is its result.
    Return(Result<Reading, AcquisitionError>),
}

/// A session, as values.
pub struct DataView<O, H> {
    /// The options that the device is opened with.
    pub sensor_config: O,
    /// The handle that is held, if any.
    pub sensor: Option<H>,
}

/// The session of one sensor: the options to open it with, and the handle
/// while it is open. `O` is the type of the options and `H` that of the
/// handle; to drop a handle is to close the device.
pub struct Data<O, H> {
    /// Configuration of how to acquire the sensor.
    sensor_config: O,
    /// The acquired sensor.
    sensor: Option<H>,
}

/// One step of a session: the handle held after `event`, where `sensor` was
/// held before it, and the action asked for.
///
/// A call opens the device if no handle is held, and reads otherwise. A
/// handle that the device gives is kept and read from. A reading leaves the
/// handle as it is and ends the call. A failure ends the call as well, and
/// after it no handle is held: one that failed to read is dropped at once.
pub open spec fn session_step<H>(sensor: Option<H>, event: SensorEvent<H>) -> (
    Option<H>,
    SensorAction,
) {
    match event {
        SensorEvent::Call => (
            sensor,
            if sensor is Some {
                SensorAction::Read
            } else {
                SensorAction::Open
            },
        ),
        SensorEvent::Opened(Ok(handle)) => (Some(handle), SensorAction::Read),
        SensorEvent::Opened(Err(reason)) => (
            None,
            SensorAction::Return(Err(AcquisitionError::OpenFailed(reason))),
        ),
        SensorEvent::Read(Ok(reading)) => (sensor, SensorAction::Return(Ok(reading))),
        SensorEvent::Read(Err(reason)) => (
            None,
            SensorAction::Return(Err(AcquisitionError::ReadFailed(reason))),
        ),
    }
}

impl<O, H> View for Data<O, H> {
    type V = DataView<O, H>;

    closed spec fn view(&self) -> DataView<O, H> {
        DataView { sensor_config: self.sensor_config, sensor: self.sensor }
    }
}

impl<O: Default, H> Default for Data<O, H> {
    /// A session that holds no handle yet, with the options that `O` has by
    /// default.
    fn default() -> (data: Self)
        ensures
            call_ensures(O::default, (), data@.sensor_config),
            data@.sensor is None,
    {
        Data { sensor_config: O::default(), sensor: None }
    }
}

impl<O, H> Data<O, H> {
    /// A session that holds no handle yet.
    pub fn new(sensor_config: O) -> (data: Self)
        ensures
            data@ == (DataView { sensor_config, sensor: None::<H> }),
    {
        Data { sensor_config, sensor: None }
    }

    /// The options that the device is opened with.
    pub fn sensor_config(&self) -> (config: &O)
        ensures
            *config == self@.sensor_config,
    {
        &self.sensor_config
    }

    /// The handle to read from, while one is held.
    pub fn sensor(&self) -> (handle: Option<&H>)
        ensures
            match handle {
                Some(handle) => self@.sensor == Some(*handle),
                None => self@.sensor is None,
            },
    {
        self.sensor.as_ref()
    }

    /// Takes one event and says what to do next: see [`session_step`]. The
    /// options stay as they are.
    pub fn step(&mut self, event: SensorEvent<H>) -> (action: SensorAction)
        ensures
            final(self)@.sensor_config == old(self)@.sensor_config,
            (final(self)@.sensor, action) == session_step(old(self)@.sensor, event),
    {
        match event {
            SensorEvent::Call => {
                if self.sensor.is_none() {
                    SensorAction::Open
                } else {
                    SensorAction::Read
                }
            },
            SensorEvent::Opened(Ok(handle)) => {
                self.sensor = Some(handle);
                SensorAction::Read
            },
            SensorEvent::Opened(Err(reason)) => {
                self.sensor = None;
                SensorAction::Return(Err(AcquisitionError::OpenFailed(reason)))
            },
            SensorEvent::Read(Ok(reading)) => SensorAction::Return(Ok(reading)),
            SensorEvent::Read(Err(reason)) => {
                self.sensor = None;
                SensorAction::Return(Err(AcquisitionError::ReadFailed(reason)))
            },
        }
    }
}

/// What the device answers in the course of one call of `read`.
pub struct Device<H> {
    /// What comes of opening the device. Asked only of a call that opens.
    pub opened: Result<H, String>,
    /// What comes of reading from the handle. Asked only of a call that gets
    /// as far as reading.
    pub read: Result<Reading, String>,
}

/// What the caller reports after it has done what was asked.
pub open spec fn answer<H>(action: SensorAction, device: Device<H>) -> SensorEvent<H> {
    match action {
        SensorAction::Open => SensorEvent::Opened(device.opened),
        SensorAction::Read => SensorEvent::Read(device.read),
        SensorAction::Return(_) => SensorEvent::Call,
    }
}

/// The rest of a call as the caller drives it: it does what `action` asks,
/// reports, and goes on with the action that the session answers with, until
/// the result is handed back. The result here is the handle held in the end
/// and the actions asked for, `action` first. No call has more than three
/// actions, and `fuel` is how many more may follow `action` here.
pub open spec fn drive<H>(sensor: Option<H>, action: SensorAction, device: Device<H>, fuel: nat) -> (
    Option<H>,
    Seq<SensorAction>,
)
    decreases fuel,
{
    if action is Return || fuel == 0 {
        (sensor, seq![action])
    } else {
        let (next, asked) = session_step(sensor, answer(action, device));
        let (last, rest) = drive(next, asked, device, (fuel - 1) as nat);
        (last, seq![action] + rest)
    }
}

/// One call of `read` as the caller drives it, on a session that holds
/// `sensor`: the handle held after the call, and the actions asked for, in
/// order.
pub open spec fn call<H>(sensor: Option<H>, device: Device<H>) -> (Option<H>, Seq<SensorAction>) {
    let (held, asked) = session_step(sensor, SensorEvent::Call);
    drive(held, asked, device, 2)
}

/// What a call of `read` returns: a reading if the session has or gets a
/// handle and the read succeeds, and else the failure.
pub open spec fn returned<H>(sensor: Option<H>, device: Device<H>) -> Result<
    Reading,
    AcquisitionError,
> {
    if sensor is None && device.opened is Err {
        Err(AcquisitionError::OpenFailed(device.opened->Err_0))
    } else {
        match device.read {
            Ok(reading) => Ok(reading),
            Err(reason) => Err(AcquisitionError::ReadFailed(reason)),
        }
    }
}

/// How many of the actions are to open the device.
pub open spec fn opens_among(actions: Seq<SensorAction>) -> nat
    decreases actions.len(),
{
    if actions.len() == 0 {
        0
    } else {
        opens_among(actions.drop_last()) + (if actions.last() is Open {
            1nat
        } else {
            0nat
        })
    }
}

/// The handle held after the first `n` of the calls, made in turn on a
/// session that held `sensor` to begin with. `devices` has the device's
/// answers, call by call.
pub open spec fn sensor_after<H>(sensor: Option<H>, devices: Seq<Device<H>>, n: nat) -> Option<H>
    decreases n,
{
    if n == 0 {
        sensor
    } else {
        call(sensor_after(sensor, devices, (n - 1) as nat), devices[n - 1]).0
    }
}

/// How often the device is opened during the first `n` of the calls.
pub open spec fn opens<H>(sensor: Option<H>, devices: Seq<Device<H>>, n: nat) -> nat
    decreases n,
{
    if n == 0 {
        0
    } else {
        opens(sensor, devices, (n - 1) as nat) + opens_among(
            call(sensor_after(sensor, devices, (n - 1) as nat), devices[n - 1]).1,
        )
    }
}

/// A call in full. With a handle in hand it reads, and that is all. Without
/// one it opens the device first, and reads only if that gave a handle. It
/// ends by handing back what [`returned`] says. A handle is held after it
/// exactly if it handed back a reading: the one held before, or else the one
/// that the device gave.
pub proof fn lemma_call<H>(sensor: Option<H>, device: Device<H>)
    ensures
        call(sensor, device).1 == (if sensor is Some {
            seq![SensorAction::Read, SensorAction::Return(returned(sensor, device))]
        } else if device.opened is Ok {
            seq![
                SensorAction::Open,
                SensorAction::Read,
                SensorAction::Return(returned(sensor, device)),
            ]
        } else {
            seq![SensorAction::Open, SensorAction::Return(returned(sensor, device))]
        }),
        call(sensor, device).0 == (if returned(sensor, device) is Err {
            None
        } else if sensor is Some {
            sensor
        } else {
            Some(device.opened->Ok_0)
        }),
{
    reveal_with_fuel(drive, 3);
}

/// A call opens the device once if it starts without a handle, and not at
/// all if it starts with one.
pub proof fn lemma_call_opens<H>(sensor: Option<H>, device: Device<H>)
    ensures
        opens_among(call(sensor, device).1) == (if sensor is Some {
            0nat
        } else {
            1nat
        }),
{
    lemma_call(sensor, device);
    let all = call(sensor, device).1;
    let first = all.drop_last();
    if sensor is None && device.opened is Ok {
        let second = first.drop_last();
        assert(opens_among(second.drop_last()) == 0);
        assert(second.last() == all[0]);
        assert(opens_among(second) == 1);
        assert(first.last() == all[1]);
        assert(opens_among(first) == 1);
        assert(all.last() == all[2]);
    } else {
        assert(opens_among(first.drop_last()) == 0);
        assert(first.last() == all[0]);
        assert(opens_among(first) == (if sensor is Some {
            0nat
        } else {
            1nat
        }));
        assert(all.last() == all[1]);
    }
}

/// A handle is reused for as long as it works: where each of `n` calls in a
/// row returns a reading, the device is opened once in all if the session
/// started without a handle, and not at all if it started with one. A handle
/// is held afterwards.
pub proof fn lemma_reuse<H>(sensor: Option<H>, devices: Seq<Device<H>>, n: nat)
    requires
        1 <= n <= devices.len(),
        forall|i: nat|
            i < n ==> returned(sensor_after(sensor, devices, i), #[trigger] devices[i as int])
                is Ok,
    ensures
        opens(sensor, devices, n) == (if sensor is Some {
            0nat
        } else {
            1nat
        }),
        sensor_after(sensor, devices, n) is Some,
    decreases n,
{
    let last = (n - 1) as nat;
    let before = sensor_after(sensor, devices, last);
    assert(returned(before, devices[last as int]) is Ok);
    lemma_call(before, devices[last as int]);
    lemma_call_opens(before, devices[last as int]);
    if n > 1 {
        lemma_reuse(sensor, devices, last);
    } else {
        assert(opens(sensor, devices, 0) == 0);
        assert(before == sensor);
    }
}

/// A failed read heals by itself. Where opening always succeeds, and of two
/// calls in a row the first fails to read and the second reads: no handle is
/// held between the two, the second opens the device exactly once and reads
/// from the handle that this gives, and that handle is held after it. If a
/// handle was held before the first of the two, the two open the device
/// exactly once between them; if none was, each of them opens it once.
pub proof fn lemma_self_healing<H>(sensor: Option<H>, devices: Seq<Device<H>>, n: nat)
    requires
        n + 2 <= devices.len(),
        forall|i: int| 0 <= i < devices.len() ==> (#[trigger] devices[i]).opened is Ok,
        devices[n as int].read is Err,
        devices[n + 1 as int].read is Ok,
    ensures
        sensor_after(sensor, devices, n + 1) is None,
        opens(sensor, devices, n + 2) == opens(sensor, devices, n + 1) + 1,
        call(sensor_after(sensor, devices, n + 1), devices[n + 1 as int]).1 == seq![
            SensorAction::Open,
            SensorAction::Read,
            SensorAction::Return(Ok(devices[n + 1 as int].read->Ok_0)),
        ],
        sensor_after(sensor, devices, n + 2) == Some(devices[n + 1 as int].opened->Ok_0),
        opens(sensor, devices, n + 2) == opens(sensor, devices, n) + (if sensor_after(
            sensor,
            devices,
            n,
        ) is Some {
            1nat
        } else {
            2nat
        }),
{
    let before = sensor_after(sensor, devices, n);
    let between = sensor_after(sensor, devices, n + 1);
    assert(devices[n as int].opened is Ok);
    assert(devices[n + 1 as int].opened is Ok);
    lemma_call(before, devices[n as int]);
    lemma_call_opens(before, devices[n as int]);
    assert(between == call(before, devices[n as int]).0);
    lemma_call(between, devices[n + 1 as int]);
    lemma_call_opens(between, devices[n + 1 as int]);
    assert(sensor_after(sensor, devices, n + 2) == call(between, devices[n + 1 as int]).0);
    assert(opens(sensor, devices, n + 1) == opens(sensor, devices, n) + opens_among(
        call(before, devices[n as int]).1,
    ));
    assert(opens(sensor, devices, n + 2) == opens(sensor, devices, n + 1) + opens_among(
        call(between, devices[n + 1 as int]).1,
    ));
}

/// Whether, among the first `n` of the events, the one at `i` reports a
/// handle, and all after it report readings or that a call has begun.
pub open spec fn opened_and_read_since<H>(events: Seq<SensorEvent<H>>, n: nat, i: int) -> bool {
    &&& 0 <= i < n
    &&& events[i] is Opened
    &&& events[i]->Opened_0 is Ok
    &&& forall|j: int|
        i < j < n ==> (#[trigger] events[j]) is Call || (events[j] is Read && events[j]->Read_0
            is Ok)
}

/// The handle held after the first `n` of the events, reported in turn to a
/// session that held none to begin with.
pub open spec fn sensor_after_events<H>(events: Seq<SensorEvent<H>>, n: nat) -> Option<H>
    decreases n,
{
    if n == 0 {
        None
    } else {
        session_step(sensor_after_events(events, (n - 1) as nat), events[n - 1]).0
    }
}

/// Whatever is reported to a session and in whatever order, it holds a
/// handle exactly if the last opening succeeded and no read has failed
/// since, and the handle is the one that this opening gave.
pub proof fn lemma_session<H>(events: Seq<SensorEvent<H>>, n: nat)
    requires
        n <= events.len(),
    ensures
        sensor_after_events(events, n) is Some <==> exists|i: int|
            opened_and_read_since(events, n, i),
        forall|i: int| #[trigger]
            opened_and_read_since(events, n, i) ==> sensor_after_events(events, n) == Some(
                events[i]->Opened_0->Ok_0,
            ),
    decreases n,
{
    if n > 0 {
        let before = (n - 1) as nat;
        lemma_session(events, before);
        let event = events[n - 1];
        let kept = event is Call || (event is Read && event->Read_0 is Ok);
        if kept {
            if sensor_after_events(events, before) is Some {
                let i = choose|i: int| opened_and_read_since(events, before, i);
                assert(opened_and_read_since(events, n, i));
            }
            assert forall|i: int| #[trigger]
                opened_and_read_since(events, n, i) implies opened_and_read_since(
                events,
                before,
                i,
            ) by {}
        } else if event is Opened && event->Opened_0 is Ok {
            assert(opened_and_read_since(events, n, n - 1));
            assert forall|i: int| #[trigger] opened_and_read_since(events, n, i) implies i == n
                - 1 by {
                if i < n - 1 {
                    assert(events[n - 1] is Call || (events[n - 1] is Read
                        && events[n - 1]->Read_0 is Ok));
                }
            }
        } else {
            assert forall|i: int| !opened_and_read_since(events, n, i) by {
                if opened_and_read_since(events, n, i) && i < n - 1 {
                    assert(events[n - 1] is Call || (events[n - 1] is Read
                        && events[n - 1]->Read_0 is Ok));
                }
            }
        }
    }
}

} // verus!
