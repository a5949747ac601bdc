use coot::{AcquisitionError, Data, Reading, SensorAction, SensorEvent};

/// A device that answers from a script and counts what is asked of it.
struct Device {
    opens: u32,
    reads: u32,
    open_script: Vec<bool>,
    read_script: Vec<bool>,
}

/// A handle of the scripted device; `serial` is the number of the open that
/// made it.
#[derive(Debug, PartialEq)]
struct Handle {
    serial: u32,
}

impl Device {
    fn new(open_script: &[bool], read_script: &[bool]) -> Device {
        Device { opens: 0, reads: 0, open_script: open_script.to_vec(), read_script: read_script.to_vec() }
    }

    fn open(&mut self, options: &&str) -> Result<Handle, String> {
        assert_eq!(*options, "options");
        let ok = self.open_script[self.opens as usize];
        self.opens += 1;
        if ok {
            Ok(Handle { serial: self.opens })
        } else {
            Err(format!("open {} failed", self.opens))
        }
    }

    fn read(&mut self, handle: &Handle) -> Result<Reading, String> {
        let ok = self.read_script[self.reads as usize];
        self.reads += 1;
        if ok {
            Ok(Reading { co2: 400 + handle.serial as u16, temperature: 21.3f32.to_bits() })
        } else {
            Err(format!("read {} failed", self.reads))
        }
    }
}

/// One call of `read`: the caller does what the session asks until the
/// session hands the result back.
fn read(data: &mut Data<&'static str, Handle>, device: &mut Device) -> Result<Reading, AcquisitionError> {
    let mut event = SensorEvent::Call;
    loop {
        event = match data.step(event) {
            SensorAction::Open => SensorEvent::Opened(device.open(data.sensor_config())),
            SensorAction::Read => {
                let handle = data.sensor().expect("a handle is held before a read");
                SensorEvent::Read(device.read(handle))
            }
            SensorAction::Return(result) => return result,
        };
    }
}

fn reading(serial: u16) -> Reading {
    Reading { co2: 400 + serial, temperature: 21.3f32.to_bits() }
}

#[test]
fn new_session_holds_no_handle() {
    let mut data: Data<&'static str, Handle> = Data::new("options");
    assert_eq!(data.sensor(), None);
    assert_eq!(*data.sensor_config(), "options");
    assert_eq!(data.step(SensorEvent::Call), SensorAction::Open);
}

#[test]
fn default_session_holds_no_handle() {
    let mut data: Data<u8, Handle> = Data::default();
    assert_eq!(data.sensor(), None);
    assert_eq!(*data.sensor_config(), 0);
    assert_eq!(data.step(SensorEvent::Call), SensorAction::Open);
}

#[test]
fn call_changes_nothing() {
    let mut data: Data<&'static str, Handle> = Data::new("options");
    assert_eq!(data.step(SensorEvent::Call), SensorAction::Open);
    assert_eq!(data.step(SensorEvent::Call), SensorAction::Open);
    assert_eq!(data.sensor(), None);
    data.step(SensorEvent::Opened(Ok(Handle { serial: 1 })));
    assert_eq!(data.step(SensorEvent::Call), SensorAction::Read);
    assert_eq!(data.step(SensorEvent::Call), SensorAction::Read);
    assert_eq!(data.sensor(), Some(&Handle { serial: 1 }));
}

#[test]
fn opened_keeps_the_handle_and_goes_on_to_read() {
    let mut data: Data<&'static str, Handle> = Data::new("options");
    assert_eq!(data.step(SensorEvent::Opened(Ok(Handle { serial: 9 }))), SensorAction::Read);
    assert_eq!(data.sensor(), Some(&Handle { serial: 9 }));
    assert_eq!(*data.sensor_config(), "options");
}

#[test]
fn failed_open_leaves_the_session_closed() {
    let mut data: Data<&'static str, Handle> = Data::new("options");
    assert_eq!(
        data.step(SensorEvent::Opened(Err("no device".to_string()))),
        SensorAction::Return(Err(AcquisitionError::OpenFailed("no device".to_string())))
    );
    assert_eq!(data.sensor(), None);
    assert_eq!(data.step(SensorEvent::Call), SensorAction::Open);
}

#[test]
fn reading_keeps_the_handle() {
    let mut data: Data<&'static str, Handle> = Data::new("options");
    data.step(SensorEvent::Opened(Ok(Handle { serial: 1 })));
    assert_eq!(data.step(SensorEvent::Read(Ok(reading(1)))), SensorAction::Return(Ok(reading(1))));
    assert_eq!(data.sensor(), Some(&Handle { serial: 1 }));
    assert_eq!(data.step(SensorEvent::Call), SensorAction::Read);
}

#[test]
fn failed_read_drops_the_handle() {
    let mut data: Data<&'static str, Handle> = Data::new("options");
    data.step(SensorEvent::Opened(Ok(Handle { serial: 1 })));
    assert_eq!(
        data.step(SensorEvent::Read(Err("timed out".to_string()))),
        SensorAction::Return(Err(AcquisitionError::ReadFailed("timed out".to_string())))
    );
    assert_eq!(data.sensor(), None);
    assert_eq!(data.step(SensorEvent::Call), SensorAction::Open);
}

#[test]
fn dropped_handle_is_released_at_once() {
    let token = std::rc::Rc::new(());
    let mut data: Data<(), std::rc::Rc<()>> = Data::new(());
    data.step(SensorEvent::Opened(Ok(token.clone())));
    assert_eq!(std::rc::Rc::strong_count(&token), 2);
    data.step(SensorEvent::Read(Err("gone".to_string())));
    assert_eq!(std::rc::Rc::strong_count(&token), 1);
}

#[test]
fn new_handle_takes_the_place_of_the_old() {
    let first = std::rc::Rc::new(1);
    let second = std::rc::Rc::new(2);
    let mut data: Data<(), std::rc::Rc<i32>> = Data::new(());
    data.step(SensorEvent::Opened(Ok(first.clone())));
    data.step(SensorEvent::Opened(Ok(second.clone())));
    assert_eq!(std::rc::Rc::strong_count(&first), 1);
    assert_eq!(std::rc::Rc::strong_count(&second), 2);
    assert_eq!(data.sensor().map(|handle| **handle), Some(2));
}

#[test]
fn first_call_opens_then_reads() {
    let mut device = Device::new(&[true], &[true]);
    let mut data = Data::new("options");
    assert_eq!(read(&mut data, &mut device), Ok(reading(1)));
    assert_eq!((device.opens, device.reads), (1, 1));
    assert_eq!(data.sensor(), Some(&Handle { serial: 1 }));
}

#[test]
fn failed_open_ends_the_call_without_a_read() {
    let mut device = Device::new(&[false, true], &[true]);
    let mut data = Data::new("options");
    assert_eq!(
        read(&mut data, &mut device),
        Err(AcquisitionError::OpenFailed("open 1 failed".to_string()))
    );
    assert_eq!((device.opens, device.reads), (1, 0));
    assert_eq!(data.sensor(), None);
    assert_eq!(read(&mut data, &mut device), Ok(reading(2)));
    assert_eq!((device.opens, device.reads), (2, 1));
}

#[test]
fn lifecycle_reuse_opens_once_for_many_reads() {
    let calls = 25;
    let mut device = Device::new(&[true], &vec![true; calls]);
    let mut data = Data::new("options");
    for _ in 0..calls {
        assert_eq!(read(&mut data, &mut device), Ok(reading(1)));
        assert_eq!(device.opens, 1);
    }
    assert_eq!(device.reads as usize, calls);
    assert_eq!(data.sensor(), Some(&Handle { serial: 1 }));
}

#[test]
fn lifecycle_self_healing_reopens_after_a_failed_read() {
    // The read fails on the third call and succeeds on the fourth.
    let mut device = Device::new(&[true, true], &[true, true, false, true, true]);
    let mut data = Data::new("options");
    assert_eq!(read(&mut data, &mut device), Ok(reading(1)));
    assert_eq!(read(&mut data, &mut device), Ok(reading(1)));
    let before = device.opens;
    assert_eq!(before, 1);

    assert_eq!(
        read(&mut data, &mut device),
        Err(AcquisitionError::ReadFailed("read 3 failed".to_string()))
    );
    assert_eq!(data.sensor(), None);
    assert_eq!(device.opens, before);

    assert_eq!(read(&mut data, &mut device), Ok(reading(2)));
    assert_eq!(device.opens, before + 1);
    assert_eq!(data.sensor(), Some(&Handle { serial: 2 }));

    assert_eq!(read(&mut data, &mut device), Ok(reading(2)));
    assert_eq!(device.opens, before + 1);
    assert_eq!(device.reads, 5);
}

#[test]
fn self_healing_when_the_first_read_ever_fails() {
    let mut device = Device::new(&[true, true], &[false, true]);
    let mut data = Data::new("options");
    assert_eq!(
        read(&mut data, &mut device),
        Err(AcquisitionError::ReadFailed("read 1 failed".to_string()))
    );
    assert_eq!(data.sensor(), None);
    assert_eq!(device.opens, 1);
    assert_eq!(read(&mut data, &mut device), Ok(reading(2)));
    assert_eq!(device.opens, 2);
}

#[test]
fn one_open_and_one_read_at_most_per_call() {
    // Open and read fail; open fails; open and read succeed; read fails.
    let mut device = Device::new(&[true, false, true], &[false, true, false]);
    let mut data = Data::new("options");
    let expected = [(1, 1), (2, 1), (3, 2), (3, 3)];
    for counts in expected {
        let (opens_before, reads_before) = (device.opens, device.reads);
        let _ = read(&mut data, &mut device);
        assert!(device.opens - opens_before <= 1);
        assert!(device.reads - reads_before <= 1);
        assert_eq!((device.opens, device.reads), counts);
    }
    assert_eq!(data.sensor(), None);
}

/// The events of a session by number, for walking through all orders.
fn event(kind: u32) -> SensorEvent<Handle> {
    match kind {
        0 => SensorEvent::Call,
        1 => SensorEvent::Opened(Ok(Handle { serial: 1 })),
        2 => SensorEvent::Opened(Err("no device".to_string())),
        3 => SensorEvent::Read(Ok(reading(1))),
        _ => SensorEvent::Read(Err("timed out".to_string())),
    }
}

#[test]
fn session_holds_a_handle_exactly_after_an_opening_with_no_failure_since() {
    let length = 6;
    let orders = 5u32.pow(length);
    for order in 0..orders {
        let kinds: Vec<u32> = (0..length).map(|place| order / 5u32.pow(place) % 5).collect();
        let mut data: Data<&'static str, Handle> = Data::new("options");
        for (done, kind) in kinds.iter().enumerate() {
            data.step(event(*kind));
            let so_far = &kinds[..=done];
            let expected = match so_far.iter().rposition(|kind| *kind == 1 || *kind == 2) {
                Some(opening) => {
                    so_far[opening] == 1 && so_far[opening..].iter().all(|kind| *kind != 4)
                }
                None => false,
            };
            assert_eq!(data.sensor().is_some(), expected, "after {:?}", so_far);
        }
    }
}

#[test]
fn open_counts_follow_the_answers_on_every_script() {
    // Every script of four calls: each call may fail to open or to read.
    for script in 0u32..256 {
        let open_script: Vec<bool> = (0..4).map(|call| script >> call & 1 == 1).collect();
        let read_script: Vec<bool> = (0..4).map(|call| script >> (4 + call) & 1 == 1).collect();
        let mut device = Device::new(&open_script, &read_script);
        let mut data = Data::new("options");
        let mut open = false;
        let (mut opens, mut reads) = (0, 0);
        for _ in 0..4 {
            let mut expected_ok = true;
            if !open {
                open = open_script[opens];
                opens += 1;
                expected_ok = open;
            }
            if open {
                open = read_script[reads];
                reads += 1;
                expected_ok = open;
            }
            assert_eq!(read(&mut data, &mut device).is_ok(), expected_ok);
            assert_eq!((device.opens as usize, device.reads as usize), (opens, reads));
            assert_eq!(data.sensor().is_some(), open);
        }
    }
}
