use lightctl::dispatch::exit_status;
use lightctl::error::LightError;
use lightctl::hardware::{
    effect_file, replay, trigger_static_effect, Attribute, DeviceHandle, EffectWrite, PassReport,
    Recorded, Scan, Step, WriteResult, COMMAND_LENGTH, FIXED_PATTERN,
};

fn attribute(name: &str, value: &str) -> Attribute {
    Attribute { name: name.to_string(), value: value.to_string() }
}

fn keyboard(n: u32) -> DeviceHandle {
    DeviceHandle {
        syspath: format!("/sys/devices/usb1/1-{n}/0003:1532:0{n}"),
        sysname: format!("0003:1532:0{n}"),
        attributes: vec![
            attribute("device_type", "Razer Keyboard"),
            attribute("firmware_version", "v1.3"),
        ],
    }
}

fn mouse_without_marker() -> DeviceHandle {
    DeviceHandle {
        syspath: "/sys/devices/usb1/1-9/0003:046D:C52B".to_string(),
        sysname: "0003:046D:C52B".to_string(),
        attributes: vec![attribute("country", "00"), attribute("modalias", "hid:b0003")],
    }
}

fn recorded(device: DeviceHandle, result: WriteResult) -> Recorded {
    Recorded { device, result }
}

/// Drives a pass as a caller would, writing nothing: the results are given.
fn drive(devices: &[(DeviceHandle, WriteResult)]) -> (PassReport, Vec<EffectWrite>) {
    let mut scan = Scan::begin("device_type");
    let mut writes = Vec::new();
    for (device, result) in devices {
        match scan.device(device) {
            Step::Skip(same) => scan = same,
            Step::Write(pending, write) => {
                writes.push(write);
                match pending.resolve(result.clone()) {
                    Ok(next) => scan = next,
                    Err(report) => return (report, writes),
                }
            }
        }
    }
    (scan.exhausted(), writes)
}

#[test]
fn attributes_are_found_by_name() {
    let device = keyboard(1);
    assert_eq!(device.attribute_value("device_type"), Some(&"Razer Keyboard".to_string()));
    assert_eq!(device.attribute_value("firmware_version"), Some(&"v1.3".to_string()));
    assert_eq!(device.attribute_value("device_typ"), None);
    assert_eq!(device.attribute_value(""), None);
    assert!(device.has_attribute("device_type"));
    assert!(!device.has_attribute("logo_matrix_effect_static"));
    assert!(!mouse_without_marker().has_attribute("device_type"));
}

#[test]
fn an_empty_value_is_still_a_value() {
    let device = DeviceHandle {
        syspath: "/sys/x".to_string(),
        sysname: "x".to_string(),
        attributes: vec![attribute("device_type", "")],
    };
    assert!(device.has_attribute("device_type"));
    assert_eq!(device.attribute_value("device_type"), Some(&String::new()));
}

#[test]
fn of_two_attributes_with_one_name_the_later_counts() {
    let device = DeviceHandle {
        syspath: "/sys/x".to_string(),
        sysname: "x".to_string(),
        attributes: vec![attribute("a", "1"), attribute("b", "2"), attribute("a", "3")],
    };
    assert_eq!(device.attribute_value("a"), Some(&"3".to_string()));
}

#[test]
fn the_effect_file_lies_beneath_the_system_path() {
    assert_eq!(effect_file("/sys/devices/hid/0003"), "/sys/devices/hid/0003/logo_matrix_effect_static");
    assert_eq!(effect_file("/sys/devices/hid/0003/"), "/sys/devices/hid/0003/logo_matrix_effect_static");
    assert_eq!(effect_file("/"), "/logo_matrix_effect_static");
    assert_eq!(effect_file(""), "logo_matrix_effect_static");
    assert_eq!(effect_file("relative"), "relative/logo_matrix_effect_static");
    assert_eq!(effect_file("/sys/h\u{e9}"), "/sys/h\u{e9}/logo_matrix_effect_static");
    assert_eq!(keyboard(2).effect_path(), "/sys/devices/usb1/1-2/0003:1532:02/logo_matrix_effect_static");
}

#[test]
fn the_effect_file_is_what_joining_paths_gives() {
    for syspath in ["/sys/devices/hid/0003", "/sys/devices/hid/0003/", "/", "", "a/b"] {
        let joined = std::path::Path::new(syspath).join("logo_matrix_effect_static");
        assert_eq!(effect_file(syspath), joined.to_str().unwrap());
    }
}

#[test]
fn the_static_effect_is_three_bytes_written_as_they_are() {
    let write = trigger_static_effect(&keyboard(1), [0x0F, 0x00, 0x80]);
    assert_eq!(write.bytes, vec![0x0F, 0x00, 0x80]);
    assert_eq!(write.path, "/sys/devices/usb1/1-1/0003:1532:01/logo_matrix_effect_static");
    assert_eq!(COMMAND_LENGTH, 3);
}

#[test]
fn a_pass_writes_the_fixed_pattern() {
    assert_eq!(FIXED_PATTERN, [0x00, 0xFF, 0x00]);
    match Scan::begin("device_type").device(&keyboard(1)) {
        Step::Write(_, write) => assert_eq!(write.bytes, vec![0x00, 0xFF, 0x00]),
        Step::Skip(_) => panic!("the device was skipped"),
    }
}

#[test]
fn a_pass_begins_with_nothing_triggered() {
    let scan = Scan::begin("device_type");
    assert_eq!(scan.marker(), "device_type");
    assert!(scan.triggered().is_empty());
    let report = scan.exhausted();
    assert_eq!(report, PassReport { triggered: vec![], error: None });
}

#[test]
fn a_device_without_the_marker_is_skipped() {
    match Scan::begin("device_type").device(&mouse_without_marker()) {
        Step::Skip(scan) => assert!(scan.triggered().is_empty()),
        Step::Write(..) => panic!("a write was asked for"),
    }
}

#[test]
fn a_device_with_the_marker_is_written_to() {
    match Scan::begin("device_type").device(&keyboard(1)) {
        Step::Write(pending, write) => {
            assert_eq!(pending.syspath(), "/sys/devices/usb1/1-1/0003:1532:01");
            assert_eq!(write, trigger_static_effect(&keyboard(1), FIXED_PATTERN));
            let scan = pending.resolve(WriteResult::Written(3)).unwrap();
            assert_eq!(scan.triggered(), &vec!["/sys/devices/usb1/1-1/0003:1532:01".to_string()]);
            assert_eq!(scan.marker(), "device_type");
        }
        Step::Skip(_) => panic!("the device was skipped"),
    }
}

#[test]
fn the_marker_of_the_pass_decides() {
    match Scan::begin("firmware_version").device(&keyboard(1)) {
        Step::Write(..) => {}
        Step::Skip(_) => panic!("the device was skipped"),
    }
    match Scan::begin("firmware_version").device(&mouse_without_marker()) {
        Step::Skip(_) => {}
        Step::Write(..) => panic!("a write was asked for"),
    }
}

#[test]
fn no_devices_at_all_is_a_complete_pass_without_writes() {
    let (report, writes) = drive(&[]);
    assert!(writes.is_empty());
    assert_eq!(report, PassReport { triggered: vec![], error: None });
    assert_eq!(exit_status(&report.into_outcome()), 0);
    assert_eq!(replay("device_type", &vec![]), PassReport { triggered: vec![], error: None });
}

#[test]
fn no_matching_device_is_a_complete_pass_without_writes() {
    let devices = [
        (mouse_without_marker(), WriteResult::Failed("must not be asked".to_string())),
        (mouse_without_marker(), WriteResult::Written(0)),
    ];
    let (report, writes) = drive(&devices);
    assert!(writes.is_empty());
    assert_eq!(report, PassReport { triggered: vec![], error: None });
    assert_eq!(report.into_outcome(), Ok(()));
    let recording: Vec<Recorded> =
        devices.iter().map(|(d, r)| recorded(d.clone(), r.clone())).collect();
    assert_eq!(replay("device_type", &recording), PassReport { triggered: vec![], error: None });
}

#[test]
fn every_matching_device_is_triggered_in_order() {
    let devices = [
        (keyboard(1), WriteResult::Written(3)),
        (mouse_without_marker(), WriteResult::Written(3)),
        (keyboard(2), WriteResult::Written(3)),
    ];
    let (report, writes) = drive(&devices);
    assert_eq!(writes, vec![trigger_static_effect(&keyboard(1), FIXED_PATTERN), trigger_static_effect(&keyboard(2), FIXED_PATTERN)]);
    assert_eq!(
        report,
        PassReport { triggered: vec![keyboard(1).syspath, keyboard(2).syspath], error: None }
    );
}

#[test]
fn a_failed_write_ends_the_pass_and_leaves_the_earlier_device_triggered() {
    let devices = [
        (keyboard(1), WriteResult::Written(3)),
        (keyboard(2), WriteResult::Failed("Read-only file system (os error 30)".to_string())),
    ];
    let (report, writes) = drive(&devices);
    assert_eq!(writes.len(), 2);
    assert_eq!(report.triggered, vec![keyboard(1).syspath]);
    assert_eq!(
        report.error,
        Some(LightError::Io("Read-only file system (os error 30)".to_string()))
    );
    let outcome = report.into_outcome();
    assert_eq!(outcome, Err(LightError::Io("Read-only file system (os error 30)".to_string())));
    assert_ne!(exit_status(&outcome), 0);
}

#[test]
fn after_a_failed_write_no_further_device_is_touched() {
    let devices = [
        (keyboard(1), WriteResult::Failed("Permission denied (os error 13)".to_string())),
        (keyboard(2), WriteResult::Written(3)),
        (keyboard(3), WriteResult::Written(3)),
    ];
    let (report, writes) = drive(&devices);
    assert_eq!(writes, vec![trigger_static_effect(&keyboard(1), FIXED_PATTERN)]);
    assert!(report.triggered.is_empty());
    assert_eq!(report.error, Some(LightError::Io("Permission denied (os error 13)".to_string())));
}

#[test]
fn a_short_write_is_an_io_error() {
    for count in [0usize, 1, 2, 4] {
        let (report, _) = drive(&[(keyboard(1), WriteResult::Written(count))]);
        assert!(report.triggered.is_empty());
        assert_eq!(
            report.error,
            Some(LightError::Io(
                "short write to /sys/devices/usb1/1-1/0003:1532:01/logo_matrix_effect_static"
                    .to_string()
            ))
        );
    }
}

#[test]
fn a_bus_that_cannot_be_opened_ends_the_pass() {
    let report = Scan::begin("device_type").bus_failed("Permission denied".to_string());
    assert_eq!(
        report,
        PassReport {
            triggered: vec![],
            error: Some(LightError::BusUnavailable("Permission denied".to_string())),
        }
    );
    assert_eq!(exit_status(&report.into_outcome()), 1);
}

#[test]
fn a_bus_failure_in_the_middle_keeps_what_was_triggered() {
    let scan = match Scan::begin("device_type").device(&keyboard(1)) {
        Step::Write(pending, _) => pending.resolve(WriteResult::Written(3)).unwrap(),
        Step::Skip(_) => panic!("the device was skipped"),
    };
    let report = scan.bus_failed("device vanished".to_string());
    assert_eq!(report.triggered, vec![keyboard(1).syspath]);
    assert_eq!(report.error, Some(LightError::BusUnavailable("device vanished".to_string())));
}

#[test]
fn a_replayed_pass_reports_what_a_driven_pass_reports() {
    let cases: Vec<Vec<(DeviceHandle, WriteResult)>> = vec![
        vec![],
        vec![(mouse_without_marker(), WriteResult::Written(3))],
        vec![(keyboard(1), WriteResult::Written(3)), (keyboard(2), WriteResult::Written(3))],
        vec![
            (keyboard(1), WriteResult::Written(3)),
            (keyboard(2), WriteResult::Failed("read-only".to_string())),
            (keyboard(3), WriteResult::Written(3)),
        ],
        vec![(keyboard(1), WriteResult::Written(2)), (keyboard(2), WriteResult::Written(3))],
    ];
    for devices in cases {
        let recording: Vec<Recorded> =
            devices.iter().map(|(d, r)| recorded(d.clone(), r.clone())).collect();
        assert_eq!(replay("device_type", &recording), drive(&devices).0);
    }
}

#[test]
fn a_replayed_pass_with_two_devices_of_which_the_second_is_read_only() {
    let recording = vec![
        recorded(keyboard(1), WriteResult::Written(3)),
        recorded(keyboard(2), WriteResult::Failed("Read-only file system".to_string())),
    ];
    let report = replay("device_type", &recording);
    assert_eq!(report.triggered.len(), 1);
    assert_eq!(report.triggered[0], keyboard(1).syspath);
    assert_eq!(report.error, Some(LightError::Io("Read-only file system".to_string())));
}
