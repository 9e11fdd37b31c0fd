use iot_driver::error::KeyboardError;
use iot_driver::select::{pick_device, query_device_id, resolve_device, DeviceLabel};

fn label(index: usize, transport: &str, path: &str) -> DeviceLabel {
    DeviceLabel {
        index,
        model_name: String::from("Board"),
        transport_name: transport.to_string(),
        hid_path: path.to_string(),
        device_id: None,
        version: None,
    }
}

fn three() -> Vec<DeviceLabel> {
    vec![
        label(0, "usb", "/dev/hidraw3"),
        label(1, "dongle", "/dev/hidraw5"),
        label(2, "dongle", "/dev/hidraw51"),
    ]
}

fn refusal(labels: &[DeviceLabel], sel: Option<&str>) -> (Option<String>, String) {
    let r = resolve_device(labels, sel).unwrap_err();
    (r.heading, r.message)
}

#[test]
fn a_selector_is_an_index_a_transport_or_a_path() {
    let all = three();
    assert_eq!(resolve_device(&all, Some("1")), Ok(1));
    assert_eq!(resolve_device(&all, Some("usb")), Ok(0));
    assert_eq!(resolve_device(&all, Some("/dev/hidraw51")), Ok(2));
    // A path counts from its start; only the interactive choice takes any part of one.
    assert!(resolve_device(&all[..1], Some("hidraw3")).is_err());
    assert_eq!(pick_device(&all[..1], "hidraw3"), Ok(0));
    assert_eq!(resolve_device(&all[..1], None), Ok(0));
    assert_eq!(pick_device(&all, "usb"), Ok(0));
    assert_eq!(pick_device(&all, "2"), Ok(2));
}

#[test]
fn what_fits_no_or_several_devices_is_refused() {
    let all = three();
    assert_eq!(
        refusal(&[], None),
        (None, String::from("No supported device found"))
    );
    assert_eq!(
        refusal(&all, Some("7")),
        (None, String::from("Device index 7 out of range (0-2)"))
    );
    assert_eq!(
        refusal(&all, Some("dongle")),
        (
            Some(String::from("Multiple devices match transport 'dongle':")),
            String::from("Ambiguous --device 'dongle': 2 matches. Use index or HID path.")
        )
    );
    assert_eq!(
        refusal(&all, Some("/dev/hidraw5")),
        (
            Some(String::from("Multiple devices match path '/dev/hidraw5':")),
            String::from("Ambiguous --device '/dev/hidraw5': 2 matches.")
        )
    );
    assert_eq!(
        refusal(&all, Some("hidraw5")),
        (None, String::from("No device matches 'hidraw5'"))
    );
    assert_eq!(
        refusal(&all, Some("bt")),
        (None, String::from("No device matches 'bt'"))
    );
    assert_eq!(
        refusal(&all, None),
        (
            Some(String::from("Multiple devices found. Use --device (-D) to select:")),
            String::from("Multiple devices found, use --device to select")
        )
    );
    assert_eq!(
        pick_device(&all, "9").unwrap_err().message,
        "Device index 9 out of range"
    );
    assert_eq!(
        pick_device(&all, "dongle").unwrap_err().message,
        "Ambiguous --device 'dongle': 2 matches"
    );
    assert_eq!(
        pick_device(&all, "hidraw5").unwrap_err().message,
        "No device matches 'hidraw5'"
    );
}

#[test]
fn device_ids_come_from_the_version_answer() {
    assert_eq!(
        query_device_id(0x8F, &Ok(vec![0x8F, 0x85, 0x0B, 0, 0])),
        Some(2949)
    );
    assert_eq!(query_device_id(0x8F, &Ok(vec![0x8F, 0xFF, 0xFF, 0xFF, 0xFF])), Some(-1));
    assert_eq!(query_device_id(0x8F, &Ok(vec![0x8F, 1, 2, 3])), None);
    assert_eq!(query_device_id(0x8F, &Ok(vec![0x84, 1, 2, 3, 4])), None);
    let lost = Err(KeyboardError::Transport(String::from("x")));
    assert_eq!(query_device_id(0x8F, &lost), None);
}
