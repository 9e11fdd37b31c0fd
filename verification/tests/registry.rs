use iot_driver::device_db::{DeviceDatabase, DeviceDefinition, DeviceMatrix, PollingRateSupport};
use iot_driver::registry::{is_profile_file, DeviceProfile, ProfileRegistry};

fn named(len: usize, named: &[(usize, &str)]) -> Vec<String> {
    let mut names = vec![String::new(); len];
    for (i, n) in named {
        names[*i] = n.to_string();
    }
    names
}

/// The curated names of the M1 V5: position 84 is a gap, and nothing is named past the
/// arrow cluster.
fn m1_v5_names() -> Vec<String> {
    named(90, &[(0, "Esc"), (3, "Caps"), (83, "PgUp"), (85, "Home"), (89, "Right")])
}

fn matrix(device_id: i32, key_names: Vec<String>) -> DeviceMatrix {
    DeviceMatrix {
        vid: 0x3151,
        pid: 0x5030,
        device_id,
        matrix: vec![0; key_names.len()],
        key_names,
        non_analog_positions: None,
    }
}

fn device(id: i32, name: &str, pid: u16) -> DeviceDefinition {
    DeviceDefinition {
        id,
        vid: 0x3151,
        pid,
        name: name.to_string(),
        display_name: format!("{name} display"),
        company: String::from("MonsGeek"),
        key_count: Some(82),
        magnetism: true,
        polling_rates: vec![8000, 4000, 1000],
        polling_rate: PollingRateSupport::NotOverBluetooth,
    }
}

fn database() -> DeviceDatabase {
    DeviceDatabase {
        devices: vec![
            device(2949, "m1v5", 0x5030),
            device(3804, "sk75", 0x5030),
            device(77, "shared_a", 0x6001),
            device(77, "shared_b", 0x6002),
        ],
        matrices: vec![
            matrix(
                2949,
                named(92, &[(85, "End"), (90, "VolUp"), (91, "VolDn")]),
            ),
            matrix(3804, named(92, &[(84, "Home"), (85, "End")])),
            matrix(2307, named(64, &[(0, "Esc"), (1, "1")])),
        ],
        version: 7,
    }
}

fn with_builtins() -> ProfileRegistry {
    ProfileRegistry::with_builtins(&m1_v5_names(), Ok(database()))
}

#[test]
fn test_registry_with_builtins() {
    let registry = with_builtins();

    assert!(!registry.is_empty());

    // Find wired variant
    let profile = registry.find_by_vid_pid(0x3151, 0x5030).unwrap();
    assert_eq!(profile.display_name, "MonsGeek M1 V5 HE");
    // Physical inputs, not matrix positions: 81 switches + the encoder.
    assert_eq!(profile.key_count, 82);

    // Find wireless and dongle variants
    let profile = registry.find_by_vid_pid(0x3151, 0x503A).unwrap();
    assert!(profile.display_name.contains("Wireless"));
    let profile = registry.find_by_vid_pid(0x3151, 0x5038).unwrap();
    assert!(profile.display_name.contains("Dongle"));
}

#[test]
fn test_find_by_id() {
    let registry = with_builtins();

    let profile = registry.find_by_id(2949).unwrap();
    assert_eq!(profile.pid, 0x5030);
}

#[test]
fn test_resolve_key_names_prefers_id_over_shared_vid_pid() {
    let registry = with_builtins();

    // M1 V5 resolves via its own builtin (matched by id): position 84 is a gap.
    let m1v5 = registry
        .resolve_matrix_key_names(Some(2949), 0x3151, 0x5030)
        .expect("M1 V5 key names");
    assert_eq!(m1v5[84], "");

    // SK75 shares the VID/PID but must resolve to its own matrix layout.
    let sk75 = registry
        .resolve_matrix_key_names(Some(3804), 0x3151, 0x5030)
        .expect("SK75 key names");
    assert_eq!(sk75[84], "Home");
    assert_eq!(sk75[85], "End");
}

#[test]
fn builtin_gaps_are_filled_from_the_matrix_db() {
    let registry = with_builtins();
    let names = registry
        .resolve_matrix_key_names(Some(2949), 0x3151, 0x5030)
        .expect("M1 V5 key names");
    // Curated names still win where the builtin has one.
    assert_eq!(names[85], "Home");
    // Gaps fall through to the matrix.
    assert_eq!(names[90], "VolUp");
    assert_eq!(names[91], "VolDn");
}

#[test]
fn test_all_vid_pids() {
    let registry = with_builtins();

    let vid_pids = registry.all_vid_pids();
    assert!(vid_pids.contains(&(0x3151, 0x5030)));
    assert!(vid_pids.contains(&(0x3151, 0x503A)));
}

#[test]
fn test_global_registry() {
    let registry = with_builtins();
    assert!(!registry.is_empty());

    // A registry that is filled again holds the same
    let registry2 = with_builtins();
    assert_eq!(registry.len(), registry2.len());
    assert_eq!(registry.len(), 3);
}

#[test]
fn fun60_ultra_matrix_names_resolve() {
    let registry = with_builtins();
    let names = registry.resolve_matrix_key_names(Some(2307), 0x3151, 0x5030);
    match names {
        Some(names) => {
            assert!(
                names.iter().any(|n| !n.is_empty()),
                "matrix DB provides names but all resolved empty"
            );
        }
        None => panic!("resolve_matrix_key_names returned None for FUN60 Ultra"),
    }
}

fn profile(id: u32, pid: u16, name: &str) -> DeviceProfile {
    DeviceProfile {
        id,
        vid: 0x1111,
        pid,
        display_name: name.to_string(),
        key_count: 60,
        key_names: Vec::new(),
    }
}

#[test]
fn the_first_profile_has_the_usb_ids_and_the_last_the_device_id() {
    let mut registry = ProfileRegistry::new();
    assert!(registry.is_empty());
    registry.register(profile(5, 1, "first"));
    registry.register(profile(5, 1, "second"));
    assert_eq!(registry.find_by_vid_pid(0x1111, 1).unwrap().display_name, "first");
    assert_eq!(registry.find_by_id(5).unwrap().display_name, "second");
    assert!(registry.find_by_vid_pid(0x1111, 2).is_none());
    assert!(registry.find_by_id(6).is_none());
    assert!(registry.has_vid_pid(0x1111, 1));
    assert!(!registry.has_vid_pid(0x1111, 2));
    assert_eq!(registry.all_vid_pids(), vec![(0x1111, 1)]);
}

#[test]
fn unknown_boards_fall_back_to_their_usb_ids() {
    let registry = ProfileRegistry::with_builtins(&m1_v5_names(), Err(String::from("no file")));
    assert!(!registry.has_device_database());
    let names = registry.resolve_matrix_key_names(None, 0x3151, 0x5030).unwrap();
    assert_eq!(names[85], "Home");
    assert!(registry.resolve_matrix_key_names(None, 1, 2).is_none());
    assert!(registry.get_device_info(0x3151, 0x5030).is_none());
}

#[test]
fn shared_device_ids_need_their_usb_ids() {
    let registry = with_builtins();
    assert_eq!(registry.device_database_stats(), Some((4, 7)));
    assert!(registry.get_device_info_by_id(77).is_none());
    let found = registry.get_device_info_by_id_and_usb(77, 0x3151, 0x6002).unwrap();
    assert_eq!(found.name, "shared_b");
    // An ID of its own decides, whatever the USB IDs.
    let found = registry.get_device_info_by_id_and_usb(3804, 0x9999, 1).unwrap();
    assert_eq!(found.name, "sk75");
    assert!(registry.device_has_magnetism(0x3151, 0x5030));
    assert_eq!(registry.device_key_count(0x3151, 0x5030), Some(82));
    assert_eq!(registry.device_key_count(1, 1), None);
    assert_eq!(registry.get_device_info(0x3151, 0x5030).unwrap().name, "m1v5");
}

#[test]
fn profiles_are_read_from_files() {
    assert!(is_profile_file("board.json"));
    assert!(!is_profile_file(".json"));
    assert!(!is_profile_file("board.json.bak"));
    assert!(!is_profile_file("json"));
    let mut registry = ProfileRegistry::new();
    assert_eq!(
        registry.load_from_directory("/x", false, Vec::new()),
        Err(String::from("/x is not a directory"))
    );
    let read = vec![
        Ok(profile(1, 1, "a")),
        Err(String::from("bad")),
        Ok(profile(2, 2, "b")),
    ];
    assert_eq!(registry.load_from_directory("/x", true, read), Ok(2));
    assert_eq!(registry.len(), 2);
    assert_eq!(
        registry.load_from_file(Err(String::from("broken"))),
        Err(String::from("broken"))
    );
}

#[test]
fn a_company_is_preferred_not_required() {
    let mut db = database();
    let mut other = device(9001, "rebrand", 0x5030);
    other.company = String::from("Womier");
    db.devices.push(other);
    let registry = ProfileRegistry::with_builtins(&m1_v5_names(), Ok(db));
    let found = registry.get_device_info_for_company(0x3151, 0x5030, "Womier");
    assert_eq!(found.map(|d| d.id), Some(9001));
    let found = registry.get_device_info_for_company(0x3151, 0x5030, "Nobody");
    assert_eq!(found.map(|d| d.id), Some(2949));
    assert!(registry.get_device_info_for_company(0x3151, 1, "Womier").is_none());
}

#[test]
fn every_registered_profile_is_listed() {
    let registry = ProfileRegistry::with_builtins(&m1_v5_names(), Err(String::from("none")));
    let mut pids: Vec<u16> = registry.all_profiles().iter().map(|p| p.pid).collect();
    pids.sort();
    // One device ID, three transports.
    assert_eq!(pids, vec![0x5030, 0x5038, 0x503A]);
    assert_eq!(registry.len(), 3);
}

#[test]
fn registering_changes_only_its_own_lookups() {
    let mut registry = with_builtins();
    let at_usb = |id: u32, pid: u16, name: &str| DeviceProfile {
        vid: 0x3151,
        ..profile(id, pid, name)
    };
    registry.register(at_usb(2949, 0x5030, "newer"));
    // The device ID stands for the newest profile, the USB IDs for the oldest.
    assert_eq!(registry.find_by_id(2949).unwrap().display_name, "newer");
    assert_eq!(
        registry.find_by_vid_pid(0x3151, 0x5030).unwrap().display_name,
        "MonsGeek M1 V5 HE"
    );
    registry.register(at_usb(7, 0x7777, "other"));
    assert_eq!(registry.find_by_vid_pid(0x3151, 0x7777).unwrap().display_name, "other");
    assert_eq!(registry.find_by_id(2949).unwrap().display_name, "newer");
    assert!(registry.has_device_database());
    assert_eq!(registry.len(), 5);
}
