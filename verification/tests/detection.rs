use std::collections::HashSet;

use dev_dashboard::catalog::{default_catalog, AppDescriptor};
use dev_dashboard::dashboard::DevDashboard;
use dev_dashboard::detect::{
    any_signal, apply_verdict, detection_verdict, expand_path, path_probe_plan,
    uninstall_entry_matches, PathProbe,
};
use dev_dashboard::gpu::{
    is_placeholder_adapter, pci_label_from_device_id, select_generic_adapter, vendor_bus_label,
    vendor_gpu, GenericAdapter, GpuInfo,
};
use dev_dashboard::pipeline::{
    FailureReason, InstallerState, ProgressFraction, ProgressMessage,
};

/// An in-memory stand-in for the filesystem: the set of paths that exist as
/// regular files.
fn file_signal(plan: &[PathProbe], fs: &HashSet<Vec<u8>>) -> bool {
    let results: Vec<bool> = plan
        .iter()
        .map(|p| {
            if p.wildcard {
                // no glob entries in this fake filesystem
                false
            } else {
                fs.contains(&p.pattern)
            }
        })
        .collect();
    any_signal(&results)
}

#[test]
fn detector_follows_the_file_signal() {
    let mut d = AppDescriptor::new(
        "Foo",
        "Other",
        "foo",
        vec!["SOFTWARE\\Foo"],
        vec!["C:\\Apps\\Foo\\foo.exe"],
    );
    let mut fs: HashSet<Vec<u8>> = HashSet::new();
    fs.insert(b"C:\\Apps\\Foo\\foo.exe".to_vec());

    let plan = path_probe_plan(&d, b"tester");
    let signal = file_signal(&plan, &fs);
    let verdict = detection_verdict(false, signal, false);
    let changed = apply_verdict(&mut d, verdict);
    assert!(d.installed);
    assert!(changed);

    // removing the file flips the verdict back on the next cycle
    fs.remove(&b"C:\\Apps\\Foo\\foo.exe".to_vec());
    let signal = file_signal(&plan, &fs);
    let changed = apply_verdict(&mut d, detection_verdict(false, signal, false));
    assert!(!d.installed);
    assert!(changed);
}

#[test]
fn detector_is_idempotent() {
    let mut d = AppDescriptor::new("Foo", "Other", "foo", vec![], vec!["C:\\foo.exe"]);
    let first = apply_verdict(&mut d, true);
    let second = apply_verdict(&mut d, true);
    assert!(first);
    assert!(!second);
    assert!(d.installed);
}

#[test]
fn registry_signal_does_not_decide_the_verdict() {
    // the file signal is authoritative by design
    assert!(!detection_verdict(true, false, true));
    assert!(detection_verdict(false, true, false));
}

#[test]
fn username_placeholder_is_substituted() {
    let expanded = expand_path(b"C:\\Users\\%USERNAME%\\AppData\\x.exe", b"alex");
    assert_eq!(expanded, b"C:\\Users\\alex\\AppData\\x.exe".to_vec());
    // a pattern without the placeholder is untouched
    let plain = expand_path(b"C:\\Program Files\\x.exe", b"alex");
    assert_eq!(plain, b"C:\\Program Files\\x.exe".to_vec());
}

#[test]
fn probe_plan_classifies_wildcards() {
    let d = AppDescriptor::new(
        "Py",
        "Developer Tools",
        "py",
        vec![],
        vec![
            "C:\\Python*\\python.exe",
            "C:\\Users\\%USERNAME%\\py.exe",
        ],
    );
    let plan = path_probe_plan(&d, b"kim");
    assert_eq!(plan.len(), 2);
    assert!(plan[0].wildcard);
    assert_eq!(plan[0].pattern, b"C:\\Python*\\python.exe".to_vec());
    assert!(!plan[1].wildcard);
    assert_eq!(plan[1].pattern, b"C:\\Users\\kim\\py.exe".to_vec());
}

#[test]
fn uninstall_entries_match_case_insensitively() {
    assert!(uninstall_entry_matches(b"Zoom", b"Zoom Workplace (64-bit)", None));
    assert!(uninstall_entry_matches(b"zoom", b"ZOOM", None));
    assert!(!uninstall_entry_matches(b"Zoom", b"Discord", None));
    // a declared install location must exist as a directory
    assert!(uninstall_entry_matches(b"Zoom", b"Zoom", Some(true)));
    assert!(!uninstall_entry_matches(b"Zoom", b"Zoom", Some(false)));
}

#[test]
fn catalog_starts_with_nothing_installed() {
    let apps = default_catalog();
    assert_eq!(apps.len(), 22);
    assert!(apps.iter().all(|a| !a.installed));
    assert_eq!(apps[0].name, b"Chrome".to_vec());
    assert_eq!(apps[0].installer_id, b"chrome".to_vec());
}

#[test]
fn dashboard_applies_messages_in_order() {
    let mut d = DevDashboard::new();
    assert!(!d.apply_message(ProgressMessage::StateChanged(InstallerState::Downloading)));
    assert_eq!(d.installer_state, InstallerState::Downloading);

    assert!(!d.apply_message(ProgressMessage::ProgressUpdate(ProgressFraction {
        numer: 1,
        denom: 2,
    })));
    assert_eq!(d.download_progress, ProgressFraction { numer: 1, denom: 2 });

    // only the return to rest asks for an immediate detection pass
    assert!(d.apply_message(ProgressMessage::StateChanged(InstallerState::Idle)));
    assert_eq!(d.installer_state, InstallerState::Idle);
}

#[test]
fn dashboard_failure_message_enters_error_state() {
    let mut d = DevDashboard::new();
    assert!(!d.apply_message(ProgressMessage::Failed(FailureReason::Transport)));
    assert_eq!(
        d.installer_state,
        InstallerState::Error(FailureReason::Transport)
    );
    // leaving the failed state takes the explicit retry
    assert!(!d.can_start());
    d.retry();
    assert_eq!(d.installer_state, InstallerState::Idle);
}

#[test]
fn dashboard_gates_the_start_of_a_run() {
    let mut d = DevDashboard::new();
    assert!(!d.can_start());
    d.select_app(b"Chrome");
    assert!(d.can_start());
    d.apply_message(ProgressMessage::StateChanged(InstallerState::Downloading));
    assert!(!d.can_start());
}

#[test]
fn dashboard_selection_has_no_duplicates() {
    let mut d = DevDashboard::new();
    d.select_app(b"Chrome");
    d.select_app(b"Chrome");
    d.select_app(b"Zoom");
    assert_eq!(d.selected.len(), 2);
    d.deselect_app(b"Chrome");
    assert_eq!(d.selected, vec![b"Zoom".to_vec()]);
}

#[test]
fn dashboard_prunes_installed_apps_from_selection() {
    let mut d = DevDashboard::new();
    d.select_app(b"Chrome");
    d.select_app(b"Zoom");
    let verdicts: Vec<bool> = d
        .apps
        .iter()
        .map(|a| a.name == b"Chrome".to_vec())
        .collect();
    let flips = d.apply_detection(&verdicts);
    assert_eq!(flips.iter().filter(|f| **f).count(), 1);
    d.prune_selected();
    assert_eq!(d.selected, vec![b"Zoom".to_vec()]);
}

#[test]
fn placeholder_adapters_are_skipped() {
    assert!(is_placeholder_adapter(b"Microsoft Basic Display Adapter"));
    assert!(!is_placeholder_adapter(b"Example Graphics 9000"));

    let adapters = vec![
        GenericAdapter {
            name: b"Microsoft Basic Display Adapter".to_vec(),
            adapter_ram: None,
            driver_version: None,
            device_id: None,
        },
        GenericAdapter {
            name: b"Example Graphics 9000".to_vec(),
            adapter_ram: Some(4_294_967_296),
            driver_version: Some(b"31.0.101".to_vec()),
            device_id: Some(b"PCI\\VEN_1A2B&DEV_3C4D&SUBSYS_0".to_vec()),
        },
    ];
    let g = select_generic_adapter(&adapters).expect("a real adapter is present");
    assert_eq!(g.name, b"Example Graphics 9000".to_vec());
    assert_eq!(g.memory_total, Some(4_294_967_296));
    assert_eq!(g.driver_version, Some(b"31.0.101".to_vec()));
    assert_eq!(g.pci_bus_id, Some(b"0000:00:00.0 [1A2B:3C4D]".to_vec()));

    let only_placeholder = vec![GenericAdapter {
        name: b"Microsoft Basic Display Adapter".to_vec(),
        adapter_ram: None,
        driver_version: None,
        device_id: None,
    }];
    assert!(select_generic_adapter(&only_placeholder).is_none());
}

#[test]
fn device_paths_without_tokens_yield_no_bus_label() {
    assert_eq!(pci_label_from_device_id(b"ROOT\\BasicDisplay"), None);
    assert_eq!(pci_label_from_device_id(b"PCI\\VEN_1A"), None);
    assert_eq!(pci_label_from_device_id(b"PCI\\DEV_3C4D"), None);
}

#[test]
fn vendor_bus_labels_are_fixed_width_hex() {
    assert_eq!(vendor_bus_label(0, 1, 2), b"0000:01:02.0".to_vec());
    assert_eq!(vendor_bus_label(0x1af4, 0xab, 0x3), b"1af4:ab:03.0".to_vec());
}

#[test]
fn vendor_gpu_carries_bus_and_driver() {
    let g = vendor_gpu(
        b"Example RTX".to_vec(),
        Some((0, 0x2b, 0x00)),
        Some(b"551.23".to_vec()),
    );
    assert_eq!(g.pci_bus_id, Some(b"0000:2b:00.0".to_vec()));
    assert_eq!(g.driver_version, Some(b"551.23".to_vec()));
    assert_eq!(g.memory_total, None);
    assert_eq!(g.utilization, None);
}

#[test]
fn gpu_readings_feed_the_smoothed_displays() {
    let mut g = GpuInfo::new(b"Example".to_vec());
    g.apply_memory_reading(8000, 2000);
    assert_eq!(g.memory_total, Some(8000));
    assert_eq!(g.memory_used, Some(2000));
    assert_eq!(g.memory_usage.target, 2500);
    // unmeasured fields stay empty rather than reading as zero
    assert_eq!(g.temperature, None);
    assert_eq!(g.utilization, None);

    g.apply_utilization(45);
    assert_eq!(g.utilization, Some(45));
    assert_eq!(g.gpu_usage.target, 4500);
    g.apply_utilization(250);
    assert_eq!(g.gpu_usage.target, 10_000);

    g.apply_temperature(61);
    assert_eq!(g.temperature, Some(61));
}
