use dev_dashboard::counters::DifferentialCounter;
use dev_dashboard::schedule::{Cadence, Scheduler};
use dev_dashboard::smoothing::SmoothedValue;
use dev_dashboard::telemetry::{
    cpu_target, drive_target, is_fixed_drive, is_installer_process, is_physical_interface,
    memory_target, TelemetrySampler, RATIO_SCALE,
};
use dev_dashboard::units::{format_bytes, ByteUnit};

#[test]
fn smoothed_value_moves_between_old_and_target() {
    let mut v = SmoothedValue::new(0);
    v.set_target(1000);
    let before = v.current;
    v.update(100);
    assert!(v.current > before);
    assert!(v.current <= v.target);
}

#[test]
fn smoothed_value_zero_interval_is_a_no_op() {
    let mut v = SmoothedValue::new(250);
    v.set_target(1000);
    v.update(0);
    assert_eq!(v.current, 250);
}

#[test]
fn smoothed_value_never_overshoots() {
    let mut v = SmoothedValue::new(0);
    v.set_target(777);
    for _ in 0..100 {
        let before = v.current;
        v.update(50);
        assert!(v.current >= before);
        assert!(v.current <= 777);
    }
    // after plenty of time the value has settled on the target
    v.update(10_000);
    assert_eq!(v.current, 777);
}

#[test]
fn smoothed_value_descends_toward_lower_target() {
    let mut v = SmoothedValue::new(900);
    v.set_target(100);
    let before = v.current;
    v.update(100);
    assert!(v.current < before);
    assert!(v.current >= 100);
}

#[test]
fn differential_counter_reset_readings() {
    // readings [100, 150, 140, 200] must yield the deltas [50, 140, 60]:
    // the backwards reading is a counter reset, not a negative delta
    let mut c = DifferentialCounter::seeded(100);
    let t0 = c.total;

    c.record(150, 1000);
    assert_eq!(c.total - t0, 50);
    assert_eq!(c.rate, 50);

    let t1 = c.total;
    c.record(140, 1000);
    assert_eq!(c.total - t1, 140);
    assert_eq!(c.rate, 140);

    let t2 = c.total;
    c.record(200, 1000);
    assert_eq!(c.total - t2, 60);
    assert_eq!(c.rate, 60);
}

#[test]
fn differential_counter_zero_elapsed_records_reading_only() {
    let mut c = DifferentialCounter::seeded(100);
    c.record(500, 0);
    assert_eq!(c.total, 100);
    assert_eq!(c.rate, 0);
    assert_eq!(c.last_reading, 500);
}

#[test]
fn differential_counter_rate_scales_with_elapsed_time() {
    let mut c = DifferentialCounter::seeded(0);
    // 1000 bytes over 500 ms is 2000 bytes per second
    c.record(1000, 500);
    assert_eq!(c.rate, 2000);
}

#[test]
fn physical_interface_heuristics() {
    assert!(is_physical_interface(b"Ethernet"));
    assert!(is_physical_interface(b"Wi-Fi"));
    assert!(is_physical_interface(b"eth0"));
    assert!(is_physical_interface(b"wlan0"));
    assert!(is_physical_interface(b"Intel Wireless Adapter"));
    // a platform-bridged virtual adapter is excluded even though its name
    // holds "ethernet" as a substring
    assert!(!is_physical_interface(b"vEthernet (WSL)"));
    assert!(!is_physical_interface(b"Loopback Pseudo-Interface 1"));
    assert!(!is_physical_interface(b"Bluetooth Network Connection"));
    assert!(!is_physical_interface(b"lo"));
}

#[test]
fn installer_process_name_heuristics() {
    assert!(is_installer_process(b"Ninite.exe"));
    assert!(is_installer_process(b"ninite-downloader.EXE"));
    assert!(!is_installer_process(b"ninite.txt"));
    assert!(!is_installer_process(b"notepad.exe"));
}

#[test]
fn fixed_drive_mount_points() {
    assert!(is_fixed_drive(b"C:"));
    assert!(is_fixed_drive(b"D:"));
    assert!(!is_fixed_drive(b"C:\\"));
    assert!(!is_fixed_drive(b"/"));
    assert!(!is_fixed_drive(b"/mnt/data"));
}

#[test]
fn cpu_target_means_and_clamps() {
    assert_eq!(cpu_target(&vec![]), 0);
    assert_eq!(cpu_target(&vec![1000, 3000]), 2000);
    // readings above full scale clamp to 100%
    assert_eq!(cpu_target(&vec![20000, 20000]), RATIO_SCALE);
}

#[test]
fn memory_target_ratio() {
    // 3 of 4 units used reads as 75.00%
    assert_eq!(memory_target(4, 1), 7500);
    assert_eq!(memory_target(0, 0), 0);
    // more available than total degrades to zero
    assert_eq!(memory_target(4, 8), 0);
    assert_eq!(drive_target(1000, 250), 7500);
}

#[test]
fn zero_total_memory_leaves_the_display_alone() {
    let mut s = TelemetrySampler::new();
    s.set_memory_target(4, 1);
    assert_eq!(s.memory.target, 7500);
    s.set_memory_target(0, 0);
    assert_eq!(s.memory.target, 7500);
}

#[test]
fn sampler_tracks_only_physical_interfaces() {
    let mut s = TelemetrySampler::new();
    let current = vec![
        (b"Ethernet".to_vec(), 100u64, 10u64),
        (b"Loopback Pseudo-Interface 1".to_vec(), 999u64, 999u64),
        (b"Wi-Fi".to_vec(), 5u64, 7u64),
    ];
    s.sync_interfaces(&current);
    assert_eq!(s.interfaces.len(), 2);
    assert_eq!(s.interfaces[0].name, b"Ethernet".to_vec());
    assert_eq!(s.interfaces[0].rx.total, 100);
    assert_eq!(s.interfaces[0].rx.last_reading, 100);
    assert_eq!(s.interfaces[0].rx.rate, 0);
    assert_eq!(s.interfaces[1].name, b"Wi-Fi".to_vec());
}

#[test]
fn sampler_keeps_counters_and_drops_vanished_interfaces() {
    let mut s = TelemetrySampler::new();
    s.sync_interfaces(&vec![
        (b"Ethernet".to_vec(), 100u64, 10u64),
        (b"Wi-Fi".to_vec(), 5u64, 7u64),
    ]);
    s.record_interface(b"Ethernet", 600, 110, 1000);
    assert_eq!(s.interfaces[0].rx.rate, 500);
    assert_eq!(s.interfaces[0].rx.total, 600);

    // the wireless adapter disappears; the wired one keeps its counters
    s.sync_interfaces(&vec![(b"Ethernet".to_vec(), 700u64, 120u64)]);
    assert_eq!(s.interfaces.len(), 1);
    assert_eq!(s.interfaces[0].rx.total, 600);
    assert_eq!(s.interfaces[0].rx.last_reading, 600);
}

#[test]
fn sampler_records_fixed_drives_only() {
    let mut s = TelemetrySampler::new();
    s.record_drive(b"C:", 1000, 250);
    s.record_drive(b"/", 1000, 250);
    s.record_drive(b"D:", 0, 0);
    assert_eq!(s.drives.len(), 1);
    assert_eq!(s.drives[0].name, b"C:".to_vec());
    assert_eq!(s.drives[0].usage.current, 7500);
    assert_eq!(s.drives[0].usage.target, 7500);

    // a known drive only gets a fresh target; the display keeps gliding
    s.record_drive(b"C:", 1000, 750);
    assert_eq!(s.drives.len(), 1);
    assert_eq!(s.drives[0].usage.current, 7500);
    assert_eq!(s.drives[0].usage.target, 2500);
}

#[test]
fn format_bytes_units_and_tenths() {
    assert_eq!(format_bytes(512), (5120, ByteUnit::B));
    assert_eq!(format_bytes(1536), (15, ByteUnit::KiB));
    assert_eq!(format_bytes(1048576), (10, ByteUnit::MiB));
    assert_eq!(format_bytes(1610612736), (15, ByteUnit::GiB));
    assert_eq!(format_bytes(1099511627776), (10, ByteUnit::TiB));
    assert_eq!(format_bytes(1023), (10230, ByteUnit::B));
}

#[test]
fn cadence_fires_on_schedule() {
    let mut c = Cadence::new(1000);
    assert!(c.due(0));
    assert!(!c.due(500));
    assert!(!c.due(999));
    assert!(c.due(1000));
    assert!(!c.due(1500));
    assert!(c.due(2100));
}

#[test]
fn scheduler_periods() {
    let s = Scheduler::new();
    assert_eq!(s.telemetry.period_ms, 1000);
    assert_eq!(s.network.period_ms, 100);
    assert_eq!(s.detection.period_ms, 2000);
}
