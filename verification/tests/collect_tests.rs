use albert_eyes::collect::{
    backup_entry, backup_from_restic, backup_from_restic_at, backup_status_for_age,
    collect_pi_status, copyparty_status, cpu_counts, cpu_sample_from, df_capacity,
    disk_availability, disk_counts, disk_sample_from, disk_status_from, memory_from_meminfo,
    mount_state, snapshot_age, snapshot_age_at, temperature_from, uptime_from_seconds,
    uuid_from_path, ActivityCollector, BackupStatus, CpStatus, CpuCounts, CpuSample, DiskCounts,
    DiskSample, MemoryUsage, Uptime,
};
use albert_eyes::status::{BackupStatus as PathStatus, DiskAvailability, PiStatus};

const DF: &str = "Filesystem     1G-blocks  Used Available Use% Mounted on\n/dev/sda1           916G   85G      831G  10% /srv/storage\n";

const MEMINFO: &str = "MemTotal:        3884376 kB\nMemFree:          412344 kB\nMemAvailable:    2952224 kB\nBuffers:           91712 kB\n";

const STAT: &str = "cpu  10132153 290696 3084719 46828483 16683 0 25195 0 0 0\ncpu0 1393280 32966 572056 13343292 6130 0 17875 0 0 0\nintr 1234 5 6\n";

const DISKSTATS: &str = "   8       0 sda 2000 10 300000 500 4000 20 600000 900 0 1000 1400\n   8       1 sda1 1800 9 250000 450 3900 19 580000 880 0 950 1330\n 179       0 mmcblk0 10 0 20 5 1 0 8 1 0 4 6\n";

#[test]
fn df_output_gives_total_and_free() {
    assert_eq!(df_capacity(DF), (Some(916), Some(831)));
}

#[test]
fn df_odd_output_is_unknown_not_a_crash() {
    assert_eq!(df_capacity(""), (None, None));
    assert_eq!(df_capacity("only a header\n"), (None, None));
    assert_eq!(df_capacity("header\n/dev/sda1 916G 85G\n"), (None, None));
    assert_eq!(df_capacity("header\n/dev/sda1 lots 85G 70000G 1% /x\n"), (None, None));
    assert_eq!(df_capacity("header\r\n/dev/sda1 12GG 1G 7G 1% /x\r\n"), (Some(12), Some(7)));
}

#[test]
fn disk_status_only_measures_mounted_disks() {
    let mounted = disk_status_from(DiskAvailability::Mounted, Some(DF.to_string()));
    assert_eq!(mounted.availability, DiskAvailability::Mounted);
    assert_eq!((mounted.total_gib, mounted.available_gib), (Some(916), Some(831)));
    assert_eq!(mounted.temperature_c, None);
    assert_eq!(mounted.health, None);
    let unmounted = disk_status_from(DiskAvailability::Unmounted, Some(DF.to_string()));
    assert_eq!((unmounted.total_gib, unmounted.available_gib), (None, None));
    let no_df = disk_status_from(DiskAvailability::Mounted, None);
    assert_eq!((no_df.total_gib, no_df.available_gib), (None, None));
}

#[test]
fn uuid_and_mount_state() {
    let uuid = uuid_from_path("/dev/disk/by-uuid/1234-abcd").unwrap();
    assert_eq!(uuid.iter().collect::<String>(), "1234-abcd");
    assert!(uuid_from_path("/dev/sdb1").is_none());
    assert_eq!(mount_state(Some("1234-abcd\n".to_string()), &uuid), DiskAvailability::Mounted);
    assert_eq!(mount_state(Some("\n".to_string()), &uuid), DiskAvailability::Unmounted);
    assert_eq!(mount_state(Some("9999\n".to_string()), &uuid), DiskAvailability::Unmounted);
    assert_eq!(mount_state(None, &uuid), DiskAvailability::Unknown);
}

#[test]
fn pi_status_from_linux() {
    assert_eq!(
        collect_pi_status(Some("52312\n".to_string()), Some(MEMINFO.to_string())),
        PiStatus { temperature_c: Some(52), ram_percent: Some(23) }
    );
    assert_eq!(
        collect_pi_status(None, None),
        PiStatus { temperature_c: None, ram_percent: None }
    );
    assert_eq!(
        collect_pi_status(Some("-4000".to_string()), Some("MemTotal: 10 kB\nMemAvailable: 5 kB\n".to_string())),
        PiStatus { temperature_c: None, ram_percent: None }
    );
    assert_eq!(
        collect_pi_status(Some("300000".to_string()), Some("MemTotal: 4096 kB\nMemAvailable: 1024 kB\n".to_string())),
        PiStatus { temperature_c: None, ram_percent: Some(75) }
    );
}

#[test]
fn availability_of_a_disk() {
    let uuid = uuid_from_path("/dev/disk/by-uuid/1234-abcd").unwrap();
    assert_eq!(disk_availability(false, Some("1234-abcd".to_string()), &uuid), DiskAvailability::Missing);
    assert_eq!(disk_availability(true, Some(" 1234-abcd\n".to_string()), &uuid), DiskAvailability::Mounted);
    assert_eq!(disk_availability(true, Some("other".to_string()), &uuid), DiskAvailability::Unmounted);
    assert_eq!(disk_availability(true, None, &uuid), DiskAvailability::Unknown);
}

#[test]
fn temperature_in_degrees() {
    assert_eq!(temperature_from("52312\n"), Some(52));
    assert_eq!(temperature_from("  999 "), Some(0));
    assert_eq!(temperature_from("-1500\n"), Some(-1));
    assert_eq!(temperature_from("+7000"), Some(7));
    assert_eq!(temperature_from("-2147483648"), Some(-2147483));
    assert_eq!(temperature_from("2147483648"), None);
    assert_eq!(temperature_from("warm"), None);
    assert_eq!(temperature_from(""), None);
}

#[test]
fn uptime_split() {
    assert_eq!(uptime_from_seconds(90_061), Uptime { days: 1, hours: 1, minutes: 1 });
    assert_eq!(uptime_from_seconds(59), Uptime { days: 0, hours: 0, minutes: 0 });
    assert_eq!(uptime_from_seconds(23_000), Uptime { days: 0, hours: 6, minutes: 23 });
}

#[test]
fn memory_from_proc() {
    assert_eq!(
        memory_from_meminfo(MEMINFO),
        Some(MemoryUsage { used: (3884376 - 2952224) / 1024, total: 3884376 / 1024 })
    );
    assert_eq!(memory_from_meminfo("MemTotal: 100 kB\n"), None);
    assert_eq!(memory_from_meminfo("MemTotal: 100 kB\nMemAvailable: 200 kB\n"), None);
    assert_eq!(memory_from_meminfo("MemTotal:\nMemAvailable: 2 kB\n"), None);
}

#[test]
fn copyparty_states() {
    assert_eq!(copyparty_status(Some("active\n".to_string())), CpStatus::Running);
    assert_eq!(copyparty_status(Some("inactive\n".to_string())), CpStatus::Stopped);
    assert_eq!(copyparty_status(Some("failed\n".to_string())), CpStatus::Failed);
    assert_eq!(copyparty_status(Some("activating\n".to_string())), CpStatus::Unknown);
    assert_eq!(copyparty_status(None), CpStatus::Unknown);
}

#[test]
fn backup_staleness() {
    assert_eq!(backup_status_for_age(48), BackupStatus::Current { age_hours: 48 });
    assert_eq!(backup_status_for_age(49), BackupStatus::Stale { age_hours: 49 });
    assert_eq!(backup_status_for_age(-2), BackupStatus::Current { age_hours: -2 });
}

#[test]
fn restic_output() {
    assert_eq!(backup_from_restic(false, b"[]"), BackupStatus::Unavailable);
    assert_eq!(backup_from_restic(true, b"[]"), BackupStatus::Unavailable);
    assert_eq!(backup_from_restic(true, b"not json"), BackupStatus::Unavailable);
    assert_eq!(
        backup_from_restic(true, br#"[{"time":"yesterday"}]"#),
        BackupStatus::Unavailable
    );
    match backup_from_restic(true, br#"[{"time":"2020-01-01T00:00:00Z","id":"x"}]"#) {
        BackupStatus::Stale { age_hours } => assert!(age_hours > 48),
        other => panic!("expected stale, got {other:?}"),
    }
    let recent = chrono::Utc::now() - chrono::Duration::hours(3);
    let json = format!("[{{\"time\":\"{}\"}}]", recent.to_rfc3339());
    assert_eq!(
        backup_from_restic(true, json.as_bytes()),
        BackupStatus::Current { age_hours: 3 }
    );
}

#[test]
fn restic_age_against_a_given_clock() {
    let json = br#"[{"time":"2024-03-01T10:00:00+01:00"}]"#;
    // 2024-03-01T09:00:00Z is 1709283600 seconds after 1970.
    let now = (1709283600 + 2 * 86_400 + 59, 0);
    assert_eq!(snapshot_age_at(true, json, now), Some(2 * 86_400 + 59));
    assert_eq!(backup_from_restic_at(true, json, now), BackupStatus::Current { age_hours: 48 });
    let later = (1709283600 + 49 * 3600, 0);
    assert_eq!(backup_from_restic_at(true, json, later), BackupStatus::Stale { age_hours: 49 });
    let before = (1709283600 - 12_600, 0);
    assert_eq!(snapshot_age_at(true, json, before), Some(-12_600));
    assert_eq!(backup_from_restic_at(true, json, before), BackupStatus::Current { age_hours: -3 });
    let half = (1709283600, 500_000_000);
    assert_eq!(snapshot_age_at(true, json, half), Some(0));
    assert_eq!(snapshot_age_at(false, json, now), None);
    assert_eq!(snapshot_age_at(true, b"[]", now), None);
    assert_eq!(snapshot_age_at(true, br#"[{"time":"soon"}]"#, now), None);
    assert_eq!(backup_from_restic_at(true, br#"[{"time":"soon"}]"#, now), BackupStatus::Unavailable);
    let recent = chrono::Utc::now() - chrono::Duration::minutes(90);
    let json = format!("[{{\"time\":\"{}\"}}]", recent.to_rfc3339());
    let age = snapshot_age(true, json.as_bytes()).unwrap();
    assert!((5_400..5_460).contains(&age));
}

#[test]
fn dashboard_backup_entries() {
    assert_eq!(backup_entry(None, 48), PathStatus::Unavailable);
    assert_eq!(backup_entry(Some(1_500), 48), PathStatus::Current { age_minutes: 25 });
    assert_eq!(backup_entry(Some(48 * 3600 + 3599), 48), PathStatus::Current { age_minutes: 2939 });
    assert_eq!(backup_entry(Some(49 * 3600), 48), PathStatus::Stale { age_minutes: 2940 });
    assert_eq!(backup_entry(Some(50 * 3600), 96), PathStatus::Current { age_minutes: 3000 });
    assert_eq!(backup_entry(Some(-5), 48), PathStatus::Current { age_minutes: 0 });
    assert_eq!(backup_entry(Some(i64::MAX), 48), PathStatus::Stale { age_minutes: u32::MAX });
}

#[test]
fn cpu_counters() {
    let first = cpu_sample_from(STAT).unwrap();
    assert_eq!(
        first,
        CpuSample([10132153, 290696, 3084719, 46828483, 16683, 0, 25195, 0])
    );
    assert_eq!(cpu_sample_from("cpu0 1 2 3 4 5 6 7 8\n"), None);
    assert_eq!(cpu_sample_from("cpu  1 2 3 4 5 6 7\n"), None);
    assert_eq!(cpu_sample_from("cpu  1 2 3 x 5 6 7 8\n"), None);
    let later = CpuSample([10132253, 290696, 3084739, 46828563, 16683, 0, 25195, 0]);
    assert_eq!(cpu_counts(&first, &later), Some(CpuCounts { busy: 120, total: 200 }));
    assert_eq!(cpu_counts(&first, &first), None);
    assert_eq!(cpu_counts(&later, &first), None);
    let big = CpuSample([u64::MAX, u64::MAX, 0, 0, 0, 0, 0, 0]);
    let zero = CpuSample([0; 8]);
    assert_eq!(cpu_counts(&zero, &big), None);
}

#[test]
fn disk_counters() {
    assert_eq!(
        disk_sample_from(DISKSTATS, "sda1"),
        Some(DiskSample { read: 250000, written: 580000 })
    );
    assert_eq!(disk_sample_from(DISKSTATS, "sdb1"), None);
    assert_eq!(disk_sample_from("8 1 sda1 1 2 3\n", "sda1"), None);
    let a = DiskSample { read: 100, written: 50 };
    let b = DiskSample { read: 300, written: 50 };
    assert_eq!(
        disk_counts(&a, &b, 2_000),
        Some(DiskCounts { read_sectors: 200, written_sectors: 0, elapsed_ns: 2_000 })
    );
    assert_eq!(disk_counts(&a, &b, 0), None);
    assert_eq!(disk_counts(&b, &a, 10), None);
}

#[test]
fn first_sample_is_unknown_then_deltas() {
    let mut collector = ActivityCollector::new();
    let cpu1 = CpuSample([1, 0, 1, 10, 0, 0, 0, 0]);
    let cpu2 = CpuSample([3, 0, 2, 15, 2, 0, 0, 0]);
    let d1 = DiskSample { read: 10, written: 20 };
    let d2 = DiskSample { read: 15, written: 26 };
    let first = collector.observe(Some(cpu1), Some(d1), 1_000);
    assert_eq!(first.cpu, None);
    assert_eq!(first.disk, None);
    let second = collector.observe(Some(cpu2), Some(d2), 3_000);
    assert_eq!(second.cpu, Some(CpuCounts { busy: 3, total: 10 }));
    assert_eq!(
        second.disk,
        Some(DiskCounts { read_sectors: 5, written_sectors: 6, elapsed_ns: 2_000 })
    );
    let missing = collector.observe(None, None, 4_000);
    assert_eq!((missing.cpu, missing.disk), (None, None));
    let again = collector.observe(Some(cpu2), Some(d2), 5_000);
    assert_eq!((again.cpu, again.disk), (None, None));
    let default_collector = ActivityCollector::default();
    let mut c = default_collector;
    assert_eq!(c.observe(Some(cpu1), Some(d1), 1).cpu, None);
}

#[test]
fn a_missing_disk_reading_keeps_cpu_activity() {
    let mut collector = ActivityCollector::new();
    collector.observe(Some(CpuSample([1, 0, 0, 1, 0, 0, 0, 0])), None, 10);
    let counts = collector.observe(Some(CpuSample([3, 0, 0, 3, 0, 0, 0, 0])), None, 20);
    assert_eq!(counts.cpu, Some(CpuCounts { busy: 2, total: 4 }));
    assert_eq!(counts.disk, None);
}
