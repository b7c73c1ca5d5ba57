use procmon_core::detector::Severity;
use procmon_core::metrics::{parse_diskstats_line, DiskIoMetrics, MemoryMetrics, NetworkMetrics, UsbIoMetrics};
use procmon_core::partition::{check_filesystem_command, format_partition_command, parse_table_type_line, partition_number_of, resize_filesystem_command, Disk, Partition, ResizeFsCommand};
use procmon_core::process::{parse_uid_line, passwd_line_user, ProcessInfo, ProcessStats, ProcessStatus};
use procmon_core::service::{parse_service_line, ServiceState, SystemService};
use procmon_core::text::{split_on_char, split_whitespace_fields, str_ends_with, str_eq, str_strip_suffix_runs, str_trim_ws};
use procmon_core::ui_state::{SortColumn, Tab};
use procmon_core::{PartitionManager, ServiceManager};

#[test]
fn severity_is_ordered() {
    assert!(Severity::Info < Severity::Warning);
    assert!(Severity::Warning < Severity::Critical);
    assert_eq!(Severity::Warning.max(Severity::Info), Severity::Warning);
}

#[test]
fn process_info_new_fills_identity_only() {
    let info = ProcessInfo::new(42, "sh".to_string(), "root".to_string(), 0);
    assert_eq!(info.pid, 42);
    assert_eq!(info.name, "sh");
    assert_eq!(info.user, "root");
    assert_eq!(info.uid, 0);
    assert!(info.exe_path.is_none());
    assert!(info.command_line.is_empty());
    assert_eq!(info.status, ProcessStatus::Unknown);
    assert!(info.parent_pid.is_none());
}

#[test]
fn process_stats_default_zeroes_counters() {
    let st = ProcessStats::default();
    assert_eq!(st.pid, 0);
    assert_eq!(st.cpu_usage_tenths, 0);
    assert_eq!(st.memory_usage, 0);
    assert_eq!(st.num_threads, 0);
    assert_eq!(st.run_time_secs, 0);
    assert!(st.start_time_secs > 0);
}

#[test]
fn memory_metrics_default_is_zero() {
    let m = MemoryMetrics::default();
    assert_eq!(m.total, 0);
    assert_eq!(m.used, 0);
    assert_eq!(m.available, 0);
    assert_eq!(m.swap_total, 0);
    assert_eq!(m.swap_used, 0);
}

#[test]
fn metrics_structs_hold_plain_counters() {
    let n = NetworkMetrics {
        interface_name: "eth0".to_string(),
        bytes_sent: 1,
        bytes_received: 2,
        packets_sent: 3,
        packets_received: 4,
        errors_in: 5,
        errors_out: 6,
    };
    assert_eq!(n.interface_name, "eth0");
    assert_eq!(n.errors_out, 6);
    let d = DiskIoMetrics {
        device_name: "sda".to_string(),
        read_bytes: 512,
        write_bytes: 1024,
        read_ops: 1,
        write_ops: 2,
    };
    assert_eq!(d.write_bytes, 1024);
    let u = UsbIoMetrics {
        device_id: "1-1".to_string(),
        device_name: "disk".to_string(),
        vendor_id: 0x1d6b,
        product_id: 0x0002,
        bytes_transferred: 0,
    };
    assert_eq!(u.vendor_id, 0x1d6b);
}

#[test]
fn service_state_from_active_state_words() {
    assert_eq!(ServiceState::from_active_state("active"), ServiceState::Running);
    assert_eq!(ServiceState::from_active_state("running"), ServiceState::Running);
    assert_eq!(ServiceState::from_active_state("inactive"), ServiceState::Stopped);
    assert_eq!(ServiceState::from_active_state("dead"), ServiceState::Stopped);
    assert_eq!(ServiceState::from_active_state("failed"), ServiceState::Failed);
    assert_eq!(ServiceState::from_active_state("activating"), ServiceState::Unknown);
    assert_eq!(ServiceState::from_active_state(""), ServiceState::Unknown);
}

#[test]
fn system_service_holds_reported_fields() {
    let s = SystemService {
        name: "sshd".to_string(),
        description: "OpenSSH server".to_string(),
        state: ServiceState::Running,
        enabled: true,
        active_state: "active".to_string(),
        sub_state: "running".to_string(),
        memory_usage: Some(1024),
        cpu_usage_tenths: None,
        main_pid: Some(617),
    };
    assert_eq!(s.state, ServiceState::Running);
    assert_eq!(s.main_pid, Some(617));
    let _ = ServiceManager::new();
}

#[test]
fn str_eq_compares_characters() {
    assert!(str_eq("", ""));
    assert!(str_eq("abc", "abc"));
    assert!(!str_eq("abc", "abd"));
    assert!(!str_eq("abc", "ab"));
    assert!(!str_eq("", "x"));
}

#[test]
fn partition_model_holds_reported_fields() {
    let p = Partition {
        device: "/dev/sda1".to_string(),
        partition_number: Some(1),
        filesystem: Some("ext4".to_string()),
        label: None,
        size_bytes: 512 * 1024 * 1024 * 1024,
        used_bytes: 10,
        mount_point: Some("/".to_string()),
        partition_type: Some("gpt".to_string()),
        flags: vec!["boot".to_string()],
    };
    let d = Disk {
        device: "/dev/sda".to_string(),
        model: "ExampleDisk".to_string(),
        size_bytes: 1024 * 1024 * 1024 * 1024,
        logical_sector_size: 512,
        physical_sector_size: 4096,
        partitions: vec![p],
    };
    assert_eq!(d.partitions.len(), 1);
    assert_eq!(d.partitions[0].partition_number, Some(1));
    let _ = PartitionManager::new();
}

#[test]
fn tab_cycle_is_a_seven_step_loop() {
    let mut t = Tab::Dashboard;
    for _ in 0..7 {
        t = t.next();
    }
    assert_eq!(t, Tab::Dashboard);
    assert_eq!(Tab::Dashboard.previous(), Tab::Alerts);
    assert_eq!(Tab::Alerts.next(), Tab::Dashboard);
    for (i, t) in [
        Tab::Dashboard,
        Tab::Processes,
        Tab::Services,
        Tab::Storage,
        Tab::Network,
        Tab::Partitions,
        Tab::Alerts,
    ]
    .iter()
    .enumerate()
    {
        assert_eq!(t.index(), i);
        assert_eq!(Tab::from_index(i, Tab::Dashboard), *t);
        assert_eq!(t.next().previous(), *t);
    }
    // Out-of-range positions keep the current tab.
    assert_eq!(Tab::from_index(7, Tab::Network), Tab::Network);
}

#[test]
fn sort_column_cycle_visits_all_five() {
    let mut c = SortColumn::Name;
    let mut seen = vec![c];
    for _ in 0..4 {
        c = c.next();
        seen.push(c);
    }
    assert_eq!(
        seen,
        vec![
            SortColumn::Name,
            SortColumn::Cpu,
            SortColumn::Memory,
            SortColumn::DiskIo,
            SortColumn::User
        ]
    );
    assert_eq!(c.next(), SortColumn::Name);
}

#[test]
fn format_commands_choose_tool_and_flags() {
    let cmd = format_partition_command("/dev/sda1", "ext4", Some("data")).unwrap();
    assert_eq!(cmd.program, "mkfs.ext4");
    assert_eq!(cmd.args, vec!["-L", "data", "/dev/sda1"]);
    let cmd = format_partition_command("/dev/sda1", "ext2", None).unwrap();
    assert_eq!(cmd.program, "mkfs.ext2");
    assert_eq!(cmd.args, vec!["/dev/sda1"]);
    let cmd = format_partition_command("/dev/sda1", "xfs", None).unwrap();
    assert_eq!(cmd.program, "mkfs.xfs");
    assert_eq!(cmd.args, vec!["-f", "/dev/sda1"]);
    let cmd = format_partition_command("/dev/sda1", "btrfs", Some("b")).unwrap();
    assert_eq!(cmd.program, "mkfs.btrfs");
    assert_eq!(cmd.args, vec!["-f", "-L", "b", "/dev/sda1"]);
    let cmd = format_partition_command("/dev/sda1", "f2fs", Some("f")).unwrap();
    assert_eq!(cmd.program, "mkfs.f2fs");
    assert_eq!(cmd.args, vec!["-l", "f", "/dev/sda1"]);
    let cmd = format_partition_command("/dev/sda1", "fat32", Some("ESP")).unwrap();
    assert_eq!(cmd.program, "mkfs.vfat");
    assert_eq!(cmd.args, vec!["-F", "32", "-n", "ESP", "/dev/sda1"]);
    let cmd = format_partition_command("/dev/sda1", "vfat", None).unwrap();
    assert_eq!(cmd.program, "mkfs.vfat");
    assert_eq!(cmd.args, vec!["-F", "32", "/dev/sda1"]);
    assert!(format_partition_command("/dev/sda1", "swap", None).is_none());
}

#[test]
fn resize_commands_per_filesystem() {
    match resize_filesystem_command("/dev/sda1", "ext4") {
        ResizeFsCommand::Run(cmd) => {
            assert_eq!(cmd.program, "resize2fs");
            assert_eq!(cmd.args, vec!["/dev/sda1"]);
        }
        _ => panic!("ext4 resizes with resize2fs"),
    }
    match resize_filesystem_command("/dev/sda1", "btrfs") {
        ResizeFsCommand::Run(cmd) => {
            assert_eq!(cmd.program, "btrfs");
            assert_eq!(cmd.args, vec!["filesystem", "resize", "max", "/dev/sda1"]);
        }
        _ => panic!("btrfs resizes with its own tool"),
    }
    assert!(matches!(
        resize_filesystem_command("/dev/sda1", "xfs"),
        ResizeFsCommand::NeedsMount
    ));
    assert!(matches!(
        resize_filesystem_command("/dev/sda1", "ntfs"),
        ResizeFsCommand::Unsupported
    ));
}

#[test]
fn check_commands_per_filesystem() {
    let cmd = check_filesystem_command("/dev/sda1", "ext4", true).unwrap();
    assert_eq!(cmd.program, "e2fsck");
    assert_eq!(cmd.args, vec!["-p", "/dev/sda1"]);
    let cmd = check_filesystem_command("/dev/sda1", "ext3", false).unwrap();
    assert_eq!(cmd.program, "e2fsck");
    assert_eq!(cmd.args, vec!["-n", "/dev/sda1"]);
    let cmd = check_filesystem_command("/dev/sda1", "xfs", true).unwrap();
    assert_eq!(cmd.program, "xfs_repair");
    assert_eq!(cmd.args, vec!["-n", "/dev/sda1"]);
    let cmd = check_filesystem_command("/dev/sda1", "btrfs", true).unwrap();
    assert_eq!(cmd.program, "btrfs");
    assert_eq!(cmd.args, vec!["check", "--repair", "/dev/sda1"]);
    let cmd = check_filesystem_command("/dev/sda1", "btrfs", false).unwrap();
    assert_eq!(cmd.args, vec!["check", "/dev/sda1"]);
    assert!(check_filesystem_command("/dev/sda1", "vfat", false).is_none());
}

#[test]
fn whitespace_splitting_finds_maximal_runs() {
    assert_eq!(split_whitespace_fields(""), Vec::<String>::new());
    assert_eq!(split_whitespace_fields("   "), Vec::<String>::new());
    assert_eq!(split_whitespace_fields("one"), vec!["one"]);
    assert_eq!(split_whitespace_fields("  a  bb\tccc "), vec!["a", "bb", "ccc"]);
}

#[test]
fn suffix_helpers_strip_trailing_runs() {
    assert!(str_ends_with("sshd.service", ".service"));
    assert!(!str_ends_with("sshd", ".service"));
    assert!(!str_ends_with("vc", ".service"));
    assert_eq!(str_strip_suffix_runs("sshd.service", ".service"), "sshd");
    assert_eq!(str_strip_suffix_runs("a.service.service", ".service"), "a");
    assert_eq!(str_strip_suffix_runs("plain", ".service"), "plain");
}

#[test]
fn service_line_parsing_matches_listing_format() {
    let p = parse_service_line("sshd.service loaded active running OpenSSH server daemon").unwrap();
    assert_eq!(p.name, "sshd");
    assert_eq!(p.active_state, "active");
    assert_eq!(p.sub_state, "running");
    assert_eq!(p.description, "OpenSSH server daemon");
    // A unit of another kind, or a short line, denotes nothing.
    assert!(parse_service_line("boot.mount loaded active mounted /boot").is_none());
    assert!(parse_service_line("sshd.service loaded active").is_none());
    // A description may be absent.
    let p = parse_service_line("x.service loaded inactive dead").unwrap();
    assert_eq!(p.name, "x");
    assert_eq!(p.description, "");
}

#[test]
fn diskstats_line_parsing() {
    let line = " 259       0 nvme0n1 52000 0 3104 0 24000 0 2048 0 0 0 0 0";
    let m = parse_diskstats_line(line).unwrap();
    assert_eq!(m.device_name, "nvme0n1");
    assert_eq!(m.read_ops, 52000);
    assert_eq!(m.read_bytes, 3104 * 512);
    assert_eq!(m.write_ops, 24000);
    assert_eq!(m.write_bytes, 2048 * 512);
    // Loopback and ramdisk devices, and short lines, denote nothing.
    assert!(parse_diskstats_line(" 7 0 loop0 1 0 2 0 3 0 4 0 0 0 0 0").is_none());
    assert!(parse_diskstats_line(" 1 0 ram0 1 0 2 0 3 0 4 0 0 0 0 0").is_none());
    assert!(parse_diskstats_line("259 0 nvme0n1 52000").is_none());
    // A non-numeric counter field reads as zero.
    let m = parse_diskstats_line(" 8 0 sda x 0 y 0 z 0 w 0 0 0 0 0").unwrap();
    assert_eq!(m.read_ops, 0);
    assert_eq!(m.read_bytes, 0);
}

#[test]
fn uid_line_parsing() {
    assert_eq!(parse_uid_line("Uid:\t1000\t1000\t1000\t1000"), Some(1000));
    assert_eq!(parse_uid_line("Uid:\t0\t0\t0\t0"), Some(0));
    assert_eq!(parse_uid_line("Gid:\t1000\t1000\t1000\t1000"), None);
    assert_eq!(parse_uid_line("Uid:"), None);
    assert_eq!(parse_uid_line("Uid:\tabc"), None);
}

#[test]
fn separator_splitting_keeps_empty_fields() {
    assert_eq!(split_on_char("", ':'), vec![""]);
    assert_eq!(split_on_char("a", ':'), vec!["a"]);
    assert_eq!(split_on_char("a:b:c", ':'), vec!["a", "b", "c"]);
    assert_eq!(split_on_char("a::c:", ':'), vec!["a", "", "c", ""]);
}

#[test]
fn passwd_line_lookup_matches_uid() {
    let line = "alice:x:1000:1000:Alice:/home/alice:/bin/sh";
    assert_eq!(passwd_line_user(line, 1000), Some("alice".to_string()));
    assert_eq!(passwd_line_user(line, 1001), None);
    assert_eq!(passwd_line_user("root:x:0:0:root:/root:/bin/sh", 0), Some("root".to_string()));
    assert_eq!(passwd_line_user("malformed", 0), None);
    assert_eq!(passwd_line_user("a:x:notanumber:0", 0), None);
}

#[test]
fn partition_numbers_come_from_device_names() {
    assert_eq!(partition_number_of("sda1", "sda"), Some(1));
    assert_eq!(partition_number_of("nvme0n1p3", "nvme0n1"), Some(3));
    assert_eq!(partition_number_of("sda", "sda"), None);
    assert_eq!(partition_number_of("sdb1", "sda"), None);
}

#[test]
fn table_type_line_parsing() {
    assert_eq!(
        parse_table_type_line("Partition Table: gpt"),
        Some("gpt".to_string())
    );
    assert_eq!(
        parse_table_type_line("  Partition Table:  msdos  "),
        Some("msdos".to_string())
    );
    assert_eq!(parse_table_type_line("Model: Example (scsi)"), None);
    assert_eq!(parse_table_type_line("no colon here"), None);
}

#[test]
fn trimming_strips_spaces_and_tabs() {
    assert_eq!(str_trim_ws("  gpt \t"), "gpt");
    assert_eq!(str_trim_ws("gpt"), "gpt");
    assert_eq!(str_trim_ws("   "), "");
    assert_eq!(str_trim_ws("a b"), "a b");
}
