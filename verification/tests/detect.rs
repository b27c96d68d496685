//! Storage devices.

use filecopier::os::detect::{
    detect_drive_kind, extract_drive_root, find_block_device, strip_partition_number, DriveProbe,
};
use filecopier::os::traits::{CopyStrategy, DriveKind};

#[test]
fn detect_current_dir_does_not_panic() {
    let mounts = "/dev/sda1 / ext4 rw 0 0\nproc /proc proc rw 0 0\n";
    let device = find_block_device(mounts, "/home/user");
    assert_eq!(device.as_deref(), Some("sda"));
    let kind = detect_drive_kind(&DriveProbe::Linux { rotational: Some("0\n".to_string()) });
    println!("DriveKind para '.': {kind:?}");
    assert_eq!(kind, DriveKind::Ssd);
}

#[test]
fn extract_drive_root_standard() {
    assert_eq!(
        extract_drive_root(r"C:\Users\herna\Documents"),
        Some("C:\\".to_string())
    );
}

#[test]
fn extract_drive_root_forward_slashes() {
    assert_eq!(extract_drive_root("D:/Games"), Some("D:\\".to_string()));
}

#[test]
fn extract_drive_root_unc_is_none() {
    assert_eq!(extract_drive_root(r"\\server\share\file"), None);
    assert_eq!(extract_drive_root("//server/share"), None);
}

#[test]
fn extract_drive_root_needs_a_letter() {
    assert_eq!(extract_drive_root("e:"), Some("E:\\".to_string()));
    assert_eq!(extract_drive_root("1:\\x"), None);
    assert_eq!(extract_drive_root("ñ:\\x"), None);
    assert_eq!(extract_drive_root("relative"), None);
    assert_eq!(extract_drive_root(""), None);
}

#[test]
fn strip_partition_sda() {
    assert_eq!(strip_partition_number("sda1"), "sda");
    assert_eq!(strip_partition_number("sda"), "sda");
}

#[test]
fn strip_partition_nvme() {
    assert_eq!(strip_partition_number("nvme0n1p1"), "nvme0n1");
    assert_eq!(strip_partition_number("nvme0n1"), "nvme0n1");
}

#[test]
fn strip_partition_others() {
    assert_eq!(strip_partition_number("mmcblk0p2"), "mmcblk0");
    assert_eq!(strip_partition_number("sdb12"), "sdb");
    assert_eq!(strip_partition_number("root"), "root");
    assert_eq!(strip_partition_number(""), "");
}

#[test]
fn the_longest_mount_point_wins() {
    let mounts = "/dev/sda2 / ext4 rw\n/dev/nvme0n1p3 /home xfs rw\n/dev/sdb1 /home/user/big ext4 rw";
    assert_eq!(find_block_device(mounts, "/etc").as_deref(), Some("sda"));
    assert_eq!(find_block_device(mounts, "/home/other").as_deref(), Some("nvme0n1"));
    assert_eq!(find_block_device(mounts, "/home/user/big/file").as_deref(), Some("sdb"));
}

#[test]
fn a_mount_table_out_of_shape_names_nothing() {
    assert_eq!(find_block_device("", "/etc"), None);
    assert_eq!(find_block_device("/dev/sda1 /\nbroken\n", "/etc"), None);
    assert_eq!(find_block_device("/dev/sda1 /\n\n/dev/sdb1 /etc\n", "/etc"), None);
    assert_eq!(find_block_device("/dev/sda1 /mnt\n", "/etc"), None);
    assert_eq!(find_block_device("/ /\n", "/etc"), None);
}

#[test]
fn rotational_contents() {
    let probe = |text: Option<&str>| {
        detect_drive_kind(&DriveProbe::Linux { rotational: text.map(|t| t.to_string()) })
    };
    assert_eq!(probe(Some("0")), DriveKind::Ssd);
    assert_eq!(probe(Some(" 1 \n")), DriveKind::Hdd);
    assert_eq!(probe(Some("2")), DriveKind::Unknown);
    assert_eq!(probe(Some("")), DriveKind::Unknown);
    assert_eq!(probe(None), DriveKind::Unknown);
    assert_eq!(detect_drive_kind(&DriveProbe::Other), DriveKind::Unknown);
}

#[test]
fn windows_drive_types() {
    let probe = |root: Option<&str>, drive_type: u32, seek_penalty: Option<bool>| {
        let root = root.map(|r| r.to_string());
        detect_drive_kind(&DriveProbe::Windows { root, drive_type, seek_penalty })
    };
    assert_eq!(probe(None, 3, Some(false)), DriveKind::Network);
    assert_eq!(probe(Some("C:\\"), 4, None), DriveKind::Network);
    assert_eq!(probe(Some("C:\\"), 3, Some(false)), DriveKind::Ssd);
    assert_eq!(probe(Some("C:\\"), 3, Some(true)), DriveKind::Hdd);
    assert_eq!(probe(Some("C:\\"), 3, None), DriveKind::Hdd);
    assert_eq!(probe(Some("C:\\"), 2, None), DriveKind::Hdd);
    assert_eq!(probe(Some("C:\\"), 5, None), DriveKind::Unknown);
}

#[test]
fn strategies() {
    let (hdd, ssd, network, unknown) =
        (DriveKind::Hdd, DriveKind::Ssd, DriveKind::Network, DriveKind::Unknown);
    let mib = 1024 * 1024;
    let cases = [
        (hdd, hdd, 1, 1, 8 * mib),
        (ssd, hdd, 4, 4, 8 * mib),
        (hdd, ssd, 1, 1, 4 * mib),
        (ssd, ssd, 128, 32, 4 * mib),
        (ssd, network, 8, 8, 16 * mib),
        (network, network, 8, 8, 16 * mib),
        (unknown, network, 8, 8, 16 * mib),
        (network, ssd, 16, 16, 4 * mib),
        (network, unknown, 16, 16, 4 * mib),
        (unknown, ssd, 4, 4, 4 * mib),
        (hdd, unknown, 4, 4, 4 * mib),
    ];
    for (source, dest, plain, verify, block) in cases {
        let s = CopyStrategy::compute(source, dest);
        assert_eq!(s.source_kind, source);
        assert_eq!(s.dest_kind, dest);
        assert_eq!(s.recommended_swarm_concurrency, plain);
        assert_eq!(s.recommended_swarm_concurrency_verify, verify);
        assert_eq!(s.recommended_block_size, block);
    }
}

#[test]
fn only_solid_state_gains_from_parallel_access() {
    assert!(DriveKind::Ssd.supports_parallel_io());
    assert!(!DriveKind::Ssd.prefers_sequential());
    for kind in [DriveKind::Hdd, DriveKind::Network, DriveKind::Unknown] {
        assert!(!kind.supports_parallel_io());
        assert!(kind.prefers_sequential());
    }
}
