use tuff_core::usb_monitor::{
    accept_key_bytes, contains_usb_marker, find_key_file, is_key_file_name, is_partition_entry,
    key_file_size_ok, key_file_stem, mount_fs_type_order, poll_interval_secs, scan_usb_candidates,
    should_log_search, BlockDeviceInfo,
};

fn dev(name: &[u8], link: Option<&[u8]>, children: &[&[u8]]) -> BlockDeviceInfo {
    BlockDeviceInfo {
        name: name.to_vec(),
        device_link: link.map(|l| l.to_vec()),
        children: children.iter().map(|c| c.to_vec()).collect(),
    }
}

#[test]
fn empty_sys_block_yields_no_candidates() {
    let candidates = scan_usb_candidates(&Vec::new());
    assert!(candidates.is_empty());
}

#[test]
fn usb_devices_contribute_their_partitions_in_order() {
    let blocks = vec![
        dev(
            b"sda",
            Some(b"../../devices/pci0000:00/0000:00:14.0/usb1/1-2/host0/target0:0:0/0:0:0:0"),
            &[b"device", b"sda1", b"power", b"sda2"],
        ),
        dev(b"nvme0n1", Some(b"../../devices/pci0000:00/0000:00:1b.0/nvme/nvme0"), &[b"nvme0n1p1"]),
        dev(b"sdb", None, &[b"sdb1"]),
    ];
    let candidates = scan_usb_candidates(&blocks);
    let paths: Vec<&[u8]> = candidates.iter().map(|c| c.as_slice()).collect();
    assert_eq!(paths, vec![b"/dev/sda1".as_slice(), b"/dev/sda2".as_slice()]);
}

#[test]
fn usb_marker_detection() {
    assert!(contains_usb_marker(b"../devices/usb1/1-2"));
    assert!(!contains_usb_marker(b"../devices/pci/ata1"));
    assert!(!contains_usb_marker(b"usb"));
    assert!(!contains_usb_marker(b""));
}

#[test]
fn partition_entries_must_extend_the_device_name() {
    assert!(is_partition_entry(b"sda1", b"sda"));
    assert!(!is_partition_entry(b"sda", b"sda"));
    assert!(!is_partition_entry(b"device", b"sda"));
    assert!(!is_partition_entry(b"sdb1", b"sda"));
}

#[test]
fn key_files_of_31_or_33_bytes_are_rejected() {
    let names = vec![b"readme.txt".to_vec(), b"a.key".to_vec(), b"b.key".to_vec(), b"c.key".to_vec()];
    let sizes = vec![32u64, 31, 33, 32];
    // the first well-sized key file wins; undersized and oversized ones
    // are passed over
    assert_eq!(find_key_file(&names, &sizes), Some(3));
    assert!(!key_file_size_ok(31));
    assert!(!key_file_size_ok(33));
    assert!(key_file_size_ok(32));
}

#[test]
fn empty_key_dir_returns_no_key() {
    assert_eq!(find_key_file(&Vec::new(), &Vec::new()), None);
    let names = vec![b"nothing.bin".to_vec()];
    let sizes = vec![32u64];
    assert_eq!(find_key_file(&names, &sizes), None);
}

#[test]
fn key_file_names_and_stems() {
    assert!(is_key_file_name(b"AAAA-BBBB.key"));
    assert!(!is_key_file_name(b".key"));
    assert!(!is_key_file_name(b"key"));
    assert!(!is_key_file_name(b"AAAA-BBBB.txt"));
    assert_eq!(key_file_stem(b"AAAA-BBBB.key").as_slice(), b"AAAA-BBBB");
}

#[test]
fn only_exactly_32_key_bytes_are_accepted() {
    assert_eq!(accept_key_bytes(vec![7u8; 32]), Some(vec![7u8; 32]));
    assert_eq!(accept_key_bytes(vec![7u8; 31]), None);
    assert_eq!(accept_key_bytes(vec![7u8; 33]), None);
    assert_eq!(accept_key_bytes(Vec::new()), None);
}

#[test]
fn key_search_is_logged_every_fifteenth_attempt() {
    assert!(should_log_search(0));
    assert!(!should_log_search(1));
    assert!(!should_log_search(14));
    assert!(should_log_search(15));
    assert!(should_log_search(30));
}

#[test]
fn mount_attempts_follow_the_fixed_filesystem_order() {
    let order = mount_fs_type_order();
    assert_eq!(order, vec!["vfat", "exfat", "ext4", "ext3", "ext2"]);
    assert_eq!(poll_interval_secs(), 2);
}
