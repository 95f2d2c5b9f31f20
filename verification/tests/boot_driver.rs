use tuff_core::boot::{
    early_boot_mounts, handle_key_accepted, is_pid1, loop_action, mount_errno_means_mounted,
    volume_label_bytes, LoopAction, EBUSY_CODE,
};
use tuff_core::crypto::encrypt_block;
use tuff_core::errors::TuffError;
use tuff_core::fs_manager::FsManager;
use tuff_core::mk_fingerprint::{
    sha256_hex, verify_or_store_mk_fingerprint, FingerprintStatus, FingerprintStore,
};
use tuff_core::schemas::{build_index_chunk_at, validate_index_chunk};
use tuff_core::state_machine::{State, SystemState};

fn key_one() -> Vec<u8> {
    (1u8..=32).collect()
}

fn sys_in_waitkey() -> SystemState {
    let mut sys = SystemState::new();
    assert!(sys.transition_to(State::WaitKey));
    sys
}

#[test]
fn cold_boot_with_valid_token_writes_placeholder_and_promotes() {
    // no fingerprint file, no index chunk
    let mut fps = FingerprintStore::absent();
    let st = verify_or_store_mk_fingerprint(&key_one(), &mut fps);
    assert!(matches!(st, FingerprintStatus::Stored));

    let mut sys = sys_in_waitkey();
    let mut fs = FsManager::new();
    let sleep = handle_key_accepted(&mut sys, &mut fs, &Ok(st));
    assert_eq!(sleep, None);
    assert_eq!(sys.current(), State::Normal);
    let written = fs.load_latest_index_chunk().expect("placeholder must exist");
    assert_eq!(validate_index_chunk(&written), Ok(()));
    let chunk = tuff_core::schemas::parse_index_chunk(&written).unwrap();
    assert_eq!(chunk.header.generation, 1);
    assert_eq!(chunk.header.volume_name.as_deref(), Some(b"tuff-volume".as_slice()));
    assert_eq!(chunk.header.default_redundancy, 1);
}

#[test]
fn warm_boot_with_matching_token_and_valid_chunk_promotes() {
    let fp_hex = sha256_hex(&key_one());
    let mut fps = FingerprintStore::restore(Some(fp_hex));
    let st = verify_or_store_mk_fingerprint(&key_one(), &mut fps);
    assert!(matches!(st, FingerprintStatus::Matched));

    let chunk = build_index_chunk_at(b"tuff-volume", 1, 1_700_000_000).unwrap();
    let mut sys = sys_in_waitkey();
    let mut fs = FsManager::restore(Some(chunk.clone()), None);
    let sleep = handle_key_accepted(&mut sys, &mut fs, &Ok(st));
    assert_eq!(sleep, None);
    assert_eq!(sys.current(), State::Normal);
    // the existing chunk is untouched
    assert_eq!(fs.load_latest_index_chunk().as_deref(), Some(chunk.as_slice()));
}

#[test]
fn wrong_token_freezes_and_stops_probing() {
    let fp_hex = sha256_hex(&key_one());
    let mut fps = FingerprintStore::restore(Some(fp_hex.clone()));
    let wrong = [0xFFu8; 32];
    let st = verify_or_store_mk_fingerprint(&wrong, &mut fps);
    assert!(matches!(st, FingerprintStatus::Mismatch));
    // the stored fingerprint survives the mismatch
    assert_eq!(fps.contents().as_deref(), Some(fp_hex.as_slice()));

    let mut sys = sys_in_waitkey();
    let mut fs = FsManager::new();
    let sleep = handle_key_accepted(&mut sys, &mut fs, &Ok(st));
    assert_eq!(sleep, Some(10));
    assert_eq!(sys.current(), State::Freeze);
    assert!(fs.load_latest_index_chunk().is_none());
    // frozen iterations only heartbeat; they never return to polling
    assert_eq!(loop_action(State::Freeze), LoopAction::FreezeHeartbeat { sleep_secs: 10 });
}

#[test]
fn torn_write_recovery_rewrites_the_current_chunk() {
    // current chunk missing, backup still present from the older generation
    let prev = build_index_chunk_at(b"tuff-volume", 1, 1_600_000_000).unwrap();
    let mut sys = sys_in_waitkey();
    let mut fs = FsManager::restore(None, Some(prev.clone()));
    let sleep = handle_key_accepted(&mut sys, &mut fs, &Ok(FingerprintStatus::Stored));
    assert_eq!(sleep, None);
    assert_eq!(sys.current(), State::Normal);
    let written = fs.load_latest_index_chunk().expect("a fresh placeholder must exist");
    assert_eq!(validate_index_chunk(&written), Ok(()));
    // the backup is not consulted and not replaced by the recovery write
    assert_eq!(fs.backup().as_deref(), Some(prev.as_slice()));
}

#[test]
fn invalid_chunk_keeps_the_daemon_polling() {
    let mut sys = sys_in_waitkey();
    let mut fs = FsManager::restore(Some(vec![0xDE, 0xAD]), None);
    let sleep = handle_key_accepted(&mut sys, &mut fs, &Ok(FingerprintStatus::Matched));
    assert_eq!(sleep, None);
    // WaitKey -> Warn is not a legal edge, so the daemon stays polling
    assert_eq!(sys.current(), State::WaitKey);
    assert_eq!(fs.load_latest_index_chunk().as_deref(), Some([0xDE, 0xAD].as_slice()));
}

#[test]
fn fingerprint_io_failure_backs_off_and_repolls() {
    let mut sys = sys_in_waitkey();
    let mut fs = FsManager::new();
    let sleep = handle_key_accepted(&mut sys, &mut fs, &Err(TuffError::IoError));
    assert_eq!(sleep, Some(5));
    assert_eq!(sys.current(), State::WaitKey);
}

#[test]
fn store_rotation_keeps_one_generation_of_backup() {
    let first = build_index_chunk_at(b"tuff-volume", 1, 1_000).unwrap();
    let second = build_index_chunk_at(b"tuff-volume", 1, 2_000).unwrap();
    let mut fs = FsManager::new();
    assert!(fs.write_latest_index_chunk(&first).is_ok());
    assert_eq!(fs.load_latest_index_chunk().as_deref(), Some(first.as_slice()));
    assert!(fs.backup().is_none());
    assert!(fs.write_latest_index_chunk(&second).is_ok());
    assert_eq!(fs.load_latest_index_chunk().as_deref(), Some(second.as_slice()));
    assert_eq!(fs.backup().as_deref(), Some(first.as_slice()));
}

#[test]
fn main_loop_dispatch_table() {
    assert_eq!(loop_action(State::WaitKey), LoopAction::AwaitKey);
    assert_eq!(loop_action(State::Normal), LoopAction::Idle { sleep_secs: 10 });
    assert_eq!(loop_action(State::Warn), LoopAction::Idle { sleep_secs: 10 });
    assert_eq!(loop_action(State::PendingOnly), LoopAction::Idle { sleep_secs: 10 });
    assert_eq!(loop_action(State::Shutdown), LoopAction::Exit);
    assert_eq!(loop_action(State::Init), LoopAction::Idle { sleep_secs: 1 });
}

#[test]
fn early_boot_mount_table() {
    let mounts = early_boot_mounts();
    assert_eq!(mounts.len(), 4);
    assert_eq!(mounts[0].target, "/proc");
    assert_eq!(mounts[0].fstype, "proc");
    assert!(mounts[0].nosuid && mounts[0].noexec && mounts[0].nodev);
    assert_eq!(mounts[1].target, "/sys");
    assert_eq!(mounts[1].fstype, "sysfs");
    assert_eq!(mounts[2].target, "/dev");
    assert_eq!(mounts[2].fstype, "devtmpfs");
    assert!(mounts[2].nosuid && !mounts[2].noexec && !mounts[2].nodev);
    assert_eq!(mounts[3].target, "/dev/pts");
    assert_eq!(mounts[3].fstype, "devpts");
    assert!(mounts[3].nosuid && mounts[3].noexec && !mounts[3].nodev);
}

#[test]
fn pid1_and_ebusy_rules() {
    assert!(is_pid1(1));
    assert!(!is_pid1(2));
    assert!(mount_errno_means_mounted(EBUSY_CODE));
    assert!(!mount_errno_means_mounted(1));
    assert_eq!(volume_label_bytes().as_slice(), b"tuff-volume");
}

#[test]
fn aes256_block_encryption_matches_the_published_vector() {
    // FIPS 197, appendix C.3: AES-256 with the sequential byte key
    let key: [u8; 32] = [
        0x00, 0x01, 0x02, 0x03, 0x04, 0x05, 0x06, 0x07, 0x08, 0x09, 0x0a, 0x0b, 0x0c, 0x0d, 0x0e,
        0x0f, 0x10, 0x11, 0x12, 0x13, 0x14, 0x15, 0x16, 0x17, 0x18, 0x19, 0x1a, 0x1b, 0x1c, 0x1d,
        0x1e, 0x1f,
    ];
    let mut block: [u8; 16] = [
        0x00, 0x11, 0x22, 0x33, 0x44, 0x55, 0x66, 0x77, 0x88, 0x99, 0xaa, 0xbb, 0xcc, 0xdd, 0xee,
        0xff,
    ];
    encrypt_block(&key, &mut block);
    let expected: [u8; 16] = [
        0x8e, 0xa2, 0xb7, 0xca, 0x51, 0x67, 0x45, 0xbf, 0xea, 0xfc, 0x49, 0x90, 0x4b, 0x49, 0x60,
        0x89,
    ];
    assert_eq!(block, expected);
}
