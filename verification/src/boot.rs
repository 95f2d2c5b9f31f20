use vstd::prelude::*;

use crate::errors::TuffError;
use crate::fs_manager::{FsManager, StoreModel, spec_load, spec_write};
use crate::mk_fingerprint::FingerprintStatus;
use crate::schemas::{build_minimal_index_chunk, spec_build_at, spec_validate, validate_index_chunk};
use crate::state_machine::{State, SystemState};

verus! {

/// The bytes of `"tuff-volume"`, the volume name of the placeholder
/// chunk the boot driver writes.
pub open spec fn volume_label() -> Seq<u8> {
    seq![0x74u8, 0x75u8, 0x66u8, 0x66u8, 0x2du8, 0x76u8, 0x6fu8, 0x6cu8, 0x75u8, 0x6du8, 0x65u8]
}

pub fn volume_label_bytes() -> (r: Vec<u8>)
    ensures
        r@ == volume_label(),
{
    let mut v: Vec<u8> = Vec::new();
    v.push(0x74);
    v.push(0x75);
    v.push(0x66);
    v.push(0x66);
    v.push(0x2d);
    v.push(0x76);
    v.push(0x6f);
    v.push(0x6c);
    v.push(0x75);
    v.push(0x6d);
    v.push(0x65);
    proof {
        assert(v@ =~= volume_label());
    }
    v
}

/// Whether the daemon runs as the init process and must perform early
/// boot.
pub fn is_pid1(pid: i32) -> (b: bool)
    ensures
        b == (pid == 1),
{
    pid == 1
}

/// The errno that means a target is already mounted; early boot treats
/// it as success.
pub const EBUSY_CODE: i32 = 16;

/// Whether a failed early-boot mount still counts as done: only when the
/// target was already mounted.
pub fn mount_errno_means_mounted(errno: i32) -> (b: bool)
    ensures
        b == (errno == EBUSY_CODE),
{
    errno == EBUSY_CODE
}

/// One pseudo-filesystem mount of early boot: the target directory, the
/// filesystem type (also used as the mount source), and the hardening
/// flags to apply.
pub struct EarlyMount {
    pub target: &'static str,
    pub fstype: &'static str,
    pub nosuid: bool,
    pub noexec: bool,
    pub nodev: bool,
}

/// The early-boot mount table, in mount order: `/proc`, `/sys` and
/// `/dev/pts` fully hardened (devpts without nodev), `/dev` as devtmpfs
/// with nosuid only.
pub fn early_boot_mounts() -> (r: Vec<EarlyMount>)
    ensures
        r@.len() == 4,
        r@[0].target@ == "/proc"@ && r@[0].fstype@ == "proc"@,
        r@[0].nosuid && r@[0].noexec && r@[0].nodev,
        r@[1].target@ == "/sys"@ && r@[1].fstype@ == "sysfs"@,
        r@[1].nosuid && r@[1].noexec && r@[1].nodev,
        r@[2].target@ == "/dev"@ && r@[2].fstype@ == "devtmpfs"@,
        r@[2].nosuid && !r@[2].noexec && !r@[2].nodev,
        r@[3].target@ == "/dev/pts"@ && r@[3].fstype@ == "devpts"@,
        r@[3].nosuid && r@[3].noexec && !r@[3].nodev,
{
    let mut v: Vec<EarlyMount> = Vec::new();
    v.push(EarlyMount { target: "/proc", fstype: "proc", nosuid: true, noexec: true, nodev: true });
    v.push(EarlyMount { target: "/sys", fstype: "sysfs", nosuid: true, noexec: true, nodev: true });
    v.push(
        EarlyMount { target: "/dev", fstype: "devtmpfs", nosuid: true, noexec: false, nodev: false },
    );
    v.push(
        EarlyMount { target: "/dev/pts", fstype: "devpts", nosuid: true, noexec: true, nodev: false },
    );
    v
}

/// What the main loop does in a given state: poll for a key, sleep
/// idle, log the frozen heartbeat, or exit.
#[derive(Clone, Copy, Debug, PartialEq, Eq, Structural)]
pub enum LoopAction {
    AwaitKey,
    Idle { sleep_secs: u64 },
    FreezeHeartbeat { sleep_secs: u64 },
    Exit,
}

/// The main-loop dispatch table: WaitKey polls; Normal, Warn and
/// PendingOnly idle for 10 seconds; Freeze logs an error heartbeat every
/// 10 seconds and never exits on its own; Shutdown ends the loop; Init
/// (never reached after boot) idles briefly.
pub fn loop_action(s: State) -> (a: LoopAction)
    ensures
        s == State::WaitKey ==> a == LoopAction::AwaitKey,
        (s == State::Normal || s == State::Warn || s == State::PendingOnly) ==> a
            == (LoopAction::Idle { sleep_secs: 10 }),
        s == State::Freeze ==> a == (LoopAction::FreezeHeartbeat { sleep_secs: 10 }),
        s == State::Shutdown ==> a == LoopAction::Exit,
        s == State::Init ==> a == (LoopAction::Idle { sleep_secs: 1 }),
{
    match s {
        State::WaitKey => LoopAction::AwaitKey,
        State::Normal => LoopAction::Idle { sleep_secs: 10 },
        State::Warn => LoopAction::Idle { sleep_secs: 10 },
        State::PendingOnly => LoopAction::Idle { sleep_secs: 10 },
        State::Freeze => LoopAction::FreezeHeartbeat { sleep_secs: 10 },
        State::Shutdown => LoopAction::Exit,
        State::Init => LoopAction::Idle { sleep_secs: 1 },
    }
}

/// A store change that wrote a freshly built placeholder stamped `ts`:
/// the built bytes became the current chunk and they validate.
pub open spec fn valid_placeholder_written(old_m: StoreModel, new_m: StoreModel, ts: u64) -> bool {
    match spec_build_at(volume_label(), 1, ts) {
        Result::Ok(b) => new_m == spec_write(old_m, b) && spec_validate(b) is Ok,
        Result::Err(_) => false,
    }
}

/// The WaitKey step of the boot driver, run after the monitor produced a
/// key and the fingerprint was checked.
///
/// A fingerprint mismatch freezes the daemon (10-second backoff); a
/// fingerprint I/O failure asks for Warn, which the transition table
/// refuses from WaitKey, so the daemon stays polling (5-second backoff).
/// With the fingerprint accepted, an existing chunk is validated and a
/// missing one is replaced by a freshly stamped placeholder that is
/// written, read back and revalidated; success promotes to Normal, any
/// failure asks for Warn and leaves the daemon in WaitKey.
pub fn handle_key_accepted(
    sys: &mut SystemState,
    fs: &mut FsManager,
    fingerprint: &Result<FingerprintStatus, TuffError>,
) -> (sleep_secs: Option<u64>)
    requires
        old(sys)@ == State::WaitKey,
    ensures
        (*fingerprint matches Ok(st) && st == FingerprintStatus::Mismatch) ==> (final(sys)@
            == State::Freeze && final(fs)@ == old(fs)@ && sleep_secs == Some(10u64)),
        *fingerprint is Err ==> (final(sys)@ == State::WaitKey && final(fs)@ == old(fs)@
            && sleep_secs == Some(5u64)),
        (*fingerprint matches Ok(st) && (st == FingerprintStatus::Matched || st
            == FingerprintStatus::Stored)) ==> (sleep_secs is None && (match spec_load(old(fs)@) {
            Option::Some(buf) => final(fs)@ == old(fs)@ && final(sys)@ == (
            if spec_validate(buf) is Ok {
                State::Normal
            } else {
                State::WaitKey
            }),
            Option::None => (final(sys)@ == State::Normal && exists|ts: u64|
                #[trigger] valid_placeholder_written(old(fs)@, final(fs)@, ts)) || (final(sys)@
                == State::WaitKey && final(fs)@ == old(fs)@),
        })),
{
    match fingerprint {
        Result::Ok(FingerprintStatus::Mismatch) => {
            let _ok = sys.transition_to(State::Freeze);
            return Option::Some(10);
        },
        Result::Err(_) => {
            // WaitKey -> Warn is not in the transition table; the
            // attempt is rejected and the daemon keeps polling.
            let _ok = sys.transition_to(State::Warn);
            return Option::Some(5);
        },
        Result::Ok(_) => {},
    }
    match fs.load_latest_index_chunk() {
        Option::Some(buf) => {
            match validate_index_chunk(buf.as_slice()) {
                Result::Ok(_) => {
                    let _ok = sys.transition_to(State::Normal);
                },
                Result::Err(_) => {
                    let _ok = sys.transition_to(State::Warn);
                },
            }
            Option::None
        },
        Option::None => {
            let label = volume_label_bytes();
            match build_minimal_index_chunk(label.as_slice(), 1) {
                Result::Err(_) => {
                    let _ok = sys.transition_to(State::Warn);
                    Option::None
                },
                Result::Ok(bytes) => {
                    let ghost old_store = fs@;
                    let _w = fs.write_latest_index_chunk(bytes.as_slice());
                    proof {
                        let ts = choose|ts: u64|
                            spec_build_at(volume_label(), 1, ts) == Ok::<Seq<u8>, TuffError>(
                                bytes@,
                            );
                        crate::schemas::lemma_placeholder_validates(volume_label(), 1, ts);
                        assert(valid_placeholder_written(old_store, fs@, ts));
                    }
                    match fs.load_latest_index_chunk() {
                        Option::Some(back) => {
                            match validate_index_chunk(back.as_slice()) {
                                Result::Ok(_) => {
                                    let _ok = sys.transition_to(State::Normal);
                                },
                                Result::Err(_) => {
                                    // dead: the readback is the bytes just
                                    // written, which validate
                                    proof {
                                        assert(false);
                                    }
                                },
                            }
                            Option::None
                        },
                        Option::None => {
                            // dead: a load after a write returns the bytes
                            proof {
                                assert(false);
                            }
                            Option::None
                        },
                    }
                },
            }
        },
    }
}

} // verus!
