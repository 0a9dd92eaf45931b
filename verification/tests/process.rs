use ipc::process::{child_exit_code, classify_fork, id_to_pid, pid_to_id};
use ipc::status::{decode_wait_status, exit_status_from_code};
use ipc::{ExitRecord, ExitStatus, ForkResult};

#[test]
fn fork_results() {
    assert_eq!(classify_fork(-1), ForkResult::Failed);
    assert_eq!(classify_fork(0), ForkResult::InChild);
    assert_eq!(classify_fork(1234), ForkResult::InParent(1234));
    assert_eq!(classify_fork(-7), ForkResult::InParent(-7));
}

#[test]
fn child_exit_codes() {
    assert_eq!(child_exit_code::<String>(&Ok(())), 0);
    assert_eq!(child_exit_code(&Err("failed")), 1);
}

#[test]
fn pid_conversions_round_trip() {
    assert_eq!(pid_to_id(1234), 1234u32);
    assert_eq!(id_to_pid(1234), 1234);
    assert_eq!(pid_to_id(-1), u32::MAX);
    assert_eq!(id_to_pid(u32::MAX), -1);
    for pid in [i32::MIN, -5, 0, 1, 77, i32::MAX] {
        assert_eq!(id_to_pid(pid_to_id(pid)), pid);
    }
}

#[test]
fn exit_status_from_code_or_signal() {
    assert_eq!(exit_status_from_code(Some(0)), ExitStatus(0));
    assert_eq!(exit_status_from_code(Some(3)), ExitStatus(3));
    assert_eq!(exit_status_from_code(None), ExitStatus(1));
}

#[test]
fn exit_record_keeps_first_status() {
    let mut record = ExitRecord::new();
    assert_eq!(record.known(), None);
    assert_eq!(record.record(ExitStatus(4)), ExitStatus(4));
    assert_eq!(record.known(), Some(ExitStatus(4)));
    assert_eq!(record.record(ExitStatus(9)), ExitStatus(4));
    assert_eq!(record.known(), Some(ExitStatus(4)));
}

#[test]
fn wait_status_words_decode_like_exit_codes() {
    assert_eq!(decode_wait_status(0), ExitStatus(0));
    assert_eq!(decode_wait_status(1 << 8), ExitStatus(1));
    assert_eq!(decode_wait_status(255 << 8), ExitStatus(255));
    assert_eq!(decode_wait_status(9), ExitStatus(1));
    assert_eq!(decode_wait_status(15 | 0x80), ExitStatus(1));
    for code in [0, 1, 2, 77, 255] {
        assert_eq!(decode_wait_status(code << 8), exit_status_from_code(Some(code)));
    }
    assert_eq!(decode_wait_status(6), exit_status_from_code(None));
}
