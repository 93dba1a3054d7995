use bun_pty::open::{call_succeeded, nonblocking_flags, pid_of, OpenNext, OpenStage, STAGES};
use bun_pty::status::{to_signed, Status, CHILD_EXITED, ERROR, NO_DATA, SUCCESS};

#[test]
fn opening_runs_six_steps_in_order() {
    let expected = [
        OpenStage::AllocatePty,
        OpenStage::SpawnChild,
        OpenStage::TakeWriter,
        OpenStage::DuplicateReader,
        OpenStage::SetNonBlocking,
        OpenStage::StartWatcher,
    ];
    assert_eq!(expected.len(), STAGES);
    let mut stage = OpenStage::first();
    let mut seen = vec![stage];
    loop {
        match stage.advance(true) {
            OpenNext::Run(next) => {
                seen.push(next);
                stage = next;
            }
            OpenNext::Ready => break,
            OpenNext::Abort { .. } => panic!("a step that succeeded aborted"),
        }
    }
    assert_eq!(seen, expected);
}

#[test]
fn failure_before_the_duplicate_exists_closes_nothing() {
    assert_eq!(OpenStage::AllocatePty.advance(false), OpenNext::Abort { close_reader: false });
    assert_eq!(OpenStage::SpawnChild.advance(false), OpenNext::Abort { close_reader: false });
    assert_eq!(OpenStage::TakeWriter.advance(false), OpenNext::Abort { close_reader: false });
    assert_eq!(OpenStage::DuplicateReader.advance(false), OpenNext::Abort { close_reader: false });
}

#[test]
fn failure_after_the_duplicate_exists_closes_it() {
    assert_eq!(OpenStage::SetNonBlocking.advance(false), OpenNext::Abort { close_reader: true });
    assert_eq!(OpenStage::StartWatcher.advance(false), OpenNext::Abort { close_reader: true });
}

#[test]
fn only_the_watcher_step_makes_a_session_ready() {
    assert_eq!(OpenStage::SetNonBlocking.advance(true), OpenNext::Run(OpenStage::StartWatcher));
    assert_eq!(OpenStage::StartWatcher.advance(true), OpenNext::Ready);
}

#[test]
fn pid_is_the_identifier_or_the_error_code() {
    assert_eq!(pid_of(Some(1)), 1);
    assert_eq!(pid_of(Some(4242)), 4242);
    assert_eq!(pid_of(Some(i32::MAX as u32)), i32::MAX);
    assert_eq!(pid_of(Some(0x8000_0000)), i32::MIN);
    assert_eq!(pid_of(Some(u32::MAX)), -1);
    assert_eq!(pid_of(None), -1);
    assert_eq!(pid_of(None), ERROR);
}

#[test]
fn signed_reading_keeps_the_bits() {
    assert_eq!(to_signed(0), 0);
    assert_eq!(to_signed(255), 255);
    assert_eq!(to_signed(0x7fff_ffff), i32::MAX);
    assert_eq!(to_signed(0x8000_0000), i32::MIN);
    assert_eq!(to_signed(0xffff_fffe), -2);
    for u in [0u32, 1, 77, 0x7fff_ffff, 0x8000_0000, 0x8000_0001, 0xdead_beef, u32::MAX] {
        assert_eq!(to_signed(u), u as i32);
    }
}

#[test]
fn negative_return_values_are_failures() {
    assert!(call_succeeded(0));
    assert!(call_succeeded(3));
    assert!(call_succeeded(i32::MAX));
    assert!(!call_succeeded(-1));
    assert!(!call_succeeded(i32::MIN));
}

#[test]
fn nonblocking_bit_is_added_to_the_flags() {
    assert_eq!(nonblocking_flags(0, 0o4000), Some(0o4000));
    assert_eq!(nonblocking_flags(0o2, 0o4000), Some(0o4002));
    assert_eq!(nonblocking_flags(0o4002, 0o4000), Some(0o4002));
    assert_eq!(nonblocking_flags(0o102002, 0o4000), Some(0o106002));
    assert_eq!(nonblocking_flags(-1, 0o4000), None);
    assert_eq!(nonblocking_flags(i32::MIN, 0o4000), None);
}

#[test]
fn codes_have_their_values() {
    assert_eq!(SUCCESS, 0);
    assert_eq!(ERROR, -1);
    assert_eq!(CHILD_EXITED, -2);
    assert_eq!(NO_DATA, 0);
    assert_eq!(Status::Success.code(), 0);
    assert_eq!(Status::IoError.code(), -1);
    assert_eq!(Status::ChildExited.code(), -2);
    assert_eq!(Status::from_ok(true), Status::Success);
    assert_eq!(Status::from_ok(false), Status::IoError);
}
