use mass_disk_archiver::copy::{CopyAction, CopyError, CopyEvent, CopyState, CopyStep};
use mass_disk_archiver::isoinfo::ISOInfo;
use mass_disk_archiver::naming::{answer_overwrite, name_is_asked, refresh_name};
use mass_disk_archiver::status::{DiskInfoError, DriveStatus};
use mass_disk_archiver::tray::{
    close_drive_disk, eject_drive_disk, tray_message, TrayAction, TrayMotion,
};
use mass_disk_archiver::worker::{
    begin_work, failure_status, go_on, notice_status, WorkerAction, WorkerEvent, WorkerPhase,
    WorkerStep,
};

fn text(s: &str) -> String {
    s.to_string()
}

/// Copies `source`, with a read error whenever a read starts at one of `bad`, once for each.
fn run_copy(source: &[u8], length: usize, buffer_len: usize, bad: &[usize]) -> (Vec<u8>, usize, Vec<CopyError>) {
    run_copy_to(Vec::new(), source, length, buffer_len, bad)
}

/// Does so to a file that holds `file` at first.
fn run_copy_to(
    mut file: Vec<u8>,
    source: &[u8],
    length: usize,
    buffer_len: usize,
    bad: &[usize],
) -> (Vec<u8>, usize, Vec<CopyError>) {
    let mut bad: Vec<usize> = bad.to_vec();
    let mut buffer = vec![0u8; buffer_len];
    let mut notices: Vec<CopyError> = Vec::new();
    let mut offset: usize = 0;
    let mut told: usize = 0;
    let (mut state, mut action) = CopyState::begin(length, buffer_len);
    loop {
        let event = match action {
            CopyAction::Read(max) => {
                if let Some(i) = bad.iter().position(|b| *b == offset) {
                    bad.remove(i);
                    CopyEvent::ReadFailed(text("bad sector"))
                } else {
                    let n = max.min(source.len() - offset);
                    buffer[..n].copy_from_slice(&source[offset..offset + n]);
                    offset += n;
                    CopyEvent::Read(n)
                }
            }
            CopyAction::Reopen(position) => {
                offset = position;
                CopyEvent::Reopened
            }
            CopyAction::Write(n) => {
                file.extend_from_slice(&buffer[..n]);
                CopyEvent::Written
            }
            CopyAction::Finish => return (file, told, notices),
            CopyAction::Fail(_) => panic!("the copy failed"),
        };
        let step = state.step(event);
        told += step.progress.unwrap_or(0);
        notices.extend(step.notice);
        action = step.action;
    }
}

#[test]
fn copy_holds_the_bytes_of_the_disk() {
    let source: Vec<u8> = (0..100).collect();
    for buffer_len in [1, 7, 32, 100, 200].iter() {
        for length in [0, 1, 31, 32, 64, 100].iter() {
            let (file, told, notices) = run_copy(&source, *length, *buffer_len, &[]);
            assert_eq!(file, source[..*length].to_vec());
            assert_eq!(told, *length);
            assert!(notices.iter().all(|n| *n == CopyError::NoError));
        }
    }
}

#[test]
fn copy_ends_with_the_device() {
    let source: Vec<u8> = (0..50).collect();
    let (file, told, _) = run_copy(&source, 80, 16, &[]);
    assert_eq!(file, source);
    assert_eq!(told, 50);
}

#[test]
fn copy_without_a_buffer_copies_nothing() {
    let (file, told, _) = run_copy(&[1, 2, 3], 3, 0, &[]);
    assert!(file.is_empty());
    assert_eq!(told, 0);
}

#[test]
fn copy_goes_on_after_read_errors() {
    let source: Vec<u8> = (0..100).collect();
    let (file, told, notices) = run_copy(&source, 100, 10, &[0, 30, 30, 90]);
    assert_eq!(file, source);
    assert_eq!(told, 100);
    let errors = notices.iter().filter(|n| **n == CopyError::Read(text("bad sector"))).count();
    assert_eq!(errors, 4);
}

#[test]
fn copy_that_was_reopened_reads_its_length_again() {
    let source: Vec<u8> = (0..100).collect();
    let (file, told, _) = run_copy(&source, 40, 10, &[30]);
    assert_eq!(file, source[..70].to_vec());
    assert_eq!(told, 70);
}

#[test]
fn copy_keeps_what_the_file_held() {
    let source: Vec<u8> = (0..100).collect();
    for bad in [vec![], vec![0], vec![20, 60]].iter() {
        let (file, told, _) = run_copy_to(vec![200, 201], &source, 100, 20, bad);
        assert_eq!(file[..2], [200, 201]);
        assert_eq!(file[2..], source[..]);
        assert_eq!(told, 100);
    }
}

#[test]
fn length_counts_from_the_last_opening() {
    let source: Vec<u8> = (0..100).collect();
    for (bad, expected) in [(vec![0], 30), (vec![10], 40), (vec![20, 40], 70), (vec![20, 40, 60, 80], 100)].iter() {
        let (file, told, _) = run_copy(&source, 30, 10, bad);
        assert_eq!(file, source[..*expected].to_vec());
        assert_eq!(told, *expected);
    }
}

#[test]
fn copy_takes_its_steps() {
    let (mut state, action) = CopyState::begin(10, 4);
    assert_eq!(action, CopyAction::Read(4));
    assert_eq!(
        state.step(CopyEvent::ReadInterrupted),
        CopyStep { progress: None, notice: None, action: CopyAction::Read(4) }
    );
    assert_eq!(
        state.step(CopyEvent::Read(3)),
        CopyStep { progress: Some(3), notice: Some(CopyError::NoError), action: CopyAction::Write(3) }
    );
    assert_eq!(state.step(CopyEvent::Written).action, CopyAction::Read(4));
    assert_eq!(
        state.step(CopyEvent::ReadFailed(text("e"))),
        CopyStep {
            progress: None,
            notice: Some(CopyError::Read(text("e"))),
            action: CopyAction::Reopen(3),
        }
    );
    assert_eq!(
        state.step(CopyEvent::SeekFailed(text("s"))).action,
        CopyAction::Fail(CopyError::Read(text("s")))
    );
    let (mut state, _) = CopyState::begin(10, 4);
    state.step(CopyEvent::Read(4));
    assert_eq!(
        state.step(CopyEvent::WriteFailed(text("full"))).action,
        CopyAction::Fail(CopyError::Write(text("full")))
    );
    let (mut state, _) = CopyState::begin(10, 4);
    assert_eq!(state.step(CopyEvent::Read(0)).action, CopyAction::Finish);
    let (_, action) = CopyState::begin(0, 4);
    assert_eq!(action, CopyAction::Finish);
    let (_, action) = CopyState::begin(3, 4);
    assert_eq!(action, CopyAction::Read(3));
}

#[test]
fn tray_is_asked_five_times() {
    let (mut tray, args) = eject_drive_disk("/dev/sr0");
    assert_eq!(args, vec!["/dev/sr0"]);
    for _ in 0..4 {
        assert_eq!(tray.step(Some(false)), TrayAction::Attempt);
    }
    assert_eq!(tray.step(Some(false)), TrayAction::Finish(false));
}

#[test]
fn first_decisive_attempt_decides() {
    let (mut tray, args) = close_drive_disk("/dev/sr1");
    assert_eq!(args, vec!["-t", "/dev/sr1"]);
    assert_eq!(tray.motion, TrayMotion::Close);
    assert_eq!(tray.step(Some(false)), TrayAction::Attempt);
    assert_eq!(tray.step(Some(true)), TrayAction::Finish(true));
    let (mut tray, _) = eject_drive_disk("");
    assert_eq!(tray.motion, TrayMotion::Eject);
    assert_eq!(tray.step(Some(false)), TrayAction::Attempt);
    assert_eq!(tray.step(None), TrayAction::Fail(DiskInfoError::LaunchFail));
}

#[test]
fn tray_messages() {
    assert_eq!(tray_message(TrayMotion::Eject, Ok(true)), "Disk ejected.");
    assert_eq!(tray_message(TrayMotion::Eject, Ok(false)), "Failed to eject disk.");
    assert_eq!(
        tray_message(TrayMotion::Eject, Err(DiskInfoError::LaunchFail)),
        "Failed to eject disk."
    );
    assert_eq!(tray_message(TrayMotion::Close, Ok(true)), "Disk drive closed.");
    assert_eq!(tray_message(TrayMotion::Close, Ok(false)), "Failed to close disk drive.");
    assert_eq!(
        tray_message(TrayMotion::Close, Err(DiskInfoError::LaunchFail)),
        "Failed to close disk drive."
    );
}

#[test]
fn free_name_is_saved_when_ready() {
    let waiting: DriveStatus = DriveStatus::WaitingForName;
    assert!(name_is_asked(&waiting, true));
    assert!(!name_is_asked(&waiting, false));
    let next = refresh_name(&waiting, true, text("a.iso"), false);
    assert_eq!(next.status, Some(DriveStatus::Saving(text("a.iso"))));
    assert!(!next.confirm);
    assert!(!next.editable);
    let next = refresh_name(&waiting, false, text("a.iso"), false);
    assert_eq!(next.status, None);
    assert!(!next.confirm);
    assert!(next.editable);
}

#[test]
fn overwriting_is_asked_once() {
    let waiting: DriveStatus = DriveStatus::WaitingForName;
    let first = refresh_name(&waiting, true, text("a.iso"), true);
    assert_eq!(first.status, Some(DriveStatus::ConfirmingName));
    assert!(first.confirm);
    let confirming = first.status.unwrap();
    assert!(!name_is_asked(&confirming, true));
    let second = refresh_name(&confirming, true, text("a.iso"), true);
    assert_eq!(second.status, None);
    assert!(!second.confirm);
    assert!(!second.editable);
}

#[test]
fn many_refreshes_ask_once() {
    let mut status: DriveStatus = DriveStatus::WaitingForName;
    let mut asked = 0;
    for i in 0..30 {
        let next = refresh_name(&status, i % 3 != 0, text("a.iso"), true);
        if next.confirm {
            asked += 1;
        }
        if let Some(changed) = next.status {
            status = changed;
        }
        if asked > 0 {
            assert_eq!(status, DriveStatus::ConfirmingName);
        }
    }
    assert_eq!(asked, 1);
}

#[test]
fn disk_that_tells_nothing_is_asked_once() {
    let mut step = go_on(WorkerPhase::AwaitingDisk, WorkerEvent::Disk(true));
    assert_eq!(step.action, WorkerAction::FetchInfo);
    step = go_on(step.phase, WorkerEvent::Fetched(Err(DiskInfoError::LaunchFail)));
    for _ in 0..10 {
        assert_eq!(step.action, WorkerAction::PollDisk);
        step = go_on(step.phase, WorkerEvent::Disk(true));
    }
    step = go_on(step.phase, WorkerEvent::Disk(false));
    step = go_on(step.phase, WorkerEvent::Disk(true));
    assert_eq!(step.action, WorkerAction::FetchInfo);
}

#[test]
fn answers_are_followed() {
    assert_eq!(answer_overwrite(true, text("a.iso")), (DriveStatus::Saving(text("a.iso")), false));
    assert_eq!(answer_overwrite(false, text("a.iso")), (DriveStatus::WaitingForName, true));
}

#[test]
fn other_statuses_are_left_alone() {
    let statuses: Vec<DriveStatus> = vec![
        DriveStatus::Setup,
        DriveStatus::NoDisk,
        DriveStatus::Copying,
        DriveStatus::ConfirmingName,
        DriveStatus::Saving(text("b")),
        DriveStatus::Done,
        DriveStatus::IsoFetchError,
    ];
    for status in statuses.iter() {
        let next = refresh_name(status, true, text("a"), false);
        assert_eq!(next.status, None);
        assert!(!next.confirm);
    }
}

#[test]
fn drive_lives_through_a_disk() {
    let start = begin_work();
    assert_eq!(start.phase, WorkerPhase::AwaitingDisk);
    assert_eq!(start.status, Some(DriveStatus::NoDisk));
    assert!(!start.pause);
    assert_eq!(start.action, WorkerAction::PollDisk);
    let step = go_on(start.phase, WorkerEvent::Disk(false));
    assert_eq!(
        step,
        WorkerStep {
            phase: WorkerPhase::AwaitingDisk,
            status: None,
            pause: true,
            action: WorkerAction::PollDisk,
        }
    );
    let step = go_on(step.phase, WorkerEvent::Disk(true));
    assert_eq!(
        step,
        WorkerStep {
            phase: WorkerPhase::Fetching,
            status: None,
            pause: false,
            action: WorkerAction::FetchInfo,
        }
    );
    let info = ISOInfo { name: text("A_DISK"), block_size: 2048, length: 4096 };
    let step = go_on(step.phase, WorkerEvent::Fetched(Ok(info)));
    assert_eq!(
        step,
        WorkerStep {
            phase: WorkerPhase::Copying,
            status: Some(DriveStatus::Copying),
            pause: false,
            action: WorkerAction::Copy {
                name: text("A_DISK.iso"),
                length: 4096,
                buffer_len: 2048,
            },
        }
    );
    let step = go_on(step.phase, WorkerEvent::Copied(Ok(())));
    assert_eq!(
        step,
        WorkerStep {
            phase: WorkerPhase::AwaitingName,
            status: Some(DriveStatus::WaitingForName),
            pause: false,
            action: WorkerAction::PollStatus,
        }
    );
    let step = go_on(step.phase, WorkerEvent::Status(DriveStatus::ConfirmingName));
    assert_eq!(step.phase, WorkerPhase::AwaitingName);
    assert_eq!(step.status, None);
    assert!(step.pause);
    assert_eq!(step.action, WorkerAction::PollStatus);
    let step = go_on(step.phase, WorkerEvent::Status(DriveStatus::Saving(text("a.iso"))));
    assert_eq!(step.phase, WorkerPhase::Saving);
    assert_eq!(step.action, WorkerAction::Save(text("a.iso")));
    let step = go_on(step.phase, WorkerEvent::Saved);
    assert_eq!(step.phase, WorkerPhase::AwaitingRemoval);
    assert_eq!(step.status, Some(DriveStatus::Done));
    assert_eq!(step.action, WorkerAction::PollDisk);
    let step = go_on(step.phase, WorkerEvent::Disk(true));
    assert_eq!(step.phase, WorkerPhase::AwaitingRemoval);
    assert_eq!(step.status, None);
    assert!(step.pause);
    let step = go_on(step.phase, WorkerEvent::Disk(false));
    assert_eq!(step, begin_work());
}

#[test]
fn failures_end_the_work_on_a_disk() {
    let step = go_on(WorkerPhase::Fetching, WorkerEvent::Fetched(Err(DiskInfoError::Parse)));
    assert_eq!(step.phase, WorkerPhase::AwaitingRemoval);
    assert_eq!(step.status, Some(DriveStatus::IsoFetchError));
    assert!(!step.pause);
    let step = go_on(WorkerPhase::Copying, WorkerEvent::Copied(Err(CopyError::Read(text("r")))));
    assert_eq!(step.phase, WorkerPhase::AwaitingRemoval);
    assert_eq!(step.status, Some(DriveStatus::CopyReadError(text("r"))));
    let step = go_on(WorkerPhase::Copying, WorkerEvent::Copied(Err(CopyError::Write(text("w")))));
    assert_eq!(step.status, Some(DriveStatus::CopyWriteError(text("w"))));
}

#[test]
fn errors_become_statuses() {
    assert_eq!(notice_status(CopyError::Read(text("r"))), DriveStatus::NonFatalCopyReadError(text("r")));
    assert_eq!(notice_status(CopyError::Write(text("w"))), DriveStatus::NonFatalCopyWriteError(text("w")));
    assert_eq!(notice_status(CopyError::NoError), DriveStatus::Copying);
    assert_eq!(failure_status(CopyError::Read(text("r"))), DriveStatus::CopyReadError(text("r")));
    assert_eq!(failure_status(CopyError::Write(text("w"))), DriveStatus::CopyWriteError(text("w")));
    assert_eq!(failure_status(CopyError::NoError), DriveStatus::Copying);
}
