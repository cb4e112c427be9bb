//! Opening and closing the tray of a drive with `eject`, which may take more than one attempt.
use vstd::prelude::*;
use crate::status::DiskInfoError;

verus! {

/// How often a tray is asked to move before that is given up.
pub const MAX_ATTEMPTS: usize = 5;

/// What a tray is asked to do.
#[derive(Clone, Copy, Debug, PartialEq, Eq, Structural)]
pub enum TrayMotion {
    Eject,
    Close,
}

/// A tray being moved.
#[derive(Clone, Copy, Debug, PartialEq, Eq, Structural)]
pub struct TrayState {
    pub motion: TrayMotion,
    /// How often `eject` has run without moving the tray.
    pub failed: usize,
}

/// What to do next about a tray.
#[derive(Clone, Copy, Debug, PartialEq, Eq, Structural)]
pub enum TrayAction {
    /// Run `eject`.
    Attempt,
    /// Stop: whether the tray moved.
    Finish(bool),
    /// Stop: `eject` cannot be run.
    Fail(DiskInfoError),
}

/// The arguments with which `eject` moves the tray of `drive`.
pub open spec fn eject_args(motion: TrayMotion, drive: Seq<char>) -> Seq<Seq<char>> {
    match motion {
        TrayMotion::Eject => seq![drive],
        TrayMotion::Close => seq!["-t"@, drive],
    }
}

/// What each argument reads.
pub open spec fn args_view(args: Seq<String>) -> Seq<Seq<char>> {
    args.map_values(|arg: String| arg@)
}

/// What is made of an attempt: `None` where `eject` could not be launched, else whether it
/// succeeded.
pub open spec fn tray_step(state: TrayState, attempt: Option<bool>) -> (TrayState, TrayAction) {
    match attempt {
        None => (state, TrayAction::Fail(DiskInfoError::LaunchFail)),
        Some(true) => (state, TrayAction::Finish(true)),
        Some(false) => {
            let next = TrayState { motion: state.motion, failed: (state.failed + 1) as usize };
            if next.failed < MAX_ATTEMPTS {
                (next, TrayAction::Attempt)
            } else {
                (next, TrayAction::Finish(false))
            }
        },
    }
}

/// The arguments with which `eject` moves the tray of `drive`.
fn args_for(motion: TrayMotion, drive: &str) -> (r: Vec<String>)
    ensures
        args_view(r@) == eject_args(motion, drive@),
{
    let mut args: Vec<String> = Vec::new();
    match motion {
        TrayMotion::Eject => {},
        TrayMotion::Close => {
            args.push("-t".to_owned());
        },
    }
    args.push(drive.to_owned());
    assert(args_view(args@) =~= eject_args(motion, drive@));
    args
}

/// Starts to open the tray of `drive`: `eject` is to be run with the given arguments.
pub fn eject_drive_disk(drive: &str) -> (r: (TrayState, Vec<String>))
    ensures
        r.0 == (TrayState { motion: TrayMotion::Eject, failed: 0 }),
        args_view(r.1@) == eject_args(TrayMotion::Eject, drive@),
        r.0.wf(),
{
    (TrayState { motion: TrayMotion::Eject, failed: 0 }, args_for(TrayMotion::Eject, drive))
}

/// Starts to close the tray of `drive`: `eject` is to be run with the given arguments.
pub fn close_drive_disk(drive: &str) -> (r: (TrayState, Vec<String>))
    ensures
        r.0 == (TrayState { motion: TrayMotion::Close, failed: 0 }),
        args_view(r.1@) == eject_args(TrayMotion::Close, drive@),
        r.0.wf(),
{
    (TrayState { motion: TrayMotion::Close, failed: 0 }, args_for(TrayMotion::Close, drive))
}

impl TrayState {
    /// Whether the tray may still be asked to move.
    pub open spec fn wf(self) -> bool {
        self.failed < MAX_ATTEMPTS
    }

    /// Takes note of an attempt: `None` where `eject` could not be launched, else whether it
    /// succeeded.
    pub fn step(&mut self, attempt: Option<bool>) -> (r: TrayAction)
        requires
            old(self).wf(),
        ensures
            (*final(self), r) == tray_step(*old(self), attempt),
            r is Attempt ==> final(self).wf(),
    {
        match attempt {
            None => TrayAction::Fail(DiskInfoError::LaunchFail),
            Some(moved) => {
                if moved {
                    return TrayAction::Finish(true);
                }
                self.failed = self.failed + 1;
                if self.failed < MAX_ATTEMPTS {
                    TrayAction::Attempt
                } else {
                    TrayAction::Finish(false)
                }
            },
        }
    }
}

/// What the user is told when a tray was asked to move.
pub open spec fn tray_text(motion: TrayMotion, outcome: Result<bool, DiskInfoError>) -> Seq<char> {
    match (motion, outcome) {
        (TrayMotion::Eject, Ok(true)) => "Disk ejected."@,
        (TrayMotion::Eject, _) => "Failed to eject disk."@,
        (TrayMotion::Close, Ok(true)) => "Disk drive closed."@,
        (TrayMotion::Close, _) => "Failed to close disk drive."@,
    }
}

/// Tells what came of asking a tray to move.
pub fn tray_message(motion: TrayMotion, outcome: Result<bool, DiskInfoError>) -> (r: &'static str)
    ensures
        r@ == tray_text(motion, outcome),
{
    let worked = match outcome {
        Ok(worked) => worked,
        Err(_) => false,
    };
    match motion {
        TrayMotion::Eject => if worked {
            "Disk ejected."
        } else {
            "Failed to eject disk."
        },
        TrayMotion::Close => if worked {
            "Disk drive closed."
        } else {
            "Failed to close disk drive."
        },
    }
}

/// What comes of a tray in `state` as the attempts go as `attempts` tells: no more than those are
/// made that are asked for.
pub open spec fn tray_outcome(state: TrayState, attempts: Seq<Option<bool>>) -> TrayAction
    decreases attempts.len(),
{
    if attempts.len() == 0 {
        TrayAction::Attempt
    } else {
        let (next, action) = tray_step(state, attempts[0]);
        if action is Attempt {
            tray_outcome(next, attempts.skip(1))
        } else {
            action
        }
    }
}

/// The first attempt among the first five that is not a mere failure decides: the tray moved, or
/// `eject` could not be launched.
pub proof fn law_first_decisive_attempt_decides(
    motion: TrayMotion,
    attempts: Seq<Option<bool>>,
    i: int,
)
    requires
        0 <= i < attempts.len(),
        i < MAX_ATTEMPTS,
        attempts[i] != Some(false),
        forall|k: int| 0 <= k < i ==> attempts[k] == Some(false),
    ensures
        tray_outcome(TrayState { motion, failed: 0 }, attempts) == if attempts[i] is None {
            TrayAction::Fail(DiskInfoError::LaunchFail)
        } else {
            TrayAction::Finish(true)
        },
{
    lemma_failures_pass(TrayState { motion, failed: 0 }, attempts, i);
    let left = attempts.skip(i);
    assert(left[0] == attempts[i]);
}

/// Five failed attempts are the last: then it is given up, whatever a further one would do.
pub proof fn law_five_failures_give_up(motion: TrayMotion, attempts: Seq<Option<bool>>)
    requires
        attempts.len() >= MAX_ATTEMPTS,
        forall|k: int| 0 <= k < MAX_ATTEMPTS ==> attempts[k] == Some(false),
    ensures
        tray_outcome(TrayState { motion, failed: 0 }, attempts) == TrayAction::Finish(false),
{
    lemma_failures_pass(TrayState { motion, failed: 0 }, attempts, MAX_ATTEMPTS - 1);
    let left = attempts.skip(MAX_ATTEMPTS - 1);
    assert(left[0] == attempts[MAX_ATTEMPTS - 1]);
}

/// Fewer than five failures decide nothing.
proof fn lemma_failures_pass(state: TrayState, attempts: Seq<Option<bool>>, i: int)
    requires
        0 <= i <= attempts.len(),
        state.failed + i < MAX_ATTEMPTS,
        forall|k: int| 0 <= k < i ==> attempts[k] == Some(false),
    ensures
        tray_outcome(state, attempts) == tray_outcome(
            TrayState { motion: state.motion, failed: (state.failed + i) as usize },
            attempts.skip(i),
        ),
    decreases i,
{
    if i == 0 {
        assert(attempts.skip(0) =~= attempts);
    } else {
        let next = TrayState { motion: state.motion, failed: (state.failed + 1) as usize };
        let rest = attempts.skip(1);
        assert(attempts[0] == Some(false));
        assert forall|k: int| 0 <= k < i - 1 implies rest[k] == Some(false) by {
            assert(rest[k] == attempts[k + 1]);
        }
        lemma_failures_pass(next, rest, i - 1);
        assert(rest.skip(i - 1) =~= attempts.skip(i));
    }
}

/// A tray is opened by giving `eject` its drive, and closed by giving it `-t` before that: nothing
/// else is handed to it.
pub proof fn law_eject_is_given_the_drive(drive: Seq<char>)
    ensures
        eject_args(TrayMotion::Eject, drive) == seq![drive],
        eject_args(TrayMotion::Close, drive) == seq![seq!['-', 't'], drive],
{
    reveal_strlit("-t");
    assert("-t"@ =~= seq!['-', 't']);
}

/// One attempt decides unless `eject` ran and did not move the tray: success ends it, and so does an
/// `eject` that cannot be launched. A failure is counted, and the fifth of them ends it. A tray that
/// was to be opened is never closed instead, nor one that was to be closed opened.
pub proof fn law_attempts_are_counted(state: TrayState, attempt: Option<bool>)
    requires
        state.wf(),
    ensures
        ({
            let (next, action) = tray_step(state, attempt);
            &&& next.motion == state.motion
            &&& action == TrayAction::Finish(true) <==> attempt == Some(true)
            &&& action is Fail <==> attempt is None
            &&& action is Fail ==> action == TrayAction::Fail(DiskInfoError::LaunchFail)
            &&& action == TrayAction::Finish(false) <==> attempt == Some(false) && state.failed == 4
            &&& action is Attempt <==> attempt == Some(false) && state.failed < 4
            &&& attempt == Some(false) ==> next.failed == state.failed + 1
        }),
{
}

/// Fewer than five attempts that all failed leave the tray to be asked again.
pub proof fn law_few_failures_decide_nothing(motion: TrayMotion, attempts: Seq<Option<bool>>)
    requires
        attempts.len() < 5,
        forall|k: int| 0 <= k < attempts.len() ==> attempts[k] == Some(false),
    ensures
        tray_outcome(TrayState { motion, failed: 0 }, attempts) is Attempt,
{
    lemma_failures_pass(TrayState { motion, failed: 0 }, attempts, attempts.len() as int);
}

/// The user is told of success exactly where the tray moved, of any failure in the same words, and
/// in other words for opening than for closing.
pub proof fn law_user_is_told_whether_tray_moved(
    motion: TrayMotion,
    outcome: Result<bool, DiskInfoError>,
    other: TrayMotion,
    other_outcome: Result<bool, DiskInfoError>,
)
    ensures
        tray_text(motion, outcome) == tray_text(other, other_outcome) <==> motion == other && (
        outcome == Ok::<_, DiskInfoError>(true) <==> other_outcome == Ok::<_, DiskInfoError>(true)),
{
    reveal_strlit("Disk ejected.");
    reveal_strlit("Failed to eject disk.");
    reveal_strlit("Disk drive closed.");
    reveal_strlit("Failed to close disk drive.");
    assert("Disk ejected."@.len() != "Failed to eject disk."@.len());
    assert("Disk ejected."@.len() != "Disk drive closed."@.len());
    assert("Disk ejected."@.len() != "Failed to close disk drive."@.len());
    assert("Failed to eject disk."@.len() != "Disk drive closed."@.len());
    assert("Failed to eject disk."@.len() != "Failed to close disk drive."@.len());
    assert("Disk drive closed."@.len() != "Failed to close disk drive."@.len());
}

} // verus!
