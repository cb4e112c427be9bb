//! The life of a drive: waiting for a disk, copying it, saving the image, waiting for the disk to be
//! taken out, and over again.
//!
//! The decisions stand here. The thread of a drive performs each action and hands back what came of
//! it.
use vstd::prelude::*;
use vstd::utf8::*;
use crate::copy;
use crate::copy::CopyError;
use crate::isoinfo;
use crate::isoinfo::ISOInfo;
use crate::naming;
use crate::status::{DiskInfoError, DriveStatus};
use crate::text;
use crate::text::joined;

verus! {

/// How many milliseconds pass before something is looked at again.
pub const POLL_INTERVAL_MS: u64 = 5000;

/// What the thread of a drive waits for.
#[derive(Clone, Copy, Debug, PartialEq, Eq, Structural)]
pub enum WorkerPhase {
    /// A disk.
    AwaitingDisk,
    /// What is known of the disk.
    Fetching,
    /// The copy.
    Copying,
    /// A name for the image.
    AwaitingName,
    /// The image, saved under its name.
    Saving,
    /// The disk, taken out.
    AwaitingRemoval,
}

/// What came of an action. `Text` is `String` in programs and `Seq<char>` in contracts.
#[derive(Debug, PartialEq)]
pub enum WorkerEvent<Text = String> {
    /// Whether a disk lies in the drive.
    Disk(bool),
    /// What is known of the disk.
    Fetched(Result<ISOInfo<Text>, DiskInfoError>),
    /// Whether the disk was copied.
    Copied(Result<(), CopyError<Text>>),
    /// What the drive is said to be doing.
    Status(DriveStatus<Text>),
    /// The image was saved.
    Saved,
}

impl View for WorkerEvent<String> {
    type V = WorkerEvent<Seq<char>>;

    open spec fn view(&self) -> WorkerEvent<Seq<char>> {
        match self {
            WorkerEvent::Disk(present) => WorkerEvent::Disk(*present),
            WorkerEvent::Fetched(Ok(info)) => WorkerEvent::Fetched(Ok(info@)),
            WorkerEvent::Fetched(Err(error)) => WorkerEvent::Fetched(Err(*error)),
            WorkerEvent::Copied(Ok(())) => WorkerEvent::Copied(Ok(())),
            WorkerEvent::Copied(Err(error)) => WorkerEvent::Copied(Err(error@)),
            WorkerEvent::Status(status) => WorkerEvent::Status(status@),
            WorkerEvent::Saved => WorkerEvent::Saved,
        }
    }
}

/// What to do next. `Text` is `String` in programs and `Seq<char>` in contracts.
#[derive(Debug, PartialEq)]
pub enum WorkerAction<Text = String> {
    /// Look whether a disk lies in the drive.
    PollDisk,
    /// Ask what is known of the disk.
    FetchInfo,
    /// Offer `name` for the image and uncheck the box for finished settings, then copy `length`
    /// bytes of the disk, `buffer_len` at once, to a new file without a name.
    Copy { name: Text, length: usize, buffer_len: usize },
    /// Look what the drive is said to be doing.
    PollStatus,
    /// Give the file the name.
    Save(Text),
}

impl View for WorkerAction<String> {
    type V = WorkerAction<Seq<char>>;

    open spec fn view(&self) -> WorkerAction<Seq<char>> {
        match self {
            WorkerAction::PollDisk => WorkerAction::PollDisk,
            WorkerAction::FetchInfo => WorkerAction::FetchInfo,
            WorkerAction::Copy { name, length, buffer_len } => WorkerAction::Copy {
                name: name@,
                length: *length,
                buffer_len: *buffer_len,
            },
            WorkerAction::PollStatus => WorkerAction::PollStatus,
            WorkerAction::Save(name) => WorkerAction::Save(name@),
        }
    }
}

/// What is made of an event. `Text` is `String` in programs and `Seq<char>` in contracts.
#[derive(Debug, PartialEq)]
pub struct WorkerStep<Text = String> {
    pub phase: WorkerPhase,
    /// What the drive is doing from now on, if that changes.
    pub status: Option<DriveStatus<Text>>,
    /// Whether `POLL_INTERVAL_MS` pass before the action.
    pub pause: bool,
    pub action: WorkerAction<Text>,
}

impl View for WorkerStep<String> {
    type V = WorkerStep<Seq<char>>;

    open spec fn view(&self) -> WorkerStep<Seq<char>> {
        WorkerStep {
            phase: self.phase,
            status: naming::status_view(self.status),
            pause: self.pause,
            action: self.action@,
        }
    }
}

/// Whether `event` can come of the action that was asked for last in `phase`.
pub open spec fn awaits<Text>(phase: WorkerPhase, event: WorkerEvent<Text>) -> bool {
    match phase {
        WorkerPhase::AwaitingDisk => event is Disk,
        WorkerPhase::Fetching => event is Fetched,
        WorkerPhase::Copying => event is Copied,
        WorkerPhase::AwaitingName => event is Status,
        WorkerPhase::Saving => event is Saved,
        WorkerPhase::AwaitingRemoval => event is Disk,
    }
}

/// What a drive is doing when something went wrong that did not end the copy.
pub open spec fn noticed<Text>(error: CopyError<Text>) -> DriveStatus<Text> {
    match error {
        CopyError::Read(message) => DriveStatus::NonFatalCopyReadError(message),
        CopyError::Write(message) => DriveStatus::NonFatalCopyWriteError(message),
        CopyError::NoError => DriveStatus::Copying,
    }
}

/// What a drive is doing when the copy failed.
pub open spec fn failed<Text>(error: CopyError<Text>) -> DriveStatus<Text> {
    match error {
        CopyError::Read(message) => DriveStatus::CopyReadError(message),
        CopyError::Write(message) => DriveStatus::CopyWriteError(message),
        CopyError::NoError => DriveStatus::Copying,
    }
}

/// Where the thread of a drive begins, and begins again: without a disk, to look for one at once.
pub open spec fn without_disk() -> WorkerStep<Seq<char>> {
    WorkerStep {
        phase: WorkerPhase::AwaitingDisk,
        status: Some(DriveStatus::NoDisk),
        pause: false,
        action: WorkerAction::PollDisk,
    }
}

/// Done with the disk: only its removal is awaited.
pub open spec fn done_with_disk(status: DriveStatus<Seq<char>>) -> WorkerStep<Seq<char>> {
    WorkerStep {
        phase: WorkerPhase::AwaitingRemoval,
        status: Some(status),
        pause: false,
        action: WorkerAction::PollDisk,
    }
}

/// What the thread of a drive in `phase` makes of `event`, which must be one that it awaits.
pub open spec fn worker_step(
    phase: WorkerPhase,
    event: WorkerEvent<Seq<char>>,
) -> WorkerStep<Seq<char>> {
    match event {
        WorkerEvent::Disk(present) => if present && phase is AwaitingDisk {
            WorkerStep {
                phase: WorkerPhase::Fetching,
                status: None,
                pause: false,
                action: WorkerAction::FetchInfo,
            }
        } else if !present && phase is AwaitingRemoval {
            without_disk()
        } else {
            WorkerStep { phase, status: None, pause: true, action: WorkerAction::PollDisk }
        },
        WorkerEvent::Fetched(Ok(info)) => WorkerStep {
            phase: WorkerPhase::Copying,
            status: Some(DriveStatus::Copying),
            pause: false,
            action: WorkerAction::Copy {
                name: info.name + ".iso"@,
                length: info.length,
                buffer_len: info.block_size,
            },
        },
        WorkerEvent::Fetched(Err(_)) => done_with_disk(DriveStatus::IsoFetchError),
        WorkerEvent::Copied(Ok(())) => WorkerStep {
            phase: WorkerPhase::AwaitingName,
            status: Some(DriveStatus::WaitingForName),
            pause: false,
            action: WorkerAction::PollStatus,
        },
        WorkerEvent::Copied(Err(error)) => done_with_disk(failed(error)),
        WorkerEvent::Status(DriveStatus::Saving(name)) => WorkerStep {
            phase: WorkerPhase::Saving,
            status: None,
            pause: false,
            action: WorkerAction::Save(name),
        },
        WorkerEvent::Status(_) => WorkerStep {
            phase,
            status: None,
            pause: true,
            action: WorkerAction::PollStatus,
        },
        WorkerEvent::Saved => done_with_disk(DriveStatus::Done),
    }
}

/// Tells what a drive is doing when something went wrong that did not end the copy.
pub fn notice_status(error: CopyError) -> (r: DriveStatus)
    ensures
        r == noticed(error),
{
    match error {
        CopyError::Read(message) => DriveStatus::NonFatalCopyReadError(message),
        CopyError::Write(message) => DriveStatus::NonFatalCopyWriteError(message),
        CopyError::NoError => DriveStatus::Copying,
    }
}

/// Tells what a drive is doing when the copy failed.
pub fn failure_status(error: CopyError) -> (r: DriveStatus)
    ensures
        r == failed(error),
{
    match error {
        CopyError::Read(message) => DriveStatus::CopyReadError(message),
        CopyError::Write(message) => DriveStatus::CopyWriteError(message),
        CopyError::NoError => DriveStatus::Copying,
    }
}

/// The name that is offered for the image of a disk.
pub fn default_iso_name(volume: &str) -> (r: String)
    ensures
        r@ == volume@ + ".iso"@,
{
    joined(volume, ".iso")
}

/// Begins the work of the thread of a drive.
pub fn begin_work() -> (r: WorkerStep)
    ensures
        r@ == without_disk(),
{
    WorkerStep {
        phase: WorkerPhase::AwaitingDisk,
        status: Some(DriveStatus::NoDisk),
        pause: false,
        action: WorkerAction::PollDisk,
    }
}

fn await_removal(status: DriveStatus) -> (r: WorkerStep)
    ensures
        r@ == done_with_disk(status@),
{
    WorkerStep {
        phase: WorkerPhase::AwaitingRemoval,
        status: Some(status),
        pause: false,
        action: WorkerAction::PollDisk,
    }
}

/// Goes on with the work of the thread of a drive after `event`.
pub fn go_on(phase: WorkerPhase, event: WorkerEvent) -> (r: WorkerStep)
    requires
        awaits(phase, event),
    ensures
        r@ == worker_step(phase, event@),
{
    match event {
        WorkerEvent::Disk(present) => match phase {
            WorkerPhase::AwaitingDisk if present => WorkerStep {
                phase: WorkerPhase::Fetching,
                status: None,
                pause: false,
                action: WorkerAction::FetchInfo,
            },
            WorkerPhase::AwaitingRemoval if !present => begin_work(),
            _ => WorkerStep { phase, status: None, pause: true, action: WorkerAction::PollDisk },
        },
        WorkerEvent::Fetched(Ok(info)) => WorkerStep {
            phase: WorkerPhase::Copying,
            status: Some(DriveStatus::Copying),
            pause: false,
            action: WorkerAction::Copy {
                name: default_iso_name(info.name.as_str()),
                length: info.length,
                buffer_len: info.block_size,
            },
        },
        WorkerEvent::Fetched(Err(_)) => await_removal(DriveStatus::IsoFetchError),
        WorkerEvent::Copied(Ok(())) => WorkerStep {
            phase: WorkerPhase::AwaitingName,
            status: Some(DriveStatus::WaitingForName),
            pause: false,
            action: WorkerAction::PollStatus,
        },
        WorkerEvent::Copied(Err(error)) => await_removal(failure_status(error)),
        WorkerEvent::Status(DriveStatus::Saving(name)) => WorkerStep {
            phase: WorkerPhase::Saving,
            status: None,
            pause: false,
            action: WorkerAction::Save(name),
        },
        WorkerEvent::Status(_) => WorkerStep {
            phase,
            status: None,
            pause: true,
            action: WorkerAction::PollStatus,
        },
        WorkerEvent::Saved => await_removal(DriveStatus::Done),
    }
}

/// Whether `action` is the one whose event is awaited in `phase`.
pub open spec fn asks_for(action: WorkerAction<Seq<char>>, phase: WorkerPhase) -> bool {
    match phase {
        WorkerPhase::AwaitingDisk => action is PollDisk,
        WorkerPhase::Fetching => action is FetchInfo,
        WorkerPhase::Copying => action is Copy,
        WorkerPhase::AwaitingName => action is PollStatus,
        WorkerPhase::Saving => action is Save,
        WorkerPhase::AwaitingRemoval => action is PollDisk,
    }
}

/// Whatever the thread of a drive learns, it asks for the action that it then waits for.
pub proof fn law_worker_asks_for_what_it_awaits(phase: WorkerPhase, event: WorkerEvent<Seq<char>>)
    requires
        awaits(phase, event),
    ensures
        asks_for(without_disk().action, without_disk().phase),
        asks_for(worker_step(phase, event).action, worker_step(phase, event).phase),
{
}

/// The thread of a drive begins without a disk, says so, and looks for one at once.
pub proof fn law_work_begins_without_disk()
    ensures
        without_disk().phase is AwaitingDisk,
        without_disk().status == Some(DriveStatus::<Seq<char>>::NoDisk),
        without_disk().action is PollDisk,
        !without_disk().pause,
{
}

/// All of a disk is copied: once it is known what the disk is, a copy is asked for that is as long
/// as the disk, with room for one block at once, and the name that is offered for the image is that
/// of the volume with `.iso` behind it. Nothing else makes the thread copy.
pub proof fn law_whole_disk_is_copied(
    phase: WorkerPhase,
    event: WorkerEvent<Seq<char>>,
    info: ISOInfo<Seq<char>>,
)
    requires
        awaits(phase, event),
    ensures
        event == WorkerEvent::Fetched(Ok::<_, DiskInfoError>(info)) ==> {
            &&& worker_step(phase, event).action matches WorkerAction::Copy {
                name,
                length,
                buffer_len,
            }
            &&& name == info.name + seq!['.', 'i', 's', 'o']
            &&& length == info.length
            &&& buffer_len == info.block_size
        },
        worker_step(phase, event).action is Copy ==> (event matches WorkerEvent::Fetched(found)
            && found is Ok),
{
    reveal_strlit(".iso");
}

/// What the thread asks for follows from what it learns: a disk that it waited for is looked into,
/// a name that it waited for is the one to save under, a finished copy and any other status make it
/// look at the status, and all else makes it look for a disk.
pub proof fn law_worker_goes_on(phase: WorkerPhase, event: WorkerEvent<Seq<char>>, name: Seq<char>)
    requires
        awaits(phase, event),
    ensures
        ({
            let action = worker_step(phase, event).action;
            let found = phase is AwaitingDisk && event == WorkerEvent::<Seq<char>>::Disk(true);
            &&& action is FetchInfo <==> found
            &&& action == WorkerAction::Save(name) <==> event == WorkerEvent::Status(
                DriveStatus::Saving(name),
            )
            &&& action is PollStatus <==> (event matches WorkerEvent::Copied(result) && result is Ok)
                || (event matches WorkerEvent::Status(status) && !(status is Saving))
            &&& action is PollDisk <==> event is Disk && !found || event is Saved || (event
                matches WorkerEvent::Fetched(result) && result is Err) || (event
                matches WorkerEvent::Copied(result) && result is Err)
        }),
{
}

/// The thread pauses exactly when it looked for something that has not come about: a disk, the
/// removal of one, or a name. It then goes on waiting for the same, and what the drive is said to be
/// doing stays as it is.
pub proof fn law_worker_pauses_between_looks(phase: WorkerPhase, event: WorkerEvent<Seq<char>>)
    requires
        awaits(phase, event),
    ensures
        worker_step(phase, event).pause <==> {
            ||| phase is AwaitingDisk && event == WorkerEvent::<Seq<char>>::Disk(false)
            ||| phase is AwaitingRemoval && event == WorkerEvent::<Seq<char>>::Disk(true)
            ||| event matches WorkerEvent::Status(status) && !(status is Saving)
        },
        worker_step(phase, event).pause <==> worker_step(phase, event).phase == phase,
        worker_step(phase, event).pause ==> worker_step(phase, event).status is None,
{
}

/// What a drive is said to be doing is what it does: it copies once the disk is known, waits for a
/// name once the disk is copied, is done once the image is saved, tells of a copy that failed with
/// the message of the error, tells of a disk of which nothing could be learned, and has no disk once
/// that was taken out. All else leaves what it is said to be doing as it is.
pub proof fn law_worker_tells_what_it_does(
    phase: WorkerPhase,
    event: WorkerEvent<Seq<char>>,
    message: Seq<char>,
)
    requires
        awaits(phase, event),
    ensures
        ({
            let status = worker_step(phase, event).status;
            let fetched = event matches WorkerEvent::Fetched(result) && result is Ok;
            let failed = event == WorkerEvent::Copied(Err::<(), _>(CopyError::<Seq<char>>::NoError));
            &&& status == Some(DriveStatus::<Seq<char>>::NoDisk) <==> phase is AwaitingRemoval
                && event == WorkerEvent::<Seq<char>>::Disk(false)
            &&& status == Some(DriveStatus::<Seq<char>>::Copying) <==> fetched || failed
            &&& status == Some(DriveStatus::<Seq<char>>::IsoFetchError) <==> (event
                matches WorkerEvent::Fetched(result) && result is Err)
            &&& status == Some(DriveStatus::<Seq<char>>::WaitingForName) <==> (event
                matches WorkerEvent::Copied(result) && result is Ok)
            &&& status == Some(DriveStatus::<Seq<char>>::Done) <==> event is Saved
            &&& status == Some(DriveStatus::CopyReadError(message)) <==> event
                == WorkerEvent::Copied(Err::<(), _>(CopyError::Read(message)))
            &&& status == Some(DriveStatus::CopyWriteError(message)) <==> event
                == WorkerEvent::Copied(Err::<(), _>(CopyError::Write(message)))
            &&& status is None <==> event is Status || event is Disk && !(phase is AwaitingRemoval
                && event == WorkerEvent::<Seq<char>>::Disk(false))
        }),
{
}

/// An error becomes the status for an error of its kind, with its message: one that did not end the
/// copy a status for that, and one that ended it another. Where nothing went wrong, the drive is
/// copying.
pub proof fn law_errors_keep_their_kind<Text>(error: CopyError<Text>, message: Text)
    ensures
        noticed(error) == DriveStatus::NonFatalCopyReadError(message) <==> error
            == CopyError::Read(message),
        noticed(error) == DriveStatus::NonFatalCopyWriteError(message) <==> error
            == CopyError::Write(message),
        noticed(error) == DriveStatus::<Text>::Copying <==> error is NoError,
        failed(error) == DriveStatus::CopyReadError(message) <==> error == CopyError::Read(
            message,
        ),
        failed(error) == DriveStatus::CopyWriteError(message) <==> error == CopyError::Write(
            message,
        ),
        failed(error) == DriveStatus::<Text>::Copying <==> error is NoError,
{
}

/// Whether `phases` are what the thread of a drive goes through as it learns of `events`.
pub open spec fn is_work(events: Seq<WorkerEvent<Seq<char>>>, phases: Seq<WorkerPhase>) -> bool {
    &&& phases.len() == events.len() + 1
    &&& phases[0] == without_disk().phase
    &&& forall|i: int|
        #![trigger events[i]]
        0 <= i < events.len() ==> awaits(phases[i], events[i]) && phases[i + 1] == worker_step(
            phases[i],
            events[i],
        ).phase
}

/// Whether the event at `j` is a finished copy, with nothing but looks at the status from there up
/// to `i`, none of which gave a name.
pub open spec fn copied_at(events: Seq<WorkerEvent<Seq<char>>>, j: int, i: int) -> bool {
    &&& 0 <= j < i
    &&& events[j] matches WorkerEvent::Copied(Ok(_))
    &&& forall|k: int|
        j < k < i ==> (#[trigger] events[k] matches WorkerEvent::Status(status) && !(
        status is Saving))
}

/// An image is saved only under a name that the drive was given to save, and only once the disk has
/// been copied in full.
pub proof fn law_only_full_copies_are_saved(
    events: Seq<WorkerEvent<Seq<char>>>,
    phases: Seq<WorkerPhase>,
    i: int,
)
    requires
        is_work(events, phases),
        0 <= i < events.len(),
    ensures
        worker_step(phases[i], events[i]).action matches WorkerAction::Save(name) ==> {
            &&& events[i] == WorkerEvent::Status(DriveStatus::Saving(name))
            &&& exists|j: int| copied_at(events, j, i)
        },
{
    assert(awaits(phases[i], events[i]));
    if worker_step(phases[i], events[i]).action is Save {
        lemma_name_is_awaited_after_copy(events, phases, i);
    }
}

proof fn lemma_name_is_awaited_after_copy(
    events: Seq<WorkerEvent<Seq<char>>>,
    phases: Seq<WorkerPhase>,
    i: int,
)
    requires
        is_work(events, phases),
        0 <= i < phases.len(),
        phases[i] is AwaitingName,
    ensures
        exists|j: int| copied_at(events, j, i),
    decreases i,
{
    let k = i - 1;
    assert(awaits(phases[k], events[k]));
    if phases[k] is AwaitingName {
        lemma_name_is_awaited_after_copy(events, phases, k);
        let j = choose|j: int| copied_at(events, j, k);
        assert(copied_at(events, j, i));
    } else {
        assert(copied_at(events, k, i));
    }
}

/// Whether the copy that was finished at `j` was asked for one step before, when the disk was found
/// to be what `info` tells, and was one of the whole disk.
pub open spec fn copied_whole(
    events: Seq<WorkerEvent<Seq<char>>>,
    phases: Seq<WorkerPhase>,
    info: ISOInfo<Seq<char>>,
    j: int,
) -> bool {
    &&& 0 < j
    &&& events[j - 1] == WorkerEvent::Fetched(Ok::<_, DiskInfoError>(info))
    &&& worker_step(phases[j - 1], events[j - 1]).action matches WorkerAction::Copy {
        name,
        length,
        buffer_len,
    }
    &&& name == info.name + seq!['.', 'i', 's', 'o']
    &&& length == info.length
    &&& buffer_len == info.block_size
}

/// An image that is saved is that of a whole disk: it comes from the last copy, and that was asked
/// for with the length and the block size that were fetched for the disk.
pub proof fn law_saved_image_is_of_whole_disk(
    events: Seq<WorkerEvent<Seq<char>>>,
    phases: Seq<WorkerPhase>,
    i: int,
)
    requires
        is_work(events, phases),
        0 <= i < events.len(),
        worker_step(phases[i], events[i]).action is Save,
    ensures
        exists|j: int, info: ISOInfo<Seq<char>>|
            #[trigger] copied_at(events, j, i) && #[trigger] copied_whole(events, phases, info, j),
{
    law_only_full_copies_are_saved(events, phases, i);
    let j = choose|j: int| copied_at(events, j, i);
    assert(awaits(phases[j], events[j]));
    let f = j - 1;
    assert(awaits(phases[f], events[f]));
    let info = events[f]->Fetched_0->Ok_0;
    law_whole_disk_is_copied(phases[f], events[f], info);
    assert(copied_whole(events, phases, info, j));
}

/// A disk is copied once: between two copies the thread has seen the drive without a disk.
pub proof fn law_disk_is_copied_once(
    events: Seq<WorkerEvent<Seq<char>>>,
    phases: Seq<WorkerPhase>,
    i: int,
    k: int,
)
    requires
        is_work(events, phases),
        0 <= i < k < events.len(),
        worker_step(phases[i], events[i]).action is Copy,
        worker_step(phases[k], events[k]).action is Copy,
    ensures
        exists|m: int| i < m < k && events[m] == WorkerEvent::<Seq<char>>::Disk(false),
{
    assert(awaits(phases[i], events[i]));
    assert(awaits(phases[k], events[k]));
    lemma_busy_until_removal(events, phases, i, k);
}

proof fn lemma_busy_until_removal(
    events: Seq<WorkerEvent<Seq<char>>>,
    phases: Seq<WorkerPhase>,
    i: int,
    k: int,
)
    requires
        is_work(events, phases),
        0 <= i < k < phases.len(),
        worker_step(phases[i], events[i]).action is Copy,
    ensures
        !(phases[k] is AwaitingDisk || phases[k] is Fetching) || exists|m: int|
            i < m < k && events[m] == WorkerEvent::<Seq<char>>::Disk(false),
    decreases k,
{
    assert(awaits(phases[i], events[i]));
    let before = k - 1;
    assert(awaits(phases[before], events[before]));
    if before > i {
        lemma_busy_until_removal(events, phases, i, before);
        if exists|m: int| i < m < before && events[m] == WorkerEvent::<Seq<char>>::Disk(false) {
            let m = choose|m: int|
                i < m < before && events[m] == WorkerEvent::<Seq<char>>::Disk(false);
            assert(i < m < k && events[m] == WorkerEvent::<Seq<char>>::Disk(false));
        }
    }
}

/// A disk is handled once, also if nothing could be learned of it: between two requests for what is
/// known of a disk the thread has seen the drive without one.
pub proof fn law_disk_is_handled_once(
    events: Seq<WorkerEvent<Seq<char>>>,
    phases: Seq<WorkerPhase>,
    i: int,
    k: int,
)
    requires
        is_work(events, phases),
        0 <= i < k < events.len(),
        worker_step(phases[i], events[i]).action is FetchInfo,
        worker_step(phases[k], events[k]).action is FetchInfo,
    ensures
        exists|m: int| i < m < k && events[m] == WorkerEvent::<Seq<char>>::Disk(false),
{
    assert(awaits(phases[i], events[i]));
    assert(awaits(phases[k], events[k]));
    lemma_no_disk_awaited_until_removal(events, phases, i, k);
}

proof fn lemma_no_disk_awaited_until_removal(
    events: Seq<WorkerEvent<Seq<char>>>,
    phases: Seq<WorkerPhase>,
    i: int,
    k: int,
)
    requires
        is_work(events, phases),
        0 <= i < k < phases.len(),
        worker_step(phases[i], events[i]).action is FetchInfo,
    ensures
        !(phases[k] is AwaitingDisk) || exists|m: int|
            i < m < k && events[m] == WorkerEvent::<Seq<char>>::Disk(false),
    decreases k,
{
    assert(awaits(phases[i], events[i]));
    let before = k - 1;
    assert(awaits(phases[before], events[before]));
    if before > i {
        lemma_no_disk_awaited_until_removal(events, phases, i, before);
        if exists|m: int| i < m < before && events[m] == WorkerEvent::<Seq<char>>::Disk(false) {
            let m = choose|m: int|
                i < m < before && events[m] == WorkerEvent::<Seq<char>>::Disk(false);
            assert(i < m < k && events[m] == WorkerEvent::<Seq<char>>::Disk(false));
        }
    }
}

/// The name that the user settles on is the name under which the image is saved: one that no file
/// has, once the settings are ready, or one that the user allowed to overwrite.
pub proof fn law_chosen_name_is_saved(path: Seq<char>)
    ensures
        ({
            let free = naming::name_refreshed(DriveStatus::WaitingForName, true, path, false);
            let step = worker_step(WorkerPhase::AwaitingName, WorkerEvent::Status(free.status->0));
            free.status is Some && step.action == WorkerAction::Save(path)
        }),
        ({
            let allowed = naming::overwrite_answered(true, path).0;
            let step = worker_step(WorkerPhase::AwaitingName, WorkerEvent::Status(allowed));
            step.action == WorkerAction::Save(path)
        }),
{
}

/// Contracts see an event and a step as they are: the same kind, the same numbers, and each text as
/// it reads.
pub proof fn law_work_is_seen_as_it_is(event: WorkerEvent, step: WorkerStep)
    ensures
        match event {
            WorkerEvent::Disk(present) => event@ == WorkerEvent::<Seq<char>>::Disk(present),
            WorkerEvent::Fetched(Ok(info)) => event@ == WorkerEvent::Fetched(
                Ok::<_, DiskInfoError>(
                    ISOInfo {
                        name: info.name@,
                        block_size: info.block_size,
                        length: info.length,
                    },
                ),
            ),
            WorkerEvent::Fetched(Err(error)) => event@ == WorkerEvent::Fetched(
                Err::<ISOInfo<Seq<char>>, _>(error),
            ),
            WorkerEvent::Copied(Ok(())) => event@ == WorkerEvent::Copied(
                Ok::<(), CopyError<Seq<char>>>(()),
            ),
            WorkerEvent::Copied(Err(error)) => event@ == WorkerEvent::Copied(
                Err::<(), CopyError<Seq<char>>>(error@),
            ),
            WorkerEvent::Status(status) => event@ == WorkerEvent::Status(status@),
            WorkerEvent::Saved => event@ is Saved,
        },
        step@.phase == step.phase,
        step@.pause == step.pause,
        match step.status {
            Some(status) => step@.status == Some(status@),
            None => step@.status is None,
        },
        match step.action {
            WorkerAction::PollDisk => step@.action is PollDisk,
            WorkerAction::FetchInfo => step@.action is FetchInfo,
            WorkerAction::Copy { name, length, buffer_len } => step@.action == WorkerAction::Copy {
                name: name@,
                length,
                buffer_len,
            },
            WorkerAction::PollStatus => step@.action is PollStatus,
            WorkerAction::Save(name) => step@.action == WorkerAction::Save(name@),
        },
{
}

/// From the report to the image: where the bytes that were fetched for a disk report `info`, the
/// thread asks for a copy, and a copy with the length and the block size that it asks for, once
/// finished without a read error behind the first byte, has put into the file the first bytes of the
/// device, as many as the report tells, or all of them where the device has fewer.
pub proof fn law_reported_disk_reaches_the_image(
    lead: Seq<char>,
    told: Seq<Seq<char>>,
    tail: Seq<char>,
    info: ISOInfo<Seq<char>>,
    source: Seq<u8>,
    events: Seq<copy::CopyEvent<Seq<char>>>,
    states: Seq<copy::CopyState>,
    worlds: Seq<copy::CopyWorld>,
    i: int,
)
    requires
        isoinfo::is_report_of(lead, told, tail, info),
        info.block_size > 0,
        ({
            let bytes = encode_utf8(lead + (text::unlines(told) + tail));
            let event = WorkerEvent::Fetched(isoinfo::fetched(Some(bytes)));
            worker_step(WorkerPhase::Fetching, event).action matches WorkerAction::Copy {
                length,
                buffer_len,
                ..
            } ==> {
                &&& copy::is_copy(source, length, buffer_len, events, states, worlds)
                &&& copy::has_finished(length, buffer_len, events, states, i)
            }
        }),
        copy::ends_where_device_ends(source, events, worlds, i),
        source.len() <= info.length || forall|k: int|
            0 <= k < i ==> (#[trigger] events[k] is ReadFailed ==> states[k].position == 0),
    ensures
        ({
            let bytes = encode_utf8(lead + (text::unlines(told) + tail));
            let event = WorkerEvent::Fetched(isoinfo::fetched(Some(bytes)));
            worker_step(WorkerPhase::Fetching, event).action is Copy
        }),
        worlds[i].file == worlds[0].file + source.take(
            copy::lesser(source.len() as int, info.length as int),
        ),
{
    isoinfo::law_report_is_fetched(lead, told, tail, info);
    let event = WorkerEvent::Fetched(Ok::<_, DiskInfoError>(info));
    law_whole_disk_is_copied(WorkerPhase::Fetching, event, info);
    copy::law_finished_copy_is_the_disk(
        source,
        info.length,
        info.block_size,
        events,
        states,
        worlds,
        i,
    );
}

} // verus!
