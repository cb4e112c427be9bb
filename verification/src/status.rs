//! What is known of a drive, and how its state is told to the user.
use vstd::prelude::*;
use crate::text::joined;

verus! {

/// Why nothing could be learned from a helper program.
#[derive(Clone, Copy, Debug, PartialEq, Eq, Structural)]
pub enum DiskInfoError {
    /// The program could not be launched: no permission, out of memory, not installed.
    LaunchFail,
    /// The output of the program was not valid UTF-8.
    ConvertToUTF,
    /// The output of the program could not be parsed.
    Parse,
}

/// What a parser gives: what it has not read, and what it made of the rest.
pub type ParserResult<'a, O> = Result<(&'a str, O), DiskInfoError>;

/// What a drive is doing. `Text` is `String` in programs and `Seq<char>` in contracts.
#[derive(Clone, Debug, PartialEq)]
pub enum DriveStatus<Text = String> {
    Setup,
    NoDisk,
    Copying,
    WaitingForName,
    ConfirmingName,
    Saving(Text),
    Done,
    CopyWriteError(Text),
    CopyReadError(Text),
    NonFatalCopyWriteError(Text),
    NonFatalCopyReadError(Text),
    IsoFetchError,
}

impl View for DriveStatus<String> {
    type V = DriveStatus<Seq<char>>;

    open spec fn view(&self) -> DriveStatus<Seq<char>> {
        match self {
            DriveStatus::Setup => DriveStatus::Setup,
            DriveStatus::NoDisk => DriveStatus::NoDisk,
            DriveStatus::Copying => DriveStatus::Copying,
            DriveStatus::WaitingForName => DriveStatus::WaitingForName,
            DriveStatus::ConfirmingName => DriveStatus::ConfirmingName,
            DriveStatus::Saving(name) => DriveStatus::Saving(name@),
            DriveStatus::Done => DriveStatus::Done,
            DriveStatus::CopyWriteError(message) => DriveStatus::CopyWriteError(message@),
            DriveStatus::CopyReadError(message) => DriveStatus::CopyReadError(message@),
            DriveStatus::NonFatalCopyWriteError(message) => DriveStatus::NonFatalCopyWriteError(
                message@,
            ),
            DriveStatus::NonFatalCopyReadError(message) => DriveStatus::NonFatalCopyReadError(
                message@,
            ),
            DriveStatus::IsoFetchError => DriveStatus::IsoFetchError,
        }
    }
}

/// A disk drive: its device file, whether a disk lies in it, and what it is doing.
#[derive(Debug, PartialEq)]
pub struct DiskDrive<Text = String> {
    pub file: Text,
    pub has_disk: bool,
    pub status_message: DriveStatus<Text>,
}

impl View for DiskDrive<String> {
    type V = DiskDrive<Seq<char>>;

    open spec fn view(&self) -> DiskDrive<Seq<char>> {
        DiskDrive {
            file: self.file@,
            has_disk: self.has_disk,
            status_message: self.status_message@,
        }
    }
}

/// What each drive of `drives` is.
pub open spec fn drive_views(drives: Seq<DiskDrive>) -> Seq<DiskDrive<Seq<char>>> {
    drives.map_values(|d: DiskDrive| d@)
}

/// The line that tells the user what a drive is doing.
pub open spec fn status_text(status: DriveStatus<Seq<char>>) -> Seq<char> {
    match status {
        DriveStatus::Setup => "Setting up..."@,
        DriveStatus::NoDisk => "No Disk."@,
        DriveStatus::Copying => "Copying..."@,
        DriveStatus::WaitingForName => "Check the \"Settings ready\" box to finish."@,
        DriveStatus::ConfirmingName => "Check the \"Settings ready\" box to finish."@,
        DriveStatus::Saving(_) => "Saving..."@,
        DriveStatus::Done => "Done."@,
        DriveStatus::CopyReadError(message) => "Error reading disk: "@ + message,
        DriveStatus::CopyWriteError(message) => "Error writing to output file: "@ + message,
        DriveStatus::NonFatalCopyWriteError(message) => "Non fatal error reading disk: "@
            + message,
        DriveStatus::NonFatalCopyReadError(message) => "Non fatal error writing to output file: "@
            + message,
        DriveStatus::IsoFetchError =>
            "Failed to fetch ISO data from disk drive. Is the isoinfo command installed?"@,
    }
}

/// Tells what a drive is doing.
pub fn get_drive_status_message_string(status: &DriveStatus) -> (r: String)
    ensures
        r@ == status_text(status@),
{
    match status {
        DriveStatus::Setup => "Setting up...".to_owned(),
        DriveStatus::NoDisk => "No Disk.".to_owned(),
        DriveStatus::Copying => "Copying...".to_owned(),
        DriveStatus::WaitingForName | DriveStatus::ConfirmingName =>
            "Check the \"Settings ready\" box to finish.".to_owned(),
        DriveStatus::Saving(_) => "Saving...".to_owned(),
        DriveStatus::Done => "Done.".to_owned(),
        DriveStatus::CopyReadError(message) => joined("Error reading disk: ", message),
        DriveStatus::CopyWriteError(message) => joined("Error writing to output file: ", message),
        DriveStatus::NonFatalCopyWriteError(message) =>
            joined("Non fatal error reading disk: ", message),
        DriveStatus::NonFatalCopyReadError(message) =>
            joined("Non fatal error writing to output file: ", message),
        DriveStatus::IsoFetchError =>
            "Failed to fetch ISO data from disk drive. Is the isoinfo command installed?".to_owned(),
    }
}

/// What is told of an error ends with its message, whatever that is, and starts with what is told of
/// errors of its kind. What an image is to be called is not told, and a drive that waits for a name
/// is told of as one whose name is to be confirmed.
pub proof fn law_messages_are_told(message: Seq<char>)
    ensures
        ({
            let none = Seq::<char>::empty();
            &&& status_text(DriveStatus::CopyReadError(message)) == status_text(
                DriveStatus::CopyReadError(none),
            ) + message
            &&& status_text(DriveStatus::CopyWriteError(message)) == status_text(
                DriveStatus::CopyWriteError(none),
            ) + message
            &&& status_text(DriveStatus::NonFatalCopyReadError(message)) == status_text(
                DriveStatus::NonFatalCopyReadError(none),
            ) + message
            &&& status_text(DriveStatus::NonFatalCopyWriteError(message)) == status_text(
                DriveStatus::NonFatalCopyWriteError(none),
            ) + message
            &&& status_text(DriveStatus::Saving(message)) == status_text(DriveStatus::Saving(none))
            &&& status_text(DriveStatus::WaitingForName) == status_text(DriveStatus::ConfirmingName)
        }),
{
    let none = Seq::<char>::empty();
    assert("Error reading disk: "@ + none =~= "Error reading disk: "@);
    assert("Error writing to output file: "@ + none =~= "Error writing to output file: "@);
    assert("Non fatal error reading disk: "@ + none =~= "Non fatal error reading disk: "@);
    assert("Non fatal error writing to output file: "@ + none
        =~= "Non fatal error writing to output file: "@);
}

/// Contracts see each drive in its place: its device file, whether it has a disk, and what it is
/// doing, with each text as it reads.
pub proof fn law_drives_are_seen_as_they_are(drives: Seq<DiskDrive>, status: DriveStatus)
    ensures
        drive_views(drives).len() == drives.len(),
        forall|i: int|
            0 <= i < drives.len() ==> {
                let seen = #[trigger] drive_views(drives)[i];
                &&& seen.file == drives[i].file@
                &&& seen.has_disk == drives[i].has_disk
                &&& seen.status_message == drives[i].status_message@
            },
        match status {
            DriveStatus::Setup => status@ is Setup,
            DriveStatus::NoDisk => status@ is NoDisk,
            DriveStatus::Copying => status@ is Copying,
            DriveStatus::WaitingForName => status@ is WaitingForName,
            DriveStatus::ConfirmingName => status@ is ConfirmingName,
            DriveStatus::Saving(name) => status@ == DriveStatus::Saving(name@),
            DriveStatus::Done => status@ is Done,
            DriveStatus::CopyWriteError(message) => status@ == DriveStatus::CopyWriteError(message@),
            DriveStatus::CopyReadError(message) => status@ == DriveStatus::CopyReadError(message@),
            DriveStatus::NonFatalCopyWriteError(message) => status@
                == DriveStatus::NonFatalCopyWriteError(message@),
            DriveStatus::NonFatalCopyReadError(message) => status@
                == DriveStatus::NonFatalCopyReadError(message@),
            DriveStatus::IsoFetchError => status@ is IsoFetchError,
        },
{
}

} // verus!
