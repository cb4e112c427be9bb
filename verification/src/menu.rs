//! The words on the screen and the names of its parts.
use vstd::prelude::*;
use crate::number;
use crate::number::decimal_text;
use crate::status;
use crate::status::{DiskDrive, DiskInfoError};
use crate::text;
use crate::text::joined;

verus! {

/// A part of the screen that belongs to one drive.
#[derive(Clone, Copy, Debug, PartialEq, Eq, Structural)]
pub enum Part {
    /// The bar that shows how much has been copied.
    Progress,
    /// The box for the name of the image.
    Name,
    /// The box to be checked when the settings are finished.
    Ready,
    /// The line that tells what the drive is doing.
    Status,
}

/// What the name of `part` starts with.
pub open spec fn part_prefix(part: Part) -> Seq<char> {
    match part {
        Part::Progress => "progress-"@,
        Part::Name => "name-"@,
        Part::Ready => "ready-"@,
        Part::Status => "status-"@,
    }
}

/// The name of `part` of the drive with the device file `file`.
pub open spec fn part_name(part: Part, file: Seq<char>) -> Seq<char> {
    part_prefix(part) + file
}

/// Names `part` of the drive with the device file `file`.
pub fn part_id(part: Part, file: &str) -> (r: String)
    ensures
        r@ == part_name(part, file@),
{
    match part {
        Part::Progress => joined("progress-", file),
        Part::Name => joined("name-", file),
        Part::Ready => joined("ready-", file),
        Part::Status => joined("status-", file),
    }
}

/// The title over the parts of the drive with the device file `file`.
pub open spec fn title(file: Seq<char>) -> Seq<char> {
    "Drive: "@ + file
}

/// The title over the parts of the drive with the device file `file`.
pub fn drive_title(file: &str) -> (r: String)
    ensures
        r@ == title(file@),
        r@ == "Drive: "@ + file@,
{
    joined("Drive: ", file)
}

/// The device files of `drives`, each with a line feed behind it.
pub open spec fn file_lines(drives: Seq<DiskDrive<Seq<char>>>) -> Seq<char>
    decreases drives.len(),
{
    if drives.len() == 0 {
        seq![]
    } else {
        file_lines(drives.drop_last()) + drives.last().file + "\n"@
    }
}

/// What the user is told first, when `drives` were found.
pub open spec fn intro(drives: Seq<DiskDrive<Seq<char>>>) -> Seq<char> {
    "Press <esc> at any time to quit.\nFound "@ + number::decimal(drives.len())
        + " disk drives.\n"@ + file_lines(drives)
}

/// Tells which drives were found.
pub fn intro_text(drives: &Vec<DiskDrive>) -> (r: String)
    ensures
        r@ == intro(status::drive_views(drives@)),
{
    let count = decimal_text(drives.len());
    let found = joined("Press <esc> at any time to quit.\nFound ", count.as_str());
    let ghost all = status::drive_views(drives@);
    let mut r = joined(found.as_str(), " disk drives.\n");
    let ghost head = r@;
    assert(head + file_lines(all.take(0)) =~= head);
    let mut i: usize = 0;
    while i < drives.len()
        invariant
            i <= drives@.len(),
            all == status::drive_views(drives@),
            r@ == head + file_lines(all.take(i as int)),
        decreases drives@.len() - i,
    {
        let line = joined(drives[i].file.as_str(), "\n");
        r = joined(r.as_str(), line.as_str());
        assert(all.take(i + 1).drop_last() =~= all.take(i as int));
        assert(r@ =~= head + file_lines(all.take(i + 1)));
        i = i + 1;
    }
    assert(all.take(drives@.len() as int) =~= all);
    r
}

/// What the user is told when the drives could not be listed.
pub open spec fn listing_error(error: DiskInfoError) -> Seq<char> {
    match error {
        DiskInfoError::LaunchFail => "Failed to launch lsscsi. Is it not installed?"@,
        DiskInfoError::ConvertToUTF =>
            "Failed to convert lsscsi output to UTF8 for parsing. Major bug?"@,
        DiskInfoError::Parse =>
            "Failed to parse lsscsi output. Has the application changed its formatting?"@,
    }
}

/// Tells why the drives could not be listed.
pub fn listing_error_text(error: DiskInfoError) -> (r: &'static str)
    ensures
        r@ == listing_error(error),
{
    match error {
        DiskInfoError::LaunchFail => "Failed to launch lsscsi. Is it not installed?",
        DiskInfoError::ConvertToUTF =>
            "Failed to convert lsscsi output to UTF8 for parsing. Major bug?",
        DiskInfoError::Parse =>
            "Failed to parse lsscsi output. Has the application changed its formatting?",
    }
}

/// No two parts share a name, be they of one drive or of two with different device files.
pub proof fn law_part_names_differ(a: Part, file_a: Seq<char>, b: Part, file_b: Seq<char>)
    requires
        part_name(a, file_a) == part_name(b, file_b),
    ensures
        a == b,
        file_a == file_b,
{
    reveal_strlit("progress-");
    reveal_strlit("name-");
    reveal_strlit("ready-");
    reveal_strlit("status-");
    let x = part_name(a, file_a);
    let y = part_name(b, file_b);
    assert(x[0] == part_prefix(a)[0]);
    assert(y[0] == part_prefix(b)[0]);
    let n = part_prefix(a).len() as int;
    assert(x.skip(n) =~= file_a);
    assert(y.skip(n) =~= file_b);
}

/// The name of a part and the title of a drive end with its device file, whatever that is, and start
/// as those of any other drive do.
pub proof fn law_drives_are_named_by_their_files(part: Part, file: Seq<char>)
    ensures
        part_name(part, file) == part_name(part, seq![]) + file,
        title(file) == title(seq![]) + file,
{
    assert(part_name(part, seq![]) =~= part_prefix(part));
    assert(title(seq![]) =~= "Drive: "@);
}

/// Each drive that was found is introduced, on a line of its own and in its place, below a line that
/// tells how many there are.
pub proof fn law_every_drive_is_introduced(drives: Seq<DiskDrive<Seq<char>>>)
    ensures
        intro(drives) == "Press <esc> at any time to quit.\nFound "@ + number::decimal(drives.len())
            + " disk drives.\n"@ + text::unlines(
            drives.map_values(|drive: DiskDrive<Seq<char>>| drive.file),
        ),
{
    lemma_file_lines(drives);
}

proof fn lemma_file_lines(drives: Seq<DiskDrive<Seq<char>>>)
    ensures
        file_lines(drives) == text::unlines(
            drives.map_values(|drive: DiskDrive<Seq<char>>| drive.file),
        ),
    decreases drives.len(),
{
    let files = drives.map_values(|drive: DiskDrive<Seq<char>>| drive.file);
    if drives.len() > 0 {
        lemma_file_lines(drives.drop_last());
        let before = drives.drop_last().map_values(|drive: DiskDrive<Seq<char>>| drive.file);
        assert(files =~= before.push(drives.last().file));
        text::lemma_line_more(before, drives.last().file);
        reveal_strlit("\n");
        assert(file_lines(drives) =~= text::unlines(before) + drives.last().file.push('\n'));
    }
}

/// No two reasons for which the drives could not be listed are told in the same words.
pub proof fn law_listing_errors_are_told_apart(a: DiskInfoError, b: DiskInfoError)
    requires
        listing_error(a) == listing_error(b),
    ensures
        a == b,
{
    reveal_strlit("Failed to launch lsscsi. Is it not installed?");
    reveal_strlit("Failed to convert lsscsi output to UTF8 for parsing. Major bug?");
    reveal_strlit("Failed to parse lsscsi output. Has the application changed its formatting?");
    assert(listing_error(DiskInfoError::LaunchFail)[10] == 'l');
    assert(listing_error(DiskInfoError::ConvertToUTF)[10] == 'c');
    assert(listing_error(DiskInfoError::Parse)[10] == 'p');
}

} // verus!
