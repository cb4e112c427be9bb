//! Learning from what `blkid` prints which drives have a disk in them.
//!
//! `blkid` prints one block device per line: its device file, a colon, and what is known of it.
use vstd::prelude::*;
use vstd::utf8::*;
use crate::status;
use crate::status::{DiskDrive, DiskInfoError, ParserResult};
use crate::text;
use crate::text::{chars_of, decode, has_prefix, index_from};

verus! {

/// Where the first entry of `s` has its colon and, behind that, its line feed: an entry is all up
/// to a colon, then all up to a line feed.
pub open spec fn entry_bounds(s: Seq<char>) -> Option<(int, int)> {
    match text::index_of(s, ':') {
        None => None,
        Some(i) => match text::index_of(s.skip(i + 1), '\n') {
            None => None,
            Some(j) => Some((i, i + 1 + j)),
        },
    }
}

/// The entries of `s`, each as what stands before and behind its colon.
pub open spec fn entries(s: Seq<char>) -> Seq<(Seq<char>, Seq<char>)>
    decreases s.len(),
{
    match entry_bounds(s) {
        Some((i, j)) => if 0 <= i < j < s.len() {
            seq![(s.take(i), s.subrange(i + 1, j))] + entries(s.skip(j + 1))
        } else {
            seq![]
        },
        None => seq![],
    }
}

/// What follows the last entry of `s`.
pub open spec fn after_entries(s: Seq<char>) -> Seq<char>
    decreases s.len(),
{
    match entry_bounds(s) {
        Some((i, j)) => if 0 <= i < j < s.len() {
            after_entries(s.skip(j + 1))
        } else {
            s
        },
        None => s,
    }
}

/// What each pair of texts reads.
pub open spec fn pairs(found: Seq<(&str, &str)>) -> Seq<(Seq<char>, Seq<char>)> {
    found.map_values(|p: (&str, &str)| (p.0@, p.1@))
}

/// Reads what `blkid` printed: the entries, and what follows the last of them. What does not read
/// as an entry ends the reading, so no text is refused.
pub fn parse_bulk_id_list<'a>(input: &'a str) -> (r: ParserResult<'a, Vec<(&'a str, &'a str)>>)
    ensures
        r is Ok,
        r->Ok_0.0@ == after_entries(input@),
        pairs(r->Ok_0.1@) == entries(input@),
{
    let s = chars_of(input);
    let mut found: Vec<(&'a str, &'a str)> = Vec::new();
    let mut from: usize = 0;
    assert(s@.skip(0) =~= s@);
    assert(pairs(found@) + entries(input@) =~= entries(input@));
    loop
        invariant
            s@ == input@,
            from <= s@.len(),
            pairs(found@) + entries(input@.skip(from as int)) == entries(input@),
            after_entries(input@.skip(from as int)) == after_entries(input@),
        decreases s@.len() - from,
    {
        let ghost rest = input@.skip(from as int);
        let ghost before = pairs(found@);
        let colon = index_from(&s, from, ':');
        let end = match colon {
            Some(i) => {
                assert(rest.skip(i - from + 1) =~= s@.skip(i + 1));
                index_from(&s, i + 1, '\n')
            },
            None => None,
        };
        match (colon, end) {
            (Some(i), Some(j)) => {
                let id = input.substring_char(from, i);
                let known = input.substring_char(i + 1, j);
                found.push((id, known));
                proof {
                    assert(entry_bounds(rest) == Some((i - from, j - from)));
                    assert(rest.take(i - from) =~= id@);
                    assert(rest.subrange(i - from + 1, j - from) =~= known@);
                    assert(rest.skip(j - from + 1) =~= input@.skip(j + 1));
                    assert(pairs(found@) =~= before.push((id@, known@)));
                    assert(before + (seq![(id@, known@)] + entries(input@.skip(j + 1)))
                        =~= before.push((id@, known@)) + entries(input@.skip(j + 1)));
                }
                from = j + 1;
            },
            _ => {
                assert(before + entries(rest) =~= before);
                return Ok((input.substring_char(from, s.len()), found));
            },
        }
    }
}

/// Whether an entry of `listed` names the device `file`, or what `file` starts with.
pub open spec fn is_listed(listed: Seq<(Seq<char>, Seq<char>)>, file: Seq<char>) -> bool {
    exists|i: int| 0 <= i < listed.len() && text::starts_with(file, #[trigger] listed[i].0)
}

/// `drive`, with a disk in it exactly where `listed` tells of one.
pub open spec fn checked_drive(
    drive: DiskDrive<Seq<char>>,
    listed: Seq<(Seq<char>, Seq<char>)>,
) -> DiskDrive<Seq<char>> {
    DiskDrive {
        file: drive.file,
        has_disk: is_listed(listed, drive.file),
        status_message: drive.status_message,
    }
}

/// What comes of running `blkid` for the given drives: its output is `None` where it could not be
/// launched.
pub open spec fn checked_drives(
    drives: Seq<DiskDrive<Seq<char>>>,
    output: Option<Seq<u8>>,
) -> Result<Seq<DiskDrive<Seq<char>>>, DiskInfoError> {
    match output {
        None => Err(DiskInfoError::LaunchFail),
        Some(bytes) => if valid_utf8(bytes) {
            let listed = entries(decode_utf8(bytes));
            Ok(drives.map_values(|drive: DiskDrive<Seq<char>>| checked_drive(drive, listed)))
        } else {
            Err(DiskInfoError::ConvertToUTF)
        },
    }
}

/// Tells whether an entry of `listed` names the device `file`, or what `file` starts with.
fn lists(listed: &Vec<(&str, &str)>, file: &str) -> (r: bool)
    ensures
        r == is_listed(pairs(listed@), file@),
{
    let mut i: usize = 0;
    while i < listed.len()
        invariant
            i <= listed@.len(),
            forall|k: int|
                0 <= k < i ==> !text::starts_with(file@, #[trigger] pairs(listed@)[k].0),
        decreases listed@.len() - i,
    {
        if has_prefix(file, listed[i].0) {
            assert(text::starts_with(file@, pairs(listed@)[i as int].0));
            return true;
        }
        i = i + 1;
    }
    false
}

/// Notes for each drive whether a disk lies in it, from the output of `blkid`. Where nothing can
/// be learned, the drives stay as they are.
pub fn check_disks_in_drives(drives: &mut Vec<DiskDrive>, output: &Option<Vec<u8>>) -> (r: Result<
    (),
    DiskInfoError,
>)
    ensures
        match r {
            Ok(()) => checked_drives(status::drive_views(old(drives)@), text::output_view(*output))
                == Ok::<_, DiskInfoError>(status::drive_views(final(drives)@)),
            Err(error) => {
                &&& checked_drives(status::drive_views(old(drives)@), text::output_view(*output))
                    == Err::<Seq<DiskDrive<Seq<char>>>, _>(error)
                &&& *final(drives) == *old(drives)
            },
        },
{
    let input = match output {
        None => {
            return Err(DiskInfoError::LaunchFail);
        },
        Some(bytes) => match decode(bytes.as_slice()) {
            None => {
                return Err(DiskInfoError::ConvertToUTF);
            },
            Some(input) => input,
        },
    };
    let listed = match parse_bulk_id_list(input) {
        Ok((_, listed)) => listed,
        Err(_) => {
            return Err(DiskInfoError::Parse);
        },
    };
    let ghost given = drives@;
    let mut i: usize = 0;
    while i < drives.len()
        invariant
            i <= drives@.len(),
            drives@.len() == given.len(),
            forall|k: int|
                0 <= k < i ==> (#[trigger] drives@[k])@ == checked_drive(
                    given[k]@,
                    pairs(listed@),
                ),
            forall|k: int| i <= k < given.len() ==> drives@[k] == given[k],
        decreases drives@.len() - i,
    {
        let has_disk = lists(&listed, drives[i].file.as_str());
        drives[i].has_disk = has_disk;
        i = i + 1;
    }
    assert(status::drive_views(drives@) =~= status::drive_views(given).map_values(
        |drive: DiskDrive<Seq<char>>| checked_drive(drive, pairs(listed@)),
    ));
    Ok(())
}

/// The given entries as `blkid` prints them.
pub open spec fn printed(listed: Seq<(Seq<char>, Seq<char>)>) -> Seq<char>
    decreases listed.len(),
{
    if listed.len() == 0 {
        seq![]
    } else {
        listed[0].0 + seq![':'] + listed[0].1 + seq!['\n'] + printed(listed.skip(1))
    }
}

/// Reading entries loses nothing: printed again, and with what follows the last of them, they make
/// up the text. No device file holds a colon, and nothing that is known of one a line feed.
pub proof fn law_entries_lose_nothing(s: Seq<char>)
    ensures
        printed(entries(s)) + after_entries(s) == s,
        forall|i: int|
            0 <= i < entries(s).len() ==> !(#[trigger] entries(s)[i]).0.contains(':')
                && !entries(s)[i].1.contains('\n'),
        entry_bounds(after_entries(s)) is None,
    decreases s.len(),
{
    text::lemma_index_of(s, ':');
    if let Some(i) = text::index_of(s, ':') {
        text::lemma_index_of(s.skip(i + 1), '\n');
    }
    match entry_bounds(s) {
        Some((i, j)) => {
            let first = (s.take(i), s.subrange(i + 1, j));
            let rest = s.skip(j + 1);
            law_entries_lose_nothing(rest);
            assert(entries(s).skip(1) =~= entries(rest));
            assert(s.skip(i + 1)[j - i - 1] == s[j]);
            let shown = first.0 + seq![':'] + first.1 + seq!['\n'];
            assert(s =~= shown + rest);
            assert(printed(entries(s)) + after_entries(s) =~= shown + (printed(entries(rest))
                + after_entries(rest)));
            assert(!first.1.contains('\n')) by {
                assert forall|k: int| 0 <= k < first.1.len() implies first.1[k] != '\n' by {
                    assert(s.skip(i + 1)[k] == first.1[k]);
                }
            }
            assert forall|k: int| 0 <= k < entries(s).len() implies !(
            #[trigger] entries(s)[k]).0.contains(':') && !entries(s)[k].1.contains('\n') by {
                if k > 0 {
                    assert(entries(s)[k] == entries(rest)[k - 1]);
                }
            }
        },
        None => {
            assert(printed(entries(s)) + after_entries(s) =~= s);
        },
    }
}

/// Entries read back as they were printed, as long as no device file holds a colon and nothing that
/// is known of one a line feed; what follows them, if no entry can be read from it, is what is
/// left.
pub proof fn law_entries_read_back(listed: Seq<(Seq<char>, Seq<char>)>, tail: Seq<char>)
    requires
        forall|i: int|
            0 <= i < listed.len() ==> !(#[trigger] listed[i]).0.contains(':')
                && !listed[i].1.contains('\n'),
        entry_bounds(tail) is None,
    ensures
        entries(printed(listed) + tail) == listed,
        after_entries(printed(listed) + tail) == tail,
    decreases listed.len(),
{
    let s = printed(listed) + tail;
    if listed.len() == 0 {
        assert(s =~= tail);
        assert(entries(s) =~= listed);
    } else {
        let (id, known) = listed[0];
        let more = listed.skip(1);
        let shown = id + seq![':'] + known + seq!['\n'];
        let i = id.len() as int;
        let j = i + 1 + known.len();
        assert(s =~= shown + (printed(more) + tail));
        assert forall|k: int| 0 <= k < i implies s[k] != ':' by {
            assert(s[k] == id[k]);
        }
        assert(s[i] == ':');
        text::lemma_index_of_is(s, ':', i);
        let behind = s.skip(i + 1);
        assert forall|k: int| 0 <= k < known.len() implies behind[k] != '\n' by {
            assert(behind[k] == known[k]);
        }
        assert(behind[known.len() as int] == '\n');
        text::lemma_index_of_is(behind, '\n', known.len() as int);
        assert(entry_bounds(s) == Some((i, j)));
        assert forall|k: int| 0 <= k < more.len() implies !(#[trigger] more[k]).0.contains(':')
            && !more[k].1.contains('\n') by {
            assert(more[k] == listed[k + 1]);
        }
        law_entries_read_back(more, tail);
        assert(s.skip(j + 1) =~= printed(more) + tail);
        assert(s.take(i) =~= id);
        assert(s.subrange(i + 1, j) =~= known);
        assert(listed =~= seq![(id, known)] + more);
    }
}

/// Checking the drives again with the same output changes nothing.
pub proof fn law_checking_again_changes_nothing(
    drives: Seq<DiskDrive<Seq<char>>>,
    output: Option<Seq<u8>>,
)
    ensures
        checked_drives(drives, output) matches Ok(checked) ==> checked_drives(checked, output)
            == Ok::<_, DiskInfoError>(checked),
{
    if let Ok(checked) = checked_drives(drives, output) {
        let listed = entries(decode_utf8(output->0));
        assert(checked.map_values(|drive: DiskDrive<Seq<char>>| checked_drive(drive, listed))
            =~= checked);
    }
}

/// A drive whose device file has an entry of its own has a disk in it.
pub proof fn law_listed_drive_has_disk(
    drive: DiskDrive<Seq<char>>,
    listed: Seq<(Seq<char>, Seq<char>)>,
    i: int,
)
    requires
        0 <= i < listed.len(),
        listed[i].0 == drive.file,
    ensures
        checked_drive(drive, listed).has_disk,
{
    assert(text::starts_with(drive.file, listed[i].0)) by {
        assert(drive.file.take(drive.file.len() as int) =~= drive.file);
    }
}

/// An entry can be read from a text exactly where a line feed stands behind a colon, and the first
/// entry reaches up to the first colon and from there to the next line feed.
pub proof fn law_entry_is_colon_and_line_feed(s: Seq<char>, i: int, j: int)
    ensures
        entry_bounds(s) is Some <==> exists|a: int, b: int|
            0 <= a < b < s.len() && #[trigger] s[a] == ':' && #[trigger] s[b] == '\n',
        entry_bounds(s) == Some((i, j)) <==> {
            &&& 0 <= i < j < s.len()
            &&& s[i] == ':'
            &&& s[j] == '\n'
            &&& !s.take(i).contains(':')
            &&& !s.subrange(i + 1, j).contains('\n')
        },
{
    text::lemma_index_of(s, ':');
    if let Some(x) = text::index_of(s, ':') {
        let behind = s.skip(x + 1);
        text::lemma_index_of(behind, '\n');
        match text::index_of(behind, '\n') {
            Some(y) => {
                assert(behind[y] == s[x + 1 + y]);
                assert(s[x] == ':' && s[x + 1 + y] == '\n');
                assert forall|k: int| 0 <= k < x implies s.take(x)[k] != ':' by {}
                let known = s.subrange(x + 1, x + 1 + y);
                assert forall|k: int| 0 <= k < y implies known[k] != '\n' by {
                    assert(behind[k] == known[k]);
                }
            },
            None => {
                assert forall|b: int| x < b < s.len() implies s[b] != '\n' by {
                    assert(behind[b - x - 1] == s[b]);
                }
            },
        }
    }
    if 0 <= i < j < s.len() && s[i] == ':' && s[j] == '\n' && !s.take(i).contains(':')
        && !s.subrange(i + 1, j).contains('\n') {
        assert forall|k: int| 0 <= k < i implies s[k] != ':' by {
            assert(s.take(i)[k] == s[k]);
        }
        text::lemma_index_of_is(s, ':', i);
        let behind = s.skip(i + 1);
        assert forall|k: int| 0 <= k < j - i - 1 implies behind[k] != '\n' by {
            assert(s.subrange(i + 1, j)[k] == behind[k]);
        }
        assert(behind[j - i - 1] == s[j]);
        text::lemma_index_of_is(behind, '\n', j - i - 1);
    }
}

/// Whether `found` is `drive` with `has_disk` noted, and nothing else of it changed.
pub open spec fn is_noted(
    drive: DiskDrive<Seq<char>>,
    found: DiskDrive<Seq<char>>,
    has_disk: bool,
) -> bool {
    &&& found.file == drive.file
    &&& found.status_message == drive.status_message
    &&& found.has_disk == has_disk
}

/// From the bytes that `blkid` prints for the given entries, and whatever follows them, a drive is
/// found to have a disk exactly where the device file of some entry, with or without something
/// behind it, is its device file. Where there is no such entry it has none, however many others
/// there are. Nothing else of a drive changes, and every drive is checked.
pub proof fn law_drive_has_disk_exactly_where_listed(
    drives: Seq<DiskDrive<Seq<char>>>,
    listed: Seq<(Seq<char>, Seq<char>)>,
    tail: Seq<char>,
    k: int,
)
    requires
        forall|i: int|
            0 <= i < listed.len() ==> !(#[trigger] listed[i]).0.contains(':')
                && !listed[i].1.contains('\n'),
        forall|a: int, b: int|
            0 <= a < b < tail.len() && #[trigger] tail[a] == ':' ==> #[trigger] tail[b] != '\n',
        0 <= k < drives.len(),
    ensures
        ({
            let output = Some(encode_utf8(printed(listed) + tail));
            &&& checked_drives(drives, output) matches Ok(checked)
            &&& checked.len() == drives.len()
            &&& is_noted(
                drives[k],
                checked[k],
                exists|i: int, rest: Seq<char>|
                    0 <= i < listed.len() && drives[k].file == #[trigger] (listed[i].0 + rest),
            )
        }),
{
    let s = printed(listed) + tail;
    let file = drives[k].file;
    law_entry_is_colon_and_line_feed(tail, 0, 0);
    law_entries_read_back(listed, tail);
    encode_utf8_valid_utf8(s);
    encode_utf8_decode_utf8(s);
    lemma_is_listed(listed, file);
}

/// An entry names a device, or what its file starts with, exactly where the file is the one of the
/// entry and something behind it.
proof fn lemma_is_listed(listed: Seq<(Seq<char>, Seq<char>)>, file: Seq<char>)
    ensures
        is_listed(listed, file) <==> exists|i: int, rest: Seq<char>|
            0 <= i < listed.len() && file == #[trigger] (listed[i].0 + rest),
{
    if is_listed(listed, file) {
        let i = choose|i: int|
            0 <= i < listed.len() && text::starts_with(file, #[trigger] listed[i].0);
        let rest = file.skip(listed[i].0.len() as int);
        text::law_labels_come_off(listed[i].0, rest, file);
        assert(file == listed[i].0 + rest);
    }
    if exists|i: int, rest: Seq<char>|
        0 <= i < listed.len() && file == #[trigger] (listed[i].0 + rest) {
        let (i, rest) = choose|i: int, rest: Seq<char>|
            0 <= i < listed.len() && file == #[trigger] (listed[i].0 + rest);
        text::law_labels_come_off(listed[i].0, rest, file);
        assert(text::starts_with(file, listed[i].0));
    }
}

/// A drive of which no entry tells is found without a disk, whatever was known of it before.
pub proof fn law_unlisted_drive_has_no_disk(
    drive: DiskDrive<Seq<char>>,
    listed: Seq<(Seq<char>, Seq<char>)>,
)
    requires
        forall|i: int, rest: Seq<char>|
            0 <= i < listed.len() ==> drive.file != #[trigger] (listed[i].0 + rest),
    ensures
        !checked_drive(drive, listed).has_disk,
{
    lemma_is_listed(listed, drive.file);
}

/// Why nothing was learned: `blkid` could not be launched, or what it printed encodes no text. No
/// text is refused.
pub proof fn law_failures_to_check_are_told_apart(
    drives: Seq<DiskDrive<Seq<char>>>,
    bytes: Seq<u8>,
    s: Seq<char>,
)
    ensures
        checked_drives(drives, None) == Err::<Seq<DiskDrive<Seq<char>>>, _>(
            DiskInfoError::LaunchFail,
        ),
        (forall|t: Seq<char>| #[trigger] encode_utf8(t) != bytes) ==> checked_drives(
            drives,
            Some(bytes),
        ) == Err::<Seq<DiskDrive<Seq<char>>>, _>(DiskInfoError::ConvertToUTF),
        checked_drives(drives, Some(encode_utf8(s))) is Ok,
{
    encode_utf8_valid_utf8(s);
    encode_utf8_decode_utf8(s);
    if valid_utf8(bytes) {
        decode_utf8_encode_utf8(bytes);
        assert(encode_utf8(decode_utf8(bytes)) == bytes);
    }
}

/// Contracts see each pair of texts in its place and as it reads.
pub proof fn law_pairs_are_seen_as_they_are(found: Seq<(&str, &str)>)
    ensures
        pairs(found).len() == found.len(),
        forall|i: int|
            0 <= i < found.len() ==> (#[trigger] pairs(found)[i]).0 == found[i].0@ && pairs(
                found,
            )[i].1 == found[i].1@,
{
}

} // verus!
