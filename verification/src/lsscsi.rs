//! Finding the disk drives of the machine in what `lsscsi` prints.
//!
//! `lsscsi` prints one device per line: an address in square brackets, the kind of the device, its
//! vendor, model and revision, and its device file with a space behind it.
use vstd::prelude::*;
use vstd::utf8::*;
use crate::status;
use crate::status::{DiskDrive, DiskInfoError, DriveStatus, ParserResult};
use crate::text;
use crate::text::{blanks_end, chars_of, decode, index_from, same_text, split_lines};

verus! {

/// The kind of the device on `line` and all of `line` from its first slash behind the kind, where
/// the line reads as a device.
pub open spec fn scsi_device(line: Seq<char>) -> Option<(Seq<char>, Seq<char>)> {
    if line.len() == 0 || line[0] != '[' {
        None
    } else {
        match text::index_of(line.skip(1), ']') {
            None => None,
            Some(i) => {
                let described = text::skip_blanks(line.skip(1).skip(i + 1));
                match text::index_of(described, ' ') {
                    None => None,
                    Some(j) => {
                        let named = text::skip_blanks(described.skip(j));
                        match text::index_of(named, '/') {
                            None => None,
                            Some(k) => Some((described.take(j), named.skip(k))),
                        }
                    },
                }
            },
        }
    }
}

/// The device file on `line` with the one character behind it, where the line tells of a drive for
/// CDs and DVDs.
pub open spec fn drive_node(line: Seq<char>) -> Option<Seq<char>> {
    match scsi_device(line) {
        Some((kind, node)) => if kind == "cd/dvd"@ {
            Some(node)
        } else {
            None
        },
        None => None,
    }
}

/// A drive of which nothing but its device file is known.
pub open spec fn new_drive(file: Seq<char>) -> DiskDrive<Seq<char>> {
    DiskDrive { file, has_disk: false, status_message: DriveStatus::Setup }
}

/// The drive that `line` tells of, as it is before anything is known of its disk.
pub open spec fn drive_on(line: Seq<char>) -> Option<DiskDrive<Seq<char>>> {
    match drive_node(line) {
        Some(node) => Some(new_drive(node.drop_last())),
        None => None,
    }
}

/// The drives that the lines of `s` tell of, in their order.
pub open spec fn drives_in(s: Seq<char>) -> Seq<DiskDrive<Seq<char>>> {
    text::lines(s).filter_map(|line: Seq<char>| drive_on(line))
}

/// Whether what stands behind each device file is a character of one byte: it is cut off by its
/// last byte.
pub open spec fn nodes_can_be_cut(s: Seq<char>) -> bool {
    forall|i: int|
        0 <= i < text::lines(s).len() ==> (drive_node(#[trigger] text::lines(s)[i]) matches Some(node)
            ==> node.last() as u32 <= 0x7f)
}

/// Reads one line: the kind of the device, and the line from its first slash behind the kind.
fn read_device<'a>(line: &'a str) -> (r: Option<(&'a str, &'a str)>)
    ensures
        match r {
            Some(device) => scsi_device(line@) == Some((device.0@, device.1@)),
            None => scsi_device(line@) is None,
        },
{
    let s = chars_of(line);
    if s.len() == 0 || s[0] != '[' {
        return None;
    }
    let close = match index_from(&s, 1, ']') {
        Some(i) => i,
        None => {
            return None;
        },
    };
    assert(s@.skip(1).skip(close - 1 + 1) =~= s@.skip(close + 1));
    let kind = blanks_end(&s, close + 1);
    let kind_end = match index_from(&s, kind, ' ') {
        Some(i) => i,
        None => {
            return None;
        },
    };
    assert(s@.skip(kind as int).skip(kind_end - kind) =~= s@.skip(kind_end as int));
    let named = blanks_end(&s, kind_end);
    match index_from(&s, named, '/') {
        Some(slash) => {
            assert(s@.skip(named as int).skip(slash - named) =~= s@.skip(slash as int));
            assert(s@.skip(kind as int).take(kind_end - kind) =~= s@.subrange(
                kind as int,
                kind_end as int,
            ));
            Some((line.substring_char(kind, kind_end), line.substring_char(slash, s.len())))
        },
        None => None,
    }
}

/// Reads one line: the device file and the character behind it, if the line tells of a drive for
/// CDs and DVDs.
fn read_drive_node<'a>(line: &'a str) -> (r: Option<&'a str>)
    ensures
        match r {
            Some(node) => drive_node(line@) == Some(node@),
            None => drive_node(line@) is None,
        },
{
    match read_device(line) {
        Some((kind, node)) => if same_text(kind, "cd/dvd") {
            Some(node)
        } else {
            None
        },
        None => None,
    }
}

/// Reads what `lsscsi` printed: the drives, and what follows the last ended line. Lines that do
/// not read as a device are passed over, so no text is refused.
pub fn parse_disk_drive_list<'a>(input: &'a str) -> (r: ParserResult<'a, Vec<DiskDrive>>)
    requires
        nodes_can_be_cut(input@),
    ensures
        r is Ok,
        r->Ok_0.0@ == text::last_part(input@),
        status::drive_views(r->Ok_0.1@) == drives_in(input@),
{
    let (found, rest) = split_lines(input);
    let mut drives: Vec<DiskDrive> = Vec::new();
    let ghost on = |line: Seq<char>| drive_on(line);
    let ghost all = text::lines(input@);
    let mut i: usize = 0;
    while i < found.len()
        invariant
            i <= found@.len(),
            all == text::texts(found@),
            on == (|line: Seq<char>| drive_on(line)),
            status::drive_views(drives@) == all.take(i as int).filter_map(on),
        decreases found@.len() - i,
    {
        let ghost before = status::drive_views(drives@);
        let line = found[i];
        assert(all[i as int] == line@);
        assert(all.take(i + 1).drop_last() =~= all.take(i as int));
        match read_drive_node(line) {
            Some(node) => {
                proof {
                    lemma_node_starts_with_slash(line@);
                }
                let len = node.unicode_len();
                let file = node.substring_char(0, len - 1).to_owned();
                assert(node@.subrange(0, len - 1) =~= node@.drop_last());
                let drive = DiskDrive {
                    file,
                    has_disk: false,
                    status_message: DriveStatus::Setup,
                };
                drives.push(drive);
                assert(status::drive_views(drives@) =~= before.push(drive@));
            },
            None => {},
        }
        i = i + 1;
    }
    assert(all.take(found@.len() as int) =~= all);
    Ok((rest, drives))
}

/// Tells whether `parse_disk_drive_list` can read `input`.
pub fn can_parse_disk_drive_list(input: &str) -> (r: bool)
    ensures
        r == nodes_can_be_cut(input@),
{
    let (found, _) = split_lines(input);
    let ghost all = text::lines(input@);
    let mut i: usize = 0;
    while i < found.len()
        invariant
            i <= found@.len(),
            all == text::lines(input@),
            all == text::texts(found@),
            forall|k: int|
                0 <= k < i ==> (drive_node(#[trigger] all[k]) matches Some(node)
                    ==> node.last() as u32 <= 0x7f),
        decreases found@.len() - i,
    {
        let line = found[i];
        assert(all[i as int] == line@);
        if let Some(node) = read_drive_node(line) {
            proof {
                lemma_node_starts_with_slash(line@);
            }
            if node.get_char(node.unicode_len() - 1) as u32 > 0x7f {
                assert(drive_node(text::lines(input@)[i as int]) == Some(node@));
                return false;
            }
        }
        i = i + 1;
    }
    true
}

/// What comes of running `lsscsi`: its output is `None` where it could not be launched.
pub open spec fn listing(output: Option<Seq<u8>>) -> Result<
    Seq<DiskDrive<Seq<char>>>,
    DiskInfoError,
> {
    match output {
        None => Err(DiskInfoError::LaunchFail),
        Some(bytes) => if valid_utf8(bytes) {
            Ok(drives_in(decode_utf8(bytes)))
        } else {
            Err(DiskInfoError::ConvertToUTF)
        },
    }
}

/// Whether the output of `lsscsi` can be read: see `nodes_can_be_cut`.
pub open spec fn listing_can_be_read(output: Option<Seq<u8>>) -> bool {
    output matches Some(bytes) ==> valid_utf8(bytes) ==> nodes_can_be_cut(decode_utf8(bytes))
}

/// Tells whether `list_disk_drives` can read the output of `lsscsi`.
pub fn can_list_disk_drives(output: &Option<Vec<u8>>) -> (r: bool)
    ensures
        r == listing_can_be_read(text::output_view(*output)),
{
    match output {
        None => true,
        Some(bytes) => match decode(bytes.as_slice()) {
            None => true,
            Some(input) => can_parse_disk_drive_list(input),
        },
    }
}

/// The drives of the machine, from the output of `lsscsi`.
pub fn list_disk_drives(output: &Option<Vec<u8>>) -> (r: Result<Vec<DiskDrive>, DiskInfoError>)
    requires
        listing_can_be_read(text::output_view(*output)),
    ensures
        match r {
            Ok(drives) => listing(text::output_view(*output)) == Ok::<_, DiskInfoError>(
                status::drive_views(drives@),
            ),
            Err(error) => listing(text::output_view(*output)) == Err::<
                Seq<DiskDrive<Seq<char>>>,
                _,
            >(error),
        },
{
    match output {
        None => Err(DiskInfoError::LaunchFail),
        Some(bytes) => match decode(bytes.as_slice()) {
            None => Err(DiskInfoError::ConvertToUTF),
            Some(input) => match parse_disk_drive_list(input) {
                Ok((_, drives)) => Ok(drives),
                Err(_) => Err(DiskInfoError::Parse),
            },
        },
    }
}

/// A device file starts at a slash.
pub proof fn lemma_node_starts_with_slash(line: Seq<char>)
    ensures
        drive_node(line) matches Some(node) ==> node.len() > 0 && node[0] == '/',
{
    text::lemma_index_of(line.skip(1), ']');
    if let Some(i) = text::index_of(line.skip(1), ']') {
        let described = text::skip_blanks(line.skip(1).skip(i + 1));
        text::lemma_index_of(described, ' ');
        if let Some(j) = text::index_of(described, ' ') {
            text::lemma_index_of(text::skip_blanks(described.skip(j)), '/');
        }
    }
}

/// Each ended line is read for itself, in order, and what follows the last of them tells of no
/// drive.
pub proof fn law_lines_are_read_one_by_one(ls: Seq<Seq<char>>, tail: Seq<char>)
    requires
        forall|i: int| 0 <= i < ls.len() ==> !(#[trigger] ls[i]).contains('\n'),
        !tail.contains('\n'),
    ensures
        drives_in(text::unlines(ls) + tail) == ls.filter_map(|line: Seq<char>| drive_on(line)),
{
    text::law_lines_read_back(ls, tail);
}

/// A line for a drive, as `lsscsi` prints it.
pub open spec fn drive_line(address: Seq<char>, model: Seq<char>, file: Seq<char>) -> Seq<char> {
    seq!['['] + address + "]    cd/dvd  "@ + model + file + seq![' ']
}

/// What `lsscsi` prints for a drive reads back as a drive with that device file and nothing known
/// of its disk, as long as the address holds no closing bracket and the model no slash.
pub proof fn law_drive_line_reads_back(address: Seq<char>, model: Seq<char>, file: Seq<char>)
    requires
        !address.contains(']'),
        !model.contains('/'),
        file.len() > 0,
        file[0] == '/',
    ensures
        drive_on(drive_line(address, model, file)) == Some(new_drive(file)),
{
    lemma_drive_line_node(address, model, file);
    assert((file + seq![' ']).drop_last() =~= file);
}

proof fn lemma_drive_line_node(address: Seq<char>, model: Seq<char>, file: Seq<char>)
    requires
        !address.contains(']'),
        !model.contains('/'),
        file.len() > 0,
        file[0] == '/',
    ensures
        drive_node(drive_line(address, model, file)) == Some(file + seq![' ']),
{
    reveal_strlit("]    cd/dvd  ");
    reveal_strlit("cd/dvd");
    let line = drive_line(address, model, file);
    let n = address.len() as int;
    assert forall|j: int| 0 <= j < n implies line.skip(1)[j] != ']' by {
        assert(line.skip(1)[j] == address[j]);
    }
    assert(line.skip(1)[n] == ']');
    text::lemma_index_of_is(line.skip(1), ']', n);
    let padded = line.skip(1).skip(n + 1);
    let described = "cd/dvd"@ + (seq![' ', ' '] + model + file + seq![' ']);
    assert(padded =~= seq![' ', ' ', ' ', ' '] + described);
    assert(padded.skip(1).skip(1).skip(1).skip(1) =~= described);
    reveal_with_fuel(text::skip_blanks, 5);
    assert(text::skip_blanks(padded) == described);
    text::lemma_index_of_is(described, ' ', 6);
    let named = described.skip(6);
    assert(named =~= seq![' ', ' '] + model + file + seq![' ']);
    let k = model.len() as int + 2;
    assert forall|j: int| 0 <= j < k implies named[j] != '/' by {
        if j >= 2 {
            assert(named[j] == model[j - 2]);
        }
    }
    assert(named[k] == file[0]);
    text::lemma_index_of_is(named, '/', k);
    text::lemma_skip_blanks_keeps(named, '/');
    text::lemma_index_of(text::skip_blanks(named), '/');
    assert(named.skip(k) =~= file + seq![' ']);
    assert(described.take(6) =~= "cd/dvd"@);
}

/// A line that tells of no drive is passed over: without it the same drives are found.
pub proof fn law_other_lines_are_ignored(
    before: Seq<Seq<char>>,
    line: Seq<char>,
    after: Seq<Seq<char>>,
    tail: Seq<char>,
)
    requires
        forall|i: int| 0 <= i < before.len() ==> !(#[trigger] before[i]).contains('\n'),
        forall|i: int| 0 <= i < after.len() ==> !(#[trigger] after[i]).contains('\n'),
        !line.contains('\n'),
        !tail.contains('\n'),
        drive_on(line) is None,
    ensures
        drives_in(text::unlines(before + seq![line] + after) + tail) == drives_in(
            text::unlines(before + after) + tail,
        ),
{
    law_lines_are_read_one_by_one(before + seq![line] + after, tail);
    law_lines_are_read_one_by_one(before + after, tail);
    lemma_filter_map_skips(before, line, after);
}

proof fn lemma_filter_map_skips(before: Seq<Seq<char>>, line: Seq<char>, after: Seq<Seq<char>>)
    requires
        drive_on(line) is None,
    ensures
        (before + seq![line] + after).filter_map(|line: Seq<char>| drive_on(line)) == (before
            + after).filter_map(|line: Seq<char>| drive_on(line)),
    decreases after.len(),
{
    let with = before + seq![line] + after;
    let without = before + after;
    if after.len() == 0 {
        assert(with.drop_last() =~= without);
    } else {
        lemma_filter_map_skips(before, line, after.drop_last());
        assert(with.drop_last() =~= before + seq![line] + after.drop_last());
        assert(without.drop_last() =~= before + after.drop_last());
    }
}

/// What `lsscsi` prints for the given drives: address, model and device file of each.
pub open spec fn drive_lines(devices: Seq<(Seq<char>, Seq<char>, Seq<char>)>) -> Seq<Seq<char>> {
    devices.map_values(|d: (Seq<char>, Seq<char>, Seq<char>)| drive_line(d.0, d.1, d.2))
}

/// What `lsscsi` prints for any number of drives reads back as those drives, in their order.
pub proof fn law_drive_lines_read_back(devices: Seq<(Seq<char>, Seq<char>, Seq<char>)>)
    requires
        forall|i: int|
            0 <= i < devices.len() ==> {
                let (address, model, file) = #[trigger] devices[i];
                &&& !address.contains(']')
                &&& !model.contains('/')
                &&& file.len() > 0
                &&& file[0] == '/'
                &&& !address.contains('\n')
                &&& !model.contains('\n')
                &&& !file.contains('\n')
            },
    ensures
        nodes_can_be_cut(text::unlines(drive_lines(devices))),
        drives_in(text::unlines(drive_lines(devices))) == devices.map_values(
            |d: (Seq<char>, Seq<char>, Seq<char>)| new_drive(d.2),
        ),
{
    let all = drive_lines(devices);
    assert forall|i: int| 0 <= i < all.len() implies !(#[trigger] all[i]).contains('\n') by {
        let (address, model, file) = devices[i];
        reveal_strlit("]    cd/dvd  ");
        let line = drive_line(address, model, file);
        let n = address.len() as int;
        let m = model.len() as int;
        assert forall|j: int| 0 <= j < line.len() implies line[j] != '\n' by {
            if 1 <= j < 1 + n {
                assert(line[j] == address[j - 1]);
            } else if 14 + n <= j < 14 + n + m {
                assert(line[j] == model[j - 14 - n]);
            } else if 14 + n + m <= j < line.len() - 1 {
                assert(line[j] == file[j - 14 - n - m]);
            }
        }
    }
    assert(text::unlines(all) + seq![] =~= text::unlines(all));
    law_lines_are_read_one_by_one(all, seq![]);
    text::law_lines_read_back(all, seq![]);
    lemma_all_drives(devices);
    assert forall|i: int| 0 <= i < all.len() implies (drive_node(#[trigger] all[i]) matches Some(
        node,
    ) ==> node.last() as u32 <= 0x7f) by {
        let (address, model, file) = devices[i];
        lemma_drive_line_node(address, model, file);
    }
}

proof fn lemma_all_drives(devices: Seq<(Seq<char>, Seq<char>, Seq<char>)>)
    requires
        forall|i: int|
            0 <= i < devices.len() ==> {
                let (address, model, file) = #[trigger] devices[i];
                &&& !address.contains(']')
                &&& !model.contains('/')
                &&& file.len() > 0
                &&& file[0] == '/'
            },
    ensures
        drive_lines(devices).filter_map(|line: Seq<char>| drive_on(line)) == devices.map_values(
            |d: (Seq<char>, Seq<char>, Seq<char>)| new_drive(d.2),
        ),
    decreases devices.len(),
{
    let all = drive_lines(devices);
    if devices.len() > 0 {
        lemma_all_drives(devices.drop_last());
        assert(all.drop_last() =~= drive_lines(devices.drop_last()));
        let (address, model, file) = devices.last();
        law_drive_line_reads_back(address, model, file);
        assert(all.last() == drive_line(address, model, file));
    }
    assert(all.filter_map(|line: Seq<char>| drive_on(line)) =~= devices.map_values(
        |d: (Seq<char>, Seq<char>, Seq<char>)| new_drive(d.2),
    ));
}

/// A line that tells of a drive, in the most general form: an address in square brackets, any blanks,
/// the kind with a space behind it, anything without a slash, and from the first slash on the device
/// file with one character behind it.
pub open spec fn general_line(
    address: Seq<char>,
    gap: Seq<char>,
    model: Seq<char>,
    node: Seq<char>,
) -> Seq<char> {
    seq!['['] + address + seq![']'] + gap + seq!['c', 'd', '/', 'd', 'v', 'd', ' '] + model + node
}

/// Whether the parts of a line that tells of a drive are what they should be.
pub open spec fn is_general(
    address: Seq<char>,
    gap: Seq<char>,
    model: Seq<char>,
    node: Seq<char>,
) -> bool {
    &&& !address.contains(']')
    &&& forall|i: int|
        0 <= i < gap.len() ==> #[trigger] gap[i] == ' ' || gap[i] == '\t' || gap[i] == '\r'
            || gap[i] == '\n'
    &&& !model.contains('/')
    &&& node.len() > 0
    &&& node[0] == '/'
}

/// Every line of the general form tells of a drive with the device file that stands in it, up to the
/// last character of the line, without a disk and being set up.
pub proof fn law_general_line_tells_of_drive(
    address: Seq<char>,
    gap: Seq<char>,
    model: Seq<char>,
    node: Seq<char>,
)
    requires
        is_general(address, gap, model, node),
    ensures
        drive_on(general_line(address, gap, model, node)) == Some(
            DiskDrive::<Seq<char>> {
                file: node.take(node.len() - 1),
                has_disk: false,
                status_message: DriveStatus::Setup,
            },
        ),
{
    reveal_strlit("cd/dvd");
    let line = general_line(address, gap, model, node);
    let n = address.len() as int;
    assert forall|j: int| 0 <= j < n implies line.skip(1)[j] != ']' by {
        assert(line.skip(1)[j] == address[j]);
    }
    assert(line.skip(1)[n] == ']');
    text::lemma_index_of_is(line.skip(1), ']', n);
    let padded = line.skip(1).skip(n + 1);
    let described = "cd/dvd"@ + (seq![' '] + model + node);
    assert(padded =~= gap + described);
    text::law_blanks_are_skipped(gap, described);
    text::lemma_index_of_is(described, ' ', 6);
    let named = described.skip(6);
    assert(named =~= seq![' '] + model + node);
    let k = model.len() as int + 1;
    assert forall|j: int| 0 <= j < k implies named[j] != '/' by {
        if j >= 1 {
            assert(named[j] == model[j - 1]);
        }
    }
    assert(named[k] == node[0]);
    text::lemma_index_of_is(named, '/', k);
    text::lemma_skip_blanks_keeps(named, '/');
    text::lemma_index_of(text::skip_blanks(named), '/');
    assert(named.skip(k) =~= node);
    assert(described.take(6) =~= "cd/dvd"@);
    assert(node.drop_last() =~= node.take(node.len() - 1));
}

/// No other line tells of a drive.
pub proof fn law_only_general_lines_tell_of_drives(line: Seq<char>)
    requires
        drive_on(line) is Some,
    ensures
        exists|address: Seq<char>, gap: Seq<char>, model: Seq<char>, node: Seq<char>|
            #[trigger] is_general(address, gap, model, node) && line == general_line(
                address,
                gap,
                model,
                node,
            ),
{
    let inner = line.skip(1);
    text::lemma_index_of(inner, ']');
    let i = text::index_of(inner, ']')->0;
    let address = inner.take(i);
    let padded = inner.skip(i + 1);
    let described = text::skip_blanks(padded);
    text::law_only_blanks_are_skipped(padded);
    let gap = padded.take(padded.len() - described.len());
    text::lemma_index_of(described, ' ');
    let j = text::index_of(described, ' ')->0;
    let spaced = described.skip(j);
    text::lemma_index_of(text::skip_blanks(spaced), '/');
    let (model, node) = lemma_slash_behind_space(spaced);
    assert(!address.contains(']')) by {
        assert forall|x: int| 0 <= x < address.len() implies address[x] != ']' by {
            assert(address[x] == inner[x]);
        }
    }
    assert forall|x: int| 0 <= x < gap.len() implies #[trigger] gap[x] == ' ' || gap[x] == '\t'
        || gap[x] == '\r' || gap[x] == '\n' by {
        assert(gap[x] == padded[x]);
    }
    assert(is_general(address, gap, model, node));
    assert(described =~= described.take(j) + spaced);
    assert(padded =~= gap + described);
    assert(inner =~= address + seq![']'] + padded);
    assert(line =~= seq!['['] + inner);
    lemma_parts_make_line(address, gap, model, node);
}

/// What starts with a space and holds a slash behind its blanks is that space, something without a
/// slash, and all from the first slash on.
proof fn lemma_slash_behind_space(spaced: Seq<char>) -> (r: (Seq<char>, Seq<char>))
    requires
        spaced.len() > 0,
        spaced[0] == ' ',
        text::skip_blanks(spaced).contains('/'),
    ensures
        spaced == seq![' '] + r.0 + r.1,
        !r.0.contains('/'),
        r.1.len() > 0,
        r.1[0] == '/',
{
    text::law_only_blanks_are_skipped(spaced);
    let n = spaced.len() - text::skip_blanks(spaced).len();
    let x = choose|x: int|
        0 <= x < text::skip_blanks(spaced).len() && text::skip_blanks(spaced)[x] == '/';
    assert(spaced[n + x] == '/');
    text::lemma_index_of(spaced, '/');
    let k = text::index_of(spaced, '/')->0;
    let model = spaced.subrange(1, k);
    let node = spaced.skip(k);
    assert forall|y: int| 0 <= y < model.len() implies model[y] != '/' by {
        assert(model[y] == spaced[y + 1]);
    }
    assert(spaced =~= seq![' '] + model + node);
    (model, node)
}

/// The parts of a line, put together in the order in which they are found.
proof fn lemma_parts_make_line(
    address: Seq<char>,
    gap: Seq<char>,
    model: Seq<char>,
    node: Seq<char>,
)
    ensures
        seq!['['] + (address + seq![']'] + (gap + ("cd/dvd"@ + (seq![' '] + model + node))))
            == general_line(address, gap, model, node),
{
    reveal_strlit("cd/dvd");
    assert(seq!['['] + (address + seq![']'] + (gap + ("cd/dvd"@ + (seq![' '] + model + node))))
        =~= general_line(address, gap, model, node));
}

/// The bytes of a listing are read line by line: each ended line that tells of a drive gives one, in
/// the order of the lines, and nothing else does. The text of the listing is parsed to the same.
pub proof fn law_every_line_is_listed(ls: Seq<Seq<char>>, tail: Seq<char>)
    requires
        forall|i: int| 0 <= i < ls.len() ==> !(#[trigger] ls[i]).contains('\n'),
        !tail.contains('\n'),
    ensures
        listing(Some(encode_utf8(text::unlines(ls) + tail))) == Ok::<_, DiskInfoError>(
            ls.filter_map(|line: Seq<char>| drive_on(line)),
        ),
        listing_can_be_read(Some(encode_utf8(text::unlines(ls) + tail))) <==> nodes_can_be_cut(
            text::unlines(ls) + tail,
        ),
        nodes_can_be_cut(text::unlines(ls) + tail) <==> forall|i: int|
            0 <= i < ls.len() && drive_on(#[trigger] ls[i]) is Some ==> ls[i].last() as u32 <= 0x7f,
{
    let s = text::unlines(ls) + tail;
    law_lines_are_read_one_by_one(ls, tail);
    text::law_lines_read_back(ls, tail);
    encode_utf8_valid_utf8(s);
    encode_utf8_decode_utf8(s);
    assert forall|i: int|
        0 <= i < ls.len() && drive_on(#[trigger] ls[i]) is Some implies drive_node(ls[i])->0.last()
        == ls[i].last() by {
        lemma_node_ends_line(ls[i]);
    }
    if nodes_can_be_cut(s) {
        assert forall|i: int|
            0 <= i < ls.len() && drive_on(#[trigger] ls[i]) is Some implies ls[i].last() as u32
            <= 0x7f by {
            assert(text::lines(s)[i] == ls[i]);
        }
    }
    if forall|i: int|
        0 <= i < ls.len() && drive_on(#[trigger] ls[i]) is Some ==> ls[i].last() as u32 <= 0x7f {
        assert forall|i: int| 0 <= i < text::lines(s).len() implies (drive_node(
            #[trigger] text::lines(s)[i],
        ) matches Some(node) ==> node.last() as u32 <= 0x7f) by {
            if drive_node(ls[i]) is Some {
                assert(drive_on(ls[i]) is Some);
            }
        }
    }
}

/// What a line ends with is what its device file, and the character behind it, ends with.
proof fn lemma_node_ends_line(line: Seq<char>)
    ensures
        drive_node(line) matches Some(node) ==> node.len() > 0 && node.last() == line.last(),
{
    lemma_node_starts_with_slash(line);
    if drive_node(line) is Some {
        let inner = line.skip(1);
        text::lemma_index_of(inner, ']');
        let i = text::index_of(inner, ']')->0;
        let padded = inner.skip(i + 1);
        let described = text::skip_blanks(padded);
        text::law_only_blanks_are_skipped(padded);
        text::lemma_index_of(described, ' ');
        let j = text::index_of(described, ' ')->0;
        text::law_only_blanks_are_skipped(described.skip(j));
        text::lemma_index_of(text::skip_blanks(described.skip(j)), '/');
    }
}

/// The bytes that `lsscsi` prints for any number of drives are listed as exactly those drives, all
/// of them and in their order, each with its device file, without a disk and being set up.
pub proof fn law_all_drives_are_listed(devices: Seq<(Seq<char>, Seq<char>, Seq<char>)>)
    requires
        forall|i: int|
            0 <= i < devices.len() ==> {
                let (address, model, file) = #[trigger] devices[i];
                &&& !address.contains(']')
                &&& !model.contains('/')
                &&& file.len() > 0
                &&& file[0] == '/'
                &&& !address.contains('\n')
                &&& !model.contains('\n')
                &&& !file.contains('\n')
            },
    ensures
        ({
            let output = Some(encode_utf8(text::unlines(drive_lines(devices))));
            &&& listing_can_be_read(output)
            &&& listing(output) matches Ok(drives)
            &&& drives.len() == devices.len()
            &&& forall|i: int|
                0 <= i < devices.len() ==> (#[trigger] drives[i]).file == devices[i].2
                    && !drives[i].has_disk && drives[i].status_message == DriveStatus::<
                    Seq<char>,
                >::Setup
        }),
{
    let s = text::unlines(drive_lines(devices));
    law_drive_lines_read_back(devices);
    encode_utf8_valid_utf8(s);
    encode_utf8_decode_utf8(s);
}

/// Why no drives were listed: `lsscsi` could not be launched, or what it printed encodes no text. No
/// text is refused.
pub proof fn law_failures_to_list_are_told_apart(bytes: Seq<u8>, s: Seq<char>)
    ensures
        listing(None) == Err::<Seq<DiskDrive<Seq<char>>>, _>(DiskInfoError::LaunchFail),
        (forall|t: Seq<char>| #[trigger] encode_utf8(t) != bytes) ==> listing(Some(bytes)) == Err::<
            Seq<DiskDrive<Seq<char>>>,
            _,
        >(DiskInfoError::ConvertToUTF),
        listing(Some(encode_utf8(s))) == Ok::<_, DiskInfoError>(drives_in(s)),
        listing_can_be_read(None),
        (forall|t: Seq<char>| #[trigger] encode_utf8(t) != bytes) ==> listing_can_be_read(
            Some(bytes),
        ),
{
    encode_utf8_valid_utf8(s);
    encode_utf8_decode_utf8(s);
    if valid_utf8(bytes) {
        decode_utf8_encode_utf8(bytes);
        assert(encode_utf8(decode_utf8(bytes)) == bytes);
    }
}

} // verus!
