//! Learning from what `isoinfo` prints what a disk is called and how much there is to copy.
use vstd::prelude::*;
use vstd::utf8::*;
use crate::number;
use crate::number::{parse_usize, reads_as_number};
use crate::status::{DiskInfoError, ParserResult};
use crate::text;
use crate::text::{chars_of, decode, find_text, joined, skip_lines, split_lines, strip_label};

verus! {

/// What is known of a disk: the name of its volume, the size of a block and the size of all blocks
/// together, in bytes. `Text` is `String` in programs and `Seq<char>` in contracts.
#[derive(Clone, Debug, PartialEq)]
pub struct ISOInfo<Text = String> {
    pub name: Text,
    pub block_size: usize,
    pub length: usize,
}

impl View for ISOInfo<String> {
    type V = ISOInfo<Seq<char>>;

    open spec fn view(&self) -> ISOInfo<Seq<char>> {
        ISOInfo { name: self.name@, block_size: self.block_size, length: self.length }
    }
}

/// The report in `s`: all from the place where the format of the disk is told.
pub open spec fn report(s: Seq<char>) -> Option<Seq<char>> {
    match text::find(s, "CD-ROM is"@) {
        Some(i) => Some(s.skip(i)),
        None => None,
    }
}

/// The lines of the report in `s`, where it is complete. In this order they tell: the format, the
/// system, the volume, the volume set, the publisher, the data preparer, the application, the
/// copyright file, the abstract file, the bibliographic file, the size of the volume set, the
/// number of the volume in it, the size of a block, and the number of blocks.
pub open spec fn report_lines(s: Seq<char>) -> Option<Seq<Seq<char>>> {
    match report(s) {
        Some(told) => if text::lines(told).len() >= 14 {
            Some(text::lines(told))
        } else {
            None
        },
        None => None,
    }
}

/// The name of the volume, as the lines of a report tell it.
pub open spec fn volume_id(told: Seq<Seq<char>>) -> Option<Seq<char>> {
    text::behind(told[2], "Volume id: "@)
}

/// The size of a block, as the lines of a report tell it.
pub open spec fn block_size(told: Seq<Seq<char>>) -> Option<Seq<char>> {
    text::behind(told[12], "Logical block size is: "@)
}

/// The number of blocks, as the lines of a report tell it.
pub open spec fn block_count(told: Seq<Seq<char>>) -> Option<Seq<char>> {
    text::behind(told[13], "Volume size is: "@)
}

/// What the report in `s` tells of the disk, and all of it from the line with the number of blocks.
/// There is none where the report is not complete, where one of the three lines that count is not
/// labelled as it should be, and where the size of a block or the number of blocks is no number.
pub open spec fn iso_info(s: Seq<char>) -> Option<(Seq<char>, ISOInfo<Seq<char>>)> {
    match report_lines(s) {
        None => None,
        Some(told) => match (volume_id(told), block_size(told), block_count(told)) {
            (Some(name), Some(size), Some(count)) => if number::is_number(size)
                && number::is_number(count) {
                Some(
                    (
                        text::after_lines(report(s)->0, 13),
                        ISOInfo {
                            name,
                            block_size: number::number_in(size) as usize,
                            length: (number::number_in(count) * number::number_in(size)) as usize,
                        },
                    ),
                )
            } else {
                None
            },
            _ => None,
        },
    }
}

/// Whether the numbers that are read from the report in `s`, and the size of all blocks, fit in a
/// `usize`. What is no number is as good as one that fits.
pub open spec fn numbers_fit(s: Seq<char>) -> bool {
    report_lines(s) matches Some(told) ==> volume_id(told) is Some ==> (block_size(told)
        matches Some(size) ==> number::is_number(size) ==> {
        &&& number::number_in(size) <= usize::MAX
        &&& block_count(told) matches Some(count) ==> number::is_number(count) ==> {
            &&& number::number_in(count) <= usize::MAX
            &&& number::number_in(count) * number::number_in(size) <= usize::MAX
        }
    })
}

/// Finds the report in `input`: its lines, where it is complete, and all of it.
fn read_report<'a>(input: &'a str) -> (r: Option<(Vec<&'a str>, &'a str)>)
    ensures
        match r {
            Some(found) => {
                &&& report_lines(input@) == Some(text::texts(found.0@))
                &&& report(input@) == Some(found.1@)
                &&& found.0@.len() >= 14
            },
            None => report_lines(input@) is None,
        },
{
    let s = chars_of(input);
    let marker = chars_of("CD-ROM is");
    match find_text(&s, &marker) {
        Some(i) => {
            let told = input.substring_char(i, s.len());
            let (found, _) = split_lines(told);
            assert(text::texts(found@).len() == found@.len());
            if found.len() >= 14 {
                Some((found, told))
            } else {
                None
            }
        },
        None => None,
    }
}

/// Tells whether `parse_iso_info` can read `input`.
pub fn can_parse_iso_info(input: &str) -> (r: bool)
    ensures
        r == numbers_fit(input@),
{
    let found = match read_report(input) {
        Some((found, _)) => found,
        None => {
            return true;
        },
    };
    let ghost told = text::texts(found@);
    assert(told[2] == found@[2]@ && told[12] == found@[12]@ && told[13] == found@[13]@);
    if strip_label(found[2], "Volume id: ").is_none() {
        return true;
    }
    let size = match strip_label(found[12], "Logical block size is: ") {
        Some(value) => match parse_usize(value) {
            Some(n) => n,
            None => {
                return !reads_as_number(value);
            },
        },
        None => {
            return true;
        },
    };
    match strip_label(found[13], "Volume size is: ") {
        Some(value) => match parse_usize(value) {
            Some(n) => n.checked_mul(size).is_some(),
            None => !reads_as_number(value),
        },
        None => true,
    }
}

/// Reads what `isoinfo` printed: what it tells of the disk, and all of the report from the line
/// with the number of blocks.
pub fn parse_iso_info<'a>(input: &'a str) -> (r: ParserResult<'a, ISOInfo>)
    requires
        numbers_fit(input@),
    ensures
        match r {
            Ok((rest, info)) => iso_info(input@) == Some((rest@, info@)),
            Err(error) => iso_info(input@) is None && error == DiskInfoError::Parse,
        },
{
    let (found, told) = match read_report(input) {
        Some(found) => found,
        None => {
            return Err(DiskInfoError::Parse);
        },
    };
    let ghost all = text::texts(found@);
    assert(all[2] == found@[2]@ && all[12] == found@[12]@ && all[13] == found@[13]@);
    let name = match strip_label(found[2], "Volume id: ") {
        Some(name) => name,
        None => {
            return Err(DiskInfoError::Parse);
        },
    };
    let block_size: usize = match strip_label(found[12], "Logical block size is: ") {
        Some(value) => {
            if !reads_as_number(value) {
                return Err(DiskInfoError::Parse);
            }
            parse_usize(value).unwrap()
        },
        None => {
            return Err(DiskInfoError::Parse);
        },
    };
    let number_of_blocks: usize = match strip_label(found[13], "Volume size is: ") {
        Some(value) => {
            if !reads_as_number(value) {
                return Err(DiskInfoError::Parse);
            }
            parse_usize(value).unwrap()
        },
        None => {
            return Err(DiskInfoError::Parse);
        },
    };
    let info = ISOInfo {
        name: name.to_owned(),
        block_size,
        length: number_of_blocks * block_size,
    };
    Ok((skip_lines(told, 13), info))
}

/// What comes of running `isoinfo`: its output is `None` where it could not be launched.
pub open spec fn fetched(output: Option<Seq<u8>>) -> Result<ISOInfo<Seq<char>>, DiskInfoError> {
    match output {
        None => Err(DiskInfoError::LaunchFail),
        Some(bytes) => if valid_utf8(bytes) {
            match iso_info(decode_utf8(bytes)) {
                Some((_, info)) => Ok(info),
                None => Err(DiskInfoError::Parse),
            }
        } else {
            Err(DiskInfoError::ConvertToUTF)
        },
    }
}

/// Whether the output of `isoinfo` can be read: see `numbers_fit`.
pub open spec fn report_can_be_read(output: Option<Seq<u8>>) -> bool {
    output matches Some(bytes) ==> valid_utf8(bytes) ==> numbers_fit(decode_utf8(bytes))
}

/// Tells whether `fetch_iso_info` can read the output of `isoinfo`.
pub fn can_fetch_iso_info(output: &Option<Vec<u8>>) -> (r: bool)
    ensures
        r == report_can_be_read(text::output_view(*output)),
{
    match output {
        None => true,
        Some(bytes) => match decode(bytes.as_slice()) {
            None => true,
            Some(input) => can_parse_iso_info(input),
        },
    }
}

/// The arguments with which `isoinfo` tells of the disk in `drive`.
pub open spec fn report_args(drive: Seq<char>) -> Seq<Seq<char>> {
    seq!["-d"@, "-i"@ + drive]
}

/// The arguments with which `isoinfo` tells of the disk in `drive`.
pub fn iso_info_args(drive: &str) -> (r: Vec<String>)
    ensures
        r@.map_values(|arg: String| arg@) == report_args(drive@),
        r@.len() == 2,
        r@[0]@ == "-d"@,
        r@[1]@ == "-i"@ + drive@,
{
    let mut args: Vec<String> = Vec::new();
    args.push("-d".to_owned());
    args.push(joined("-i", drive));
    assert(args@.map_values(|arg: String| arg@) =~= report_args(drive@));
    args
}

/// What is known of a disk, from the output of `isoinfo`.
pub fn fetch_iso_info(output: &Option<Vec<u8>>) -> (r: Result<ISOInfo, DiskInfoError>)
    requires
        report_can_be_read(text::output_view(*output)),
    ensures
        match r {
            Ok(info) => fetched(text::output_view(*output)) == Ok::<_, DiskInfoError>(info@),
            Err(error) => fetched(text::output_view(*output)) == Err::<ISOInfo<Seq<char>>, _>(error),
        },
{
    match output {
        None => Err(DiskInfoError::LaunchFail),
        Some(bytes) => match decode(bytes.as_slice()) {
            None => Err(DiskInfoError::ConvertToUTF),
            Some(input) => match parse_iso_info(input) {
                Ok((_, info)) => Ok(info),
                Err(_) => Err(DiskInfoError::Parse),
            },
        },
    }
}

/// A complete report reads back as what it tells: behind any text in which the marker does not come
/// earlier, with a line for the format that starts with the marker and the three lines that count in
/// their places. The size of the disk is the size of a block times the number of blocks. The bytes
/// of the report are fetched as the same.
pub proof fn law_report_reads_back(
    lead: Seq<char>,
    told: Seq<Seq<char>>,
    tail: Seq<char>,
    name: Seq<char>,
    size: nat,
    count: nat,
)
    requires
        told.len() >= 14,
        forall|i: int| 0 <= i < told.len() ==> !(#[trigger] told[i]).contains('\n'),
        !tail.contains('\n'),
        text::first_text_at(lead + (text::unlines(told) + tail), "CD-ROM is"@, lead.len() as int),
        told[2] == "Volume id: "@ + name,
        told[12] == "Logical block size is: "@ + number::decimal(size),
        told[13] == "Volume size is: "@ + number::decimal(count),
        size <= usize::MAX,
        count <= usize::MAX,
        size * count <= usize::MAX,
    ensures
        numbers_fit(lead + (text::unlines(told) + tail)),
        iso_info(lead + (text::unlines(told) + tail)) == Some(
            (
                text::unlines(told.skip(13)) + tail,
                ISOInfo { name, block_size: size as usize, length: (size * count) as usize },
            ),
        ),
        report_can_be_read(Some(encode_utf8(lead + (text::unlines(told) + tail)))),
        fetched(Some(encode_utf8(lead + (text::unlines(told) + tail)))) == Ok::<_, DiskInfoError>(
            ISOInfo { name, block_size: size as usize, length: (size * count) as usize },
        ),
{
    let body = text::unlines(told) + tail;
    let s = lead + body;
    text::lemma_find_is(s, "CD-ROM is"@, lead.len() as int);
    assert(s.skip(lead.len() as int) =~= body);
    text::law_lines_read_back(told, tail);
    text::lemma_after_lines(told, tail, 13);
    lemma_behind("Volume id: "@, name);
    lemma_behind("Logical block size is: "@, number::decimal(size));
    lemma_behind("Volume size is: "@, number::decimal(count));
    number::law_number_reads_back(size);
    number::law_number_reads_back(count);
    assert(size * count == count * size) by (nonlinear_arith);
    encode_utf8_valid_utf8(s);
    encode_utf8_decode_utf8(s);
}

/// `isoinfo` is asked for a description, and of the given drive: its device file stands, whole and
/// unchanged, behind `-i`.
pub proof fn law_isoinfo_is_given_the_drive(drive: Seq<char>)
    ensures
        report_args(drive) == seq![seq!['-', 'd'], seq!['-', 'i'] + drive],
{
    reveal_strlit("-d");
    reveal_strlit("-i");
    assert("-d"@ =~= seq!['-', 'd']);
    assert("-i"@ =~= seq!['-', 'i']);
}

/// Whether `lead`, the lines `told` and `tail` make up a report that tells of `info`: the first
/// marker of the text starts the lines, there are enough of them, the third tells the name, and the
/// thirteenth and the fourteenth tell the two numbers whose product is the length.
pub open spec fn is_report_of(
    lead: Seq<char>,
    told: Seq<Seq<char>>,
    tail: Seq<char>,
    info: ISOInfo<Seq<char>>,
) -> bool {
    let s = lead + (text::unlines(told) + tail);
    let marker = "CD-ROM is"@;
    let size = "Logical block size is: "@;
    let count = "Volume size is: "@;
    &&& told.len() >= 14
    &&& forall|i: int| 0 <= i < told.len() ==> !(#[trigger] told[i]).contains('\n')
    &&& !tail.contains('\n')
    &&& lead.len() + marker.len() <= s.len()
    &&& s.subrange(lead.len() as int, (lead.len() + marker.len()) as int) == marker
    &&& forall|j: int|
        0 <= j < lead.len() ==> #[trigger] s.subrange(j, j + marker.len()) != marker
    &&& told[2] == "Volume id: "@ + info.name
    &&& told[12] == size + told[12].skip(size.len() as int)
    &&& told[13] == count + told[13].skip(count.len() as int)
    &&& number::usize_in(told[12].skip(size.len() as int)) == Some(info.block_size as nat)
    &&& number::usize_in(told[13].skip(count.len() as int)) matches Some(n)
    &&& n * info.block_size == info.length
}

/// The bytes of a complete report are fetched as exactly what it tells: the name of the volume as it
/// stands there, the size of a block, and as the length the size of a block times the number of
/// blocks. So is the text of the report parsed.
pub proof fn law_report_is_fetched(
    lead: Seq<char>,
    told: Seq<Seq<char>>,
    tail: Seq<char>,
    info: ISOInfo<Seq<char>>,
)
    requires
        is_report_of(lead, told, tail, info),
    ensures
        ({
            let s = lead + (text::unlines(told) + tail);
            &&& numbers_fit(s)
            &&& iso_info(s) == Some((text::unlines(told.skip(13)) + tail, info))
            &&& report_can_be_read(Some(encode_utf8(s)))
            &&& fetched(Some(encode_utf8(s))) == Ok::<_, DiskInfoError>(info)
        }),
{
    let body = text::unlines(told) + tail;
    let s = lead + body;
    text::law_first_text_is_found(s, "CD-ROM is"@, lead.len() as int);
    assert(s.skip(lead.len() as int) =~= body);
    text::law_lines_read_back(told, tail);
    text::lemma_after_lines(told, tail, 13);
    let size = "Logical block size is: "@;
    let count = "Volume size is: "@;
    lemma_behind("Volume id: "@, info.name);
    lemma_behind(size, told[12].skip(size.len() as int));
    lemma_behind(count, told[13].skip(count.len() as int));
    encode_utf8_valid_utf8(s);
    encode_utf8_decode_utf8(s);
}

/// What is fetched was told: the bytes encode a complete report, and the report tells of exactly
/// what was fetched.
pub proof fn law_fetched_info_was_told(bytes: Seq<u8>, info: ISOInfo<Seq<char>>)
    requires
        report_can_be_read(Some(bytes)),
        fetched(Some(bytes)) == Ok::<_, DiskInfoError>(info),
    ensures
        exists|lead: Seq<char>, told: Seq<Seq<char>>, tail: Seq<char>|
            #[trigger] is_report_of(lead, told, tail, info) && bytes == encode_utf8(
                lead + (text::unlines(told) + tail),
            ),
{
    let s = decode_utf8(bytes);
    decode_utf8_encode_utf8(bytes);
    let marker = "CD-ROM is"@;
    let i = text::find(s, marker)->0;
    text::law_first_text_is_found(s, marker, i);
    let lead = s.take(i);
    let body = s.skip(i);
    let told = text::lines(body);
    let tail = text::last_part(body);
    text::law_lines_lose_nothing(body);
    assert(s =~= lead + body);
    assert(s == lead + (text::unlines(told) + tail));
    let size = "Logical block size is: "@;
    let count = "Volume size is: "@;
    text::law_labels_come_off("Volume id: "@, info.name, told[2]);
    text::law_labels_come_off(size, told[12].skip(size.len() as int), told[12]);
    text::law_labels_come_off(count, told[13].skip(count.len() as int), told[13]);
    assert(is_report_of(lead, told, tail, info));
}

/// Why nothing was fetched: `isoinfo` could not be launched, or what it printed encodes no text, or
/// the text that it printed is no report that tells of a disk. The three are told apart.
pub proof fn law_failures_to_fetch_are_told_apart(bytes: Seq<u8>, s: Seq<char>)
    ensures
        fetched(None) == Err::<ISOInfo<Seq<char>>, _>(DiskInfoError::LaunchFail),
        (forall|t: Seq<char>| #[trigger] encode_utf8(t) != bytes) ==> fetched(Some(bytes)) == Err::<
            ISOInfo<Seq<char>>,
            _,
        >(DiskInfoError::ConvertToUTF),
        fetched(Some(encode_utf8(s))) is Ok || fetched(Some(encode_utf8(s))) == Err::<
            ISOInfo<Seq<char>>,
            _,
        >(DiskInfoError::Parse),
        report_can_be_read(None),
        (forall|t: Seq<char>| #[trigger] encode_utf8(t) != bytes) ==> report_can_be_read(
            Some(bytes),
        ),
        report_can_be_read(Some(encode_utf8(s))) <==> numbers_fit(s),
{
    encode_utf8_valid_utf8(s);
    encode_utf8_decode_utf8(s);
    if valid_utf8(bytes) {
        decode_utf8_encode_utf8(bytes);
        assert(encode_utf8(decode_utf8(bytes)) == bytes);
    }
}

/// A text is parsed exactly where the bytes that encode it are fetched, and to the same. Contracts
/// see what was parsed as it is.
pub proof fn law_fetching_is_parsing(s: Seq<char>, info: ISOInfo)
    ensures
        fetched(Some(encode_utf8(s))) is Ok <==> iso_info(s) is Some,
        iso_info(s) matches Some((_, told)) ==> fetched(Some(encode_utf8(s))) == Ok::<
            _,
            DiskInfoError,
        >(told),
        info@.name == info.name@,
        info@.block_size == info.block_size,
        info@.length == info.length,
{
    encode_utf8_valid_utf8(s);
    encode_utf8_decode_utf8(s);
}

/// A report that cannot be read holds a number that does not fit: the size of a block, the number of
/// blocks, or the size of all blocks. Nothing but the width of a number is left out.
pub proof fn law_only_width_is_left_out(s: Seq<char>)
    requires
        !numbers_fit(s),
    ensures
        ({
            let told = report_lines(s)->0;
            let size = block_size(told)->0;
            let count = block_count(told)->0;
            &&& report_lines(s) is Some
            &&& block_size(told) is Some
            &&& number::is_number(size)
            &&& number::number_in(size) > usize::MAX || {
                &&& block_count(told) is Some
                &&& number::is_number(count)
                &&& number::number_in(count) > usize::MAX || number::number_in(count)
                    * number::number_in(size) > usize::MAX
            }
        }),
{
}

/// A report in which the size of a block or the number of blocks is no number, like one in which
/// one of them is not told, is refused: the bytes that hold it give a parse error.
pub proof fn law_report_without_numbers_is_refused(bytes: Seq<u8>)
    requires
        valid_utf8(bytes),
        report_can_be_read(Some(bytes)),
        report_lines(decode_utf8(bytes)) matches Some(told) && {
            ||| block_size(told) is None
            ||| !number::is_number(block_size(told)->0)
            ||| block_count(told) is None
            ||| !number::is_number(block_count(told)->0)
        },
    ensures
        iso_info(decode_utf8(bytes)) is None,
        fetched(Some(bytes)) == Err::<ISOInfo<Seq<char>>, _>(DiskInfoError::Parse),
{
}

/// What stands behind a label is found there.
proof fn lemma_behind(label: Seq<char>, value: Seq<char>)
    ensures
        text::behind(label + value, label) == Some(value),
{
    assert((label + value).take(label.len() as int) =~= label);
    assert((label + value).skip(label.len() as int) =~= value);
}

} // verus!
