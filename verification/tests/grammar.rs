//! Holds the parsers to the same grammars written with parser combinators, over many texts.
use mass_disk_archiver::blkid::parse_bulk_id_list;
use mass_disk_archiver::isoinfo::{can_parse_iso_info, parse_iso_info};
use mass_disk_archiver::lsscsi::{can_parse_disk_drive_list, parse_disk_drive_list};
use nom::bytes::complete::{tag, take_until};
use nom::character::complete::{char as char_tag, multispace0};
use nom::error::VerboseError;
use nom::multi::many0;
use nom::sequence::{preceded, terminated, tuple};
use nom::IResult;

type Parsed<'a, O> = IResult<&'a str, O, VerboseError<&'a str>>;

fn line(input: &str) -> Parsed<&str> {
    terminated(take_until("\n"), char_tag('\n'))(input)
}

/// The device files of all drives, each with what stands behind it.
fn drive_nodes(input: &str) -> Parsed<Vec<String>> {
    let (rest, lines) = many0(line)(input)?;
    let mut nodes = Vec::new();
    for line in lines {
        let device: Parsed<(&str, &str, &str, &str)> = tuple((
            preceded(char_tag('['), terminated(take_until("]"), char_tag(']'))),
            multispace0,
            terminated(take_until(" "), multispace0),
            take_until("/"),
        ))(line);
        if let Ok((node, (_, _, kind, _))) = device {
            if kind == "cd/dvd" {
                nodes.push(node.to_string());
            }
        }
    }
    Ok((rest, nodes))
}

fn entries(input: &str) -> Parsed<Vec<(&str, &str)>> {
    many0(tuple((terminated(take_until(":"), char_tag(':')), line)))(input)
}

/// The rest, the name, and the two numbers as they are written.
fn report(input: &str) -> Parsed<(&str, &str, Option<&str>)> {
    let (mut input, _) = take_until("CD-ROM is")(input)?;
    let mut told = Vec::new();
    for _ in 0..13 {
        let (rest, one) = line(input)?;
        told.push(one);
        input = rest;
    }
    let (_, blocks) = line(input)?;
    let (name, _) = tag("Volume id: ")(told[2])?;
    let (size, _) = tag("Logical block size is: ")(told[12])?;
    let count: Parsed<&str> = tag("Volume size is: ")(blocks);
    Ok((input, (name, size, count.ok().map(|(count, _)| count))))
}

/// An optional plus sign, then digits alone and at least one.
fn is_number(text: &str) -> bool {
    let digits = text.strip_prefix('+').unwrap_or(text);
    !digits.is_empty() && digits.bytes().all(|b| b.is_ascii_digit())
}

/// A small generator of numbers, the same in every run.
struct Numbers(u64);

impl Numbers {
    fn below(&mut self, n: usize) -> usize {
        self.0 = self.0.wrapping_mul(6364136223846793005).wrapping_add(1442695040888963407);
        ((self.0 >> 33) as usize) % n
    }

    fn text(&mut self, pieces: &[&str], most: usize) -> String {
        let mut text = String::new();
        for _ in 0..self.below(most) {
            text.push_str(pieces[self.below(pieces.len())]);
        }
        text
    }
}

#[test]
fn drive_lists_follow_the_grammar() {
    let pieces = ["[", "]", " ", "\t", "\r", "\n", "/", "cd/dvd", "cd/dvd ", "[1] cd/dvd ", "/dev/sr0 \n", "a", "ß", "disk "];
    let mut numbers = Numbers(1);
    let mut drives_seen = 0;
    for _ in 0..4000 {
        let text = numbers.text(&pieces, 24);
        let (rest, nodes) = drive_nodes(&text).unwrap();
        let can = nodes.iter().all(|node| node.is_char_boundary(node.len() - 1));
        assert_eq!(can_parse_disk_drive_list(&text), can, "{:?}", text);
        if can {
            let (left, drives) = parse_disk_drive_list(&text).unwrap();
            assert_eq!(left, rest, "{:?}", text);
            let files: Vec<String> = drives.iter().map(|d| d.file.clone()).collect();
            let expected: Vec<String> = nodes
                .iter()
                .map(|node| {
                    let mut file = node.clone();
                    file.remove(node.len() - 1);
                    file
                })
                .collect();
            assert_eq!(files, expected, "{:?}", text);
            drives_seen += files.len();
        }
    }
    assert!(drives_seen > 100);
}

#[test]
fn entry_lists_follow_the_grammar() {
    let pieces = [":", "\n", "a", "ß", " ", "/dev/sr0: x\n"];
    let mut numbers = Numbers(2);
    for _ in 0..4000 {
        let text = numbers.text(&pieces, 20);
        let (rest, found) = entries(&text).unwrap();
        assert_eq!(parse_bulk_id_list(&text), Ok((rest, found)), "{:?}", text);
    }
}

#[test]
fn reports_follow_the_grammar() {
    let labels = ["CD-ROM is", "CD-ROM is ISO", "System id: ", "CD-ROM", "ß", "", "\n"];
    let marked = ["Volume id: ", "Volume id: X", "Volume id:", "Volume id: ß"];
    let sizes = ["Logical block size is: 2048", "Logical block size is: +7", "Logical block size is: x", "Logical block size is: 18446744073709551616", "Logical"];
    let counts = ["Volume size is: 12", "Volume size is: ", "Volume size is: 9223372036854775808", "Volume size is: 99999999999999999999", "Volume"];
    let mut numbers = Numbers(3);
    let mut read = 0;
    for _ in 0..4000 {
        let mut text = numbers.text(&labels, 3);
        text.push_str("CD-ROM is\n");
        for i in 1..16 {
            let piece = match i {
                2 => marked[numbers.below(marked.len())],
                12 => sizes[numbers.below(sizes.len())],
                13 => counts[numbers.below(counts.len())],
                _ => "line",
            };
            text.push_str(piece);
            if numbers.below(60) != 0 {
                text.push('\n');
            }
        }
        let expected = report(&text);
        let can = match &expected {
            Ok((_, (_, size, count))) => match (size.parse::<usize>(), count) {
                (Err(_), _) => !is_number(size),
                (Ok(_), None) => true,
                (Ok(size), Some(count)) => match count.parse::<usize>() {
                    Ok(count) => count.checked_mul(size).is_some(),
                    Err(_) => !is_number(count),
                },
            },
            Err(_) => true,
        };
        assert_eq!(can_parse_iso_info(&text), can, "{:?}", text);
        if can {
            match expected {
                Ok((rest, (name, size, Some(count))))
                    if size.parse::<usize>().is_ok() && count.parse::<usize>().is_ok() =>
                {
                    let (left, info) = parse_iso_info(&text).unwrap();
                    assert_eq!(left, rest, "{:?}", text);
                    assert_eq!(info.name, name);
                    assert_eq!(info.block_size, size.parse::<usize>().unwrap());
                    assert_eq!(info.length, info.block_size * count.parse::<usize>().unwrap());
                    read += 1;
                }
                _ => assert!(parse_iso_info(&text).is_err(), "{:?}", text),
            }
        }
    }
    assert!(read > 100);
}
