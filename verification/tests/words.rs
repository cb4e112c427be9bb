use mass_disk_archiver::menu::{drive_title, intro_text, listing_error_text, part_id, Part};
use mass_disk_archiver::number::{decimal_text, parse_usize, reads_as_number};
use mass_disk_archiver::status::{
    get_drive_status_message_string, DiskDrive, DiskInfoError, DriveStatus,
};
use mass_disk_archiver::text::{
    chars_of, decode, find_text, has_prefix, index_from, joined, same_text, skip_lines,
    split_lines, strip_label,
};
use mass_disk_archiver::worker::{default_iso_name, POLL_INTERVAL_MS};

fn tell(status: DriveStatus) -> String {
    get_drive_status_message_string(&status)
}

#[test]
fn statuses_are_told() {
    let e = "why".to_string();
    assert_eq!(tell(DriveStatus::Setup), "Setting up...");
    assert_eq!(tell(DriveStatus::NoDisk), "No Disk.");
    assert_eq!(tell(DriveStatus::Copying), "Copying...");
    assert_eq!(tell(DriveStatus::WaitingForName), "Check the \"Settings ready\" box to finish.");
    assert_eq!(tell(DriveStatus::ConfirmingName), "Check the \"Settings ready\" box to finish.");
    assert_eq!(tell(DriveStatus::Saving(e.clone())), "Saving...");
    assert_eq!(tell(DriveStatus::Done), "Done.");
    assert_eq!(tell(DriveStatus::CopyReadError(e.clone())), "Error reading disk: why");
    assert_eq!(tell(DriveStatus::CopyWriteError(e.clone())), "Error writing to output file: why");
    assert_eq!(
        tell(DriveStatus::NonFatalCopyWriteError(e.clone())),
        "Non fatal error reading disk: why"
    );
    assert_eq!(
        tell(DriveStatus::NonFatalCopyReadError(e)),
        "Non fatal error writing to output file: why"
    );
    assert_eq!(
        tell(DriveStatus::IsoFetchError),
        "Failed to fetch ISO data from disk drive. Is the isoinfo command installed?"
    );
}

#[test]
fn drives_are_introduced() {
    assert_eq!(intro_text(&vec![]), "Press <esc> at any time to quit.\nFound 0 disk drives.\n");
    let mut drives: Vec<DiskDrive> = Vec::new();
    for i in 0..11 {
        drives.push(DiskDrive {
            file: format!("/dev/sr{}", i),
            has_disk: false,
            status_message: DriveStatus::Setup,
        });
    }
    let mut expected = "Press <esc> at any time to quit.\nFound 11 disk drives.\n".to_string();
    for i in 0..11 {
        expected.push_str(&format!("/dev/sr{}\n", i));
    }
    assert_eq!(intro_text(&drives), expected);
}

#[test]
fn listing_errors_are_told() {
    assert_eq!(
        listing_error_text(DiskInfoError::LaunchFail),
        "Failed to launch lsscsi. Is it not installed?"
    );
    assert_eq!(
        listing_error_text(DiskInfoError::ConvertToUTF),
        "Failed to convert lsscsi output to UTF8 for parsing. Major bug?"
    );
    assert_eq!(
        listing_error_text(DiskInfoError::Parse),
        "Failed to parse lsscsi output. Has the application changed its formatting?"
    );
}

#[test]
fn parts_are_named_apart() {
    assert_eq!(part_id(Part::Progress, "/dev/sr0"), "progress-/dev/sr0");
    assert_eq!(part_id(Part::Name, "/dev/sr0"), "name-/dev/sr0");
    assert_eq!(part_id(Part::Ready, "/dev/sr0"), "ready-/dev/sr0");
    assert_eq!(part_id(Part::Status, "/dev/sr0"), "status-/dev/sr0");
    assert_ne!(part_id(Part::Name, "/dev/sr0"), part_id(Part::Name, "/dev/sr1"));
    assert_eq!(drive_title("/dev/sr0"), "Drive: /dev/sr0");
}

#[test]
fn numbers_read_back() {
    for n in [0, 7, 10, 99, 100, 1000, 4604203008, usize::MAX].iter() {
        assert_eq!(decimal_text(*n), n.to_string());
        assert_eq!(parse_usize(&decimal_text(*n)), Some(*n));
    }
    for text in ["", "+", "-", "-0", "1 ", " 1", "++1", "1a", "18446744073709551616", "99999999999999999999"].iter() {
        assert_eq!(parse_usize(text), None);
        assert!(text.parse::<usize>().is_err());
    }
    for text in ["0", "+5", "18446744073709551616", "+99999999999999999999"].iter() {
        assert!(reads_as_number(text));
    }
    for text in ["", "+", "-1", "1 ", "1a", "99999999999999999999x"].iter() {
        assert!(!reads_as_number(text));
    }
    assert_eq!(parse_usize("+5"), Some(5));
    assert_eq!(parse_usize("000"), Some(0));
}

#[test]
fn bytes_are_decoded() {
    assert_eq!(decode("aß€😀".as_bytes()), Some("aß€😀"));
    assert_eq!(decode(&[]), Some(""));
    for bad in [&[0x80u8][..], &[0xc3], &[0xe2, 0x82], &[0xf4, 0x90, 0x80, 0x80], &[0xed, 0xa0, 0x80], &[0xc1, 0xbf]].iter() {
        assert_eq!(decode(bad), None);
    }
}

#[test]
fn text_is_searched() {
    let s = chars_of("aßcßd");
    assert_eq!(s, vec!['a', 'ß', 'c', 'ß', 'd']);
    assert_eq!(index_from(&s, 0, 'ß'), Some(1));
    assert_eq!(index_from(&s, 2, 'ß'), Some(3));
    assert_eq!(index_from(&s, 5, 'd'), None);
    assert_eq!(find_text(&s, &chars_of("ßd")), Some(3));
    assert_eq!(find_text(&s, &chars_of("")), Some(0));
    assert_eq!(find_text(&s, &chars_of("x")), None);
    assert!(has_prefix("/dev/sr10", "/dev/sr1"));
    assert!(has_prefix("x", ""));
    assert!(!has_prefix("/dev/sr1", "/dev/sr10"));
    assert!(same_text("ab", "ab"));
    assert!(!same_text("ab", "abc"));
    assert!(!same_text("ab", "ac"));
    assert_eq!(joined("a", "b"), "ab");
    assert_eq!(strip_label("k: v", "k: "), Some("v"));
    assert_eq!(strip_label("k:", "k: "), None);
}

#[test]
fn lines_make_up_the_text() {
    for text in ["", "\n", "a", "a\nb", "a\n\nß\n", "\n\nx"].iter() {
        let (lines, rest) = split_lines(text);
        let mut again = String::new();
        for line in lines.iter() {
            assert!(!line.contains('\n'));
            again.push_str(line);
            again.push('\n');
        }
        again.push_str(rest);
        assert_eq!(&again, text);
        assert!(!rest.contains('\n'));
    }
    assert_eq!(skip_lines("a\nb\nc", 0), "a\nb\nc");
    assert_eq!(skip_lines("a\nb\nc", 1), "b\nc");
    assert_eq!(skip_lines("a\nb\nc", 9), "c");
}

#[test]
fn images_get_a_name() {
    assert_eq!(default_iso_name("A_DISK"), "A_DISK.iso");
    assert_eq!(default_iso_name(""), ".iso");
    assert_eq!(POLL_INTERVAL_MS, 5000);
}
