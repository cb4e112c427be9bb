use mass_disk_archiver::blkid::{check_disks_in_drives, parse_bulk_id_list};
use mass_disk_archiver::isoinfo::{
    can_fetch_iso_info, can_parse_iso_info, fetch_iso_info, iso_info_args, parse_iso_info, ISOInfo,
};
use mass_disk_archiver::lsscsi::{
    can_list_disk_drives, can_parse_disk_drive_list, list_disk_drives, parse_disk_drive_list,
};
use mass_disk_archiver::status::{DiskDrive, DiskInfoError, DriveStatus};

const LSSCSI: &str = "[0:0:0:0]    disk    ATA      Samsung SSD 850  2B6Q  /dev/sda \n\
[2:0:0:0]    cd/dvd  HL-DT-ST DVDRAM GH24NSC0  LK00  /dev/sr0 \n\
[3:0:0:0]    cd/dvd  ASUS     DRW-24F1ST   a   1.00  /dev/sr1 \n";

const BLKID: &str = "/dev/sda1: UUID=\"c7d6\" TYPE=\"ext4\"\n\
/dev/sr1: UUID=\"2012-01-01-00-00-00-00\" LABEL=\"A_DISK\" TYPE=\"udf\"\n";

const ISOINFO: &str = "Setting input-charset to 'UTF-8' from locale.\n\
CD-ROM is in ISO 9660 format\n\
System id: \n\
Volume id: A_DISK\n\
Volume set id: SET\n\
Publisher id: \n\
Data preparer id: \n\
Application id: MAKER\n\
Copyright File id: \n\
Abstract File id: \n\
Bibliographic File id: \n\
Volume set size is: 1\n\
Volume set sequence number is: 1\n\
Logical block size is: 2048\n\
Volume size is: 2248146\n\
NO Joliet present\n";

fn drive(file: &str, has_disk: bool, status_message: DriveStatus) -> DiskDrive {
    DiskDrive { file: file.to_string(), has_disk, status_message }
}

fn files(drives: &Vec<DiskDrive>) -> Vec<String> {
    drives.iter().map(|d| d.file.clone()).collect()
}

fn bytes(text: &str) -> Option<Vec<u8>> {
    Some(text.as_bytes().to_vec())
}

#[test]
fn drives_are_listed() {
    let (rest, drives) = parse_disk_drive_list(LSSCSI).unwrap();
    assert_eq!(rest, "");
    assert_eq!(
        drives,
        vec![
            drive("/dev/sr0", false, DriveStatus::Setup),
            drive("/dev/sr1", false, DriveStatus::Setup),
        ]
    );
}

#[test]
fn empty_listing_has_no_drives() {
    let (rest, drives) = parse_disk_drive_list("").unwrap();
    assert_eq!(rest, "");
    assert!(drives.is_empty());
}

#[test]
fn unended_line_is_left_over() {
    let (rest, drives) = parse_disk_drive_list("\n[1] cd/dvd X /dev/sr0 \n[2] cd/dvd Y /dev/sr1 ").unwrap();
    assert_eq!(rest, "[2] cd/dvd Y /dev/sr1 ");
    assert_eq!(files(&drives), vec!["/dev/sr0"]);
}

#[test]
fn lines_that_are_no_device_are_passed_over() {
    let text = "junk\n[no bracket\n[1]cd/dvd\n[1] cd/dvd no device \n[1]\t\r cd/dvd \t/x \n[1] cd/dv /y \n";
    let (rest, drives) = parse_disk_drive_list(text).unwrap();
    assert_eq!(rest, "");
    assert_eq!(files(&drives), vec!["/x"]);
}

#[test]
fn file_starts_at_first_slash_and_loses_one_character() {
    let (_, drives) = parse_disk_drive_list("[1] cd/dvd A/B /dev/sr0 \n[1] cd/dvd /\n").unwrap();
    assert_eq!(files(&drives), vec!["/B /dev/sr0", ""]);
}

#[test]
fn names_beyond_ascii_are_kept() {
    let (_, drives) = parse_disk_drive_list("[é] cd/dvd Lüfter /dev/ß0 \n").unwrap();
    assert_eq!(files(&drives), vec!["/dev/ß0"]);
}

#[test]
fn a_character_of_many_bytes_cannot_be_cut() {
    assert!(!can_parse_disk_drive_list("[1] cd/dvd X /dev/srß\n"));
    assert!(!can_list_disk_drives(&bytes("[1] cd/dvd X /dev/srß\n")));
    assert!(can_parse_disk_drive_list("[1] disk X /dev/srß\n"));
    assert!(can_parse_disk_drive_list("[1] cd/dvd X /dev/srß"));
    assert!(can_parse_disk_drive_list("[1] cd/dvd X /dev/ßr\n"));
    assert!(can_parse_disk_drive_list(LSSCSI));
    assert!(can_list_disk_drives(&bytes(LSSCSI)));
    assert!(can_list_disk_drives(&None));
    assert!(can_list_disk_drives(&Some(vec![0xff])));
}

#[test]
fn listing_tells_its_errors() {
    assert_eq!(list_disk_drives(&None), Err(DiskInfoError::LaunchFail));
    assert_eq!(list_disk_drives(&Some(vec![0x5b, 0xff, 0x0a])), Err(DiskInfoError::ConvertToUTF));
    assert_eq!(list_disk_drives(&Some(vec![0xed, 0xa0, 0x80])), Err(DiskInfoError::ConvertToUTF));
    assert_eq!(list_disk_drives(&Some(vec![0xc0, 0x80])), Err(DiskInfoError::ConvertToUTF));
    assert_eq!(files(&list_disk_drives(&bytes(LSSCSI)).unwrap()), vec!["/dev/sr0", "/dev/sr1"]);
}

#[test]
fn entries_are_read() {
    let (rest, entries) = parse_bulk_id_list(BLKID).unwrap();
    assert_eq!(rest, "");
    assert_eq!(
        entries,
        vec![
            ("/dev/sda1", " UUID=\"c7d6\" TYPE=\"ext4\""),
            ("/dev/sr1", " UUID=\"2012-01-01-00-00-00-00\" LABEL=\"A_DISK\" TYPE=\"udf\""),
        ]
    );
}

#[test]
fn entries_may_run_over_lines() {
    let (rest, entries) = parse_bulk_id_list("no colon\n/dev/sr0: x\n:\nab: c").unwrap();
    assert_eq!(rest, "ab: c");
    assert_eq!(entries, vec![("no colon\n/dev/sr0", " x"), ("", "")]);
}

#[test]
fn disks_are_noted() {
    let mut drives = vec![
        drive("/dev/sr0", true, DriveStatus::Done),
        drive("/dev/sr1", false, DriveStatus::NoDisk),
        drive("/dev/sr10", false, DriveStatus::Saving("x".to_string())),
    ];
    assert_eq!(check_disks_in_drives(&mut drives, &bytes(BLKID)), Ok(()));
    let expected = vec![
        drive("/dev/sr0", false, DriveStatus::Done),
        drive("/dev/sr1", true, DriveStatus::NoDisk),
        drive("/dev/sr10", true, DriveStatus::Saving("x".to_string())),
    ];
    assert_eq!(drives, expected);
    assert_eq!(check_disks_in_drives(&mut drives, &bytes(BLKID)), Ok(()));
    assert_eq!(drives, expected);
}

#[test]
fn failed_check_changes_nothing() {
    let mut drives = vec![drive("/dev/sr0", true, DriveStatus::Done)];
    assert_eq!(check_disks_in_drives(&mut drives, &None), Err(DiskInfoError::LaunchFail));
    assert_eq!(
        check_disks_in_drives(&mut drives, &Some(vec![0x80])),
        Err(DiskInfoError::ConvertToUTF)
    );
    assert_eq!(drives, vec![drive("/dev/sr0", true, DriveStatus::Done)]);
    assert_eq!(check_disks_in_drives(&mut drives, &bytes("")), Ok(()));
    assert_eq!(drives, vec![drive("/dev/sr0", false, DriveStatus::Done)]);
    assert_eq!(check_disks_in_drives(&mut drives, &bytes(": everything\n")), Ok(()));
    assert_eq!(drives, vec![drive("/dev/sr0", true, DriveStatus::Done)]);
}

#[test]
fn report_is_read() {
    let (rest, info) = parse_iso_info(ISOINFO).unwrap();
    assert_eq!(rest, "Volume size is: 2248146\nNO Joliet present\n");
    assert_eq!(
        info,
        ISOInfo { name: "A_DISK".to_string(), block_size: 2048, length: 4604203008 }
    );
    assert_eq!(fetch_iso_info(&bytes(ISOINFO)), Ok(info));
}

#[test]
fn report_that_is_not_complete_is_refused() {
    assert_eq!(parse_iso_info(""), Err(DiskInfoError::Parse));
    assert_eq!(parse_iso_info("CD-ROM is in ISO 9660 format\n"), Err(DiskInfoError::Parse));
    let unended = ISOINFO.split("\nNO Joliet").next().unwrap();
    assert_eq!(parse_iso_info(unended), Err(DiskInfoError::Parse));
    assert_eq!(fetch_iso_info(&bytes(unended)), Err(DiskInfoError::Parse));
    for label in ["CD-ROM is", "Volume id: ", "Logical block size is: ", "Volume size is: "].iter() {
        let text = ISOINFO.replace(label, "Something else: ");
        assert!(can_parse_iso_info(&text));
        assert_eq!(parse_iso_info(&text), Err(DiskInfoError::Parse));
    }
}

#[test]
fn fetching_tells_its_errors() {
    assert_eq!(fetch_iso_info(&None), Err(DiskInfoError::LaunchFail));
    assert_eq!(fetch_iso_info(&Some(vec![0xf5, 0x80])), Err(DiskInfoError::ConvertToUTF));
    assert_eq!(fetch_iso_info(&bytes("nothing")), Err(DiskInfoError::Parse));
}

#[test]
fn numbers_of_a_report_must_fit() {
    assert!(can_parse_iso_info(ISOINFO));
    assert!(can_fetch_iso_info(&bytes(ISOINFO)));
    assert!(can_fetch_iso_info(&None));
    assert!(can_fetch_iso_info(&Some(vec![0xff])));
    for number in ["18446744073709551616", "+99999999999999999999", "00018446744073709551616"].iter() {
        assert!(!can_parse_iso_info(&ISOINFO.replace("is: 2048", &format!("is: {}", number))));
        assert!(!can_parse_iso_info(&ISOINFO.replace("is: 2248146", &format!("is: {}", number))));
        assert!(!can_fetch_iso_info(&bytes(&ISOINFO.replace("is: 2248146", &format!("is: {}", number)))));
    }
    assert!(!can_parse_iso_info(&ISOINFO.replace("is: 2248146", "is: 18446744073709551615")));
    let wide = ISOINFO.replace("is: 2048", "is: 18446744073709551616");
    assert!(!can_parse_iso_info(&wide.replace("Volume size is: ", "Volume: ")));
    let unread = wide.replace("Volume id: ", "Volume: ");
    assert!(can_parse_iso_info(&unread));
    assert_eq!(parse_iso_info(&unread), Err(DiskInfoError::Parse));
}

#[test]
fn report_without_numbers_is_refused() {
    for number in ["", "+", "abc", "-1", "2048 ", "0x800", "++1", "18446744073709551616x", "２"].iter() {
        for field in ["is: 2048", "is: 2248146"].iter() {
            let text = ISOINFO.replace(field, &format!("is: {}", number));
            assert!(can_parse_iso_info(&text));
            assert!(can_fetch_iso_info(&bytes(&text)));
            assert_eq!(parse_iso_info(&text), Err(DiskInfoError::Parse));
            assert_eq!(fetch_iso_info(&bytes(&text)), Err(DiskInfoError::Parse));
        }
    }
    let no_size = ISOINFO.replace("is: 2048", "is: abc").replace("is: 2248146", "is: 18446744073709551616");
    assert!(can_parse_iso_info(&no_size));
    assert_eq!(parse_iso_info(&no_size), Err(DiskInfoError::Parse));
}

#[test]
fn numbers_may_have_a_sign_and_zeros() {
    let text = ISOINFO.replace("is: 2048", "is: +0000000000000000000000000512").replace("is: 2248146", "is: 0");
    let (_, info) = parse_iso_info(&text).unwrap();
    assert_eq!(info.block_size, 512);
    assert_eq!(info.length, 0);
    let most = ISOINFO.replace("is: 2048", "is: 1").replace("is: 2248146", &format!("is: {}", usize::MAX));
    assert_eq!(parse_iso_info(&most).unwrap().1.length, usize::MAX);
}

#[test]
fn isoinfo_is_asked_for_the_drive() {
    assert_eq!(iso_info_args("/dev/sr0"), vec!["-d", "-i/dev/sr0"]);
}
