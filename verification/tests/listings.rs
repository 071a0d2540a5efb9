use ftp_server::listing::{
    add_file_info, fits_calendar, get_file_info, list_entries, month_text, Entry, FileInfo,
    FileTime, Metadata,
};
use ftp_server::path::FilePath;

fn path(bytes: &[u8]) -> FilePath {
    FilePath::from_bytes(bytes.to_vec())
}

fn info(size: u64, readonly: bool) -> FileInfo {
    FileInfo {
        time: FileTime { month: 10, day: 5, hour: 7, minute: 3, offset: 0 },
        size,
        readonly,
    }
}

fn line(entry: &Entry) -> String {
    let mut out = b"before;".to_vec();
    add_file_info(entry, &mut out);
    String::from_utf8(out).unwrap()
}

#[test]
fn a_file_has_its_line() {
    let entry = Entry { path: path(b"/srv/a.txt"), is_dir: false, info: Some(info(120, false)) };
    assert_eq!(
        line(&entry),
        "before;-rw-rw-rw- 1 anonymous anonymous 120 Nov 5 7:3 a.txt\r\n"
    );
}

#[test]
fn a_directory_has_its_line() {
    let entry = Entry { path: path(b"/srv/docs"), is_dir: true, info: Some(info(4096, true)) };
    assert_eq!(
        line(&entry),
        "before;dr--r--r-- 1 anonymous anonymous 4096 Nov 5 7:3 docs/\r\n"
    );
}

#[test]
fn unknown_files_have_no_line() {
    let entry = Entry { path: path(b"/srv/gone"), is_dir: false, info: None };
    assert_eq!(line(&entry), "before;");
    let entry = Entry { path: path(b"/srv/\xff"), is_dir: false, info: Some(info(1, false)) };
    assert_eq!(line(&entry), "before;");
    let entry = Entry { path: path(b"/\xff/name"), is_dir: false, info: Some(info(1, false)) };
    assert_eq!(line(&entry), "before;");
}

#[test]
fn a_listing_is_its_lines_in_order() {
    let entries = vec![
        Some(Entry { path: path(b"/b"), is_dir: false, info: Some(info(1, false)) }),
        None,
        Some(Entry { path: path(b"/c"), is_dir: false, info: None }),
        Some(Entry { path: path(b"/a"), is_dir: true, info: Some(info(2, false)) }),
    ];
    assert_eq!(
        String::from_utf8(list_entries(&entries)).unwrap(),
        "-rw-rw-rw- 1 anonymous anonymous 1 Nov 5 7:3 b\r\n\
         drw-rw-rw- 1 anonymous anonymous 2 Nov 5 7:3 a/\r\n"
    );
    assert!(list_entries(&vec![]).is_empty());
}

#[test]
fn months_have_names() {
    let names = [
        "Jan", "Feb", "Mar", "Apr", "May", "Jun", "Jul", "Aug", "Sep", "Oct", "Nov", "Dec",
    ];
    for (month, name) in names.iter().enumerate() {
        assert_eq!(month_text(month as i32), *name);
    }
}

#[test]
fn files_are_dated_in_local_time() {
    for mtime in [0i64, 951_782_400, 1_000_000_000, 1_709_164_800, 4_102_444_800, -1] {
        let meta = Metadata { mtime, size: 77, readonly: true };
        let (shown, size) = get_file_info(&meta);
        let tm = time::at(time::Timespec::new(mtime, 0));
        assert_eq!(size, 77);
        assert_eq!(shown.month, tm.tm_mon);
        assert_eq!(shown.day, tm.tm_mday);
        assert_eq!(shown.hour, tm.tm_hour);
        assert_eq!(shown.minute, tm.tm_min);
        let clock = (mtime + shown.offset as i64).rem_euclid(86_400);
        assert_eq!((shown.hour * 60 + shown.minute) as i64, clock / 60);
    }
}

#[test]
fn entries_take_what_the_file_system_says() {
    let meta = Metadata { mtime: 1_000_000_000, size: 5, readonly: true };
    let entry = Entry::new(path(b"/x"), true, Some(meta));
    let info = entry.info.unwrap();
    assert!(entry.is_dir);
    assert_eq!(info.size, 5);
    assert!(info.readonly);
    assert_eq!(info.time, get_file_info(&meta).0);
    assert_eq!(info.time.month, 8);
    assert!(Entry::new(path(b"/x"), false, None).info.is_none());
}

#[test]
fn the_calendar_ends_somewhere() {
    assert!(fits_calendar(0));
    assert!(fits_calendar(-67_768_038_400_000_000));
    assert!(!fits_calendar(-67_768_038_400_000_001));
    assert!(fits_calendar(67_768_034_000_000_000));
    assert!(!fits_calendar(i64::MAX));
    let last = Metadata { mtime: 67_768_034_000_000_000, size: 0, readonly: false };
    assert!(get_file_info(&last).0.day >= 1);
    let first = Metadata { mtime: -67_768_038_400_000_000, size: 0, readonly: false };
    assert!(get_file_info(&first).0.day >= 1);
}
