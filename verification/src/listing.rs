//! The lines of a directory listing.

use vstd::prelude::*;
use vstd::utf8::{encode_utf8, valid_utf8};

use crate::path::{copy_range, last_start, FilePath};
use crate::text::{decimal, digits, read_text, signed_decimal, signed_digits, text_bytes};

verus! {

/// A moment in local time, as far as a listing shows it.
#[derive(Clone, Copy, Debug, PartialEq, Eq, Structural)]
pub struct FileTime {
    /// Months since January.
    pub month: i32,
    /// The day of the month.
    pub day: i32,
    pub hour: i32,
    pub minute: i32,
    /// How many seconds the local clock is ahead of UTC.
    pub offset: i32,
}

/// What the file system says of a file.
#[derive(Clone, Copy, Debug)]
pub struct Metadata {
    /// When it was last written, in seconds since 1970 began.
    pub mtime: i64,
    pub size: u64,
    pub readonly: bool,
}

/// What a listing says of a file.
#[derive(Clone, Copy, Debug, PartialEq, Eq, Structural)]
pub struct FileInfo {
    pub time: FileTime,
    pub size: u64,
    pub readonly: bool,
}

/// A file to list. Without `info` nothing could be learned of it.
pub struct Entry {
    pub path: FilePath,
    pub is_dir: bool,
    pub info: Option<FileInfo>,
}

/// What an [`Entry`] stands for.
pub struct EntryView {
    pub path: Seq<u8>,
    pub is_dir: bool,
    pub info: Option<FileInfo>,
}

impl View for Entry {
    type V = EntryView;

    open spec fn view(&self) -> EntryView {
        EntryView { path: self.path@, is_dir: self.is_dir, info: self.info }
    }
}

/// Whether a year of the Gregorian calendar has a leap day.
pub open spec fn is_leap(year: int) -> bool {
    year % 4 == 0 && (year % 100 != 0 || year % 400 == 0)
}

/// How many days a month has.
pub open spec fn month_len(year: int, month: int) -> int {
    if month == 1 {
        if is_leap(year) {
            29
        } else {
            28
        }
    } else if month == 3 || month == 5 || month == 8 || month == 10 {
        30
    } else {
        31
    }
}

/// How many days of a year lie before a month.
pub open spec fn days_before_month(year: int, month: int) -> int
    decreases month,
{
    if month <= 0 {
        0
    } else {
        days_before_month(year, month - 1) + month_len(year, month - 1)
    }
}

/// How many days lie between the start of 1970 and the start of a year.
pub open spec fn days_before_year(year: int) -> int {
    let past = year - 1;
    365 * past + past / 4 - past / 100 + past / 400 - 719_162
}

/// Whether `time` shows the moment that lies `seconds` behind the start of
/// 1970 on a clock that follows the Gregorian calendar.
pub open spec fn shows(time: FileTime, seconds: int) -> bool {
    &&& exists|year: int|
        {
            &&& 1 <= time.day <= month_len(year, time.month as int)
            &&& #[trigger] days_before_year(year) + days_before_month(year, time.month as int)
                + time.day - 1 == seconds / 86_400
        }
    &&& 0 <= time.month <= 11
    &&& time.hour == seconds % 86_400 / 3_600
    &&& time.minute == seconds % 3_600 / 60
}

/// Whether `time` is a local time for the moment `mtime`: what a clock shows
/// that is ahead of UTC by the offset of the zone, give or take the leap
/// seconds that the zone may count.
pub open spec fn is_local_time(time: FileTime, mtime: int) -> bool {
    exists|leap: int| -60 <= leap <= 60 && #[trigger] shows(time, mtime + time.offset - leap)
}

/// Whether the year of a moment has a number that fits, in every time zone.
pub open spec fn has_year(mtime: int) -> bool {
    -67_768_038_400_000_000 <= mtime <= 67_768_034_000_000_000
}

/// Whether a moment can be shown in local time.
pub fn fits_calendar(mtime: i64) -> (result: bool)
    ensures
        result == has_year(mtime as int),
{
    -67_768_038_400_000_000 <= mtime && mtime <= 67_768_034_000_000_000
}

/// The local time of a moment, by `time::at`. It is taken on trust that the
/// fields that it fills are those of the calendar, at the moment moved by the
/// offset that it names, and that it does not panic while the year fits in
/// 32 bits, on a system that counts the seconds in 64. Which offset applies is
/// up to the machine, and is left unsaid.
#[verifier::external_body]
fn local_time(mtime: i64) -> (time: FileTime)
    requires
        has_year(mtime as int),
    ensures
        is_local_time(time, mtime as int),
{
    let tm = time::at(time::Timespec::new(mtime, 0));
    FileTime {
        month: tm.tm_mon,
        day: tm.tm_mday,
        hour: tm.tm_hour,
        minute: tm.tm_min,
        offset: tm.tm_utcoff,
    }
}

/// Whether `time` is what the machine shows for the moment `mtime`.
pub closed spec fn is_shown_for(time: FileTime, mtime: i64) -> bool {
    call_ensures(local_time, (mtime,), time)
}

/// What a clock shows for a moment.
fn read_clock<F: Fn(i64) -> FileTime>(clock: F, mtime: i64) -> (time: FileTime)
    requires
        call_requires(clock, (mtime,)),
    ensures
        call_ensures(clock, (mtime,), time),
{
    clock(mtime)
}

/// When a file was last written, in local time, and its size.
pub fn get_file_info(meta: &Metadata) -> (info: (FileTime, u64))
    requires
        has_year(meta.mtime as int),
    ensures
        is_shown_for(info.0, meta.mtime),
        is_local_time(info.0, meta.mtime as int),
        info.1 == meta.size,
{
    (read_clock(local_time, meta.mtime), meta.size)
}

/// Whether the month of an entry has a name.
pub open spec fn has_month(entry: EntryView) -> bool {
    entry.info is Some ==> 0 <= entry.info->0.time.month <= 11
}

impl Entry {
    /// The entry for a file of which the file system says `meta`.
    pub fn new(path: FilePath, is_dir: bool, meta: Option<Metadata>) -> (entry: Entry)
        requires
            meta is Some ==> has_year(meta->0.mtime as int),
        ensures
            entry@.path == path@,
            entry@.is_dir == is_dir,
            entry@.info is Some <==> meta is Some,
            meta is Some ==> {
                &&& is_shown_for(entry@.info->0.time, meta->0.mtime)
                &&& is_local_time(entry@.info->0.time, meta->0.mtime as int)
                &&& entry@.info->0.size == meta->0.size
                &&& entry@.info->0.readonly == meta->0.readonly
            },
            has_month(entry@),
    {
        match meta {
            Some(meta) => {
                let (time, size): (FileTime, u64) = get_file_info(&meta);
                Entry {
                    path,
                    is_dir,
                    info: Some(FileInfo { time, size, readonly: meta.readonly }),
                }
            },
            None => Entry { path, is_dir, info: None },
        }
    }
}

/// The short name of a month.
pub open spec fn month_name(month: int) -> Seq<char> {
    if month == 0 {
        "Jan"@
    } else if month == 1 {
        "Feb"@
    } else if month == 2 {
        "Mar"@
    } else if month == 3 {
        "Apr"@
    } else if month == 4 {
        "May"@
    } else if month == 5 {
        "Jun"@
    } else if month == 6 {
        "Jul"@
    } else if month == 7 {
        "Aug"@
    } else if month == 8 {
        "Sep"@
    } else if month == 9 {
        "Oct"@
    } else if month == 10 {
        "Nov"@
    } else {
        "Dec"@
    }
}

/// The short name of a month, counted from 0.
pub fn month_text(month: i32) -> (name: &'static str)
    requires
        0 <= month <= 11,
    ensures
        name@ == month_name(month as int),
{
    if month == 0 {
        "Jan"
    } else if month == 1 {
        "Feb"
    } else if month == 2 {
        "Mar"
    } else if month == 3 {
        "Apr"
    } else if month == 4 {
        "May"
    } else if month == 5 {
        "Jun"
    } else if month == 6 {
        "Jul"
    } else if month == 7 {
        "Aug"
    } else if month == 8 {
        "Sep"
    } else if month == 9 {
        "Oct"
    } else if month == 10 {
        "Nov"
    } else {
        "Dec"
    }
}

/// What stands before the name in the line of a file: its kind, what may be
/// done with it, its links, owner and group, its size and when it was last
/// written.
pub open spec fn line_front(is_dir: bool, info: FileInfo) -> Seq<char> {
    (if is_dir { "d"@ } else { "-"@ }) + (if info.readonly { "r--r--r--"@ } else { "rw-rw-rw-"@ })
        + " 1 anonymous anonymous "@ + digits(info.size as nat) + " "@ + month_name(
        info.time.month as int,
    ) + " "@ + signed_digits(info.time.day as int) + " "@ + signed_digits(info.time.hour as int)
        + ":"@ + signed_digits(info.time.minute as int) + " "@
}

/// The line of an entry: its front, what stands behind the last slash of its
/// path, a slash for a directory, and the end of the line. Nothing is said of
/// a file of which nothing is known or whose path is no text.
pub open spec fn entry_line(entry: EntryView) -> Seq<u8> {
    if entry.info is Some && valid_utf8(entry.path) {
        encode_utf8(line_front(entry.is_dir, entry.info->0)) + entry.path.skip(
            last_start(entry.path),
        ) + encode_utf8(if entry.is_dir { "/\r\n"@ } else { "\r\n"@ })
    } else {
        seq![]
    }
}

/// The front of a line.
fn front_text(is_dir: bool, info: &FileInfo) -> (text: String)
    requires
        0 <= info.time.month <= 11,
    ensures
        text@ == line_front(is_dir, *info),
{
    let mut text: String = if is_dir {
        "d".to_string()
    } else {
        "-".to_string()
    };
    if info.readonly {
        text.append("r--r--r--");
    } else {
        text.append("rw-rw-rw-");
    }
    text.append(" 1 anonymous anonymous ");
    text.append(decimal(info.size).as_str());
    text.append(" ");
    text.append(month_text(info.time.month));
    text.append(" ");
    text.append(signed_decimal(info.time.day).as_str());
    text.append(" ");
    text.append(signed_decimal(info.time.hour).as_str());
    text.append(":");
    text.append(signed_decimal(info.time.minute).as_str());
    text.append(" ");
    text
}

/// Adds the line of an entry to a listing.
pub fn add_file_info(entry: &Entry, out: &mut Vec<u8>)
    requires
        has_month(entry@),
    ensures
        final(out)@ == old(out)@ + entry_line(entry@),
{
    let info: FileInfo = match entry.info {
        Some(info) => info,
        None => {
            assert(out@ + entry_line(entry@) =~= out@);
            return;
        },
    };
    let bytes: &Vec<u8> = entry.path.as_bytes();
    if read_text(bytes).is_none() {
        assert(out@ + entry_line(entry@) =~= out@);
        return;
    }
    let start: usize = entry.path.last_start();
    let mut line: Vec<u8> = text_bytes(&front_text(entry.is_dir, &info));
    let mut name: Vec<u8> = copy_range(bytes, start, bytes.len());
    line.append(&mut name);
    let end: String = if entry.is_dir {
        "/\r\n".to_string()
    } else {
        "\r\n".to_string()
    };
    let mut end: Vec<u8> = text_bytes(&end);
    line.append(&mut end);
    out.append(&mut line);
}

/// What a row of entries stands for; `None` where one could not be read.
pub open spec fn entry_views(entries: Seq<Option<Entry>>) -> Seq<Option<EntryView>> {
    Seq::new(
        entries.len(),
        |i: int|
            match entries[i] {
                Some(entry) => Some(entry@),
                None => None,
            },
    )
}

/// The listing of a directory: the lines of its entries, in their order.
pub open spec fn listing(entries: Seq<Option<EntryView>>) -> Seq<u8>
    decreases entries.len(),
{
    if entries.len() == 0 {
        seq![]
    } else {
        listing(entries.drop_last()) + match entries.last() {
            Some(entry) => entry_line(entry),
            None => seq![],
        }
    }
}

/// Whether the month of every entry has a name.
pub open spec fn have_months(entries: Seq<Option<EntryView>>) -> bool {
    forall|i: int|
        0 <= i < entries.len() ==> ((#[trigger] entries[i]) is Some ==> has_month(entries[i]->0))
}

/// The listing of a directory.
pub fn list_entries(entries: &Vec<Option<Entry>>) -> (out: Vec<u8>)
    requires
        have_months(entry_views(entries@)),
    ensures
        out@ == listing(entry_views(entries@)),
{
    let mut out: Vec<u8> = Vec::new();
    let ghost views = entry_views(entries@);
    let mut i: usize = 0;
    assert(views.take(0) =~= seq![]);
    while i < entries.len()
        invariant
            i <= entries@.len(),
            views == entry_views(entries@),
            have_months(views),
            out@ == listing(views.take(i as int)),
        decreases entries.len() - i,
    {
        assert(views.take(i + 1).drop_last() =~= views.take(i as int));
        assert(views.take(i + 1).last() == views[i as int]);
        assert(views[i as int] is Some ==> has_month(views[i as int]->0));
        match &entries[i] {
            Some(entry) => {
                add_file_info(entry, &mut out);
            },
            None => {
                assert(out@ + seq![] =~= out@);
            },
        }
        i += 1;
    }
    assert(views.take(i as int) =~= views);
    out
}

/// The listing of two rows of entries is the listing of the one and then of
/// the other.
pub proof fn listings_add_up(a: Seq<Option<EntryView>>, b: Seq<Option<EntryView>>)
    ensures
        listing(a + b) == listing(a) + listing(b),
    decreases b.len(),
{
    if b.len() == 0 {
        assert(a + b =~= a);
        assert(listing(a) + listing(b) =~= listing(a));
    } else {
        assert((a + b).drop_last() =~= a + b.drop_last());
        assert((a + b).last() == b.last());
        listings_add_up(a, b.drop_last());
        assert(listing(a + b) =~= listing(a) + listing(b));
    }
}

} // verus!
