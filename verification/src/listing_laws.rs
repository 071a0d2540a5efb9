//! What holds of directory listings.

use vstd::arithmetic::div_mod::{lemma_fundamental_div_mod, lemma_fundamental_div_mod_converse};
use vstd::prelude::*;
use vstd::utf8::{encode_utf8, is_ascii_chars, is_ascii_chars_encode_utf8, valid_utf8};

use crate::cmd_laws::ascii;
use crate::listing::{
    days_before_month, days_before_year, entry_line, has_month, is_leap, line_front, listing,
    month_len, month_name, shows, EntryView, FileInfo, FileTime,
};
use crate::path::{last_start, lemma_last_start};
use crate::text::{digits, signed_digits};
use crate::text_laws::{
    digits_read_back, is_decimal, is_signed_decimal, signed_digits_read_back,
};

verus! {

/// Whether `name` is what stands behind the last slash of `path`.
pub open spec fn is_last_segment(name: Seq<u8>, path: Seq<u8>) -> bool {
    &&& name.is_suffix_of(path)
    &&& forall|i: int| 0 <= i < name.len() ==> name[i] != 0x2f
    &&& name.len() < path.len() ==> path[path.len() - name.len() - 1] == 0x2f
}

/// The three letters of a month, out of those of the whole year.
pub open spec fn month_letters(month: int) -> Seq<char> {
    "JanFebMarAprMayJunJulAugSepOctNovDec"@.subrange(3 * month, 3 * month + 3)
}

/// Whether the line of an entry reads as these numbers and this name, each in
/// its place, next to its kind and what may be done with it.
pub open spec fn line_reads(
    entry: EntryView,
    size: Seq<char>,
    day: Seq<char>,
    hour: Seq<char>,
    minute: Seq<char>,
    name: Seq<u8>,
) -> bool {
    let info = entry.info->0;
    let kind = if entry.is_dir { seq!['d'] } else { seq!['-'] };
    let rights = if info.readonly { "r--r--r--"@ } else { "rw-rw-rw-"@ };
    let end = if entry.is_dir { seq![0x2fu8, 0x0du8, 0x0au8] } else { seq![0x0du8, 0x0au8] };
    entry_line(entry) == encode_utf8(
        kind + rights + " 1 anonymous anonymous "@ + size + " "@ + month_letters(
            info.time.month as int,
        ) + " "@ + day + " "@ + hour + ":"@ + minute + " "@,
    ) + name + end
}

/// The line of a file shows its size, the day and the time that it was last
/// written, in full, and its name.
pub proof fn lines_show_their_entries(entry: EntryView)
    requires
        has_month(entry),
        entry.info is Some,
        valid_utf8(entry.path),
    ensures
        exists|
            size: Seq<char>,
            day: Seq<char>,
            hour: Seq<char>,
            minute: Seq<char>,
            name: Seq<u8>,
        | #[trigger]
            line_reads(entry, size, day, hour, minute, name) && {
                &&& is_decimal(size, entry.info->0.size as int)
                &&& is_signed_decimal(day, entry.info->0.time.day as int)
                &&& is_signed_decimal(hour, entry.info->0.time.hour as int)
                &&& is_signed_decimal(minute, entry.info->0.time.minute as int)
                &&& is_last_segment(name, entry.path)
            },
{
    let info = entry.info->0;
    let size = digits(info.size as nat);
    let day = signed_digits(info.time.day as int);
    let hour = signed_digits(info.time.hour as int);
    let minute = signed_digits(info.time.minute as int);
    let name = entry.path.skip(last_start(entry.path));
    digits_read_back(info.size as nat);
    signed_digits_read_back(info.time.day as int);
    signed_digits_read_back(info.time.hour as int);
    signed_digits_read_back(info.time.minute as int);
    lemma_last_start(entry.path);
    assert(name =~= entry.path.skip(entry.path.len() - name.len()));
    lemma_month_letters(info.time.month as int);
    lemma_kind(entry.is_dir);
    assert(line_reads(entry, size, day, hour, minute, name)) by {
        assert(entry_line(entry) =~= encode_utf8(line_front(entry.is_dir, info)) + name + (
        if entry.is_dir {
            seq![0x2fu8, 0x0du8, 0x0au8]
        } else {
            seq![0x0du8, 0x0au8]
        }));
    }
}

/// The first letter of a line, and the bytes at its end.
proof fn lemma_kind(is_dir: bool)
    ensures
        "d"@ == seq!['d'],
        "-"@ == seq!['-'],
        encode_utf8("/\r\n"@) == seq![0x2fu8, 0x0du8, 0x0au8],
        encode_utf8("\r\n"@) == seq![0x0du8, 0x0au8],
{
    reveal_strlit("d");
    reveal_strlit("-");
    reveal_strlit("/\r\n");
    reveal_strlit("\r\n");
    assert("d"@ =~= seq!['d']);
    assert("-"@ =~= seq!['-']);
    is_ascii_chars_encode_utf8("/\r\n"@);
    is_ascii_chars_encode_utf8("\r\n"@);
    assert(encode_utf8("/\r\n"@) =~= seq![0x2fu8, 0x0du8, 0x0au8]);
    assert(encode_utf8("\r\n"@) =~= seq![0x0du8, 0x0au8]);
}

/// The name of a month is its three letters of the year.
pub proof fn lemma_month_letters(month: int)
    requires
        0 <= month <= 11,
    ensures
        month_name(month) == month_letters(month),
        month_name(month).len() == 3,
{
    reveal_strlit("JanFebMarAprMayJunJulAugSepOctNovDec");
    reveal_strlit("Jan");
    reveal_strlit("Feb");
    reveal_strlit("Mar");
    reveal_strlit("Apr");
    reveal_strlit("May");
    reveal_strlit("Jun");
    reveal_strlit("Jul");
    reveal_strlit("Aug");
    reveal_strlit("Sep");
    reveal_strlit("Oct");
    reveal_strlit("Nov");
    reveal_strlit("Dec");
    assert(month_name(month) =~= month_letters(month));
}

/// Every month has a name of its own, in plain letters.
proof fn lemma_months_differ(a: int, b: int)
    requires
        0 <= a <= 11,
        0 <= b <= 11,
        ascii(month_name(a)) == ascii(month_name(b)),
    ensures
        a == b,
{
    lemma_months_ascii(a);
    lemma_months_ascii(b);
    let (x, y) = (ascii(month_name(a)), ascii(month_name(b)));
    assert(x[0] == y[0] && x[1] == y[1] && x[2] == y[2]);
}

/// The letters of each month.
proof fn lemma_months_ascii(m: int)
    requires
        0 <= m <= 11,
    ensures
        ({
            let x = ascii(month_name(m));
            let letters = (x[0], x[1], x[2]);
            &&& x.len() == 3
            &&& is_ascii_chars(month_name(m))
            &&& m == 0 ==> letters == (0x4au8, 0x61u8, 0x6eu8)
            &&& m == 1 ==> letters == (0x46u8, 0x65u8, 0x62u8)
            &&& m == 2 ==> letters == (0x4du8, 0x61u8, 0x72u8)
            &&& m == 3 ==> letters == (0x41u8, 0x70u8, 0x72u8)
            &&& m == 4 ==> letters == (0x4du8, 0x61u8, 0x79u8)
            &&& m == 5 ==> letters == (0x4au8, 0x75u8, 0x6eu8)
            &&& m == 6 ==> letters == (0x4au8, 0x75u8, 0x6cu8)
            &&& m == 7 ==> letters == (0x41u8, 0x75u8, 0x67u8)
            &&& m == 8 ==> letters == (0x53u8, 0x65u8, 0x70u8)
            &&& m == 9 ==> letters == (0x4fu8, 0x63u8, 0x74u8)
            &&& m == 10 ==> letters == (0x4eu8, 0x6fu8, 0x76u8)
            &&& m == 11 ==> letters == (0x44u8, 0x65u8, 0x63u8)
        }),
{
    reveal_strlit("Jan");
    reveal_strlit("Feb");
    reveal_strlit("Mar");
    reveal_strlit("Apr");
    reveal_strlit("May");
    reveal_strlit("Jun");
    reveal_strlit("Jul");
    reveal_strlit("Aug");
    reveal_strlit("Sep");
    reveal_strlit("Oct");
    reveal_strlit("Nov");
    reveal_strlit("Dec");
}

/// What two rows hold up to the first `c`, and behind it, is the same where
/// the rows are.
proof fn lemma_cut(x: Seq<u8>, r: Seq<u8>, y: Seq<u8>, q: Seq<u8>, c: u8)
    requires
        x + seq![c] + r == y + seq![c] + q,
        forall|i: int| 0 <= i < x.len() ==> x[i] != c,
        forall|i: int| 0 <= i < y.len() ==> y[i] != c,
    ensures
        x == y,
        r == q,
{
    let (s, t) = (x + seq![c] + r, y + seq![c] + q);
    if x.len() < y.len() {
        assert(s[x.len() as int] == c);
        assert(t[x.len() as int] == y[x.len() as int]);
    } else if y.len() < x.len() {
        assert(t[y.len() as int] == c);
        assert(s[y.len() as int] == x[y.len() as int]);
    }
    assert forall|i: int| 0 <= i < x.len() implies x[i] == y[i] by {
        assert(s[i] == t[i]);
    }
    assert(x =~= y);
    assert(r =~= s.skip((x.len() + 1) as int));
    assert(q =~= t.skip((y.len() + 1) as int));
}

/// A number in text is plain, and holds neither a space nor a colon.
proof fn lemma_number_text(text: Seq<char>, n: int)
    requires
        is_signed_decimal(text, n),
    ensures
        is_ascii_chars(text),
        forall|i: int| #![trigger ascii(text)[i]]
            0 <= i < text.len() ==> ascii(text)[i] != 0x20 && ascii(text)[i] != 0x3a,
{
    assert forall|i: int| 0 <= i < text.len() implies text[i] == '-' || '0' <= #[trigger] text[i]
        <= '9' by {
        if n < 0 && i > 0 {
            assert(text.skip(1)[i - 1] == text[i]);
        }
    }
}

/// Two numbers that are written alike are the same.
proof fn lemma_numbers_differ(a: int, b: int)
    requires
        ascii(signed_digits(a)) == ascii(signed_digits(b)),
    ensures
        a == b,
{
    signed_digits_read_back(a);
    signed_digits_read_back(b);
    let (x, y) = (signed_digits(a), signed_digits(b));
    lemma_number_text(x, a);
    lemma_number_text(y, b);
    assert(ascii(x).len() == x.len());
    assert(ascii(y).len() == y.len());
    assert forall|i: int| 0 <= i < x.len() implies x[i] == y[i] by {
        assert(ascii(x)[i] == ascii(y)[i]);
        assert('\0' <= x[i] <= '\u{7f}');
        assert('\0' <= y[i] <= '\u{7f}');
    }
    assert(x =~= y);
}

/// What follows the name of the month in a line.
spec fn time_tail(info: FileInfo, rest: Seq<u8>) -> Seq<u8> {
    ascii(signed_digits(info.time.day as int)) + seq![0x20u8] + (ascii(
        signed_digits(info.time.hour as int),
    ) + seq![0x3au8] + (ascii(signed_digits(info.time.minute as int)) + seq![0x20u8] + rest))
}

/// The line of an entry, from its kind on to its end.
spec fn line_parts(entry: EntryView, rest: Seq<u8>) -> Seq<u8> {
    let info = entry.info->0;
    ascii(line_opening(entry)) + (ascii(digits(info.size as nat)) + seq![0x20u8] + (ascii(
        month_name(info.time.month as int),
    ) + seq![0x20u8] + time_tail(info, rest)))
}

/// What stands at the end of the line of an entry: its name and the end.
spec fn line_rest(entry: EntryView) -> Seq<u8> {
    entry.path.skip(last_start(entry.path)) + encode_utf8(
        if entry.is_dir { "/\r\n"@ } else { "\r\n"@ },
    )
}

/// Rows one after the other, grouped from behind.
proof fn lemma_regroup(
    o: Seq<u8>,
    s: Seq<u8>,
    m: Seq<u8>,
    d: Seq<u8>,
    h: Seq<u8>,
    i: Seq<u8>,
    rest: Seq<u8>,
)
    ensures
        ({
            let sp = seq![0x20u8];
            let co = seq![0x3au8];
            o + s + sp + m + sp + d + sp + h + co + i + sp + rest == o + (s + sp + (m + sp + (d + sp
                + (h + co + (i + sp + rest)))))
        }),
{
    let sp = seq![0x20u8];
    let co = seq![0x3au8];
    let i1 = i + sp + rest;
    let h1 = h + co + i1;
    let d1 = d + sp + h1;
    let m1 = m + sp + d1;
    let s1 = s + sp + m1;
    assert(o + s1 =~= o + s + sp + m1);
    assert(o + s + sp + m1 =~= o + s + sp + m + sp + d1);
    assert(o + s + sp + m + sp + d1 =~= o + s + sp + m + sp + d + sp + h1);
    assert(o + s + sp + m + sp + d + sp + h1 =~= o + s + sp + m + sp + d + sp + h + co + i1);
    assert(o + s + sp + m + sp + d + sp + h + co + i1 =~= o + s + sp + m + sp + d + sp + h + co + i
        + sp + rest);
}

/// Texts one after the other, as bytes.
proof fn lemma_ascii_front(
    o: Seq<char>,
    s: Seq<char>,
    m: Seq<char>,
    d: Seq<char>,
    h: Seq<char>,
    i: Seq<char>,
)
    requires
        is_ascii_chars(o),
        is_ascii_chars(s),
        is_ascii_chars(m),
        is_ascii_chars(d),
        is_ascii_chars(h),
        is_ascii_chars(i),
    ensures
        ({
            let sp = seq![0x20u8];
            let co = seq![0x3au8];
            encode_utf8(o + s + " "@ + m + " "@ + d + " "@ + h + ":"@ + i + " "@) == ascii(o)
                + ascii(s) + sp + ascii(m) + sp + ascii(d) + sp + ascii(h) + co + ascii(i) + sp
        }),
{
    reveal_strlit(" ");
    reveal_strlit(":");
    let t1 = o + s;
    let t2 = t1 + " "@;
    let t3 = t2 + m;
    let t4 = t3 + " "@;
    let t5 = t4 + d;
    let t6 = t5 + " "@;
    let t7 = t6 + h;
    let t8 = t7 + ":"@;
    let t9 = t8 + i;
    let front = t9 + " "@;
    lemma_ascii_concat(o, s);
    lemma_ascii_concat(t1, " "@);
    lemma_ascii_concat(t2, m);
    lemma_ascii_concat(t3, " "@);
    lemma_ascii_concat(t4, d);
    lemma_ascii_concat(t5, " "@);
    lemma_ascii_concat(t6, h);
    lemma_ascii_concat(t7, ":"@);
    lemma_ascii_concat(t8, i);
    lemma_ascii_concat(t9, " "@);
    is_ascii_chars_encode_utf8(front);
    assert(encode_utf8(front) =~= ascii(front));
    assert(ascii(" "@) =~= seq![0x20u8]);
    assert(ascii(":"@) =~= seq![0x3au8]);
}

/// What a line begins with, up to the size.
spec fn line_opening(entry: EntryView) -> Seq<char> {
    (if entry.is_dir { "d"@ } else { "-"@ }) + (if entry.info->0.readonly {
        "r--r--r--"@
    } else {
        "rw-rw-rw-"@
    }) + " 1 anonymous anonymous "@
}

/// The opening of a line is plain, and tells the kind and the rights.
proof fn lemma_opening(entry: EntryView)
    ensures
        is_ascii_chars(line_opening(entry)),
        ascii(line_opening(entry)).len() == 33,
        ascii(line_opening(entry))[0] == if entry.is_dir {
            0x64u8
        } else {
            0x2du8
        },
        ascii(line_opening(entry))[2] == if entry.info->0.readonly {
            0x2du8
        } else {
            0x77u8
        },
{
    reveal_strlit("d");
    reveal_strlit("-");
    reveal_strlit("r--r--r--");
    reveal_strlit("rw-rw-rw-");
    reveal_strlit(" 1 anonymous anonymous ");
}

/// The line of an entry, taken apart.
proof fn lemma_line_parts(entry: EntryView)
    requires
        has_month(entry),
        entry.info is Some,
        valid_utf8(entry.path),
    ensures
        entry_line(entry) == line_parts(entry, line_rest(entry)),
{
    let info = entry.info->0;
    let size = digits(info.size as nat);
    let month = month_name(info.time.month as int);
    let day = signed_digits(info.time.day as int);
    let hour = signed_digits(info.time.hour as int);
    let minute = signed_digits(info.time.minute as int);
    signed_digits_read_back(info.size as int);
    signed_digits_read_back(info.time.day as int);
    signed_digits_read_back(info.time.hour as int);
    signed_digits_read_back(info.time.minute as int);
    lemma_number_text(size, info.size as int);
    lemma_number_text(day, info.time.day as int);
    lemma_number_text(hour, info.time.hour as int);
    lemma_number_text(minute, info.time.minute as int);
    lemma_months_ascii(info.time.month as int);
    lemma_opening(entry);
    lemma_ascii_front(line_opening(entry), size, month, day, hour, minute);
    lemma_regroup(
        ascii(line_opening(entry)),
        ascii(size),
        ascii(month),
        ascii(day),
        ascii(hour),
        ascii(minute),
        line_rest(entry),
    );
    let front = encode_utf8(line_front(entry.is_dir, info));
    assert(entry_line(entry) =~= front + line_rest(entry));
}

/// Plain texts one after the other are plain, and so are their bytes.
proof fn lemma_ascii_concat(a: Seq<char>, b: Seq<char>)
    requires
        is_ascii_chars(a),
        is_ascii_chars(b),
    ensures
        is_ascii_chars(a + b),
        ascii(a + b) == ascii(a) + ascii(b),
{
    let s = a + b;
    assert forall|i: int| 0 <= i < s.len() implies '\0' <= #[trigger] s[i] <= '\u{7f}' by {
        if i < a.len() {
            assert(s[i] == a[i]);
        } else {
            assert(s[i] == b[i - a.len()]);
        }
    }
    assert(ascii(s) =~= ascii(a) + ascii(b));
}

/// Two files whose lines are the same are alike in all that a line is there to
/// tell: kind, rights, size, when they were last written, and name.
pub proof fn lines_tell_entries_apart(a: EntryView, b: EntryView)
    requires
        has_month(a) && a.info is Some && valid_utf8(a.path),
        has_month(b) && b.info is Some && valid_utf8(b.path),
        entry_line(a) == entry_line(b),
    ensures
        a.is_dir == b.is_dir,
        a.info->0.readonly == b.info->0.readonly,
        a.info->0.size == b.info->0.size,
        a.info->0.time.month == b.info->0.time.month,
        a.info->0.time.day == b.info->0.time.day,
        a.info->0.time.hour == b.info->0.time.hour,
        a.info->0.time.minute == b.info->0.time.minute,
        exists|name: Seq<u8>|
            is_last_segment(name, a.path) && #[trigger] is_last_segment(name, b.path),
{
    let (f, g) = (a.info->0, b.info->0);
    lemma_opening(a);
    lemma_opening(b);
    lemma_line_parts(a);
    lemma_line_parts(b);
    let x = line_parts(a, line_rest(a));
    let y = line_parts(b, line_rest(b));
    assert(x[0] == y[0] && x[2] == y[2]);
    assert(a.is_dir == b.is_dir);
    assert(f.readonly == g.readonly);
    let (s1, s2) = (ascii(digits(f.size as nat)), ascii(digits(g.size as nat)));
    let (m1, m2) = (
        ascii(month_name(f.time.month as int)),
        ascii(month_name(g.time.month as int)),
    );
    let (t1, t2) = (time_tail(f, line_rest(a)), time_tail(g, line_rest(b)));
    let (u1, u2) = (m1 + seq![0x20u8] + t1, m2 + seq![0x20u8] + t2);
    assert(x.skip(33) =~= s1 + seq![0x20u8] + u1);
    assert(y.skip(33) =~= s2 + seq![0x20u8] + u2);
    lemma_number_bytes(f.size as int);
    lemma_number_bytes(g.size as int);
    assert(s1 == ascii(signed_digits(f.size as int)));
    assert(s2 == ascii(signed_digits(g.size as int)));
    lemma_cut(s1, u1, s2, u2, 0x20);
    lemma_numbers_differ(f.size as int, g.size as int);
    lemma_months_ascii(f.time.month as int);
    lemma_months_ascii(g.time.month as int);
    assert(m1 =~= u1.take(3));
    assert(m2 =~= u2.take(3));
    lemma_months_differ(f.time.month as int, g.time.month as int);
    assert(t1 =~= u1.skip(4));
    assert(t2 =~= u2.skip(4));
    lemma_times_differ(f, line_rest(a), g, line_rest(b));
    let (n1, n2) = (a.path.skip(last_start(a.path)), b.path.skip(last_start(b.path)));
    lemma_last_start(a.path);
    lemma_last_start(b.path);
    assert(n1.len() == n2.len());
    assert(n1 =~= line_rest(a).take(n1.len() as int));
    assert(n2 =~= line_rest(b).take(n1.len() as int));
    assert(n1 =~= a.path.skip(a.path.len() - n1.len()));
    assert(n2 =~= b.path.skip(b.path.len() - n2.len()));
    assert(is_last_segment(n1, a.path));
    assert(is_last_segment(n1, b.path));
}

/// The bytes of a number hold neither a space nor a colon.
proof fn lemma_number_bytes(n: int)
    ensures
        forall|i: int| #![trigger ascii(signed_digits(n))[i]]
            0 <= i < ascii(signed_digits(n)).len() ==> ascii(signed_digits(n))[i] != 0x20
                && ascii(signed_digits(n))[i] != 0x3a,
{
    signed_digits_read_back(n);
    lemma_number_text(signed_digits(n), n);
}

/// Lines that agree from the day on agree on the day, the hour, the minute and
/// the rest.
proof fn lemma_times_differ(f: FileInfo, p: Seq<u8>, g: FileInfo, q: Seq<u8>)
    requires
        time_tail(f, p) == time_tail(g, q),
    ensures
        f.time.day == g.time.day,
        f.time.hour == g.time.hour,
        f.time.minute == g.time.minute,
        p == q,
{
    let (d1, d2) = (
        ascii(signed_digits(f.time.day as int)),
        ascii(signed_digits(g.time.day as int)),
    );
    let (h1, h2) = (
        ascii(signed_digits(f.time.hour as int)),
        ascii(signed_digits(g.time.hour as int)),
    );
    let (i1, i2) = (
        ascii(signed_digits(f.time.minute as int)),
        ascii(signed_digits(g.time.minute as int)),
    );
    let (w1, w2) = (i1 + seq![0x20u8] + p, i2 + seq![0x20u8] + q);
    let (v1, v2) = (h1 + seq![0x3au8] + w1, h2 + seq![0x3au8] + w2);
    lemma_number_bytes(f.time.day as int);
    lemma_number_bytes(g.time.day as int);
    lemma_number_bytes(f.time.hour as int);
    lemma_number_bytes(g.time.hour as int);
    lemma_number_bytes(f.time.minute as int);
    lemma_number_bytes(g.time.minute as int);
    lemma_cut(d1, v1, d2, v2, 0x20);
    lemma_cut(h1, w1, h2, w2, 0x3a);
    lemma_cut(i1, p, i2, q, 0x20);
    lemma_numbers_differ(f.time.day as int, g.time.day as int);
    lemma_numbers_differ(f.time.hour as int, g.time.hour as int);
    lemma_numbers_differ(f.time.minute as int, g.time.minute as int);
}

/// A file of which nothing is known, or whose path is no text, has no line,
/// and every other file has one.
pub proof fn only_known_files_have_lines(entry: EntryView)
    ensures
        entry_line(entry).len() == 0 <==> entry.info is None || !valid_utf8(entry.path),
{
    lemma_kind(entry.is_dir);
}

/// The listing of one entry is its line; what could not be read has none.
pub proof fn listings_of_one(entry: EntryView)
    ensures
        listing(seq![Some(entry)]) == entry_line(entry),
        listing(seq![None::<EntryView>]) == Seq::<u8>::empty(),
        listing(Seq::<Option<EntryView>>::empty()) == Seq::<u8>::empty(),
{
    let one = seq![Some(entry)];
    let none = seq![None::<EntryView>];
    let nothing = Seq::<Option<EntryView>>::empty();
    assert(one.drop_last() =~= nothing);
    assert(none.drop_last() =~= nothing);
    assert(one.last() == Some(entry));
    assert(none.last() == None::<EntryView>);
    assert(listing(nothing) =~= Seq::<u8>::empty());
    assert(listing(one) =~= entry_line(entry));
    assert(listing(none) =~= seq![]);
}

/// A year follows the one before it after as many days as that has, and its
/// twelve months take up as many.
pub proof fn years_follow_each_other(year: int)
    ensures
        days_before_year(1970) == 0,
        days_before_year(year + 1) == days_before_year(year) + days_before_month(year, 12),
        days_before_month(year, 12) == if is_leap(year) {
            366int
        } else {
            365
        },
        is_leap(year) <==> (year % 4 == 0 && year % 100 != 0) || year % 400 == 0,
{
    lemma_year_len(year);
    lemma_years_counted(year, 4);
    lemma_years_counted(year, 100);
    lemma_years_counted(year, 400);
    if year % 100 == 0 {
        lemma_fundamental_div_mod(year, 100);
        lemma_fundamental_div_mod_converse(year, 4, 25 * (year / 100), 0);
    }
    if year % 400 == 0 {
        lemma_fundamental_div_mod(year, 400);
        lemma_fundamental_div_mod_converse(year, 100, 4 * (year / 400), 0);
    }
    assert(days_before_year(1970) == 0);
}

/// Every year that a number divides adds one to the count of such years.
proof fn lemma_years_counted(year: int, k: int)
    requires
        k > 1,
    ensures
        year / k == (year - 1) / k + if year % k == 0 {
            1int
        } else {
            0
        },
{
    let (q, r) = (year / k, year % k);
    lemma_fundamental_div_mod(year, k);
    assert(k * (q - 1) == k * q - k) by (nonlinear_arith);
    assert(k * q == q * k && k * (q - 1) == (q - 1) * k) by (nonlinear_arith);
    if r == 0 {
        lemma_fundamental_div_mod_converse(year - 1, k, q - 1, k - 1);
    } else {
        lemma_fundamental_div_mod_converse(year - 1, k, q, r - 1);
    }
}

/// The months of a year add up.
proof fn lemma_year_len(year: int)
    ensures
        days_before_month(year, 12) == if is_leap(year) {
            366int
        } else {
            365
        },
{
    let february = month_len(year, 1);
    assert(days_before_month(year, 0) == 0);
    assert(days_before_month(year, 1) == 31);
    assert(days_before_month(year, 2) == 31 + february);
    assert(days_before_month(year, 3) == 62 + february);
    assert(days_before_month(year, 4) == 92 + february);
    assert(days_before_month(year, 5) == 123 + february);
    assert(days_before_month(year, 6) == 153 + february);
    assert(days_before_month(year, 7) == 184 + february);
    assert(days_before_month(year, 8) == 215 + february);
    assert(days_before_month(year, 9) == 245 + february);
    assert(days_before_month(year, 10) == 276 + february);
    assert(days_before_month(year, 11) == 306 + february);
    assert(days_before_month(year, 12) == 337 + february);
}

/// The first day of a later year comes later.
proof fn lemma_years_in_order(a: int, b: int)
    requires
        a < b,
    ensures
        days_before_year(a) + days_before_month(a, 12) <= days_before_year(b),
    decreases b - a,
{
    years_follow_each_other(a);
    if a + 1 < b {
        lemma_years_in_order(a + 1, b);
        years_follow_each_other(a + 1);
    }
}

/// The first day of a later month comes later.
proof fn lemma_months_in_order(year: int, a: int, b: int)
    requires
        0 <= a < b <= 12,
    ensures
        days_before_month(year, a) + month_len(year, a) <= days_before_month(year, b),
    decreases b - a,
{
    if a + 1 < b {
        lemma_months_in_order(year, a, b - 1);
    }
}

/// A moment has one date and one time of day.
pub proof fn moments_have_one_time(a: FileTime, b: FileTime, seconds: int)
    requires
        shows(a, seconds),
        shows(b, seconds),
    ensures
        a.month == b.month,
        a.day == b.day,
        a.hour == b.hour,
        a.minute == b.minute,
        0 <= a.hour <= 23,
        0 <= a.minute <= 59,
{
    let day = seconds / 86_400;
    let x = choose|year: int|
        {
            &&& 1 <= a.day <= month_len(year, a.month as int)
            &&& #[trigger] days_before_year(year) + days_before_month(year, a.month as int) + a.day
                - 1 == day
        };
    let y = choose|year: int|
        {
            &&& 1 <= b.day <= month_len(year, b.month as int)
            &&& #[trigger] days_before_year(year) + days_before_month(year, b.month as int) + b.day
                - 1 == day
        };
    lemma_months_start(x, a.month as int);
    lemma_months_start(y, b.month as int);
    if x < y {
        lemma_years_in_order(x, y);
    } else if y < x {
        lemma_years_in_order(y, x);
    }
    if a.month < b.month {
        lemma_months_in_order(x, a.month as int, b.month as int);
    } else if b.month < a.month {
        lemma_months_in_order(x, b.month as int, a.month as int);
    }
}

/// A month lies within its year.
proof fn lemma_months_start(year: int, month: int)
    requires
        0 <= month <= 11,
    ensures
        0 <= days_before_month(year, month),
        days_before_month(year, month) + month_len(year, month) <= days_before_month(year, 12),
{
    if month > 0 {
        lemma_months_in_order(year, 0, month);
    }
    lemma_months_in_order(year, month, 12);
}

} // verus!
