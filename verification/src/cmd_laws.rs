//! What holds of commands.

use vstd::prelude::*;
use vstd::utf8::{
    decode_utf8, encode_utf8, encode_utf8_decode_utf8, encode_utf8_valid_utf8, is_ascii_chars,
    is_ascii_chars_encode_utf8, valid_utf8,
};

use crate::cmd::{
    argument_of, command_of, fields, is_byte, number, parsed, port_of, type_of, upper, uppered,
    word_len, word_of, CommandView, TransferType, COMMA,
};
use crate::error::ErrorView;
use crate::text::digits;

verus! {

/// ASCII text as bytes.
pub open spec fn ascii(text: Seq<char>) -> Seq<u8> {
    Seq::new(text.len(), |i: int| text[i] as u8)
}

/// The digits of a number spell that number.
proof fn lemma_digits(n: nat)
    ensures
        number(ascii(digits(n))) == n,
        digits(n).len() >= 1,
        forall|i: int| 0 <= i < digits(n).len() ==> '0' <= #[trigger] digits(n)[i] <= '9',
        n < 10 ==> digits(n).len() == 1,
        n < 100 ==> digits(n).len() <= 2,
        n < 1000 ==> digits(n).len() <= 3,
    decreases n,
{
    let s = ascii(digits(n));
    if n < 10 {
        assert(s.drop_last() =~= seq![]);
        assert(number(s.drop_last()) == 0);
        assert(s.last() == 0x30 + n);
    } else {
        lemma_digits(n / 10);
        assert(s.drop_last() =~= ascii(digits(n / 10)));
        assert(s.last() == 0x30 + n % 10);
    }
}

/// The digits of a number up to 255 are those of a byte.
proof fn lemma_byte(n: nat)
    requires
        n <= 255,
    ensures
        is_byte(ascii(digits(n))),
        number(ascii(digits(n))) == n,
        forall|i: int| 0 <= i < digits(n).len() ==> ascii(digits(n))[i] != COMMA,
{
    lemma_digits(n);
    let s = ascii(digits(n));
    assert forall|i: int| 0 <= i < s.len() implies 0x30 <= #[trigger] s[i] <= 0x39 by {
        assert('0' <= digits(n)[i] <= '9');
    }
}

/// A list without a comma is its only field.
proof fn lemma_one_field(s: Seq<u8>)
    requires
        forall|i: int| 0 <= i < s.len() ==> s[i] != COMMA,
    ensures
        fields(s) == seq![s],
    decreases s.len(),
{
    if s.len() > 0 {
        let t = s.drop_last();
        assert forall|i: int| 0 <= i < t.len() implies t[i] != COMMA by {
            assert(t[i] == s[i]);
        }
        lemma_one_field(t);
        assert(fields(s) =~= seq![t.push(s.last())]);
        assert(t.push(s.last()) =~= s);
    } else {
        assert(s =~= seq![]);
    }
}

/// The fields of two lists with a comma between them are those of both.
proof fn lemma_fields_append(a: Seq<u8>, b: Seq<u8>)
    ensures
        fields(a.push(COMMA) + b) == fields(a) + fields(b),
        fields(b).len() > 0,
    decreases b.len(),
{
    let s = a.push(COMMA) + b;
    if b.len() == 0 {
        assert(s.drop_last() =~= a);
        assert(s.last() == COMMA);
        assert(fields(s) =~= fields(a) + fields(b));
    } else {
        let c = b.drop_last();
        lemma_fields_append(a, c);
        assert(s.drop_last() =~= a.push(COMMA) + c);
        assert(s.last() == b.last());
        if b.last() != COMMA {
            let before = fields(a) + fields(c);
            assert(before.last() == fields(c).last());
            assert(before.drop_last() =~= fields(a) + fields(c).drop_last());
        }
        assert(fields(s) =~= fields(a) + fields(b));
    }
}

/// The address that tells a client where to open a data connection names the
/// port to a server that is told the same address.
pub proof fn addresses_name_their_port(port: u16)
    ensures
        port_of(
            encode_utf8(
                "127,0,0,1,"@ + digits((port / 256) as nat) + ","@ + digits((port % 256) as nat),
            ),
        ) == Some(port as int),
{
    reveal_strlit("127,0,0,1,");
    reveal_strlit(",");
    let high = digits((port / 256) as nat);
    let low = digits((port % 256) as nat);
    let text = "127,0,0,1,"@ + high + ","@ + low;
    lemma_digits((port / 256) as nat);
    lemma_digits((port % 256) as nat);
    assert(is_ascii_chars(text)) by {
        assert forall|i: int| 0 <= i < text.len() implies '\0' <= #[trigger] text[i] <= '\u{7f}' by {
            if i >= 10 && i < 10 + high.len() {
                assert(text[i] == high[i - 10]);
            } else if i > 10 + high.len() {
                assert(text[i] == low[i - 11 - high.len()]);
            }
        }
    }
    is_ascii_chars_encode_utf8(text);
    let bytes = encode_utf8(text);
    assert(bytes =~= ascii(text));

    let one = seq![0x31u8];
    let zero = seq![0x30u8];
    let host = seq![0x31u8, 0x32u8, 0x37u8];
    let h = ascii(high);
    let l = ascii(low);
    let rest1 = h.push(COMMA) + l;
    let rest2 = one.push(COMMA) + rest1;
    let rest3 = zero.push(COMMA) + rest2;
    let rest4 = zero.push(COMMA) + rest3;
    let all = host.push(COMMA) + rest4;
    assert(bytes =~= all);
    lemma_fields_append(host, rest4);
    lemma_fields_append(zero, rest3);
    lemma_fields_append(zero, rest2);
    lemma_fields_append(one, rest1);
    lemma_fields_append(h, l);
    lemma_one_field(host);
    lemma_one_field(zero);
    lemma_one_field(one);
    lemma_byte((port / 256) as nat);
    lemma_byte((port % 256) as nat);
    lemma_one_field(h);
    lemma_one_field(l);
    assert(fields(all) =~= seq![host, zero, zero, one, h, l]);
    lemma_byte(0);
    lemma_byte(1);
    lemma_byte(127);
    reveal_with_fuel(digits, 3);
    assert(ascii(digits(0)) =~= zero);
    assert(ascii(digits(1)) =~= one);
    assert(digits(127) =~= seq!['1', '2', '7']);
    assert(ascii(digits(127)) =~= host);
    assert forall|i: int| 0 <= i < 6 implies is_byte(#[trigger] fields(all)[i]) by {}
}

/// A list without a comma has one field, and a comma parts the fields before
/// it from those behind it.
pub proof fn commas_part_fields(a: Seq<u8>, b: Seq<u8>)
    ensures
        fields(a + seq![0x2cu8] + b) == fields(a) + fields(b),
        (forall|i: int| 0 <= i < a.len() ==> a[i] != 0x2c) ==> fields(a) == seq![a],
{
    assert(a + seq![0x2cu8] =~= a.push(COMMA));
    lemma_fields_append(a, b);
    if forall|i: int| 0 <= i < a.len() ==> a[i] != 0x2c {
        lemma_one_field(a);
    }
}

/// An address names a port exactly if it has six fields of one to three digits
/// that each spell a byte, and the last two are the bytes of the port.
pub proof fn addresses_are_six_bytes(address: Seq<u8>, parts: Seq<Seq<u8>>)
    requires
        fields(address) == parts,
    ensures
        port_of(address) is Some <==> parts.len() == 6 && forall|k: int| #![trigger parts[k]]
            0 <= k < 6 ==> is_byte(parts[k]),
        port_of(address) is Some ==> {
            let port = port_of(address)->0;
            &&& 0 <= port <= 0xffff
            &&& port / 256 == number(parts[4])
            &&& port % 256 == number(parts[5])
        },
{
    if port_of(address) is Some {
        lemma_not_negative(parts[4]);
        lemma_not_negative(parts[5]);
    }
}

/// Digits spell no negative number.
proof fn lemma_not_negative(s: Seq<u8>)
    requires
        forall|i: int| 0 <= i < s.len() ==> 0x30 <= #[trigger] s[i] <= 0x39,
    ensures
        number(s) >= 0,
    decreases s.len(),
{
    if s.len() > 0 {
        let t = s.drop_last();
        assert forall|i: int| 0 <= i < t.len() implies 0x30 <= #[trigger] t[i] <= 0x39 by {
            assert(t[i] == s[i]);
        }
        lemma_not_negative(t);
    }
}

/// The number that digits spell grows by one digit: tenfold, and the digit.
pub proof fn numbers_grow_by_digits(s: Seq<u8>, digit: u8)
    requires
        0x30 <= digit <= 0x39,
    ensures
        number(Seq::<u8>::empty()) == 0,
        number(s.push(digit)) == 10 * number(s) + (digit - 0x30),
{
    assert(s.push(digit).drop_last() =~= s);
}

/// Whether bytes spell a word, in capital or in small letters.
pub open spec fn spells(bytes: Seq<u8>, word: Seq<char>) -> bool {
    &&& bytes.len() == word.len()
    &&& forall|i: int|
        0 <= i < word.len() ==> 'A' <= #[trigger] word[i] <= 'Z' && (bytes[i] == word[i] as u8
            || bytes[i] == word[i] as u8 + 0x20)
}

/// A word ends at the first space.
proof fn lemma_word_len(w: Seq<u8>, rest: Seq<u8>)
    requires
        forall|i: int| 0 <= i < w.len() ==> w[i] != 0x20,
    ensures
        word_len(w) == w.len(),
        word_len(w + seq![0x20u8] + rest) == w.len(),
    decreases w.len(),
{
    let s = w + seq![0x20u8] + rest;
    if w.len() > 0 {
        let v = w.drop_first();
        assert forall|i: int| 0 <= i < v.len() implies v[i] != 0x20 by {
            assert(v[i] == w[i + 1]);
        }
        lemma_word_len(v, rest);
        assert(s[0] == w[0]);
        assert(s.drop_first() =~= v + seq![0x20u8] + rest);
    } else {
        assert(s[0] == 0x20);
    }
}

/// A line is its first word, in capital letters, and what follows the first
/// space, if there is one.
pub proof fn lines_are_words_and_arguments(w: Seq<u8>, argument: Seq<u8>)
    requires
        forall|i: int| 0 <= i < w.len() ==> w[i] != 0x20,
    ensures
        argument_of(w) is None,
        argument_of(w + seq![0x20u8] + argument) == Some(argument),
        word_of(w) == uppered(w),
        word_of(w + seq![0x20u8] + argument) == uppered(w),
        uppered(w).len() == w.len(),
        forall|i: int| #![trigger uppered(w)[i]]
            0 <= i < w.len() ==> uppered(w)[i] == if 'a' as u8 <= w[i] <= 'z' as u8 {
                (w[i] - 0x20) as u8
            } else {
                w[i]
            },
{
    let s = w + seq![0x20u8] + argument;
    lemma_word_len(w, argument);
    assert(w.take(w.len() as int) =~= w);
    assert(s.take(w.len() as int) =~= w);
    assert(s.skip((w.len() + 1) as int) =~= argument);
}

/// What a line that begins with a word asks for.
proof fn lemma_spelled_line(w: Seq<u8>, word: Seq<char>, argument: Seq<u8>)
    requires
        spells(w, word),
    ensures
        parsed(w) == command_of(word, None),
        parsed(w + seq![0x20u8] + argument) == command_of(word, Some(argument)),
{
    assert forall|i: int| 0 <= i < w.len() implies w[i] != 0x20 by {
        assert('A' <= word[i] <= 'Z');
    }
    lines_are_words_and_arguments(w, argument);
    assert(is_ascii_chars(word)) by {
        assert forall|i: int| 0 <= i < word.len() implies '\0' <= #[trigger] word[i]
            <= '\u{7f}' by {}
    }
    is_ascii_chars_encode_utf8(word);
    assert(uppered(w) =~= encode_utf8(word)) by {
        assert forall|i: int| 0 <= i < w.len() implies uppered(w)[i] == encode_utf8(word)[i] by {
            assert('A' <= word[i] <= 'Z');
            assert(word[i] as u8 == encode_utf8(word)[i]);
            assert(upper(w[i]) == word[i] as u8);
        }
    }
    encode_utf8_valid_utf8(word);
    encode_utf8_decode_utf8(word);
}

/// No two words of commands are the same.
proof fn lemma_words_differ()
    ensures
        ({
            let words = seq![
                "AUTH"@,
                "CDUP"@,
                "CWD"@,
                "LIST"@,
                "MKD"@,
                "NOOP"@,
                "PASS"@,
                "PASV"@,
                "PORT"@,
                "PWD"@,
                "QUIT"@,
                "RETR"@,
                "RMD"@,
                "STOR"@,
                "SYST"@,
                "TYPE"@,
                "USER"@,
            ];
            forall|i: int, j: int|
                #![trigger words[i], words[j]]
                0 <= i < j < words.len() ==> words[i] != words[j]
        }),
{
    reveal_strlit("AUTH");
    reveal_strlit("CDUP");
    reveal_strlit("CWD");
    reveal_strlit("LIST");
    reveal_strlit("MKD");
    reveal_strlit("NOOP");
    reveal_strlit("PASS");
    reveal_strlit("PASV");
    reveal_strlit("PORT");
    reveal_strlit("PWD");
    reveal_strlit("QUIT");
    reveal_strlit("RETR");
    reveal_strlit("RMD");
    reveal_strlit("STOR");
    reveal_strlit("SYST");
    reveal_strlit("TYPE");
    reveal_strlit("USER");
    let words = seq![
        "AUTH"@,
        "CDUP"@,
        "CWD"@,
        "LIST"@,
        "MKD"@,
        "NOOP"@,
        "PASS"@,
        "PASV"@,
        "PORT"@,
        "PWD"@,
        "QUIT"@,
        "RETR"@,
        "RMD"@,
        "STOR"@,
        "SYST"@,
        "TYPE"@,
        "USER"@,
    ];
    assert forall|i: int, j: int|
        #![trigger words[i], words[j]]
        0 <= i < j < words.len() implies words[i] != words[j] by {
        if words[i] == words[j] {
            assert(words[i].len() == words[j].len());
            assert(words[i][0] == words[j][0]);
            assert(words[i][1] == words[j][1]);
            assert(words[i][2] == words[j][2]);
            assert(words[i].len() == 4 ==> words[i][3] == words[j][3]);
        }
    }
}

/// What the commands ask for, by their words.
proof fn lemma_commands(argument: Option<Seq<u8>>)
    ensures
        command_of("AUTH"@, argument) == Ok::<CommandView, ErrorView>(CommandView::Auth),
        command_of("CDUP"@, argument) == Ok::<CommandView, ErrorView>(CommandView::CdUp),
        command_of("LIST"@, argument) == Ok::<CommandView, ErrorView>(
            CommandView::List(argument),
        ),
        command_of("NOOP"@, argument) == Ok::<CommandView, ErrorView>(CommandView::NoOp),
        command_of("PASV"@, argument) == Ok::<CommandView, ErrorView>(CommandView::Pasv),
        command_of("PWD"@, argument) == Ok::<CommandView, ErrorView>(CommandView::Pwd),
        command_of("QUIT"@, argument) == Ok::<CommandView, ErrorView>(CommandView::Quit),
        command_of("SYST"@, argument) == Ok::<CommandView, ErrorView>(CommandView::Syst),
        argument is None ==> {
            let missing = Err::<CommandView, ErrorView>(ErrorView::Msg("no command parameter"@));
            &&& command_of("CWD"@, argument) == missing
            &&& command_of("MKD"@, argument) == missing
            &&& command_of("PASS"@, argument) == missing
            &&& command_of("PORT"@, argument) == missing
            &&& command_of("RETR"@, argument) == missing
            &&& command_of("RMD"@, argument) == missing
            &&& command_of("STOR"@, argument) == missing
            &&& command_of("TYPE"@, argument) == missing
            &&& command_of("USER"@, argument) == missing
        },
        argument is Some ==> {
            let given = argument->0;
            let faulty = Err::<CommandView, ErrorView>(ErrorView::Msg("invalid UTF-8"@));
            &&& command_of("CWD"@, argument) == Ok::<CommandView, ErrorView>(
                CommandView::Cwd(given),
            )
            &&& command_of("MKD"@, argument) == Ok::<CommandView, ErrorView>(
                CommandView::Mkd(given),
            )
            &&& command_of("RETR"@, argument) == Ok::<CommandView, ErrorView>(
                CommandView::Retr(given),
            )
            &&& command_of("RMD"@, argument) == Ok::<CommandView, ErrorView>(
                CommandView::Rmd(given),
            )
            &&& command_of("STOR"@, argument) == Ok::<CommandView, ErrorView>(
                CommandView::Stor(given),
            )
            &&& valid_utf8(given) ==> command_of("PASS"@, argument) == Ok::<
                CommandView,
                ErrorView,
            >(CommandView::Pass(decode_utf8(given)))
            &&& valid_utf8(given) ==> command_of("USER"@, argument) == Ok::<
                CommandView,
                ErrorView,
            >(CommandView::User(decode_utf8(given)))
            &&& !valid_utf8(given) ==> command_of("PASS"@, argument) == faulty
            &&& !valid_utf8(given) ==> command_of("USER"@, argument) == faulty
            &&& command_of("PORT"@, argument) == match port_of(given) {
                Some(port) => Ok::<CommandView, ErrorView>(CommandView::Port(port as u16)),
                None => Err(ErrorView::Msg("invalid address"@)),
            }
            &&& command_of("TYPE"@, argument) == match type_of(given) {
                Some(kind) => Ok::<CommandView, ErrorView>(CommandView::Type(kind)),
                None => Err(ErrorView::Msg("unknown transfer type"@)),
            }
        },
{
    lemma_words_differ();
    let words = seq![
        "AUTH"@,
        "CDUP"@,
        "CWD"@,
        "LIST"@,
        "MKD"@,
        "NOOP"@,
        "PASS"@,
        "PASV"@,
        "PORT"@,
        "PWD"@,
        "QUIT"@,
        "RETR"@,
        "RMD"@,
        "STOR"@,
        "SYST"@,
        "TYPE"@,
        "USER"@,
    ];
    assert(words[0] == "AUTH"@);
    assert(words[1] == "CDUP"@);
    assert(words[2] == "CWD"@);
    assert(words[3] == "LIST"@);
    assert(words[4] == "MKD"@);
    assert(words[5] == "NOOP"@);
    assert(words[6] == "PASS"@);
    assert(words[7] == "PASV"@);
    assert(words[8] == "PORT"@);
    assert(words[9] == "PWD"@);
    assert(words[10] == "QUIT"@);
    assert(words[11] == "RETR"@);
    assert(words[12] == "RMD"@);
    assert(words[13] == "STOR"@);
    assert(words[14] == "SYST"@);
    assert(words[15] == "TYPE"@);
    assert(words[16] == "USER"@);
}

/// A command that takes a path takes everything behind the first space for it,
/// byte for byte, however the word is written.
pub proof fn lines_carry_their_paths(w: Seq<u8>, path: Seq<u8>)
    ensures
        ({
            let line = w + seq![0x20u8] + path;
            let missing = Err::<CommandView, ErrorView>(ErrorView::Msg("no command parameter"@));
            &&& spells(w, "CWD"@) ==> parsed(line) == Ok::<CommandView, ErrorView>(
                CommandView::Cwd(path),
            ) && parsed(w) == missing
            &&& spells(w, "MKD"@) ==> parsed(line) == Ok::<CommandView, ErrorView>(
                CommandView::Mkd(path),
            ) && parsed(w) == missing
            &&& spells(w, "RETR"@) ==> parsed(line) == Ok::<CommandView, ErrorView>(
                CommandView::Retr(path),
            ) && parsed(w) == missing
            &&& spells(w, "RMD"@) ==> parsed(line) == Ok::<CommandView, ErrorView>(
                CommandView::Rmd(path),
            ) && parsed(w) == missing
            &&& spells(w, "STOR"@) ==> parsed(line) == Ok::<CommandView, ErrorView>(
                CommandView::Stor(path),
            ) && parsed(w) == missing
            &&& spells(w, "LIST"@) ==> parsed(line) == Ok::<CommandView, ErrorView>(
                CommandView::List(Some(path)),
            ) && parsed(w) == Ok::<CommandView, ErrorView>(CommandView::List(None))
        }),
{
    lemma_commands(Some(path));
    lemma_commands(None);
    if spells(w, "CWD"@) {
        lemma_spelled_line(w, "CWD"@, path);
    }
    if spells(w, "MKD"@) {
        lemma_spelled_line(w, "MKD"@, path);
    }
    if spells(w, "RETR"@) {
        lemma_spelled_line(w, "RETR"@, path);
    }
    if spells(w, "RMD"@) {
        lemma_spelled_line(w, "RMD"@, path);
    }
    if spells(w, "STOR"@) {
        lemma_spelled_line(w, "STOR"@, path);
    }
    if spells(w, "LIST"@) {
        lemma_spelled_line(w, "LIST"@, path);
    }
}

/// A command that takes a text takes everything behind the first space for it,
/// where that is text.
pub proof fn lines_carry_their_texts(w: Seq<u8>, text: Seq<char>, bytes: Seq<u8>)
    ensures
        ({
            let line = w + seq![0x20u8] + encode_utf8(text);
            let bad = w + seq![0x20u8] + bytes;
            &&& spells(w, "USER"@) ==> parsed(line) == Ok::<CommandView, ErrorView>(
                CommandView::User(text),
            ) && parsed(w) is Err
            &&& spells(w, "PASS"@) ==> parsed(line) == Ok::<CommandView, ErrorView>(
                CommandView::Pass(text),
            ) && parsed(w) is Err
            &&& spells(w, "USER"@) && !valid_utf8(bytes) ==> parsed(bad) is Err
            &&& spells(w, "PASS"@) && !valid_utf8(bytes) ==> parsed(bad) is Err
        }),
{
    lemma_commands(Some(encode_utf8(text)));
    lemma_commands(Some(bytes));
    lemma_commands(None);
    encode_utf8_valid_utf8(text);
    encode_utf8_decode_utf8(text);
    if spells(w, "USER"@) {
        lemma_spelled_line(w, "USER"@, encode_utf8(text));
        lemma_spelled_line(w, "USER"@, bytes);
    }
    if spells(w, "PASS"@) {
        lemma_spelled_line(w, "PASS"@, encode_utf8(text));
        lemma_spelled_line(w, "PASS"@, bytes);
    }
}

/// A command that takes nothing does not care what follows its word.
pub proof fn lines_of_one_word(w: Seq<u8>, rest: Seq<u8>)
    ensures
        ({
            let line = w + seq![0x20u8] + rest;
            &&& spells(w, "AUTH"@) ==> parsed(line) == parsed(w) && parsed(w) == Ok::<
                CommandView,
                ErrorView,
            >(CommandView::Auth)
            &&& spells(w, "CDUP"@) ==> parsed(line) == parsed(w) && parsed(w) == Ok::<
                CommandView,
                ErrorView,
            >(CommandView::CdUp)
            &&& spells(w, "NOOP"@) ==> parsed(line) == parsed(w) && parsed(w) == Ok::<
                CommandView,
                ErrorView,
            >(CommandView::NoOp)
            &&& spells(w, "PASV"@) ==> parsed(line) == parsed(w) && parsed(w) == Ok::<
                CommandView,
                ErrorView,
            >(CommandView::Pasv)
            &&& spells(w, "PWD"@) ==> parsed(line) == parsed(w) && parsed(w) == Ok::<
                CommandView,
                ErrorView,
            >(CommandView::Pwd)
            &&& spells(w, "QUIT"@) ==> parsed(line) == parsed(w) && parsed(w) == Ok::<
                CommandView,
                ErrorView,
            >(CommandView::Quit)
            &&& spells(w, "SYST"@) ==> parsed(line) == parsed(w) && parsed(w) == Ok::<
                CommandView,
                ErrorView,
            >(CommandView::Syst)
        }),
{
    lemma_commands(Some(rest));
    lemma_commands(None);
    if spells(w, "AUTH"@) {
        lemma_spelled_line(w, "AUTH"@, rest);
    }
    if spells(w, "CDUP"@) {
        lemma_spelled_line(w, "CDUP"@, rest);
    }
    if spells(w, "NOOP"@) {
        lemma_spelled_line(w, "NOOP"@, rest);
    }
    if spells(w, "PASV"@) {
        lemma_spelled_line(w, "PASV"@, rest);
    }
    if spells(w, "PWD"@) {
        lemma_spelled_line(w, "PWD"@, rest);
    }
    if spells(w, "QUIT"@) {
        lemma_spelled_line(w, "QUIT"@, rest);
    }
    if spells(w, "SYST"@) {
        lemma_spelled_line(w, "SYST"@, rest);
    }
}

/// A port is asked for by an address of six bytes, of which the last two give
/// the port. Any other address is an error.
pub proof fn lines_carry_their_ports(w: Seq<u8>, address: Seq<u8>, parts: Seq<Seq<u8>>)
    requires
        spells(w, "PORT"@),
        fields(address) == parts,
    ensures
        ({
            let line = w + seq![0x20u8] + address;
            &&& parsed(w) is Err
            &&& parsed(line) is Ok <==> parts.len() == 6 && forall|k: int| #![trigger parts[k]]
                0 <= k < 6 ==> is_byte(parts[k])
            &&& parsed(line) is Ok ==> parsed(line)->Ok_0 is Port && {
                let port = parsed(line)->Ok_0->Port_0;
                &&& port / 256 == number(parts[4])
                &&& port % 256 == number(parts[5])
            }
        }),
{
    lemma_commands(Some(address));
    lemma_commands(None);
    lemma_spelled_line(w, "PORT"@, address);
    addresses_are_six_bytes(address, parts);
}

/// Every port can be asked for in the way that it is told.
pub proof fn ports_can_be_asked_for(w: Seq<u8>, port: u16)
    requires
        spells(w, "PORT"@),
    ensures
        parsed(
            w + seq![0x20u8] + encode_utf8(
                "127,0,0,1,"@ + digits((port / 256) as nat) + ","@ + digits((port % 256) as nat),
            ),
        ) == Ok::<CommandView, ErrorView>(CommandView::Port(port)),
{
    addresses_name_their_port(port);
    let address = encode_utf8(
        "127,0,0,1,"@ + digits((port / 256) as nat) + ","@ + digits((port % 256) as nat),
    );
    lemma_commands(Some(address));
    lemma_spelled_line(w, "PORT"@, address);
}

/// The code of a transfer type, in capital or in small letters, is one of four.
pub proof fn lines_carry_their_types(w: Seq<u8>, code: Seq<u8>)
    requires
        spells(w, "TYPE"@),
    ensures
        ({
            let line = w + seq![0x20u8] + code;
            let text = decode_utf8(uppered(code));
            &&& parsed(w) is Err
            &&& parsed(line) == Ok::<CommandView, ErrorView>(
                CommandView::Type(TransferType::Ascii),
            ) <==> valid_utf8(uppered(code)) && (text == "A"@ || text == "A N"@)
            &&& parsed(line) == Ok::<CommandView, ErrorView>(
                CommandView::Type(TransferType::Image),
            ) <==> valid_utf8(uppered(code)) && (text == "I"@ || text == "L 8"@)
            &&& parsed(line) is Err || parsed(line)->Ok_0 is Type
        }),
{
    reveal_strlit("A");
    reveal_strlit("A N");
    reveal_strlit("I");
    reveal_strlit("L 8");
    assert("A"@[0] != "I"@[0]);
    assert("A N"@[0] != "L 8"@[0]);
    assert("A"@.len() != "L 8"@.len());
    assert("A N"@.len() != "I"@.len());
    lemma_commands(Some(code));
    lemma_commands(None);
    lemma_spelled_line(w, "TYPE"@, code);
}

/// A word that no command has is told back, in capital letters.
pub proof fn unknown_words_are_told_back(w: Seq<u8>, word: Seq<char>, rest: Seq<u8>)
    requires
        forall|i: int| 0 <= i < w.len() ==> w[i] != 0x20,
        uppered(w) == encode_utf8(word),
        !seq![
            "AUTH"@,
            "CDUP"@,
            "CWD"@,
            "LIST"@,
            "MKD"@,
            "NOOP"@,
            "PASS"@,
            "PASV"@,
            "PORT"@,
            "PWD"@,
            "QUIT"@,
            "RETR"@,
            "RMD"@,
            "STOR"@,
            "SYST"@,
            "TYPE"@,
            "USER"@,
        ].contains(word),
    ensures
        parsed(w) == Ok::<CommandView, ErrorView>(CommandView::Unknown(word)),
        parsed(w + seq![0x20u8] + rest) == Ok::<CommandView, ErrorView>(
            CommandView::Unknown(word),
        ),
{
    let words = seq![
        "AUTH"@,
        "CDUP"@,
        "CWD"@,
        "LIST"@,
        "MKD"@,
        "NOOP"@,
        "PASS"@,
        "PASV"@,
        "PORT"@,
        "PWD"@,
        "QUIT"@,
        "RETR"@,
        "RMD"@,
        "STOR"@,
        "SYST"@,
        "TYPE"@,
        "USER"@,
    ];
    assert forall|i: int| 0 <= i < words.len() implies #[trigger] words[i] != word by {
        if words[i] == word {
            assert(words.contains(word));
        }
    }
    assert(words[0] == "AUTH"@);
    assert(words[1] == "CDUP"@);
    assert(words[2] == "CWD"@);
    assert(words[3] == "LIST"@);
    assert(words[4] == "MKD"@);
    assert(words[5] == "NOOP"@);
    assert(words[6] == "PASS"@);
    assert(words[7] == "PASV"@);
    assert(words[8] == "PORT"@);
    assert(words[9] == "PWD"@);
    assert(words[10] == "QUIT"@);
    assert(words[11] == "RETR"@);
    assert(words[12] == "RMD"@);
    assert(words[13] == "STOR"@);
    assert(words[14] == "SYST"@);
    assert(words[15] == "TYPE"@);
    assert(words[16] == "USER"@);
    lines_are_words_and_arguments(w, rest);
    encode_utf8_valid_utf8(word);
    encode_utf8_decode_utf8(word);
}

/// A line whose first word is no text is an error.
pub proof fn words_are_text(w: Seq<u8>, rest: Seq<u8>)
    requires
        forall|i: int| 0 <= i < w.len() ==> w[i] != 0x20,
        !valid_utf8(uppered(w)),
    ensures
        parsed(w) is Err,
        parsed(w + seq![0x20u8] + rest) is Err,
{
    lines_are_words_and_arguments(w, rest);
}

/// A byte is spelled by one to three digits, and is at most 255.
pub proof fn bytes_have_up_to_three_digits(s: Seq<u8>)
    ensures
        is_byte(s) <==> {
            &&& 1 <= s.len() <= 3
            &&& forall|i: int| 0 <= i < s.len() ==> '0' as u8 <= #[trigger] s[i] <= '9' as u8
            &&& number(s) < 256
        },
{
}

} // verus!
