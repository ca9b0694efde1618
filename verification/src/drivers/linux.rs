//! The driver for a Unix shell: `$` ends the prompt of an ordinary user, `#`
//! the prompt of the superuser, and `su` raises privilege.
//!
//! A prompt is known by its last character alone. Host names and paths in
//! front of it may hold anything, a marker included.

use crate::drivers::{
    bytes_of, clean_lines, cryptovec_bytes, decode, lemma_cleaned_lines_hold_text,
    lemma_one_line, lines_of, read_lines, to_strings, Mode, NetrukoDriver, ParseError, Parsed,
    Reading,
};
use crate::sanitize::{is_plain, sanitize, sanitized};
use crate::text::{chars_of, lines, lowercase, rows, same_text, string_of, texts, trim};
use vstd::prelude::*;
use vstd::utf8::{decode_utf8, valid_utf8};

verus! {

/// The marker of an ordinary user's prompt.
pub const USER: char = '$';

/// The marker of the superuser's prompt.
pub const SUPERUSER: char = '#';

/// The mode that a prompt marker stands for.
pub open spec fn marker_mode(c: char) -> Option<Mode> {
    if c == USER {
        Some(Mode::User)
    } else if c == SUPERUSER {
        Some(Mode::Superuser)
    } else {
        None
    }
}

/// The mode that a line announces: that of the marker it ends in. A line
/// that does not end in a marker is no prompt, whatever it holds before its
/// end.
pub open spec fn prompt_mode(line: Seq<char>) -> Option<Mode> {
    if line.len() == 0 {
        None
    } else {
        marker_mode(line.last())
    }
}

/// What a driver in mode `mode` makes of one chunk of text. Where the last
/// logical line is a prompt, it is taken off the lines and gives the new
/// mode; otherwise every line is output and the mode stays.
pub open spec fn parsed(mode: Mode, text: Seq<char>) -> Parsed {
    let all = clean_lines(text);
    if all.len() > 0 && prompt_mode(all.last()) is Some {
        Parsed { lines: all.drop_last(), mode: prompt_mode(all.last())->0 }
    } else {
        Parsed { lines: all, mode }
    }
}

/// What a driver in mode `mode` makes of one chunk of bytes. Bytes that are
/// UTF-8 are read as the text they encode. Any others are refused, and the
/// mode stays.
pub open spec fn reading(mode: Mode, raw: Seq<u8>) -> Reading {
    if valid_utf8(raw) {
        Reading {
            lines: Some(parsed(mode, decode_utf8(raw)).lines),
            mode: parsed(mode, decode_utf8(raw)).mode,
        }
    } else {
        Reading { lines: None, mode }
    }
}

/// Whether `name` is the name of this dialect, in whatever case.
pub open spec fn names_linux(name: Seq<char>) -> bool {
    lowercase(name) == "linux"@
}

/// The command that asks for superuser rights.
pub open spec fn become_command() -> Seq<char> {
    "su"@
}

/// The text by which `su` asks for the password.
pub open spec fn become_prompt() -> Seq<char> {
    "Password:"@
}

/// Whether `c` is one of the prompt markers of this dialect.
pub open spec fn is_marker(c: char) -> bool {
    c == USER || c == SUPERUSER
}

/// The marker at the very end of a line decides. A line that ends in `$`
/// is a prompt for an ordinary user and one that ends in `#` a prompt for
/// the superuser, whatever stands before the last character.
pub proof fn lemma_trailing_marker_decides(line: Seq<char>)
    requires
        line.len() > 0,
    ensures
        prompt_mode(line) == marker_mode(line.last()),
        line.last() == USER ==> prompt_mode(line) == Some(Mode::User),
        line.last() == SUPERUSER ==> prompt_mode(line) == Some(Mode::Superuser),
        forall|head: Seq<char>| prompt_mode(head.push(line.last())) == prompt_mode(line),
{
}

/// A line is a prompt exactly if its last character is a marker, and a
/// prompt is for an ordinary user or for the superuser. A marker anywhere
/// else in the line makes no prompt.
pub proof fn lemma_prompt_ends_in_marker(line: Seq<char>)
    ensures
        prompt_mode(line) is Some <==> line.len() > 0 && is_marker(line.last()),
        prompt_mode(line) is Some ==> prompt_mode(line) == Some(Mode::User) || prompt_mode(line)
            == Some(Mode::Superuser),
        line.len() > 0 && !is_marker(line.last()) ==> prompt_mode(line) is None,
{
}

/// Mode detection. A chunk that has no logical line, or whose last logical
/// line does not end in a marker, leaves the mode as it is and returns
/// every line, the last one included. A chunk whose last logical line ends
/// in a marker returns the lines before that one and sets the mode of the
/// marker: `User` for `$` and `Superuser` for `#`.
pub proof fn lemma_mode_detection(mode: Mode, text: Seq<char>)
    ensures
        clean_lines(text).len() == 0 ==> parsed(mode, text) == (Parsed {
            lines: Seq::empty(),
            mode,
        }),
        clean_lines(text).len() > 0 && !is_marker(clean_lines(text).last().last()) ==> parsed(
            mode,
            text,
        ) == (Parsed { lines: clean_lines(text), mode }),
        clean_lines(text).len() > 0 && clean_lines(text).last().last() == USER ==> parsed(
            mode,
            text,
        ) == (Parsed { lines: clean_lines(text).drop_last(), mode: Mode::User }),
        clean_lines(text).len() > 0 && clean_lines(text).last().last() == SUPERUSER ==> parsed(
            mode,
            text,
        ) == (Parsed { lines: clean_lines(text).drop_last(), mode: Mode::Superuser }),
{
    if clean_lines(text).len() > 0 {
        lemma_cleaned_lines_hold_text(lines(trim(text)), clean_lines(text).len() - 1);
    } else {
        assert(clean_lines(text) == Seq::<Seq<char>>::empty());
    }
}

/// What the driver makes of a chunk that is one line of plain text. If
/// the line ends in a marker, it is a prompt: nothing is returned and the
/// mode is that of the marker. Otherwise the line is returned and the mode
/// stays.
pub proof fn lemma_one_line_chunk(mode: Mode, text: Seq<char>)
    requires
        trim(text).len() > 0,
        is_plain(trim(text)),
        forall|i: int| 0 <= i < trim(text).len() ==> trim(text)[i] != '\n',
    ensures
        !is_marker(trim(text).last()) ==> parsed(mode, text) == (Parsed {
            lines: seq![trim(text)],
            mode,
        }),
        trim(text).last() == USER ==> parsed(mode, text) == (Parsed {
            lines: Seq::empty(),
            mode: Mode::User,
        }),
        trim(text).last() == SUPERUSER ==> parsed(mode, text) == (Parsed {
            lines: Seq::empty(),
            mode: Mode::Superuser,
        }),
{
    lemma_one_line(text);
    assert(seq![trim(text)].drop_last() == Seq::<Seq<char>>::empty());
}

/// The text by which `su` asks for the password is one line of plain
/// text and no prompt.
pub proof fn lemma_become_prompt_is_text()
    ensures
        become_prompt().len() == 9,
        is_plain(become_prompt()),
        forall|i: int| 0 <= i < become_prompt().len() ==> become_prompt()[i] != '\n',
        !is_marker(become_prompt().last()),
{
    reveal_strlit("Password:");
}

/// The mode that a line announces, if it is a prompt.
pub fn find_prompt(line: &[char]) -> (found: Option<Mode>)
    ensures
        found == prompt_mode(line@),
{
    if line.len() == 0 {
        return None;
    }
    let last = line[line.len() - 1];
    if last == USER {
        Some(Mode::User)
    } else if last == SUPERUSER {
        Some(Mode::Superuser)
    } else {
        None
    }
}

pub struct Linux {
    mode: Mode,
}

impl Linux {
    pub fn new() -> (driver: Self)
        ensures
            driver.mode() == Mode::Undefined,
    {
        Self { mode: Mode::Undefined }
    }

    /// Whether `name` is the name of this dialect, in whatever case.
    pub fn is_named(name: &str) -> (named: bool)
        ensures
            named == names_linux(name@),
    {
        let lowered = name.to_lowercase();
        Linux::is_name(lowered.as_str())
    }

    /// Whether `name` is exactly the name of this dialect.
    pub fn is_name(name: &str) -> (named: bool)
        ensures
            named == (name@ == "linux"@),
    {
        same_text(name, "linux")
    }

    /// The text of a line: the line without its control sequences.
    pub fn parse_string(&self, input: String) -> (out: String)
        ensures
            out@ == sanitized(input@),
    {
        let chars = chars_of(input.as_str());
        let clean = sanitize(chars.as_slice());
        string_of(clean.as_slice())
    }

    /// Reads one chunk of bytes. Bytes that are UTF-8 are read as the text
    /// they encode. Any others are refused, and the mode stays.
    pub fn parse_bytes(&mut self, raw: &[u8]) -> (result: Result<Vec<String>, ParseError>)
        ensures
            (Reading { lines: lines_of(result), mode: final(self).mode() }) == reading(
                old(self).mode(),
                raw@,
            ),
            result is Ok <==> valid_utf8(raw@),
            result matches Err(e) ==> e == ParseError::Decode,
    {
        match decode(raw) {
            Ok(text) => Ok(self.parse_text(text.as_slice())),
            Err(e) => Err(e),
        }
    }

    /// Reads one chunk of text: returns its completed lines and records the
    /// mode that its last line announces, if that line is a prompt.
    pub fn parse_text(&mut self, text: &[char]) -> (found: Vec<String>)
        ensures
            (Parsed { lines: texts(found@), mode: final(self).mode() }) == parsed(
                old(self).mode(),
                text@,
            ),
    {
        let mut all = read_lines(text);
        let ghost before = rows(all@);
        if all.len() > 0 {
            let last = all.pop().unwrap();
            assert(rows(all@) == before.drop_last());
            match find_prompt(last.as_slice()) {
                Some(mode) => {
                    self.mode = mode;
                },
                None => {
                    all.push(last);
                    assert(rows(all@) == before);
                },
            }
        }
        to_strings(&all)
    }
}

impl NetrukoDriver for Linux {
    closed spec fn mode(&self) -> Mode {
        self.mode
    }

    open spec fn reads(mode: Mode, raw: Seq<u8>) -> Reading {
        reading(mode, raw)
    }

    open spec fn escalation() -> (Seq<char>, Seq<char>) {
        (become_command(), become_prompt())
    }

    open spec fn configuration() -> (Seq<char>, Seq<char>) {
        (Seq::empty(), Seq::empty())
    }

    open spec fn supports_escalation() -> bool {
        true
    }

    open spec fn supports_configuration() -> bool {
        false
    }

    fn get_mode(&self) -> (mode: Mode) {
        self.mode
    }

    fn set_mode(&mut self, mode: Mode) {
        self.mode = mode;
    }

    /// Reads one chunk of bytes from the channel. Fails, and leaves the
    /// mode as it is, exactly when the bytes are no UTF-8. The buffer is
    /// left as it was.
    fn get_input(&mut self, input: &mut russh::CryptoVec) -> (result: Result<
        Vec<String>,
        ParseError,
    >)
        ensures
            cryptovec_bytes(*final(input)) == cryptovec_bytes(*old(input)),
            result is Ok <==> valid_utf8(cryptovec_bytes(*old(input))),
            result matches Err(e) ==> e == ParseError::Decode && final(self).mode() == old(
                self,
            ).mode(),
    {
        let buffer = bytes_of(input);
        self.parse_bytes(buffer.as_slice())
    }

    fn do_become(&mut self) -> (exchange: (String, String))
        ensures
            final(self).mode() == old(self).mode(),
    {
        ("su".to_owned(), "Password:".to_owned())
    }

    fn can_become(self) -> (supported: bool) {
        true
    }

    fn can_config(self) -> (supported: bool) {
        false
    }

    fn do_config(self) -> (exchange: (String, String)) {
        (String::new(), String::new())
    }
}

} // verus!
