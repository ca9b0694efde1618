//! Device drivers: what a session has to know about one dialect of remote
//! shell. A driver tracks the mode of the shell, turns each chunk of bytes
//! read from the channel into lines of text, and knows how the dialect asks
//! for more privilege.

pub mod linux;

use crate::sanitize::{
    is_plain, lemma_sanitized_is_plain, lemma_sanitized_plain, sanitize, sanitized,
};
use crate::text::{
    chars_of, lemma_first_newline_is, lemma_trim, lines, rows, split_lines, string_of, texts,
    trim, trim_chars, white_space,
};
use vstd::prelude::*;
use vstd::utf8::{decode_utf8, valid_utf8};

verus! {

/// The privilege level that the remote shell last announced by its prompt.
/// `Undefined` stands for "no prompt seen yet": it is the mode before the
/// first prompt and while an answer is still on its way.
#[derive(Clone, Copy, Debug, PartialEq, Eq, Structural)]
pub enum Mode {
    User,
    Superuser,
    Config,
    Undefined,
}

/// An error with a cause in words.
#[derive(Debug)]
pub struct NetrukoError {
    caused_by: Box<str>,
}

impl NetrukoError {
    /// The cause, as text.
    pub closed spec fn cause(&self) -> Seq<char> {
        self.caused_by@
    }

    pub fn new(new_cause: Box<str>) -> (error: Self)
        ensures
            error.cause() == new_cause@,
    {
        Self { caused_by: new_cause }
    }

    /// The cause, as text.
    pub fn description(&self) -> (cause: &str)
        ensures
            cause@ == self.cause(),
    {
        &*self.caused_by
    }
}

/// Why a chunk of bytes could not be read.
#[derive(Clone, Copy, Debug, PartialEq, Eq, Structural)]
pub enum ParseError {
    /// The bytes are no UTF-8 text.
    Decode,
}

/// `russh::CryptoVec`, the byte buffer in which the channel delivers data.
/// Nothing is known of its inside but the bytes it holds.
#[verifier::external_type_specification]
#[verifier::external_body]
pub struct ExCryptoVec(russh::CryptoVec);

/// The bytes that a `CryptoVec` holds, in order: the slice that it
/// dereferences to.
pub uninterp spec fn cryptovec_bytes(v: russh::CryptoVec) -> Seq<u8>;

/// Copies the bytes out of a `CryptoVec`. `<CryptoVec as Deref>::deref`
/// hands out the slice of the bytes that the buffer holds, and the copy is
/// that slice as a vector. The buffer itself is not touched.
#[verifier::external_body]
pub(crate) fn bytes_of(v: &russh::CryptoVec) -> (bytes: Vec<u8>)
    ensures
        bytes@ == cryptovec_bytes(*v),
{
    v.to_vec()
}

/// `core::str::Utf8Error`, the error of `core::str::from_utf8`.
#[verifier::external_type_specification]
#[verifier::external_body]
pub struct ExUtf8Error(core::str::Utf8Error);

/// `core::str::from_utf8` accepts exactly the byte slices that are valid
/// UTF-8, and the string slice it returns holds the characters that those
/// bytes encode.
pub assume_specification[ core::str::from_utf8 ](v: &[u8]) -> (r: Result<
    &str,
    core::str::Utf8Error,
>)
    ensures
        r is Ok <==> valid_utf8(v@),
        r matches Ok(s) ==> s@ == decode_utf8(v@),
;

/// The lines that are left of `ls` when each is sanitized and trimmed and
/// the empty ones are dropped.
pub open spec fn cleaned(ls: Seq<Seq<char>>) -> Seq<Seq<char>>
    decreases ls.len(),
{
    if ls.len() == 0 {
        Seq::empty()
    } else {
        let line = trim(sanitized(ls.last()));
        if line.len() > 0 {
            cleaned(ls.drop_last()).push(line)
        } else {
            cleaned(ls.drop_last())
        }
    }
}

/// The logical lines of one chunk of text: the text is trimmed and split
/// into lines, each line is sanitized and trimmed, and empty lines are
/// dropped.
pub open spec fn clean_lines(text: Seq<char>) -> Seq<Seq<char>> {
    cleaned(lines(trim(text)))
}

/// Every logical line holds text: it is not empty, it neither starts nor
/// ends with whitespace, and it holds no escape character.
pub proof fn lemma_cleaned_lines_hold_text(ls: Seq<Seq<char>>, i: int)
    requires
        0 <= i < cleaned(ls).len(),
    ensures
        cleaned(ls)[i].len() > 0,
        !white_space(cleaned(ls)[i][0]),
        !white_space(cleaned(ls)[i].last()),
        is_plain(cleaned(ls)[i]),
    decreases ls.len(),
{
    let clean = sanitized(ls.last());
    let line = trim(clean);
    if line.len() > 0 && i == cleaned(ls).len() - 1 {
        lemma_trim(clean);
        lemma_sanitized_is_plain(ls.last());
    } else {
        lemma_cleaned_lines_hold_text(ls.drop_last(), i);
    }
}

/// A chunk that is one line of plain text has one logical line, its text
/// trimmed, or none if nothing is left of it. It is enough that the
/// trimmed text holds neither a line feed nor an escape character.
pub proof fn lemma_one_line(text: Seq<char>)
    requires
        is_plain(trim(text)),
        forall|i: int| 0 <= i < trim(text).len() ==> trim(text)[i] != '\n',
    ensures
        trim(text).len() > 0 ==> clean_lines(text) == seq![trim(text)],
        trim(text).len() == 0 ==> clean_lines(text) == Seq::<Seq<char>>::empty(),
{
    let line = trim(text);
    lemma_trim(text);
    if line.len() > 0 {
        lemma_first_newline_is(line, line.len() as int);
        lemma_sanitized_plain(line);
        let none = Seq::<Seq<char>>::empty();
        assert(seq![line].drop_last() == none);
        assert(cleaned(none) == none);
    }
}

/// There are no more logical lines than lines.
pub proof fn lemma_cleaned_len(ls: Seq<Seq<char>>)
    ensures
        cleaned(ls).len() <= ls.len(),
    decreases ls.len(),
{
    if ls.len() > 0 {
        lemma_cleaned_len(ls.drop_last());
    }
}

/// What one read of text yields: the completed lines of output, in the
/// order of their arrival, and the mode of the shell after it.
pub struct Parsed {
    pub lines: Seq<Seq<char>>,
    pub mode: Mode,
}

/// What a driver makes of one chunk of bytes: the lines that it returns, or
/// `None` where it refuses the bytes, and the mode that it is in afterwards.
pub struct Reading {
    pub lines: Option<Seq<Seq<char>>>,
    pub mode: Mode,
}

/// The lines that `get_input` has returned, if it has returned any.
pub open spec fn lines_of(result: Result<Vec<String>, ParseError>) -> Option<Seq<Seq<char>>> {
    match result {
        Ok(found) => Some(texts(found@)),
        Err(_) => None,
    }
}

/// The text that a chunk of bytes encodes, if it is UTF-8.
pub fn decode(raw: &[u8]) -> (text: Result<Vec<char>, ParseError>)
    ensures
        text is Ok <==> valid_utf8(raw@),
        text matches Ok(chars) ==> chars@ == decode_utf8(raw@),
        text matches Err(e) ==> e == ParseError::Decode,
{
    match core::str::from_utf8(raw) {
        Ok(s) => Ok(chars_of(s)),
        Err(_) => Err(ParseError::Decode),
    }
}

/// The logical lines of one chunk of text.
pub fn read_lines(text: &[char]) -> (out: Vec<Vec<char>>)
    ensures
        rows(out@) == clean_lines(text@),
{
    let trimmed = trim_chars(text);
    let raw = split_lines(trimmed.as_slice());
    let mut out: Vec<Vec<char>> = Vec::new();
    let mut i: usize = 0;
    while i < raw.len()
        invariant
            i <= raw.len(),
            rows(out@) == cleaned(rows(raw@).take(i as int)),
        decreases raw.len() - i,
    {
        assert(rows(raw@).take(i + 1).drop_last() == rows(raw@).take(i as int));
        let clean = sanitize(raw[i].as_slice());
        let line = trim_chars(clean.as_slice());
        if line.len() > 0 {
            out.push(line);
        }
        i += 1;
    }
    assert(rows(raw@).take(raw@.len() as int) == rows(raw@));
    out
}

/// Turns lines of characters into strings.
pub fn to_strings(found: &Vec<Vec<char>>) -> (out: Vec<String>)
    ensures
        texts(out@) == rows(found@),
{
    let mut out: Vec<String> = Vec::new();
    let mut i: usize = 0;
    while i < found.len()
        invariant
            i <= found.len(),
            texts(out@) == rows(found@).take(i as int),
        decreases found.len() - i,
    {
        let line = string_of(found[i].as_slice());
        assert(rows(found@).take(i + 1) == rows(found@).take(i as int).push(found@[i as int]@));
        out.push(line);
        i += 1;
    }
    out
}

/// The interface of a dialect. A session owns one driver and talks to the
/// remote shell through it.
///
/// All that a driver remembers is the mode. What it makes of a chunk of
/// bytes, the exchanges by which privilege is raised and configuration mode
/// is entered, and whether the dialect has them at all, belong to the
/// dialect: they are spec functions of the implementing type, and the
/// methods are specified over them.
pub trait NetrukoDriver {
    /// The mode that the driver tracks.
    spec fn mode(&self) -> Mode;

    /// What a driver of this dialect, in mode `mode`, makes of one chunk of
    /// bytes.
    spec fn reads(mode: Mode, raw: Seq<u8>) -> Reading;

    /// The command that raises privilege in this dialect, and the text by
    /// which the shell then asks for the secret.
    spec fn escalation() -> (Seq<char>, Seq<char>);

    /// The command that enters configuration mode in this dialect, and the
    /// prompt that the shell is expected to show then. Both are empty where
    /// the dialect has no configuration mode.
    spec fn configuration() -> (Seq<char>, Seq<char>);

    /// Whether the dialect can raise privilege.
    spec fn supports_escalation() -> bool;

    /// Whether the dialect has a configuration mode.
    spec fn supports_configuration() -> bool;

    fn get_mode(&self) -> (mode: Mode)
        ensures
            mode == self.mode(),
    ;

    fn set_mode(&mut self, mode: Mode)
        ensures
            final(self).mode() == mode,
    ;

    /// Reads one chunk of bytes from the channel: returns the completed
    /// lines, or an error where the bytes cannot be read, and records the
    /// mode that the chunk announces.
    fn get_input(&mut self, input: &mut russh::CryptoVec) -> (result: Result<
        Vec<String>,
        ParseError,
    >)
        ensures
            (Reading { lines: lines_of(result), mode: final(self).mode() }) == Self::reads(
                old(self).mode(),
                cryptovec_bytes(*old(input)),
            ),
    ;

    fn do_become(&mut self) -> (exchange: (String, String))
        ensures
            (exchange.0@, exchange.1@) == Self::escalation(),
    ;

    fn can_become(self) -> (supported: bool)
        ensures
            supported == Self::supports_escalation(),
    ;

    fn can_config(self) -> (supported: bool)
        ensures
            supported == Self::supports_configuration(),
    ;

    fn do_config(self) -> (exchange: (String, String))
        ensures
            (exchange.0@, exchange.1@) == Self::configuration(),
    ;
}

} // verus!
