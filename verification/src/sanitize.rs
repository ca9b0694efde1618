//! The line sanitizer: removes terminal control sequences from a line of
//! text and keeps every other character.
//!
//! The scanner knows two things about what it has read: whether an escape
//! character is pending, and whether it is inside a control sequence. It is
//! no terminal emulator. In particular an open control sequence ends at a
//! second `[` as well as at a final byte, and a pending escape stays pending
//! until a `[` uses it.

use vstd::prelude::*;

verus! {

/// The escape character, which announces a control sequence.
pub const ESC: char = '\u{1b}';

/// The character that opens a control sequence after an escape.
pub const BRACKET: char = '[';

/// What the scanner remembers between two characters.
#[derive(Clone, Copy, Debug, PartialEq, Eq, Structural)]
pub struct Scan {
    /// An escape character was read and no `[` has used it yet.
    pub escape: bool,
    /// The scanner is inside a control sequence.
    pub csi: bool,
}

/// Whether `c` lies in the range of the bytes that end a control sequence.
pub open spec fn is_final(c: char) -> bool {
    '@' <= c <= '~'
}

impl Scan {
    /// The state before the first character of a line.
    pub open spec fn start() -> Scan {
        Scan { escape: false, csi: false }
    }

    /// The state after reading `c` in state `self`.
    pub open spec fn after(self, c: char) -> Scan {
        if c == ESC {
            Scan { escape: true, csi: self.csi }
        } else if c == BRACKET {
            if self.escape && !self.csi {
                Scan { escape: false, csi: true }
            } else if self.csi {
                Scan { escape: false, csi: false }
            } else {
                self
            }
        } else if is_final(c) {
            Scan { escape: self.escape, csi: false }
        } else {
            self
        }
    }

    /// Whether `c`, read in state `self`, is text and goes to the output.
    pub open spec fn keeps(self, c: char) -> bool {
        if c == ESC {
            false
        } else if c == BRACKET {
            !self.escape && !self.csi
        } else {
            !self.csi
        }
    }

    /// The state before the first character of a line.
    pub fn new() -> (scan: Scan)
        ensures
            scan == Scan::start(),
    {
        Scan { escape: false, csi: false }
    }

    /// Reads one character: returns the next state and whether the character
    /// goes to the output.
    pub fn feed(self, c: char) -> (r: (Scan, bool))
        ensures
            r.0 == self.after(c),
            r.1 == self.keeps(c),
    {
        if c == ESC {
            (Scan { escape: true, csi: self.csi }, false)
        } else if c == BRACKET {
            if self.escape && !self.csi {
                (Scan { escape: false, csi: true }, false)
            } else if self.csi {
                (Scan { escape: false, csi: false }, false)
            } else {
                (self, true)
            }
        } else if '@' <= c && c <= '~' {
            (Scan { escape: self.escape, csi: false }, !self.csi)
        } else {
            (self, !self.csi)
        }
    }
}

/// The state of the scanner after reading all of `s` from the start state.
pub open spec fn scan(s: Seq<char>) -> Scan
    decreases s.len(),
{
    if s.len() == 0 {
        Scan::start()
    } else {
        scan(s.drop_last()).after(s.last())
    }
}

/// The text of `s`: its characters, in order, without those that belong to a
/// control sequence.
pub open spec fn sanitized(s: Seq<char>) -> Seq<char>
    decreases s.len(),
{
    if s.len() == 0 {
        Seq::empty()
    } else if scan(s.drop_last()).keeps(s.last()) {
        sanitized(s.drop_last()).push(s.last())
    } else {
        sanitized(s.drop_last())
    }
}

/// Whether `s` holds no escape character.
pub open spec fn is_plain(s: Seq<char>) -> bool {
    forall|i: int| 0 <= i < s.len() ==> s[i] != ESC
}

/// Removes the control sequences from a line.
pub fn sanitize(line: &[char]) -> (out: Vec<char>)
    ensures
        out@ == sanitized(line@),
{
    let mut state = Scan::new();
    let mut out: Vec<char> = Vec::new();
    let mut i: usize = 0;
    while i < line.len()
        invariant
            i <= line.len(),
            state == scan(line@.take(i as int)),
            out@ == sanitized(line@.take(i as int)),
        decreases line.len() - i,
    {
        assert(line@.take(i + 1).drop_last() == line@.take(i as int));
        let (next, keep) = state.feed(line[i]);
        if keep {
            out.push(line[i]);
        }
        state = next;
        i += 1;
    }
    assert(line@.take(line@.len() as int) == line@);
    out
}

/// The sanitizer never lets an escape character through.
pub proof fn lemma_sanitized_is_plain(s: Seq<char>)
    ensures
        is_plain(sanitized(s)),
    decreases s.len(),
{
    if s.len() > 0 {
        lemma_sanitized_is_plain(s.drop_last());
    }
}

/// The output of the sanitizer is never longer than its input.
pub proof fn lemma_sanitized_len(s: Seq<char>)
    ensures
        sanitized(s).len() <= s.len(),
    decreases s.len(),
{
    if s.len() > 0 {
        lemma_sanitized_len(s.drop_last());
    }
}

/// On text without an escape character the scanner never leaves its start
/// state, and the sanitizer changes nothing, however often it is applied.
pub proof fn lemma_sanitized_plain(s: Seq<char>)
    requires
        is_plain(s),
    ensures
        scan(s) == Scan::start(),
        sanitized(s) == s,
        sanitized(sanitized(s)) == sanitized(s),
    decreases s.len(),
{
    if s.len() > 0 {
        lemma_sanitized_plain(s.drop_last());
    }
}

/// Sanitizing is idempotent: sanitized text is a fixed point of the sanitizer.
pub proof fn lemma_sanitized_idempotent(s: Seq<char>)
    ensures
        sanitized(sanitized(s)) == sanitized(s),
{
    lemma_sanitized_is_plain(s);
    lemma_sanitized_plain(sanitized(s));
}

} // verus!
