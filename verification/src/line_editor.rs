//! A raw-mode line editor: the terminal hands it one byte at a time, and it
//! says what to show and when the line is complete.
use vstd::prelude::*;

use crate::text::string_from_chars;

verus! {

/// The byte that ends the input (Ctrl-D).
pub const CTRL_D: u8 = 4;

/// The byte that interrupts the program (Ctrl-C).
pub const CTRL_C: u8 = 3;

/// Backspace.
pub const BACKSPACE: u8 = 8;

/// Delete, which terminals send for the backspace key.
pub const DELETE: u8 = 127;

/// What the terminal should do after one byte has been read.
pub enum KeyAction {
    /// Enter was pressed: end the screen line and hand the text on.
    Line(String),
    /// Ctrl-D on a non-empty line: hand the text on as it is.
    Finish(String),
    /// Ctrl-D on an empty line: the input is over.
    EndOfInput,
    /// Ctrl-C: end the screen line and quit.
    Interrupt,
    /// A character was added: show it.
    Echo(char),
    /// The last character was removed: erase it on screen.
    Erase,
    /// Nothing to do.
    Ignore,
}

/// The character a typed byte stands for: its code point (Latin-1).
pub open spec fn byte_char(b: u8) -> char {
    b as char
}

/// A byte that is entered into the line as a character.
pub open spec fn is_typed(b: u8) -> bool {
    b >= 0x20 && b != DELETE
}

/// A byte that removes the last character.
pub open spec fn is_erase(b: u8) -> bool {
    b == BACKSPACE || b == DELETE
}

/// A byte that ends the line.
pub open spec fn is_enter(b: u8) -> bool {
    b == 10 || b == 13
}

/// The text typed so far.
pub struct LineEditor {
    buf: Vec<char>,
}

impl View for LineEditor {
    type V = Seq<char>;

    closed spec fn view(&self) -> Seq<char> {
        self.buf@
    }
}

/// What feeding byte `b` to a line holding `line` does: the action and the
/// line afterwards.
pub open spec fn feed_spec(line: Seq<char>, b: u8, action: KeyAction, after: Seq<char>) -> bool {
    if is_enter(b) {
        action matches KeyAction::Line(t) && t@ == line && after == line
    } else if b == CTRL_D {
        after == line && if line.len() == 0 {
            action is EndOfInput
        } else {
            action matches KeyAction::Finish(t) && t@ == line
        }
    } else if b == CTRL_C {
        action is Interrupt && after == line
    } else if is_erase(b) {
        if line.len() > 0 {
            action is Erase && after == line.drop_last()
        } else {
            action is Ignore && after == line
        }
    } else if is_typed(b) {
        action == KeyAction::Echo(byte_char(b)) && after == line.push(byte_char(b))
    } else {
        action is Ignore && after == line
    }
}

impl LineEditor {
    /// An empty line.
    pub fn new() -> (e: LineEditor)
        ensures
            e@ == Seq::<char>::empty(),
    {
        LineEditor { buf: Vec::new() }
    }

    /// The text typed so far.
    pub fn text(&self) -> (s: String)
        ensures
            s@ == self@,
    {
        string_from_chars(self.buf.as_slice())
    }

    /// Takes one byte from the terminal.
    pub fn feed(&mut self, b: u8) -> (action: KeyAction)
        ensures
            feed_spec(old(self)@, b, action, final(self)@),
            0x20 <= b && b != 0x7f ==> action == KeyAction::Echo(b as char) && final(self)@ == old(
                self,
            )@.push(b as char),
            b == 10 || b == 13 ==> (action matches KeyAction::Line(t) && t@ == old(self)@)
                && final(self)@ == old(self)@,
            b == 4 && old(self)@.len() == 0 ==> action is EndOfInput && final(self)@ == old(self)@,
            b == 4 && old(self)@.len() > 0 ==> (action matches KeyAction::Finish(t) && t@ == old(
                self,
            )@) && final(self)@ == old(self)@,
            b == 3 ==> action is Interrupt && final(self)@ == old(self)@,
            (b == 8 || b == 0x7f) && old(self)@.len() > 0 ==> action is Erase && final(self)@ == old(
                self,
            )@.drop_last(),
            (b == 8 || b == 0x7f) && old(self)@.len() == 0 ==> action is Ignore && final(self)@
                == old(self)@,
            b < 0x20 && b != 3 && b != 4 && b != 8 && b != 10 && b != 13 ==> action is Ignore
                && final(self)@ == old(self)@,
    {
        if b == 10 || b == 13 {
            KeyAction::Line(self.text())
        } else if b == CTRL_D {
            if self.buf.len() == 0 {
                KeyAction::EndOfInput
            } else {
                KeyAction::Finish(self.text())
            }
        } else if b == CTRL_C {
            KeyAction::Interrupt
        } else if b == BACKSPACE || b == DELETE {
            match self.buf.pop() {
                Some(_) => KeyAction::Erase,
                None => KeyAction::Ignore,
            }
        } else if b >= 0x20 {
            let c = b as char;
            self.buf.push(c);
            KeyAction::Echo(c)
        } else {
            KeyAction::Ignore
        }
    }

    /// The stream of bytes ended: the text, unless none was typed.
    pub fn end_of_stream(&self) -> (r: Option<String>)
        ensures
            self@.len() == 0 ==> r is None,
            self@.len() > 0 ==> (r matches Some(t) && t@ == self@),
    {
        if self.buf.len() == 0 {
            None
        } else {
            Some(self.text())
        }
    }
}

/// Typing a character and then erasing it leaves the line as it was.
pub proof fn lemma_type_then_erase(line: Seq<char>, b: u8, a1: KeyAction, mid: Seq<char>, a2: KeyAction, after: Seq<char>, e: u8)
    requires
        is_typed(b),
        is_erase(e),
        feed_spec(line, b, a1, mid),
        feed_spec(mid, e, a2, after),
    ensures
        after == line,
        a2 is Erase,
{
    assert(mid.drop_last() =~= line);
}

/// Every byte from `0x20` to `0xff` other than DEL, the space included, is
/// echoed and appended to the line as the character with that code; no
/// other byte appends anything.
pub proof fn lemma_printable_byte_appends(line: Seq<char>, b: u8, action: KeyAction, after: Seq<char>)
    requires
        feed_spec(line, b, action, after),
    ensures
        0x20 <= b && b != 0x7f ==> action == KeyAction::Echo(b as char) && after == line.push(
            b as char,
        ) && after.last() as u32 == b as u32,
        b < 0x20 || b == 0x7f ==> after.len() <= line.len(),
{
    if 0x20 <= b && b != 0x7f {
        assert((b as char) as u32 == b as u32);
    }
}

/// Every character on the line was typed as a byte in `0x20..=0xff` other
/// than DEL.
pub open spec fn only_typed_chars(line: Seq<char>) -> bool {
    forall|i: int| 0 <= i < line.len() ==> {
        let u = #[trigger] line[i] as u32;
        0x20 <= u <= 0xff && u != 0x7f
    }
}

/// Feeding any byte keeps a line of typed characters a line of typed
/// characters.
pub proof fn lemma_feed_keeps_typed_chars(line: Seq<char>, b: u8, action: KeyAction, after: Seq<char>)
    requires
        only_typed_chars(line),
        feed_spec(line, b, action, after),
    ensures
        only_typed_chars(after),
{
    if is_typed(b) && !is_enter(b) && b != CTRL_D && b != CTRL_C && !is_erase(b) {
        assert(after == line.push(b as char));
        assert((b as char) as u32 == b as u32);
        assert forall|i: int| 0 <= i < after.len() implies {
            let u = #[trigger] after[i] as u32;
            0x20 <= u <= 0xff && u != 0x7f
        } by {
            if i < line.len() {
                assert(after[i] == line[i]);
            }
        }
    } else if is_erase(b) && line.len() > 0 && !is_enter(b) {
        assert forall|i: int| 0 <= i < after.len() implies {
            let u = #[trigger] after[i] as u32;
            0x20 <= u <= 0xff && u != 0x7f
        } by {
            assert(after[i] == line[i]);
        }
    }
}

} // verus!
