//! The size of a terminal window, and the escape sequence that carries it
//! in band to the watchers.

use crate::text::{decimal, lemma_decimal_is_short_ascii, push_decimal};
use crate::wire::fits;
use vstd::prelude::*;
use vstd::string::StringExecFns;
use vstd::utf8::{is_ascii_chars, is_ascii_chars_encode_utf8};

verus! {

/// The size of a terminal window, as the terminal driver reports it.
#[derive(Clone, Copy, Debug, PartialEq, Eq, Structural)]
pub struct Winsize {
    /// Rows, in characters.
    pub ws_row: u16,
    /// Columns, in characters.
    pub ws_col: u16,
    /// Horizontal size, in pixels.
    pub ws_xpixel: u16,
    /// Vertical size, in pixels.
    pub ws_ypixel: u16,
}

/// The escape sequence `ESC [ 8 ; rows ; cols t`.
pub open spec fn size_hint(rows: u16, cols: u16) -> Seq<char> {
    seq!['\x1b', '[', '8', ';'] + decimal(rows as nat) + seq![';'] + decimal(cols as nat) + seq![
        't',
    ]
}

/// Whether a text is the size hint of some window.
pub open spec fn is_size_hint(text: Seq<char>) -> bool {
    exists|rows: u16, cols: u16| text == size_hint(rows, cols)
}

/// A size hint is a short ASCII text, so it fits a frame.
pub proof fn lemma_size_hint_fits(rows: u16, cols: u16)
    ensures
        is_ascii_chars(size_hint(rows, cols)),
        fits(size_hint(rows, cols)),
{
    lemma_decimal_is_short_ascii(rows as nat);
    lemma_decimal_is_short_ascii(cols as nat);
    is_ascii_chars_encode_utf8(size_hint(rows, cols));
}

impl Winsize {
    /// The escape sequence that tells a terminal to take this size. Only
    /// rows and columns go into it.
    pub fn hint(&self) -> (text: String)
        ensures
            text@ == size_hint(self.ws_row, self.ws_col),
            is_size_hint(text@),
    {
        proof {
            reveal_strlit("\x1b[8;");
            reveal_strlit(";");
            reveal_strlit("t");
        }
        let mut text = String::from_str("\x1b[8;");
        assert(text@ =~= seq!['\x1b', '[', '8', ';']);
        push_decimal(&mut text, self.ws_row);
        text.append(";");
        push_decimal(&mut text, self.ws_col);
        text.append("t");
        assert(text@ =~= size_hint(self.ws_row, self.ws_col));
        text
    }
}

} // verus!
