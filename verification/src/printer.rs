//! The control sequences with which the screen of a terminal is driven.

use vstd::prelude::*;

verus! {

/// The control sequences for one kind of terminal. Each method gives the
/// text that has to be written to the terminal for its effect.
pub struct Printer {
    enable_alt: &'static str,
    disable_alt: &'static str,
    clear: &'static str,
    move_home: &'static str,
}

/// The four control sequences, as texts.
pub struct Sequences {
    pub enable_alt: Seq<char>,
    pub disable_alt: Seq<char>,
    pub clear: Seq<char>,
    pub move_home: Seq<char>,
}

/// The sequences of a terminal that understands ANSI escape codes.
pub open spec fn ansi_sequences() -> Sequences {
    Sequences {
        enable_alt: "\u{001b}[?1049h"@,
        disable_alt: "\u{001b}[?1049l"@,
        clear: "\u{001b}[2J"@,
        move_home: "\u{001b}[H"@,
    }
}

/// The sequences of a terminal that is sent none: all four are empty.
pub open spec fn no_sequences() -> Sequences {
    Sequences { enable_alt: ""@, disable_alt: ""@, clear: ""@, move_home: ""@ }
}

impl View for Printer {
    type V = Sequences;

    closed spec fn view(&self) -> Sequences {
        Sequences {
            enable_alt: self.enable_alt@,
            disable_alt: self.disable_alt@,
            clear: self.clear@,
            move_home: self.move_home@,
        }
    }
}

impl Printer {
    /// The printer for a terminal that understands ANSI escape codes.
    pub fn ansi() -> (printer: Printer)
        ensures
            printer@ == ansi_sequences(),
    {
        Printer {
            enable_alt: "\u{001b}[?1049h",
            disable_alt: "\u{001b}[?1049l",
            clear: "\u{001b}[2J",
            move_home: "\u{001b}[H",
        }
    }

    /// The text that switches to the alternate screen.
    pub fn enable_alternate_screen(&self) -> (text: &'static str)
        ensures
            text@ == self@.enable_alt,
    {
        self.enable_alt
    }

    /// The text that switches back from the alternate screen.
    pub fn disable_alternate_screen(&self) -> (text: &'static str)
        ensures
            text@ == self@.disable_alt,
    {
        self.disable_alt
    }

    /// The text that clears the screen.
    pub fn clear(&self) -> (text: &'static str)
        ensures
            text@ == self@.clear,
    {
        self.clear
    }

    /// The text that moves the cursor to the upper left corner.
    pub fn move_home(&self) -> (text: &'static str)
        ensures
            text@ == self@.move_home,
    {
        self.move_home
    }
}

impl Default for Printer {
    /// The printer for a terminal that is sent no control sequences.
    fn default() -> (printer: Printer)
        ensures
            printer@ == no_sequences(),
    {
        Printer { enable_alt: "", disable_alt: "", clear: "", move_home: "" }
    }
}

} // verus!
