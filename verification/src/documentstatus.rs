//! What the status bar reports about the document.
use vstd::prelude::*;

use crate::text::{char_to_string, debug_str, push_char, str_debug};

verus! {

/// The document's line count, the caret's line, whether it was changed, and
/// its file name.
#[derive(Clone, Debug)]
pub struct DocumentStatus {
    pub lines: usize,
    pub current_line: usize,
    pub is_modified: bool,
    pub file_name: Option<String>,
}

impl Default for DocumentStatus {
    fn default() -> (r: Self)
        ensures
            r.lines == 0,
            r.current_line == 0,
            !r.is_modified,
            r.file_name is None,
    {
        DocumentStatus { lines: 0, current_line: 0, is_modified: false, file_name: None }
    }
}

/// The decimal digit for `d` (`0` to `9`).
pub open spec fn digit_char(d: nat) -> char {
    if d == 0 {
        '0'
    } else if d == 1 {
        '1'
    } else if d == 2 {
        '2'
    } else if d == 3 {
        '3'
    } else if d == 4 {
        '4'
    } else if d == 5 {
        '5'
    } else if d == 6 {
        '6'
    } else if d == 7 {
        '7'
    } else if d == 8 {
        '8'
    } else {
        '9'
    }
}

/// The decimal numeral of `n`, without leading zeros.
pub open spec fn decimal(n: nat) -> Seq<char>
    decreases n,
{
    if n < 10 {
        seq![digit_char(n)]
    } else {
        decimal(n / 10).push(digit_char(n % 10))
    }
}

/// `true` or `false`.
pub open spec fn bool_text(b: bool) -> Seq<char> {
    if b {
        "true"@
    } else {
        "false"@
    }
}

/// The `Debug` rendering of an optional file name.
pub open spec fn file_name_text(f: Option<String>) -> Seq<char> {
    match f {
        Some(name) => "Some("@ + str_debug(name@) + ")"@,
        None => "None"@,
    }
}

/// The `Debug` rendering of a status.
pub open spec fn status_text(s: DocumentStatus) -> Seq<char> {
    "DocumentStatus { lines: "@ + decimal(s.lines as nat) + ", current_line: "@ + decimal(
        s.current_line as nat,
    ) + ", is_modified: "@ + bool_text(s.is_modified) + ", file_name: "@ + file_name_text(
        s.file_name,
    ) + " }"@
}

fn digit(d: usize) -> (r: char)
    requires
        d < 10,
    ensures
        r == digit_char(d as nat),
{
    if d == 0 {
        '0'
    } else if d == 1 {
        '1'
    } else if d == 2 {
        '2'
    } else if d == 3 {
        '3'
    } else if d == 4 {
        '4'
    } else if d == 5 {
        '5'
    } else if d == 6 {
        '6'
    } else if d == 7 {
        '7'
    } else if d == 8 {
        '8'
    } else {
        '9'
    }
}

/// The decimal numeral of `n`.
pub fn decimal_string(n: usize) -> (r: String)
    ensures
        r@ == decimal(n as nat),
    decreases n,
{
    if n < 10 {
        char_to_string(digit(n))
    } else {
        let mut s = decimal_string(n / 10);
        push_char(&mut s, digit(n % 10));
        s
    }
}

impl DocumentStatus {
    /// The `Debug` rendering of the status, as the status bar shows it.
    pub fn debug_text(&self) -> (r: String)
        ensures
            r@ == status_text(*self),
    {
        let mut s = "DocumentStatus { lines: ".to_owned();
        let lines = decimal_string(self.lines);
        s.append(lines.as_str());
        s.append(", current_line: ");
        let current = decimal_string(self.current_line);
        s.append(current.as_str());
        s.append(", is_modified: ");
        if self.is_modified {
            s.append("true");
        } else {
            s.append("false");
        }
        s.append(", file_name: ");
        match &self.file_name {
            Some(name) => {
                s.append("Some(");
                let shown = debug_str(name.as_str());
                s.append(shown.as_str());
                s.append(")");
            },
            None => {
                s.append("None");
            },
        }
        s.append(" }");
        proof {
            assert(s@ =~= status_text(*self));
        }
        s
    }
}

} // verus!
