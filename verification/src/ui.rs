//! Whether output is styled, and how that is decided.

use vstd::prelude::*;
use vstd::string::StringExecFns;
use console::StyledObject;
use crate::text::{str_eq, string_push};

verus! {

/// `console::StyledObject`: a value together with the style it is shown
/// in. Opaque here.
#[verifier::external_type_specification]
#[verifier::external_body]
#[verifier::reject_recursive_types(D)]
pub struct ExStyledObject<D>(StyledObject<D>);

/// `StyledObject::force_styling`: switches the object's styling on or off,
/// over the styling library's own detection. Nothing is claimed of the
/// object that comes back: it is opaque here.
#[verifier::external_body]
fn force_styling<D>(obj: StyledObject<D>, value: bool) -> (styled: StyledObject<D>) {
    obj.force_styling(value)
}

/// Whether `styled` is what `StyledObject::force_styling` made of `obj`
/// when it was told to switch styling on (`value`) or off.
pub closed spec fn forced_styling<D>(
    obj: StyledObject<D>,
    value: bool,
    styled: StyledObject<D>,
) -> bool {
    call_ensures(force_styling::<D>, (obj, value), styled)
}

/// Applies the formatting that output needs, or leaves it out.
#[derive(Debug, Clone, Copy, PartialEq, Eq, Structural)]
pub struct UI {
    should_strip_ansi: bool,
}

/// What a value of `FORCE_COLOR` asks for: `Some(true)` to strip styling,
/// `Some(false)` to keep it, none when the value says neither.
pub open spec fn force_color_setting(value: Seq<char>) -> Option<bool> {
    if value == "false"@ || value == "0"@ {
        Some(true)
    } else if value == "true"@ || value == "1"@ || value == "2"@ || value == "3"@ {
        Some(false)
    } else {
        None
    }
}

/// Whether styling is stripped, given the value of `FORCE_COLOR`, if it is
/// set, and whether standard output is a terminal: the variable decides
/// where it says anything, the terminal otherwise.
pub open spec fn strips_ansi(force_color: Option<Seq<char>>, stdout_is_tty: bool) -> bool {
    let setting = match force_color {
        Some(value) => force_color_setting(value),
        None => None,
    };
    match setting {
        Some(strip) => strip,
        None => !stdout_is_tty,
    }
}

/// Reads a value of `FORCE_COLOR`.
pub fn parse_force_color(value: &str) -> (setting: Option<bool>)
    ensures
        setting == force_color_setting(value@),
{
    if str_eq(value, "false") || str_eq(value, "0") {
        Some(true)
    } else if str_eq(value, "true") || str_eq(value, "1") || str_eq(value, "2") || str_eq(
        value,
        "3",
    ) {
        Some(false)
    } else {
        None
    }
}

/// The decimal digit `d`.
pub open spec fn digit(d: u8) -> Seq<char> {
    if d == 0 {
        "0"@
    } else if d == 1 {
        "1"@
    } else if d == 2 {
        "2"@
    } else if d == 3 {
        "3"@
    } else if d == 4 {
        "4"@
    } else if d == 5 {
        "5"@
    } else if d == 6 {
        "6"@
    } else if d == 7 {
        "7"@
    } else if d == 8 {
        "8"@
    } else {
        "9"@
    }
}

/// The decimal numeral of a byte, without leading zeros.
pub open spec fn decimal(n: u8) -> Seq<char> {
    if n < 10 {
        digit(n)
    } else if n < 100 {
        digit(n / 10) + digit(n % 10)
    } else {
        digit(n / 100) + digit((n / 10) % 10) + digit(n % 10)
    }
}

/// One character of rainbow text: the character in bold, in the 24-bit
/// color `(r, g, b)`, followed by a reset that keeps the bold.
pub open spec fn rainbow_cell_of(r: u8, g: u8, b: u8, c: char) -> Seq<char> {
    "\x1b[1m\x1b[38;2;"@ + decimal(r) + ";"@ + decimal(g) + ";"@ + decimal(b) + "m"@ + seq![c]
        + "\x1b[0m\x1b[0;1m"@
}

fn digit_str(d: u8) -> (text: &'static str)
    requires
        d < 10,
    ensures
        text@ == digit(d),
{
    match d {
        0 => "0",
        1 => "1",
        2 => "2",
        3 => "3",
        4 => "4",
        5 => "5",
        6 => "6",
        7 => "7",
        8 => "8",
        _ => "9",
    }
}

fn append_decimal(text: &mut String, n: u8)
    ensures
        final(text)@ == old(text)@ + decimal(n),
{
    if n >= 100 {
        text.append(digit_str(n / 100));
    }
    if n >= 10 {
        text.append(digit_str((n / 10) % 10));
    }
    text.append(digit_str(n % 10));
    assert(text@ =~= old(text)@ + decimal(n));
}

/// The escape sequence that shows `c` as one character of rainbow text in
/// the color `(r, g, b)`.
pub fn rainbow_cell(r: u8, g: u8, b: u8, c: char) -> (cell: String)
    ensures
        cell@ == rainbow_cell_of(r, g, b, c),
{
    let mut cell = "\x1b[1m\x1b[38;2;".to_owned();
    append_decimal(&mut cell, r);
    cell.append(";");
    append_decimal(&mut cell, g);
    cell.append(";");
    append_decimal(&mut cell, b);
    cell.append("m");
    string_push(&mut cell, c);
    cell.append("\x1b[0m\x1b[0;1m");
    assert(cell@ =~= rainbow_cell_of(r, g, b, c));
    cell
}

impl UI {
    /// Whether styling is left out of what is shown.
    pub closed spec fn strips(&self) -> bool {
        self.should_strip_ansi
    }

    /// The formatting that strips styling, or keeps it, as told.
    pub fn new(should_strip_ansi: bool) -> (ui: Self)
        ensures
            ui.strips() == should_strip_ansi,
    {
        Self { should_strip_ansi }
    }

    /// Infers the color choice from the value of `FORCE_COLOR`, if it is
    /// set, and from whether standard output is a terminal.
    pub fn infer_from(force_color: Option<&str>, stdout_is_tty: bool) -> (ui: Self)
        ensures
            ui.strips() == strips_ansi(
                match force_color {
                    Some(value) => Some(value@),
                    None => None,
                },
                stdout_is_tty,
            ),
    {
        let setting = match force_color {
            Some(value) => parse_force_color(value),
            None => None,
        };
        let should_strip_ansi = match setting {
            Some(strip) => strip,
            None => !stdout_is_tty,
        };
        Self { should_strip_ansi }
    }

    /// Whether styling is left out of what is shown.
    #[verifier::when_used_as_spec(strips)]
    pub fn should_strip_ansi(&self) -> (strip: bool)
        ensures
            strip == self.strips(),
    {
        self.should_strip_ansi
    }

    /// Whether a styled object is made to emit its styling, whatever the
    /// terminal detection of the styling library says.
    pub fn forces_styling(&self) -> (force: bool)
        ensures
            force == !self.strips(),
    {
        !self.should_strip_ansi
    }

    /// Applies the color mode to the given styled object: the object is
    /// handed to `StyledObject::force_styling` with styling on unless it is
    /// stripped, so that no escape code is emitted when styling is stripped.
    pub fn apply<D>(&self, obj: StyledObject<D>) -> (styled: StyledObject<D>)
        ensures
            forced_styling(obj, !self.strips(), styled),
    {
        force_styling(obj, self.forces_styling())
    }
}

} // verus!
