//! Colours of the terminal UI.

use vstd::prelude::*;

use crate::text;

verus! {

/// A terminal colour.
#[derive(Clone, Copy, Debug, PartialEq, Eq, Structural)]
pub enum Colour {
    Cyan,
    Magenta,
    Green,
    Yellow,
    Red,
    Gray,
    DarkGray,
    Rgb(u8, u8, u8),
}

/// How a piece of text is shown.
#[derive(Clone, Copy, Debug, PartialEq, Eq, Structural)]
pub struct Tone {
    pub fg: Option<Colour>,
    pub bold: bool,
}

/// What the terminal is asked for and can do.
#[derive(Clone, Copy, Debug, PartialEq, Eq, Structural)]
pub struct Palette {
    /// Output stays monochrome.
    pub no_color: bool,
    /// 24-bit colours can be shown.
    pub truecolor: bool,
}

/// Text as the terminal shows it by default.
pub open spec fn plain() -> Tone {
    Tone { fg: None, bold: false }
}

/// A colour, unless output stays monochrome.
pub open spec fn coloured(p: Palette, c: Colour) -> Tone {
    if p.no_color {
        plain()
    } else {
        Tone { fg: Some(c), bold: false }
    }
}

/// The `NO_COLOR` convention: the variable counts when it is set, whatever it holds.
pub fn no_color_active(no_color: Option<&str>) -> (b: bool)
    ensures
        b == (no_color is Some),
{
    no_color.is_some()
}

/// 24-bit colour is signalled by `COLORTERM` holding `truecolor` or `24bit`.
pub fn truecolor_active(colorterm: Option<&str>) -> (b: bool)
    ensures
        b == match colorterm {
            Some(v) => v@ == "truecolor"@ || v@ == "24bit"@,
            None => false,
        },
{
    match colorterm {
        Some(v) => text::same_text(v, "truecolor") || text::same_text(v, "24bit"),
        None => false,
    }
}

fn tone(p: Palette, c: Colour) -> (t: Tone)
    ensures
        t == coloured(p, c),
{
    if p.no_color {
        return Tone { fg: None, bold: false };
    }
    Tone { fg: Some(c), bold: false }
}

/// The tone of downloads.
pub fn download_style(p: Palette) -> (t: Tone)
    ensures
        t == coloured(p, Colour::Cyan),
{
    tone(p, Colour::Cyan)
}

/// The tone of uploads.
pub fn upload_style(p: Palette) -> (t: Tone)
    ensures
        t == coloured(p, Colour::Magenta),
{
    tone(p, Colour::Magenta)
}

/// The tone of what went well.
pub fn success_style(p: Palette) -> (t: Tone)
    ensures
        t == coloured(p, Colour::Green),
{
    tone(p, Colour::Green)
}

/// The tone of a warning that is not bold.
pub fn warn_style(p: Palette) -> (t: Tone)
    ensures
        t == coloured(p, Colour::Yellow),
{
    tone(p, Colour::Yellow)
}

/// The tone of errors.
pub fn error_style(p: Palette) -> (t: Tone)
    ensures
        t == coloured(p, Colour::Red),
{
    tone(p, Colour::Red)
}

/// The tone of what stays in the background.
pub fn muted_style(p: Palette) -> (t: Tone)
    ensures
        t == coloured(p, Colour::DarkGray),
{
    tone(p, Colour::DarkGray)
}

/// Bold yellow, unless output stays monochrome.
pub open spec fn hint_tone(p: Palette) -> Tone {
    if p.no_color {
        plain()
    } else {
        Tone { fg: Some(Colour::Yellow), bold: true }
    }
}

/// The tone of key hints.
pub fn key_hint_style(p: Palette) -> (t: Tone)
    ensures
        t == hint_tone(p),
{
    if p.no_color {
        return Tone { fg: None, bold: false };
    }
    Tone { fg: Some(Colour::Yellow), bold: true }
}

/// The colour of a bufferbloat grade. A dark gold stands for C where the terminal can show
/// it.
pub open spec fn grade_colour(p: Palette, grade: char) -> Colour {
    if grade == 'A' {
        Colour::Green
    } else if grade == 'B' {
        Colour::Yellow
    } else if grade == 'C' {
        if p.truecolor {
            Colour::Rgb(184, 134, 11)
        } else {
            Colour::Yellow
        }
    } else if grade == 'D' || grade == 'F' {
        Colour::Red
    } else {
        Colour::Gray
    }
}

/// The tone of a bufferbloat grade.
pub fn grade_style(p: Palette, grade: char) -> (t: Tone)
    ensures
        t == coloured(p, grade_colour(p, grade)),
{
    let colour = match grade {
        'A' => Colour::Green,
        'B' => Colour::Yellow,
        'C' => if p.truecolor {
            Colour::Rgb(184, 134, 11)
        } else {
            Colour::Yellow
        },
        'D' | 'F' => Colour::Red,
        _ => Colour::Gray,
    };
    tone(p, colour)
}

/// With `NO_COLOR` every tone is the default one.
pub proof fn law_monochrome(p: Palette, c: Colour, grade: char)
    requires
        p.no_color,
    ensures
        coloured(p, c) == plain(),
        coloured(p, grade_colour(p, grade)) == plain(),
        hint_tone(p) == plain(),
{
}

/// A 24-bit colour is used only where the terminal can show it.
pub proof fn law_rgb_needs_truecolor(p: Palette, grade: char)
    requires
        !p.truecolor,
    ensures
        grade_colour(p, grade) !is Rgb,
{
}

/// Unless output stays monochrome, a tone has its colour and is not bold, and key hints are
/// bold and yellow.
pub proof fn law_tones(p: Palette, c: Colour)
    requires
        !p.no_color,
    ensures
        coloured(p, c).fg == Some(c),
        !coloured(p, c).bold,
        hint_tone(p).fg == Some(Colour::Yellow),
        hint_tone(p).bold,
        plain().fg is None && !plain().bold,
{
}

/// The better grades are green and yellow, the worst two red; what is no grade is gray. Only
/// C depends on what the terminal can show.
pub proof fn law_grade_colours(p: Palette, q: Palette, grade: char)
    ensures
        grade_colour(p, grade) == Colour::Green <==> grade == 'A',
        grade == 'B' ==> grade_colour(p, grade) == Colour::Yellow,
        grade == 'C' ==> grade_colour(p, grade) == (if p.truecolor {
            Colour::Rgb(184, 134, 11)
        } else {
            Colour::Yellow
        }),
        grade_colour(p, grade) == Colour::Red <==> grade == 'D' || grade == 'F',
        grade_colour(p, grade) == Colour::Gray <==> !(grade == 'A' || grade == 'B' || grade == 'C'
            || grade == 'D' || grade == 'F'),
        grade != 'C' ==> grade_colour(p, grade) == grade_colour(q, grade),
{
}

}
