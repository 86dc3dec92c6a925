//! Patches as text: the escape sequences that a terminal reads.
//!
//! Each directive is written by the `crossterm` command of the same name.
//! This module states, character by character, what those commands write.
//! The colour commands have two outcomes: `crossterm` leaves the colour out
//! of the sequence when colours are switched off for the process, so the
//! contracts here allow both.
use vstd::prelude::*;
use crate::frame::{Colour, FrameBuffer};
use crate::patch::{all_placed, diff, ops_of, patch, placed, trailer, Attribute, Directive, Op};
use crossterm::style::Attribute as TermAttribute;
use crossterm::Command;
use ratatui::style::Color as TuiColor;

verus! {

/// The decimal digit `d` as a character.
pub open spec fn digit(d: int) -> char {
    if d == 0 {
        '0'
    } else if d == 1 {
        '1'
    } else if d == 2 {
        '2'
    } else if d == 3 {
        '3'
    } else if d == 4 {
        '4'
    } else if d == 5 {
        '5'
    } else if d == 6 {
        '6'
    } else if d == 7 {
        '7'
    } else if d == 8 {
        '8'
    } else {
        '9'
    }
}

/// `n` in decimal, without leading zeros.
pub open spec fn decimal(n: nat) -> Seq<char>
    decreases n,
{
    if n < 10 {
        seq![digit(n as int)]
    } else {
        decimal(n / 10).push(digit((n % 10) as int))
    }
}

/// The decimal digit `d` as a text.
fn digit_text(d: u16) -> (out: &'static str)
    requires
        d < 10,
    ensures
        out@ == seq![digit(d as int)],
{
    proof {
        reveal_strlit("0");
        reveal_strlit("1");
        reveal_strlit("2");
        reveal_strlit("3");
        reveal_strlit("4");
        reveal_strlit("5");
        reveal_strlit("6");
        reveal_strlit("7");
        reveal_strlit("8");
        reveal_strlit("9");
    }
    let out = if d == 0 {
        "0"
    } else if d == 1 {
        "1"
    } else if d == 2 {
        "2"
    } else if d == 3 {
        "3"
    } else if d == 4 {
        "4"
    } else if d == 5 {
        "5"
    } else if d == 6 {
        "6"
    } else if d == 7 {
        "7"
    } else if d == 8 {
        "8"
    } else {
        "9"
    };
    assert(out@ =~= seq![digit(d as int)]);
    out
}

/// `n` in decimal, without leading zeros.
pub fn decimal_text(n: u16) -> (out: String)
    ensures
        out@ == decimal(n as nat),
    decreases n,
{
    if n < 10 {
        digit_text(n).to_owned()
    } else {
        let mut out = decimal_text(n / 10);
        out.append(digit_text(n % 10));
        out
    }
}

/// The two characters that open a control sequence.
pub open spec fn csi() -> Seq<char> {
    seq!['\u{1b}', '[']
}

/// The number that selects an attribute in a control sequence.
pub open spec fn sgr_code(attribute: Attribute) -> nat {
    match attribute {
        Attribute::Reset => 0,
        Attribute::Bold => 1,
        Attribute::Dim => 2,
        Attribute::Italic => 3,
        Attribute::Underlined => 4,
        Attribute::SlowBlink => 5,
        Attribute::RapidBlink => 6,
        Attribute::Reverse => 7,
        Attribute::CrossedOut => 9,
        Attribute::NormalIntensity => 22,
        Attribute::NoItalic => 23,
        Attribute::NoUnderline => 24,
        Attribute::NoBlink => 25,
        Attribute::NoReverse => 27,
        Attribute::NotCrossedOut => 29,
    }
}

/// The place of a named colour in the 256-colour palette.
pub open spec fn palette_index(color: Colour) -> nat {
    match color {
        Colour::Black => 0,
        Colour::Red => 1,
        Colour::Green => 2,
        Colour::Yellow => 3,
        Colour::Blue => 4,
        Colour::Magenta => 5,
        Colour::Cyan => 6,
        Colour::Gray => 7,
        Colour::DarkGray => 8,
        Colour::LightRed => 9,
        Colour::LightGreen => 10,
        Colour::LightYellow => 11,
        Colour::LightBlue => 12,
        Colour::LightMagenta => 13,
        Colour::LightCyan => 14,
        Colour::White => 15,
        Colour::Indexed(i) => i as nat,
        _ => 0,
    }
}

/// What selects `color` in a control sequence. `base` is 38 for the
/// foreground and 48 for the background; the default colour is `base + 1`.
pub open spec fn color_parameters(color: Colour, base: nat) -> Seq<char> {
    match color {
        Colour::Reset => decimal(base + 1),
        Colour::Rgb(r, g, b) => decimal(base) + seq![';', '2', ';'] + decimal(r as nat) + seq![';']
            + decimal(g as nat) + seq![';'] + decimal(b as nat),
        _ => decimal(base) + seq![';', '5', ';'] + decimal(palette_index(color)),
    }
}

/// The sequence that sets the foreground colour.
pub open spec fn foreground_text(color: Colour) -> Seq<char> {
    csi() + color_parameters(color, 38) + seq!['m']
}

/// The sequence that sets the background colour.
pub open spec fn background_text(color: Colour) -> Seq<char> {
    csi() + color_parameters(color, 48) + seq!['m']
}

/// The sequence that a colour command writes when colours are switched off.
pub open spec fn colorless_text() -> Seq<char> {
    csi() + seq!['m']
}

/// The text of a directive, with its colours.
pub open spec fn text_of(op: Op) -> Seq<char> {
    match op {
        Op::MoveTo { x, y } => csi() + decimal((y + 1) as nat) + seq![';'] + decimal((x + 1) as nat)
            + seq!['H'],
        Op::SetAttribute(attribute) => csi() + decimal(sgr_code(attribute)) + seq!['m'],
        Op::SetColors { fg, bg } => foreground_text(fg) + background_text(bg),
        Op::Print(symbol) => symbol,
        Op::ResetForeground => foreground_text(Colour::Reset),
        Op::ResetBackground => background_text(Colour::Reset),
        Op::ResetUnderlineColor => csi() + decimal(59) + seq!['m'],
    }
}

/// `text` is `with_color`, or what is written in its place when colours are
/// switched off.
pub open spec fn colored_or_not(text: Seq<char>, with_color: Seq<char>) -> bool {
    text == with_color || text == colorless_text()
}

/// Whether `text` is one of the texts that the command for `op` writes.
pub open spec fn encodes(op: Op, text: Seq<char>) -> bool {
    match op {
        Op::SetColors { fg, bg } => {
            ||| text == foreground_text(fg) + background_text(bg)
            ||| text == foreground_text(fg) + colorless_text()
            ||| text == colorless_text() + background_text(bg)
            ||| text == colorless_text() + colorless_text()
        },
        Op::ResetForeground | Op::ResetBackground | Op::ResetUnderlineColor => colored_or_not(
            text,
            text_of(op),
        ),
        _ => text == text_of(op),
    }
}

/// The pieces one after the other.
pub open spec fn concat(pieces: Seq<Seq<char>>) -> Seq<char>
    decreases pieces.len(),
{
    if pieces.len() == 0 {
        Seq::empty()
    } else {
        concat(pieces.drop_last()) + pieces.last()
    }
}

/// Whether `text` is the directives `ops` written one after the other.
pub open spec fn renders(ops: Seq<Op>, text: Seq<char>) -> bool {
    exists|pieces: Seq<Seq<char>>|
        pieces.len() == ops.len() && (forall|i: int|
            0 <= i < ops.len() ==> encodes(ops[i], #[trigger] pieces[i])) && text == concat(pieces)
}

/// The text of a sequence of directives, each with its colours.
pub open spec fn text_of_all(ops: Seq<Op>) -> Seq<char> {
    concat(ops.map_values(|op: Op| text_of(op)))
}

/// The text with all its colours is one that the directives are written as.
pub proof fn lemma_text_with_colours_renders(ops: Seq<Op>)
    ensures
        renders(ops, text_of_all(ops)),
{
    let pieces = ops.map_values(|op: Op| text_of(op));
    assert forall|i: int| 0 <= i < ops.len() implies encodes(ops[i], #[trigger] pieces[i]) by {
    }
}

/// The colour type of `ratatui`, of which nothing is known here.
#[verifier::external_type_specification]
#[verifier::external_body]
pub struct ExOuterColor(ratatui::style::Color);

/// The colour of `ratatui` with the same name and the same numbers.
#[verifier::external_body]
fn outer_color(color: Colour) -> ratatui::style::Color {
    match color {
        Colour::Reset => TuiColor::Reset, Colour::Black => TuiColor::Black,
        Colour::Red => TuiColor::Red, Colour::Green => TuiColor::Green,
        Colour::Yellow => TuiColor::Yellow, Colour::Blue => TuiColor::Blue,
        Colour::Magenta => TuiColor::Magenta, Colour::Cyan => TuiColor::Cyan,
        Colour::Gray => TuiColor::Gray, Colour::DarkGray => TuiColor::DarkGray,
        Colour::LightRed => TuiColor::LightRed, Colour::LightGreen => TuiColor::LightGreen,
        Colour::LightYellow => TuiColor::LightYellow, Colour::LightBlue => TuiColor::LightBlue,
        Colour::LightMagenta => TuiColor::LightMagenta, Colour::LightCyan => TuiColor::LightCyan,
        Colour::White => TuiColor::White, Colour::Indexed(i) => TuiColor::Indexed(i),
        Colour::Rgb(r, g, b) => TuiColor::Rgb(r, g, b),
    }
}

/// `crossterm::cursor::MoveTo::write_ansi`: the sequence that puts the
/// cursor in column `x` of row `y`. The terminal counts from 1, so the
/// command adds 1 to both, which must fit.
#[verifier::external_body]
fn move_to_ansi(x: u16, y: u16) -> (out: String)
    requires
        x < u16::MAX,
        y < u16::MAX,
    ensures
        out@ == text_of(Op::MoveTo { x: x as int, y: y as int }),
{
    let mut out = String::new();
    let _ = crossterm::cursor::MoveTo(x, y).write_ansi(&mut out);
    out
}

/// `crossterm::style::SetAttribute::write_ansi`: the sequence that switches
/// one attribute on or off, which is its number between the opening and `m`.
#[verifier::external_body]
fn attribute_ansi(attribute: Attribute) -> (out: String)
    ensures
        out@ == text_of(Op::SetAttribute(attribute)),
{
    let outer = match attribute {
        Attribute::Reset => TermAttribute::Reset, Attribute::Bold => TermAttribute::Bold,
        Attribute::Dim => TermAttribute::Dim, Attribute::Italic => TermAttribute::Italic,
        Attribute::Underlined => TermAttribute::Underlined, Attribute::SlowBlink => TermAttribute::SlowBlink,
        Attribute::RapidBlink => TermAttribute::RapidBlink, Attribute::Reverse => TermAttribute::Reverse,
        Attribute::CrossedOut => TermAttribute::CrossedOut,
        Attribute::NormalIntensity => TermAttribute::NormalIntensity,
        Attribute::NoItalic => TermAttribute::NoItalic, Attribute::NoUnderline => TermAttribute::NoUnderline,
        Attribute::NoBlink => TermAttribute::NoBlink, Attribute::NoReverse => TermAttribute::NoReverse,
        Attribute::NotCrossedOut => TermAttribute::NotCrossedOut,
    };
    let mut out = String::new();
    let _ = crossterm::style::SetAttribute(outer).write_ansi(&mut out);
    out
}

/// `crossterm::style::SetColors::write_ansi`, on the colours as `ratatui`
/// hands them to `crossterm`: the foreground sequence, then the background
/// sequence. Each of the two is written without its colour when colours are
/// switched off at that moment.
#[verifier::external_body]
fn colors_ansi(fg: Colour, bg: Colour) -> (out: String)
    ensures
        encodes(Op::SetColors { fg, bg }, out@),
{
    let colors = crossterm::style::Colors::new(outer_color(fg).into(), outer_color(bg).into());
    let mut out = String::new();
    let _ = crossterm::style::SetColors(colors).write_ansi(&mut out);
    out
}

/// `crossterm::style::Print::write_ansi`: the symbol itself.
#[verifier::external_body]
fn print_ansi(symbol: &str) -> (out: String)
    ensures
        out@ == symbol@,
{
    let mut out = String::new();
    let _ = crossterm::style::Print(symbol).write_ansi(&mut out);
    out
}

/// `crossterm::style::SetForegroundColor::write_ansi` on the default colour:
/// `39` between the opening and `m`, or nothing between them when colours
/// are switched off.
#[verifier::external_body]
fn reset_foreground_ansi() -> (out: String)
    ensures
        encodes(Op::ResetForeground, out@),
{
    let mut out = String::new();
    let _ = crossterm::style::SetForegroundColor(crossterm::style::Color::Reset).write_ansi(&mut out);
    out
}

/// `crossterm::style::SetBackgroundColor::write_ansi` on the default colour:
/// `49` between the opening and `m`, or nothing between them when colours
/// are switched off.
#[verifier::external_body]
fn reset_background_ansi() -> (out: String)
    ensures
        encodes(Op::ResetBackground, out@),
{
    let mut out = String::new();
    let _ = crossterm::style::SetBackgroundColor(crossterm::style::Color::Reset).write_ansi(&mut out);
    out
}

/// `crossterm::style::SetUnderlineColor::write_ansi` on the default colour:
/// `59` between the opening and `m`, or nothing between them when colours
/// are switched off.
#[verifier::external_body]
fn reset_underline_color_ansi() -> (out: String)
    ensures
        encodes(Op::ResetUnderlineColor, out@),
{
    let mut out = String::new();
    let _ = crossterm::style::SetUnderlineColor(crossterm::style::Color::Reset).write_ansi(&mut out);
    out
}

/// The text of one directive.
pub fn encode(directive: &Directive) -> (out: String)
    requires
        placed(directive@),
    ensures
        encodes(directive@, out@),
{
    match directive {
        Directive::MoveTo { x, y } => move_to_ansi(*x, *y),
        Directive::SetAttribute(attribute) => attribute_ansi(*attribute),
        Directive::SetColors { fg, bg } => colors_ansi(*fg, *bg),
        Directive::Print(symbol) => print_ansi(symbol.as_str()),
        Directive::ResetForeground => reset_foreground_ansi(),
        Directive::ResetBackground => reset_background_ansi(),
        Directive::ResetUnderlineColor => reset_underline_color_ansi(),
    }
}

/// The text of a sequence of directives: each one's text, in order.
pub fn encode_all(directives: &Vec<Directive>) -> (out: String)
    requires
        all_placed(ops_of(directives@)),
    ensures
        renders(ops_of(directives@), out@),
{
    let mut out = String::new();
    let ghost mut pieces: Seq<Seq<char>> = Seq::empty();
    let n = directives.len();
    let mut i: usize = 0;
    while i < n
        invariant
            i <= n,
            n == directives@.len(),
            all_placed(ops_of(directives@)),
            pieces.len() == i,
            forall|k: int| 0 <= k < i ==> encodes(directives@[k]@, #[trigger] pieces[k]),
            out@ == concat(pieces),
        decreases n - i,
    {
        assert(ops_of(directives@)[i as int] == directives@[i as int]@);
        let piece = encode(&directives[i]);
        out.append(piece.as_str());
        proof {
            let longer = pieces.push(piece@);
            assert(longer.drop_last() =~= pieces);
            pieces = longer;
        }
        i += 1;
    }
    proof {
        let ops = ops_of(directives@);
        assert forall|k: int| 0 <= k < ops.len() implies encodes(ops[k], #[trigger] pieces[k]) by {
        }
    }
    out
}

/// The text of a patch: its directives, then the trailer that puts the
/// colours and attributes back to their defaults.
pub fn encode_patch(directives: Vec<Directive>) -> (output: String)
    requires
        all_placed(ops_of(directives@)),
    ensures
        renders(ops_of(directives@) + trailer(), output@),
{
    let mut directives = directives;
    let ghost body = directives@;
    directives.push(Directive::ResetForeground);
    directives.push(Directive::ResetBackground);
    directives.push(Directive::ResetUnderlineColor);
    directives.push(Directive::SetAttribute(Attribute::Reset));
    assert(ops_of(directives@) =~= ops_of(body) + trailer());
    encode_all(&directives)
}

/// The patch that turns `last_buffer` into `current_buffer`, as the text
/// that a terminal reads: the directives of the patch, then the trailer.
pub fn to_ansi(current_buffer: FrameBuffer, last_buffer: FrameBuffer) -> (output: String)
    requires
        current_buffer@.wf(),
        last_buffer@.wf(),
        last_buffer@.same_size(current_buffer@),
    ensures
        renders(patch(last_buffer@, current_buffer@) + trailer(), output@),
{
    encode_patch(diff(&last_buffer, &current_buffer))
}

} // verus!
