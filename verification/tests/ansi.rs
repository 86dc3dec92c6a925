use dashboard::ansi::{decimal_text, encode, encode_all, encode_patch, to_ansi};
use dashboard::frame::{Cell, Colour, FrameBuffer, Modifier};
use dashboard::patch::{Attribute, Directive};

const TRAILER: &str = "\x1b[39m\x1b[49m\x1b[59m\x1b[0m";

fn plain(symbol: &str) -> Cell {
    Cell::new(symbol, Colour::Reset, Colour::Reset, Modifier::empty())
}

#[test]
fn unchanged_frame_gives_only_the_trailer() {
    let a = FrameBuffer::empty(3, 2);
    let b = FrameBuffer::empty(3, 2);
    assert_eq!(to_ansi(b, a), TRAILER);
}

#[test]
fn one_changed_cell_is_moved_to_styled_and_printed() {
    let a = FrameBuffer::empty(3, 2);
    let mut b = FrameBuffer::empty(3, 2);
    let mut bold = Modifier::empty();
    bold.bold = true;
    b.set(1, 1, Cell::new("x", Colour::Red, Colour::Reset, bold));
    assert_eq!(
        to_ansi(b, a),
        format!("\x1b[2;2H\x1b[1m\x1b[38;5;1m\x1b[49mx{}", TRAILER)
    );
}

#[test]
fn neighbours_on_a_row_share_one_cursor_move() {
    let a = FrameBuffer::empty(4, 1);
    let mut b = FrameBuffer::empty(4, 1);
    b.set(1, 0, plain("a"));
    b.set(2, 0, plain("b"));
    assert_eq!(to_ansi(b, a), format!("\x1b[1;2Hab{}", TRAILER));
}

#[test]
fn a_gap_or_a_new_row_needs_a_cursor_move() {
    let a = FrameBuffer::empty(2, 2);
    let mut b = FrameBuffer::empty(2, 2);
    b.set(1, 0, plain("a"));
    b.set(0, 1, plain("b"));
    assert_eq!(to_ansi(b, a), format!("\x1b[1;2Ha\x1b[2;1Hb{}", TRAILER));
}

#[test]
fn colours_are_set_only_when_they_change() {
    let a = FrameBuffer::empty(3, 1);
    let mut b = FrameBuffer::empty(3, 1);
    let none = Modifier::empty();
    b.set(0, 0, Cell::new("a", Colour::Rgb(1, 2, 3), Colour::Indexed(200), none));
    b.set(1, 0, Cell::new("b", Colour::Rgb(1, 2, 3), Colour::Indexed(200), none));
    b.set(2, 0, Cell::new("c", Colour::LightBlue, Colour::White, none));
    assert_eq!(
        to_ansi(b, a),
        format!(
            "\x1b[1;1H\x1b[38;2;1;2;3m\x1b[48;5;200ma\
             b\x1b[38;5;12m\x1b[48;5;15mc{}",
            TRAILER
        )
    );
}

#[test]
fn bold_off_with_dim_kept_switches_dim_on_again() {
    let a = FrameBuffer::empty(2, 1);
    let mut b = FrameBuffer::empty(2, 1);
    let mut both = Modifier::empty();
    both.bold = true;
    both.dim = true;
    let mut dim = Modifier::empty();
    dim.dim = true;
    b.set(0, 0, Cell::new("a", Colour::Reset, Colour::Reset, both));
    b.set(1, 0, Cell::new("b", Colour::Reset, Colour::Reset, dim));
    assert_eq!(
        to_ansi(b, a),
        format!("\x1b[1;1H\x1b[1m\x1b[2ma\x1b[22m\x1b[2mb{}", TRAILER)
    );
}

#[test]
fn every_attribute_has_its_number() {
    let cases = [
        (Attribute::Reset, "\x1b[0m"),
        (Attribute::Bold, "\x1b[1m"),
        (Attribute::Dim, "\x1b[2m"),
        (Attribute::Italic, "\x1b[3m"),
        (Attribute::Underlined, "\x1b[4m"),
        (Attribute::SlowBlink, "\x1b[5m"),
        (Attribute::RapidBlink, "\x1b[6m"),
        (Attribute::Reverse, "\x1b[7m"),
        (Attribute::CrossedOut, "\x1b[9m"),
        (Attribute::NormalIntensity, "\x1b[22m"),
        (Attribute::NoItalic, "\x1b[23m"),
        (Attribute::NoUnderline, "\x1b[24m"),
        (Attribute::NoBlink, "\x1b[25m"),
        (Attribute::NoReverse, "\x1b[27m"),
        (Attribute::NotCrossedOut, "\x1b[29m"),
    ];
    for (attribute, text) in cases {
        assert_eq!(encode(&Directive::SetAttribute(attribute)), text);
    }
}

#[test]
fn every_named_colour_has_its_palette_entry() {
    let cases = [
        (Colour::Black, 0),
        (Colour::Red, 1),
        (Colour::Green, 2),
        (Colour::Yellow, 3),
        (Colour::Blue, 4),
        (Colour::Magenta, 5),
        (Colour::Cyan, 6),
        (Colour::Gray, 7),
        (Colour::DarkGray, 8),
        (Colour::LightRed, 9),
        (Colour::LightGreen, 10),
        (Colour::LightYellow, 11),
        (Colour::LightBlue, 12),
        (Colour::LightMagenta, 13),
        (Colour::LightCyan, 14),
        (Colour::White, 15),
    ];
    for (colour, index) in cases {
        assert_eq!(
            encode(&Directive::SetColors { fg: colour, bg: colour }),
            format!("\x1b[38;5;{}m\x1b[48;5;{}m", index, index)
        );
    }
    assert_eq!(
        encode(&Directive::SetColors { fg: Colour::Reset, bg: Colour::Reset }),
        "\x1b[39m\x1b[49m"
    );
}

#[test]
fn cursor_moves_count_from_one_row_first() {
    assert_eq!(encode(&Directive::MoveTo { x: 0, y: 0 }), "\x1b[1;1H");
    assert_eq!(encode(&Directive::MoveTo { x: 9, y: 99 }), "\x1b[100;10H");
    assert_eq!(encode(&Directive::MoveTo { x: 65534, y: 65534 }), "\x1b[65535;65535H");
}

#[test]
fn print_writes_the_symbol_itself() {
    assert_eq!(encode(&Directive::Print("é▀".to_string())), "é▀");
    assert_eq!(encode(&Directive::Print(String::new())), "");
}

#[test]
fn resets_have_their_own_sequences() {
    assert_eq!(encode(&Directive::ResetForeground), "\x1b[39m");
    assert_eq!(encode(&Directive::ResetBackground), "\x1b[49m");
    assert_eq!(encode(&Directive::ResetUnderlineColor), "\x1b[59m");
}

#[test]
fn directives_are_written_in_order() {
    let directives = vec![
        Directive::MoveTo { x: 1, y: 2 },
        Directive::SetAttribute(Attribute::Italic),
        Directive::Print("q".to_string()),
    ];
    assert_eq!(encode_all(&directives), "\x1b[3;2H\x1b[3mq");
    assert_eq!(encode_patch(directives), format!("\x1b[3;2H\x1b[3mq{}", TRAILER));
    assert_eq!(encode_all(&Vec::new()), "");
}

#[test]
fn numbers_are_written_in_decimal_without_leading_zeros() {
    for n in [0u16, 1, 9, 10, 11, 99, 100, 101, 1000, 9999, 10000, 65534, 65535] {
        assert_eq!(decimal_text(n), n.to_string());
    }
}
