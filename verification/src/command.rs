//! Commands: what scripts send, and how it is read.
//!
//! A script sends an action, a name and a payload. Reading them gives a
//! command, one of a closed set, or a reason why there is none. What a
//! payload lacks, or holds in another kind than is asked for, is read as the
//! empty text, as 0 or as the default that goes with it; only a chart must
//! come whole, and is no command where it does not.
use std::str::FromStr;
use vstd::prelude::*;
use vstd::utf8::{encode_utf8, is_char_boundary};
use crate::frame::{Colour, Modifier};
use crate::payload::Value;
use crate::text::{lowercase, lowercase_of, same_text};
use crate::widgets::{Alignment, Span};
use ratatui::style::Color as TuiColor;

verus! {

/// What a script sends.
#[derive(Debug, PartialEq, Eq)]
pub struct FrameData {
    pub action: String,
    pub name: String,
    pub value: Value,
}

/// A command to the dashboard.
#[derive(Debug, PartialEq, Eq)]
pub enum Command {
    SetText { name: String, text: String, color: Colour, align: Alignment },
    SetColorText { name: String, span: Vec<Span>, align: Alignment, border_color: Colour },
    SetBigText { name: String, text: String, color: Colour, align: Alignment },
    SetChart { name: String, options: Value },
    SetImage { name: String, filepath: String },
    Clear { name: String },
    TodoAdd { text: String, by: String, deadline: u128 },
    TodoComplete { index: i64 },
    TodoDelete { index: i64 },
    Reload,
    Exit,
    Screenshot { path: String },
}

/// Why what a script sent is no command.
#[derive(Clone, Copy, Debug, PartialEq, Eq, Structural)]
pub enum Rejection {
    /// The action is none that the dashboard knows.
    UnknownAction,
    /// An image was asked for without the path of its file.
    NoFilePath,
    /// A chart was sent whose payload lacks a member or holds one of
    /// another kind than a chart has.
    MalformedChart,
}

/// The mathematical value of a [`Span`].
pub struct SpanView {
    pub content: Seq<char>,
    pub fg: Colour,
    pub modifier: Modifier,
}

impl View for Span {
    type V = SpanView;

    open spec fn view(&self) -> SpanView {
        SpanView { content: self.content@, fg: self.fg, modifier: self.modifier }
    }
}

/// The values of a sequence of spans.
pub open spec fn spans_of(spans: Seq<Span>) -> Seq<SpanView> {
    spans.map_values(|s: Span| s@)
}

/// The mathematical value of a [`Command`].
pub enum CommandView {
    SetText { name: Seq<char>, text: Seq<char>, color: Colour, align: Alignment },
    SetColorText { name: Seq<char>, span: Seq<SpanView>, align: Alignment, border_color: Colour },
    SetBigText { name: Seq<char>, text: Seq<char>, color: Colour, align: Alignment },
    SetChart { name: Seq<char>, options: Value },
    SetImage { name: Seq<char>, filepath: Seq<char> },
    Clear { name: Seq<char> },
    TodoAdd { text: Seq<char>, by: Seq<char>, deadline: u128 },
    TodoComplete { index: i64 },
    TodoDelete { index: i64 },
    Reload,
    Exit,
    Screenshot { path: Seq<char> },
}

impl View for Command {
    type V = CommandView;

    open spec fn view(&self) -> CommandView {
        match self {
            Command::SetText { name, text, color, align } => CommandView::SetText {
                name: name@,
                text: text@,
                color: *color,
                align: *align,
            },
            Command::SetColorText { name, span, align, border_color } => CommandView::SetColorText {
                name: name@,
                span: spans_of(span@),
                align: *align,
                border_color: *border_color,
            },
            Command::SetBigText { name, text, color, align } => CommandView::SetBigText {
                name: name@,
                text: text@,
                color: *color,
                align: *align,
            },
            Command::SetChart { name, options } => CommandView::SetChart {
                name: name@,
                options: *options,
            },
            Command::SetImage { name, filepath } => CommandView::SetImage {
                name: name@,
                filepath: filepath@,
            },
            Command::Clear { name } => CommandView::Clear { name: name@ },
            Command::TodoAdd { text, by, deadline } => CommandView::TodoAdd {
                text: text@,
                by: by@,
                deadline: *deadline,
            },
            Command::TodoComplete { index } => CommandView::TodoComplete { index: *index },
            Command::TodoDelete { index } => CommandView::TodoDelete { index: *index },
            Command::Reload => CommandView::Reload,
            Command::Exit => CommandView::Exit,
            Command::Screenshot { path } => CommandView::Screenshot { path: path@ },
        }
    }
}

/// The text of a payload, or the empty text where there is no payload or it
/// is no text.
pub open spec fn text_or_empty(value: Option<Value>) -> Seq<char> {
    match value {
        Some(v) => match v.text() {
            Some(s) => s,
            None => Seq::empty(),
        },
        None => Seq::empty(),
    }
}

/// The integer of a payload, or 0 where there is no payload or it is no
/// integer.
pub open spec fn integer_or_zero(value: Option<Value>) -> i64 {
    match value {
        Some(v) => match v.integer() {
            Some(i) => i,
            None => 0,
        },
        None => 0,
    }
}

/// The truth value of a payload, or `default` where there is no payload or
/// it is no truth value.
pub open spec fn truth_or(value: Option<Value>, default: bool) -> bool {
    match value {
        Some(v) => match v.truth() {
            Some(b) => b,
            None => default,
        },
        None => default,
    }
}

/// The text of a payload, or the empty text.
pub fn check_str(value: Option<&Value>) -> (r: String)
    ensures
        r@ == text_or_empty(
            match value {
                Some(v) => Some(*v),
                None => None,
            },
        ),
{
    match value {
        Some(v) => match v.as_str() {
            Some(s) => s.to_owned(),
            None => String::new(),
        },
        None => String::new(),
    }
}

/// The integer of a payload, or 0.
pub fn check_int(value: Option<&Value>) -> (r: i64)
    ensures
        r == integer_or_zero(
            match value {
                Some(v) => Some(*v),
                None => None,
            },
        ),
{
    match value {
        Some(v) => match v.as_i64() {
            Some(i) => i,
            None => 0,
        },
        None => 0,
    }
}

/// The truth value of a payload, or `default`.
pub fn check_bool(value: Option<&Value>, default: bool) -> (r: bool)
    ensures
        r == truth_or(
            match value {
                Some(v) => Some(*v),
                None => None,
            },
            default,
        ),
{
    match value {
        Some(v) => match v.as_bool() {
            Some(b) => b,
            None => default,
        },
        None => default,
    }
}

/// The colour that `ratatui` reads from a text: a colour's name in one of
/// several spellings, the number of a palette entry, or `#` and six
/// hexadecimal digits; `None` where the text is none of these.
pub uninterp spec fn parsed_colour(text: Seq<char>) -> Option<Colour>;

/// Whether a text cannot be handed to the colour parser: it is `#` and six
/// more bytes, and to cut it into three pairs of bytes would cut through a
/// character.
pub open spec fn colour_hazard(text: Seq<char>) -> bool {
    let bytes = encode_utf8(text);
    bytes.len() == 7 && bytes[0] == 0x23 && !(is_char_boundary(bytes, 3) && is_char_boundary(
        bytes,
        5,
    ))
}

/// The colour of this library with the same name and the same numbers as
/// the colour of `ratatui`.
#[verifier::external_body]
fn inner_colour(color: ratatui::style::Color) -> Colour {
    match color {
        TuiColor::Reset => Colour::Reset, TuiColor::Black => Colour::Black,
        TuiColor::Red => Colour::Red, TuiColor::Green => Colour::Green,
        TuiColor::Yellow => Colour::Yellow, TuiColor::Blue => Colour::Blue,
        TuiColor::Magenta => Colour::Magenta, TuiColor::Cyan => Colour::Cyan,
        TuiColor::Gray => Colour::Gray, TuiColor::DarkGray => Colour::DarkGray,
        TuiColor::LightRed => Colour::LightRed, TuiColor::LightGreen => Colour::LightGreen,
        TuiColor::LightYellow => Colour::LightYellow, TuiColor::LightBlue => Colour::LightBlue,
        TuiColor::LightMagenta => Colour::LightMagenta, TuiColor::LightCyan => Colour::LightCyan,
        TuiColor::White => Colour::White, TuiColor::Indexed(i) => Colour::Indexed(i),
        TuiColor::Rgb(r, g, b) => Colour::Rgb(r, g, b),
    }
}

/// `<ratatui::style::Color as FromStr>::from_str`: the colour that the text
/// names. The parser cuts a text of `#` and six bytes at fixed places, so
/// such a text must be cut between characters.
#[verifier::external_body]
fn parse_colour(text: &str) -> (r: Option<Colour>)
    requires
        !colour_hazard(text@),
    ensures
        r == parsed_colour(text@),
{
    match TuiColor::from_str(text) {
        Ok(color) => Some(inner_colour(color)),
        Err(_) => None,
    }
}

/// The colour that a text names, and white where it names none.
pub open spec fn colour_or_white(text: Seq<char>) -> Colour {
    if colour_hazard(text) {
        Colour::White
    } else {
        match parsed_colour(text) {
            Some(colour) => colour,
            None => Colour::White,
        }
    }
}

/// The colour for what the colour parser made of a text: the colour it
/// found, and white where it found none.
pub fn colour_found(found: Option<Colour>) -> (colour: Colour)
    ensures
        colour == match found {
            Some(c) => c,
            None => Colour::White,
        },
{
    match found {
        Some(c) => c,
        None => Colour::White,
    }
}

/// The colour that `text` names, and white where it names none.
pub fn named_colour(text: &str) -> (colour: Colour)
    ensures
        colour == colour_or_white(text@),
{
    let hazard = text.len() == 7 && text.as_bytes()[0] == 0x23 && !(text.is_char_boundary(3)
        && text.is_char_boundary(5));
    if hazard {
        Colour::White
    } else {
        colour_found(parse_colour(text))
    }
}

/// The alignment that a text names, and centred where it names none.
pub open spec fn alignment_of(text: Seq<char>) -> Alignment {
    if text == "center"@ {
        Alignment::Center
    } else if text == "left"@ {
        Alignment::Left
    } else if text == "right"@ {
        Alignment::Right
    } else {
        Alignment::Center
    }
}

/// The alignment that `text` names, and centred where it names none.
pub fn named_alignment(text: &str) -> (align: Alignment)
    ensures
        align == alignment_of(text@),
{
    if same_text(text, "center") {
        Alignment::Center
    } else if same_text(text, "left") {
        Alignment::Left
    } else if same_text(text, "right") {
        Alignment::Right
    } else {
        Alignment::Center
    }
}

/// A signed number read as an unsigned one of 128 bits: a negative number
/// wraps round.
pub open spec fn wrapped(i: i64) -> u128 {
    if i >= 0 {
        i as u128
    } else {
        (0x1_0000_0000_0000_0000_0000_0000_0000_0000 + i) as u128
    }
}

fn wrap(i: i64) -> (r: u128)
    ensures
        r == wrapped(i),
{
    if i >= 0 {
        i as u128
    } else {
        let back: u128 = (-(i + 1)) as u128;
        u128::MAX - back
    }
}

/// The span that one line of a coloured text describes.
pub open spec fn span_of(line: Value) -> SpanView {
    SpanView {
        content: text_or_empty(line.member("text"@)),
        fg: colour_or_white(text_or_empty(line.member("color"@))),
        modifier: Modifier {
            bold: truth_or(line.member("bold"@), false),
            dim: false,
            italic: truth_or(line.member("italic"@), false),
            underlined: truth_or(line.member("underline"@), false),
            slow_blink: false,
            rapid_blink: false,
            reversed: false,
            crossed_out: truth_or(line.member("crossline"@), false),
        },
    }
}

/// The lines of a coloured text: the list called `lines`, or no line where
/// there is no such list.
pub open spec fn lines_of(value: Value) -> Seq<Value> {
    match value.member("lines"@) {
        Some(lines) => match lines.items() {
            Some(items) => items,
            None => Seq::empty(),
        },
        None => Seq::empty(),
    }
}

/// Whether a payload is a pair of numbers.
pub open spec fn is_pair(value: Value) -> bool {
    &&& value matches Value::List(items)
    &&& items@.len() == 2
    &&& items@[0] is Number
    &&& items@[1] is Number
}

/// Whether a payload is a list of pairs of numbers.
pub open spec fn is_pairs(value: Value) -> bool {
    &&& value matches Value::List(items)
    &&& forall|i: int| 0 <= i < items@.len() ==> is_pair(#[trigger] items@[i])
}

/// Whether a payload is a list of texts.
pub open spec fn is_texts(value: Value) -> bool {
    &&& value matches Value::List(items)
    &&& forall|i: int| 0 <= i < items@.len() ==> #[trigger] items@[i] is Text
}

/// Whether the payload has a member called `key` that is a text.
pub open spec fn has_text(value: Value, key: Seq<char>) -> bool {
    value.member(key) matches Some(member) && member is Text
}

/// Whether the payload has a member called `key` that is a pair of numbers.
pub open spec fn has_pair(value: Value, key: Seq<char>) -> bool {
    value.member(key) matches Some(member) && is_pair(member)
}

/// Whether the payload has a member called `key` that is a list of pairs
/// of numbers.
pub open spec fn has_pairs(value: Value, key: Seq<char>) -> bool {
    value.member(key) matches Some(member) && is_pairs(member)
}

/// Whether the payload has a member called `key` that is a list of texts.
pub open spec fn has_texts(value: Value, key: Seq<char>) -> bool {
    value.member(key) matches Some(member) && is_texts(member)
}

/// Whether a payload describes a chart: an object that holds the chart's
/// name, its points, its description, the kinds of its graph and marker and
/// its colour, and for each of the two axes a title, a colour, the bounds
/// and the labels. Texts are texts, points and bounds are pairs of numbers,
/// and labels are lists of texts. Other members do no harm.
pub open spec fn chart_shaped(value: Value) -> bool {
    &&& has_text(value, "name"@)
    &&& has_pairs(value, "data"@)
    &&& has_text(value, "description"@)
    &&& has_text(value, "graph_type"@)
    &&& has_text(value, "marker_type"@)
    &&& has_text(value, "color"@)
    &&& has_text(value, "x_title"@)
    &&& has_text(value, "x_color"@)
    &&& has_pair(value, "x_bounds"@)
    &&& has_texts(value, "x_labels"@)
    &&& has_text(value, "y_title"@)
    &&& has_text(value, "y_color"@)
    &&& has_pair(value, "y_bounds"@)
    &&& has_texts(value, "y_labels"@)
}

/// What a script's message is read as.
pub open spec fn decoded(data: FrameData) -> Result<CommandView, Rejection> {
    let action = data.action@;
    let name = data.name@;
    let value = data.value;
    if action == "screenshot"@ {
        Ok(CommandView::Screenshot { path: name })
    } else if action == "text"@ {
        Ok(
            CommandView::SetText {
                name,
                text: text_or_empty(value.member("text"@)),
                color: colour_or_white(text_or_empty(value.member("color"@))),
                align: alignment_of(lowercase_of(text_or_empty(value.member("align"@)))),
            },
        )
    } else if action == "chart"@ {
        if chart_shaped(value) {
            Ok(CommandView::SetChart { name, options: value })
        } else {
            Err(Rejection::MalformedChart)
        }
    } else if action == "color_text"@ {
        Ok(
            CommandView::SetColorText {
                name,
                span: lines_of(value).map_values(|line: Value| span_of(line)),
                align: alignment_of(text_or_empty(value.member("align"@))),
                border_color: colour_or_white(text_or_empty(value.member("color"@))),
            },
        )
    } else if action == "clear"@ {
        Ok(CommandView::Clear { name })
    } else if action == "big"@ {
        Ok(
            CommandView::SetBigText {
                name,
                text: text_or_empty(value.member("text"@)),
                color: colour_or_white(text_or_empty(value.member("color"@))),
                align: alignment_of(lowercase_of(text_or_empty(value.member("align"@)))),
            },
        )
    } else if action == "image"@ {
        if text_or_empty(value.member("filepath"@)).len() == 0 {
            Err(Rejection::NoFilePath)
        } else {
            Ok(CommandView::SetImage { name, filepath: text_or_empty(value.member("filepath"@)) })
        }
    } else if action == "todo_add"@ {
        Ok(
            CommandView::TodoAdd {
                text: text_or_empty(value.member("text"@)),
                by: text_or_empty(value.member("by"@)),
                deadline: wrapped(integer_or_zero(value.member("deadline"@))),
            },
        )
    } else if action == "todo_done"@ {
        Ok(CommandView::TodoComplete { index: integer_or_zero(value.member("index"@)) })
    } else if action == "todo_del"@ {
        Ok(CommandView::TodoDelete { index: integer_or_zero(value.member("index"@)) })
    } else if action == "reload"@ {
        Ok(CommandView::Reload)
    } else if action == "exit"@ {
        Ok(CommandView::Exit)
    } else {
        Err(Rejection::UnknownAction)
    }
}

fn pair(value: &Value) -> (r: bool)
    ensures
        r == is_pair(*value),
{
    match value {
        Value::List(items) => items.len() == 2 && matches!(items[0], Value::Number(_)) && matches!(
            items[1],
            Value::Number(_)
        ),
        _ => false,
    }
}

fn member_text(value: &Value, key: &str) -> (r: bool)
    ensures
        r == has_text(*value, key@),
{
    match value.get(key) {
        Some(member) => matches!(member, Value::Text(_)),
        None => false,
    }
}

fn member_pair(value: &Value, key: &str) -> (r: bool)
    ensures
        r == has_pair(*value, key@),
{
    match value.get(key) {
        Some(member) => pair(member),
        None => false,
    }
}

fn member_pairs(value: &Value, key: &str) -> (r: bool)
    ensures
        r == has_pairs(*value, key@),
{
    match value.get(key) {
        Some(Value::List(items)) => {
            let n = items.len();
            let mut i: usize = 0;
            while i < n
                invariant
                    i <= n,
                    n == items@.len(),
                    value.member(key@) == Some(Value::List(*items)),
                    forall|k: int| 0 <= k < i ==> is_pair(#[trigger] items@[k]),
                decreases n - i,
            {
                if !pair(&items[i]) {
                    proof {
                        let list = Value::List(*items);
                        let inner = list->List_0;
                        assert(!is_pair(inner@[i as int]));
                    }
                    return false;
                }
                i += 1;
            }
            true
        },
        _ => false,
    }
}

fn member_texts(value: &Value, key: &str) -> (r: bool)
    ensures
        r == has_texts(*value, key@),
{
    match value.get(key) {
        Some(Value::List(items)) => {
            let n = items.len();
            let mut i: usize = 0;
            while i < n
                invariant
                    i <= n,
                    n == items@.len(),
                    value.member(key@) == Some(Value::List(*items)),
                    forall|k: int| 0 <= k < i ==> #[trigger] items@[k] is Text,
                decreases n - i,
            {
                if !matches!(items[i], Value::Text(_)) {
                    return false;
                }
                i += 1;
            }
            true
        },
        _ => false,
    }
}

/// Whether a payload describes a chart.
pub fn describes_chart(value: &Value) -> (r: bool)
    ensures
        r == chart_shaped(*value),
{
    member_text(value, "name") && member_pairs(value, "data") && member_text(value, "description")
        && member_text(value, "graph_type") && member_text(value, "marker_type") && member_text(
        value,
        "color",
    ) && member_text(value, "x_title") && member_text(value, "x_color") && member_pair(
        value,
        "x_bounds",
    ) && member_texts(value, "x_labels") && member_text(value, "y_title") && member_text(
        value,
        "y_color",
    ) && member_pair(value, "y_bounds") && member_texts(value, "y_labels")
}

fn read_span(line: &Value) -> (span: Span)
    ensures
        span@ == span_of(*line),
{
    let content = check_str(line.get("text"));
    let color = check_str(line.get("color"));
    let bold = check_bool(line.get("bold"), false);
    let underline = check_bool(line.get("underline"), false);
    let italic = check_bool(line.get("italic"), false);
    let crossline = check_bool(line.get("crossline"), false);
    let mut modifier = Modifier::empty();
    modifier.bold = bold;
    modifier.underlined = underline;
    modifier.italic = italic;
    modifier.crossed_out = crossline;
    Span { content, fg: named_colour(color.as_str()), modifier }
}

fn read_spans(value: &Value) -> (spans: Vec<Span>)
    ensures
        spans_of(spans@) == lines_of(*value).map_values(|line: Value| span_of(line)),
{
    let mut spans: Vec<Span> = Vec::new();
    match value.get("lines") {
        Some(lines) => match lines.as_array() {
            Some(items) => {
                let n = items.len();
                let mut i: usize = 0;
                while i < n
                    invariant
                        i <= n,
                        n == items@.len(),
                        spans@.len() == i,
                        forall|k: int| 0 <= k < i ==> (#[trigger] spans@[k])@ == span_of(items@[k]),
                    decreases n - i,
                {
                    spans.push(read_span(&items[i]));
                    i += 1;
                }
            },
            None => {
            },
        },
        None => {
        },
    }
    spans
}

/// Reads what a script sent: the command it stands for, or why it stands
/// for none.
pub fn decode(data: FrameData) -> (r: Result<Command, Rejection>)
    ensures
        match r {
            Ok(command) => decoded(data) == Ok::<CommandView, Rejection>(command@),
            Err(rejection) => decoded(data) == Err::<CommandView, Rejection>(rejection),
        },
{
    let FrameData { action, name, value } = data;
    let action = action.as_str();
    if same_text(action, "screenshot") {
        Ok(Command::Screenshot { path: name })
    } else if same_text(action, "text") {
        let text = check_str(value.get("text"));
        let color = check_str(value.get("color"));
        let align = lowercase(check_str(value.get("align")).as_str());
        Ok(
            Command::SetText {
                name,
                text,
                color: named_colour(color.as_str()),
                align: named_alignment(align.as_str()),
            },
        )
    } else if same_text(action, "chart") {
        if describes_chart(&value) {
            Ok(Command::SetChart { name, options: value })
        } else {
            Err(Rejection::MalformedChart)
        }
    } else if same_text(action, "color_text") {
        let span = read_spans(&value);
        let border_color = check_str(value.get("color"));
        let align = check_str(value.get("align"));
        Ok(
            Command::SetColorText {
                name,
                span,
                align: named_alignment(align.as_str()),
                border_color: named_colour(border_color.as_str()),
            },
        )
    } else if same_text(action, "clear") {
        Ok(Command::Clear { name })
    } else if same_text(action, "big") {
        let text = check_str(value.get("text"));
        let color = check_str(value.get("color"));
        let align = lowercase(check_str(value.get("align")).as_str());
        Ok(
            Command::SetBigText {
                name,
                text,
                color: named_colour(color.as_str()),
                align: named_alignment(align.as_str()),
            },
        )
    } else if same_text(action, "image") {
        let filepath = check_str(value.get("filepath"));
        if filepath.as_str().unicode_len() == 0 {
            Err(Rejection::NoFilePath)
        } else {
            Ok(Command::SetImage { name, filepath })
        }
    } else if same_text(action, "todo_add") {
        let by = check_str(value.get("by"));
        let text = check_str(value.get("text"));
        let deadline = check_int(value.get("deadline"));
        Ok(Command::TodoAdd { text, by, deadline: wrap(deadline) })
    } else if same_text(action, "todo_done") {
        Ok(Command::TodoComplete { index: check_int(value.get("index")) })
    } else if same_text(action, "todo_del") {
        Ok(Command::TodoDelete { index: check_int(value.get("index")) })
    } else if same_text(action, "reload") {
        Ok(Command::Reload)
    } else if same_text(action, "exit") {
        Ok(Command::Exit)
    } else {
        Err(Rejection::UnknownAction)
    }
}

} // verus!
