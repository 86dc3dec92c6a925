//! The patch between two frames: the terminal directives that turn a screen
//! showing one frame into a screen showing the other.
//!
//! The cells are scanned in row-major order. For every cell that differs the
//! patch moves the cursor there (unless the cell before it on the same row
//! was written just before), brings the terminal's modifiers and colours to
//! those of the cell, and prints its symbol. The modifiers and colours are
//! compared with those of the last cell that was written, because a terminal
//! keeps them from one cell to the next.
use vstd::prelude::*;
use crate::frame::{CellView, Colour, FrameBuffer, FrameView, Modifier};

verus! {

/// A text attribute that a terminal can be told to switch on or off.
#[derive(Clone, Copy, Debug, PartialEq, Eq, Hash, Structural)]
pub enum Attribute {
    Reset,
    Bold,
    Dim,
    Italic,
    Underlined,
    SlowBlink,
    RapidBlink,
    Reverse,
    CrossedOut,
    NormalIntensity,
    NoItalic,
    NoUnderline,
    NoBlink,
    NoReverse,
    NotCrossedOut,
}

/// One instruction to a terminal.
#[derive(Clone, Debug, PartialEq, Eq)]
pub enum Directive {
    /// Put the cursor in column `x` of row `y`, both counted from 0.
    MoveTo { x: u16, y: u16 },
    /// Switch one attribute on or off.
    SetAttribute(Attribute),
    /// Set the foreground and the background colour together.
    SetColors { fg: Colour, bg: Colour },
    /// Write a symbol into the cell under the cursor and step right.
    Print(String),
    /// Back to the default foreground colour.
    ResetForeground,
    /// Back to the default background colour.
    ResetBackground,
    /// Back to the default underline colour.
    ResetUnderlineColor,
}

/// The mathematical value of a [`Directive`].
pub enum Op {
    MoveTo { x: int, y: int },
    SetAttribute(Attribute),
    SetColors { fg: Colour, bg: Colour },
    Print(Seq<char>),
    ResetForeground,
    ResetBackground,
    ResetUnderlineColor,
}

impl View for Directive {
    type V = Op;

    open spec fn view(&self) -> Op {
        match self {
            Directive::MoveTo { x, y } => Op::MoveTo { x: *x as int, y: *y as int },
            Directive::SetAttribute(a) => Op::SetAttribute(*a),
            Directive::SetColors { fg, bg } => Op::SetColors { fg: *fg, bg: *bg },
            Directive::Print(s) => Op::Print(s@),
            Directive::ResetForeground => Op::ResetForeground,
            Directive::ResetBackground => Op::ResetBackground,
            Directive::ResetUnderlineColor => Op::ResetUnderlineColor,
        }
    }
}

/// The values of a sequence of directives.
pub open spec fn ops_of(directives: Seq<Directive>) -> Seq<Op> {
    directives.map_values(|d: Directive| d@)
}

/// The colours and modifiers that a terminal applies to what it prints.
pub struct Pen {
    pub fg: Colour,
    pub bg: Colour,
    pub modifier: Modifier,
}

impl Pen {
    /// The pen of a terminal after a full reset.
    pub open spec fn plain() -> Pen {
        Pen { fg: Colour::Reset, bg: Colour::Reset, modifier: Modifier::none() }
    }

    /// The pen that draws the given cell.
    pub open spec fn of(cell: CellView) -> Pen {
        Pen { fg: cell.fg, bg: cell.bg, modifier: cell.modifier }
    }
}

/// What the scan remembers from the cells it has written so far: where the
/// last one was, and the pen it was written with.
pub struct Scan {
    pub last: Option<(int, int)>,
    pub pen: Pen,
}

impl Scan {
    /// The state before any cell is written.
    pub open spec fn start() -> Scan {
        Scan { last: None, pen: Pen::plain() }
    }

    /// The state after the cell at `(x, y)` is written.
    pub open spec fn after(x: int, y: int, cell: CellView) -> Scan {
        Scan { last: Some((x, y)), pen: Pen::of(cell) }
    }
}

/// One directive for `attribute` if `wanted`, none otherwise.
#[verifier::opaque]
pub open spec fn maybe(wanted: bool, attribute: Attribute) -> Seq<Op> {
    if wanted {
        seq![Op::SetAttribute(attribute)]
    } else {
        Seq::empty()
    }
}

/// The directives that switch off what `last` has and `target` has not.
/// Normal intensity ends bold and dim alike, so where bold goes and dim is to
/// stay, dim is switched on again.
pub open spec fn turn_off(last: Modifier, target: Modifier) -> Seq<Op> {
    let removed = last.minus(target);
    Seq::empty() + maybe(removed.reversed, Attribute::NoReverse) + maybe(
        removed.bold,
        Attribute::NormalIntensity,
    ) + maybe(removed.bold && target.dim, Attribute::Dim) + maybe(removed.italic, Attribute::NoItalic)
        + maybe(removed.underlined, Attribute::NoUnderline) + maybe(
        removed.dim,
        Attribute::NormalIntensity,
    ) + maybe(removed.crossed_out, Attribute::NotCrossedOut) + maybe(
        removed.slow_blink || removed.rapid_blink,
        Attribute::NoBlink,
    )
}

/// The directives that switch on what `target` has and `last` has not.
pub open spec fn turn_on(last: Modifier, target: Modifier) -> Seq<Op> {
    let added = target.minus(last);
    Seq::empty() + maybe(added.reversed, Attribute::Reverse) + maybe(added.bold, Attribute::Bold)
        + maybe(added.italic, Attribute::Italic) + maybe(added.underlined, Attribute::Underlined)
        + maybe(added.dim, Attribute::Dim) + maybe(added.crossed_out, Attribute::CrossedOut) + maybe(
        added.slow_blink,
        Attribute::SlowBlink,
    ) + maybe(added.rapid_blink, Attribute::RapidBlink)
}

/// The cursor move that writing at `(x, y)` needs: none if the last cell
/// written is the one just left of it.
pub open spec fn move_ops(last: Option<(int, int)>, x: int, y: int) -> Seq<Op> {
    if last == Some((x - 1, y)) {
        Seq::empty()
    } else {
        seq![Op::MoveTo { x, y }]
    }
}

/// The colour directive that drawing `cell` needs after `pen`.
pub open spec fn color_ops(pen: Pen, cell: CellView) -> Seq<Op> {
    if cell.fg != pen.fg || cell.bg != pen.bg {
        seq![Op::SetColors { fg: cell.fg, bg: cell.bg }]
    } else {
        Seq::empty()
    }
}

/// The directives that write `cell` at `(x, y)` when the scan is in `state`.
pub open spec fn cell_ops(state: Scan, x: int, y: int, cell: CellView) -> Seq<Op> {
    move_ops(state.last, x, y) + turn_off(state.pen.modifier, cell.modifier) + turn_on(
        state.pen.modifier,
        cell.modifier,
    ) + color_ops(state.pen, cell) + seq![Op::Print(cell.symbol)]
}

/// The directives for the cells from row-major index `from` on.
pub open spec fn scan_from(baseline: FrameView, current: FrameView, from: int, state: Scan) -> Seq<
    Op,
>
    decreases current.cells.len() - from,
{
    if from < 0 || from >= current.cells.len() {
        Seq::empty()
    } else if baseline.cells[from] == current.cells[from] {
        scan_from(baseline, current, from + 1, state)
    } else {
        let x = from % (current.width as int);
        let y = from / (current.width as int);
        let cell = current.cells[from];
        cell_ops(state, x, y, cell) + scan_from(
            baseline,
            current,
            from + 1,
            Scan::after(x, y, cell),
        )
    }
}

/// The patch that turns `baseline` into `current`.
pub open spec fn patch(baseline: FrameView, current: FrameView) -> Seq<Op> {
    scan_from(baseline, current, 0, Scan::start())
}

/// What ends every patch: the colours and all attributes back to their
/// defaults, so that the next patch starts from a plain pen.
pub open spec fn trailer() -> Seq<Op> {
    seq![
        Op::ResetForeground,
        Op::ResetBackground,
        Op::ResetUnderlineColor,
        Op::SetAttribute(Attribute::Reset),
    ]
}

/// Whether a cursor move stays where a terminal can count: it counts from 1
/// in sixteen bits.
pub open spec fn placed(op: Op) -> bool {
    op matches Op::MoveTo { x, y } ==> 0 <= x < u16::MAX && 0 <= y < u16::MAX
}

/// Whether every cursor move of `ops` is [`placed`].
pub open spec fn all_placed(ops: Seq<Op>) -> bool {
    forall|i: int| 0 <= i < ops.len() ==> placed(#[trigger] ops[i])
}

fn push_maybe(out: &mut Vec<Directive>, wanted: bool, attribute: Attribute)
    requires
        all_placed(ops_of(old(out)@)),
    ensures
        ops_of(final(out)@) == ops_of(old(out)@) + maybe(wanted, attribute),
        all_placed(ops_of(final(out)@)),
{
    reveal(maybe);
    if wanted {
        out.push(Directive::SetAttribute(attribute));
        assert(ops_of(out@) =~= ops_of(old(out)@) + maybe(wanted, attribute));
    }
}

/// The directives that take a terminal's modifiers from `last` to `target`.
pub fn modifier_directives(last: Modifier, target: Modifier) -> (out: Vec<Directive>)
    ensures
        ops_of(out@) == turn_off(last, target) + turn_on(last, target),
        all_placed(ops_of(out@)),
{
    let removed = last.difference(target);
    let added = target.difference(last);
    let mut out: Vec<Directive> = Vec::new();
    assert(ops_of(out@) =~= Seq::empty());
    push_maybe(&mut out, removed.reversed, Attribute::NoReverse);
    push_maybe(&mut out, removed.bold, Attribute::NormalIntensity);
    push_maybe(&mut out, removed.bold && target.dim, Attribute::Dim);
    push_maybe(&mut out, removed.italic, Attribute::NoItalic);
    push_maybe(&mut out, removed.underlined, Attribute::NoUnderline);
    push_maybe(&mut out, removed.dim, Attribute::NormalIntensity);
    push_maybe(&mut out, removed.crossed_out, Attribute::NotCrossedOut);
    push_maybe(&mut out, removed.slow_blink || removed.rapid_blink, Attribute::NoBlink);
    let mut on: Vec<Directive> = Vec::new();
    push_maybe(&mut on, added.reversed, Attribute::Reverse);
    push_maybe(&mut on, added.bold, Attribute::Bold);
    push_maybe(&mut on, added.italic, Attribute::Italic);
    push_maybe(&mut on, added.underlined, Attribute::Underlined);
    push_maybe(&mut on, added.dim, Attribute::Dim);
    push_maybe(&mut on, added.crossed_out, Attribute::CrossedOut);
    push_maybe(&mut on, added.slow_blink, Attribute::SlowBlink);
    push_maybe(&mut on, added.rapid_blink, Attribute::RapidBlink);
    let ghost before = out@;
    let ghost tail = on@;
    out.append(&mut on);
    assert(ops_of(before + tail) =~= ops_of(before) + ops_of(tail));
    out
}

/// The scan state that the executable scan holds in plain values.
pub open spec fn scan_of(last: Option<(u16, u16)>, fg: Colour, bg: Colour, modifier: Modifier) -> Scan {
    Scan {
        last: match last {
            Some(p) => Some((p.0 as int, p.1 as int)),
            None => None,
        },
        pen: Pen { fg, bg, modifier },
    }
}

/// Appends the directives that write `cell` at `(x, y)`.
fn emit_cell(
    out: &mut Vec<Directive>,
    last: Option<(u16, u16)>,
    fg: Colour,
    bg: Colour,
    modifier: Modifier,
    x: u16,
    y: u16,
    cell: &crate::frame::Cell,
)
    requires
        x < u16::MAX,
        y < u16::MAX,
        all_placed(ops_of(old(out)@)),
    ensures
        ops_of(final(out)@) == ops_of(old(out)@) + cell_ops(
            scan_of(last, fg, bg, modifier),
            x as int,
            y as int,
            cell@,
        ),
        all_placed(ops_of(final(out)@)),
{
    let ghost state = scan_of(last, fg, bg, modifier);
    let ghost before = ops_of(out@);
    let contiguous = match last {
        Some(p) => p.0 < u16::MAX && x == p.0 + 1 && y == p.1,
        None => false,
    };
    if !contiguous {
        out.push(Directive::MoveTo { x, y });
    }
    assert(ops_of(out@) =~= before + move_ops(state.last, x as int, y as int));
    let ghost moved = out@;
    let mut attributes = modifier_directives(modifier, cell.modifier);
    let ghost attrs = attributes@;
    out.append(&mut attributes);
    assert(ops_of(moved + attrs) =~= ops_of(moved) + ops_of(attrs));
    let ghost styled = ops_of(out@);
    if cell.fg != fg || cell.bg != bg {
        out.push(Directive::SetColors { fg: cell.fg, bg: cell.bg });
    }
    assert(ops_of(out@) =~= styled + color_ops(state.pen, cell@));
    let ghost colored = ops_of(out@);
    out.push(Directive::Print(cell.symbol.clone()));
    assert(ops_of(out@) =~= colored + seq![Op::Print(cell@.symbol)]);
}

/// The patch that turns `baseline` into `current`, as directives. It is
/// empty exactly where no cell differs.
pub fn diff(baseline: &FrameBuffer, current: &FrameBuffer) -> (out: Vec<Directive>)
    requires
        baseline@.wf(),
        current@.wf(),
        baseline@.same_size(current@),
    ensures
        ops_of(out@) == patch(baseline@, current@),
        all_placed(ops_of(out@)),
{
    let n = current.len();
    let width = current.width();
    let height = current.height();
    let mut out: Vec<Directive> = Vec::new();
    let mut last: Option<(u16, u16)> = None;
    let mut fg = Colour::Reset;
    let mut bg = Colour::Reset;
    let mut modifier = Modifier::empty();
    let mut x: u16 = 0;
    let mut y: u16 = 0;
    let mut i: usize = 0;
    let ghost a = baseline@;
    let ghost b = current@;
    assert(n > 0 ==> width > 0 && height > 0) by (nonlinear_arith)
        requires
            n == b.width * b.height,
            width == b.width,
            height == b.height,
    ;
    while i < n
        invariant
            a == baseline@,
            b == current@,
            a.wf(),
            b.wf(),
            a.same_size(b),
            n == b.cells.len(),
            width == b.width,
            height == b.height,
            i <= n,
            i == y * width + x,
            i < n ==> x < width,
            i < n ==> y < height,
            all_placed(ops_of(out@)),
            ops_of(out@) + scan_from(a, b, i as int, scan_of(last, fg, bg, modifier)) == patch(
                a,
                b,
            ),
        decreases n - i,
    {
        proof {
            vstd::arithmetic::div_mod::lemma_fundamental_div_mod_converse(
                i as int,
                width as int,
                y as int,
                x as int,
            );
        }
        let cell = current.cell(i);
        if !baseline.cell(i).same(cell) {
            emit_cell(&mut out, last, fg, bg, modifier, x, y, cell);
            last = Some((x, y));
            fg = cell.fg;
            bg = cell.bg;
            modifier = cell.modifier;
        }
        i += 1;
        if x + 1 == width {
            proof {
                assert((y + 1) * width == y * width + width) by (nonlinear_arith);
                if i < n {
                    assert(y + 1 < b.height) by (nonlinear_arith)
                        requires
                            (y + 1) * width < b.width * b.height,
                            width == b.width,
                            width > 0,
                    ;
                }
            }
            if i < n {
                x = 0;
                y += 1;
            } else {
                assert(scan_from(a, b, i as int, scan_of(last, fg, bg, modifier)) =~= Seq::empty());
                return out;
            }
        } else {
            x += 1;
        }
    }
    out
}

} // verus!
