//! A model of the terminal at the far end of a mirror connection, and the
//! proof that replaying a patch on it shows the frame the patch was made for.
//!
//! The model keeps a grid of cells, a cursor and a pen. Printing writes the
//! symbol with the pen into the cell under the cursor and moves the cursor
//! one cell to the right. That is what a terminal does with a symbol that is
//! one column wide, so the laws speak of frames in which every cell shows
//! such a symbol: see [`FrameView::narrow`].
use vstd::prelude::*;
use crate::frame::{CellView, Colour, FrameBuffer, FrameView, Modifier};
use crate::patch::{
    cell_ops, color_ops, move_ops, patch, scan_from, trailer, turn_off, turn_on, maybe, Attribute,
    Op, Pen, Scan,
};

verus! {

/// The state of a terminal.
pub struct Terminal {
    pub width: nat,
    pub height: nat,
    pub cells: Seq<CellView>,
    pub cursor: (int, int),
    pub pen: Pen,
}

impl Terminal {
    /// A terminal that shows `frame`, with a plain pen and the cursor at
    /// `cursor`.
    pub open spec fn showing(frame: FrameView, cursor: (int, int)) -> Terminal {
        Terminal {
            width: frame.width,
            height: frame.height,
            cells: frame.cells,
            cursor,
            pen: Pen::plain(),
        }
    }

    /// What the terminal shows.
    pub open spec fn screen(self) -> FrameView {
        FrameView { width: self.width, height: self.height, cells: self.cells }
    }

    /// Whether the cursor is on the grid.
    pub open spec fn cursor_on_grid(self) -> bool {
        0 <= self.cursor.0 < self.width && 0 <= self.cursor.1 < self.height
    }
}

/// The modifiers after a terminal obeys `attribute`. Normal intensity ends
/// bold and dim alike, and the end of blinking ends both kinds.
pub open spec fn apply_attribute(modifier: Modifier, attribute: Attribute) -> Modifier {
    match attribute {
        Attribute::Reset => Modifier::none(),
        Attribute::Bold => Modifier { bold: true, ..modifier },
        Attribute::Dim => Modifier { dim: true, ..modifier },
        Attribute::Italic => Modifier { italic: true, ..modifier },
        Attribute::Underlined => Modifier { underlined: true, ..modifier },
        Attribute::SlowBlink => Modifier { slow_blink: true, ..modifier },
        Attribute::RapidBlink => Modifier { rapid_blink: true, ..modifier },
        Attribute::Reverse => Modifier { reversed: true, ..modifier },
        Attribute::CrossedOut => Modifier { crossed_out: true, ..modifier },
        Attribute::NormalIntensity => Modifier { bold: false, dim: false, ..modifier },
        Attribute::NoItalic => Modifier { italic: false, ..modifier },
        Attribute::NoUnderline => Modifier { underlined: false, ..modifier },
        Attribute::NoBlink => Modifier { slow_blink: false, rapid_blink: false, ..modifier },
        Attribute::NoReverse => Modifier { reversed: false, ..modifier },
        Attribute::NotCrossedOut => Modifier { crossed_out: false, ..modifier },
    }
}

/// The terminal after it obeys one directive. The attribute `Reset` puts
/// the colours back to their defaults too.
pub open spec fn step(t: Terminal, op: Op) -> Terminal {
    match op {
        Op::MoveTo { x, y } => Terminal { cursor: (x, y), ..t },
        Op::SetAttribute(attribute) => if attribute == Attribute::Reset {
            Terminal { pen: Pen::plain(), ..t }
        } else {
            Terminal {
                pen: Pen { modifier: apply_attribute(t.pen.modifier, attribute), ..t.pen },
                ..t
            }
        },
        Op::SetColors { fg, bg } => Terminal { pen: Pen { fg, bg, ..t.pen }, ..t },
        Op::Print(symbol) => Terminal {
            cells: if t.cursor_on_grid() {
                t.cells.update(
                    t.cursor.1 * t.width + t.cursor.0,
                    CellView { symbol, fg: t.pen.fg, bg: t.pen.bg, modifier: t.pen.modifier },
                )
            } else {
                t.cells
            },
            cursor: (t.cursor.0 + 1, t.cursor.1),
            ..t
        },
        Op::ResetForeground => Terminal { pen: Pen { fg: Colour::Reset, ..t.pen }, ..t },
        Op::ResetBackground => Terminal { pen: Pen { bg: Colour::Reset, ..t.pen }, ..t },
        Op::ResetUnderlineColor => t,
    }
}

/// The terminal after it obeys the directives in order.
pub open spec fn replay(t: Terminal, ops: Seq<Op>) -> Terminal
    decreases ops.len(),
{
    if ops.len() == 0 {
        t
    } else {
        step(replay(t, ops.drop_last()), ops.last())
    }
}

/// Whether the directives between two cells with these modifiers leave the
/// terminal with the second cell's modifiers. They do not where dim goes
/// and bold is to stay, nor where one kind of blinking goes and the other is
/// to stay: what switches the one off switches the other off too, and nothing
/// switches it on again.
pub open spec fn carries(last: Modifier, target: Modifier) -> bool {
    &&& !(last.bold && last.dim && target.bold && !target.dim)
    &&& !(last.slow_blink && last.rapid_blink && target.slow_blink != target.rapid_blink)
}

/// Whether [`carries`] holds between each two cells that the patch writes
/// one after the other, from row-major index `from` on.
pub open spec fn carried_from(baseline: FrameView, current: FrameView, from: int, last: Modifier) -> bool
    decreases current.cells.len() - from,
{
    if from < 0 || from >= current.cells.len() {
        true
    } else if baseline.cells[from] == current.cells[from] {
        carried_from(baseline, current, from + 1, last)
    } else {
        carries(last, current.cells[from].modifier) && carried_from(
            baseline,
            current,
            from + 1,
            current.cells[from].modifier,
        )
    }
}

/// Whether [`carries`] holds all along the patch from `baseline` to
/// `current`.
pub open spec fn carried(baseline: FrameView, current: FrameView) -> bool {
    carried_from(baseline, current, 0, Modifier::none())
}

/// Replaying two sequences one after the other is replaying their
/// concatenation.
pub proof fn lemma_replay_concat(t: Terminal, first: Seq<Op>, second: Seq<Op>)
    ensures
        replay(t, first + second) == replay(replay(t, first), second),
    decreases second.len(),
{
    if second.len() == 0 {
    } else {
        lemma_replay_concat(t, first, second.drop_last());
        assert((first + second).drop_last() =~= first + second.drop_last());
    }
}

/// Replaying a single directive is one step.
pub proof fn lemma_replay_one(t: Terminal, op: Op)
    ensures
        replay(t, seq![op]) == step(t, op),
{
    let ops = seq![op];
    assert(replay(t, ops.drop_last()) == t);
}

/// The modifiers after a conditional attribute directive.
#[verifier::opaque]
pub open spec fn apply_maybe(modifier: Modifier, wanted: bool, attribute: Attribute) -> Modifier {
    if wanted {
        apply_attribute(modifier, attribute)
    } else {
        modifier
    }
}

proof fn lemma_replay_maybe(t: Terminal, ops: Seq<Op>, wanted: bool, attribute: Attribute)
    requires
        attribute != Attribute::Reset,
    ensures
        replay(t, ops + maybe(wanted, attribute)) == (Terminal {
            pen: Pen {
                modifier: apply_maybe(replay(t, ops).pen.modifier, wanted, attribute),
                ..replay(t, ops).pen
            },
            ..replay(t, ops)
        }),
{
    reveal(maybe);
    reveal(apply_maybe);
    lemma_replay_concat(t, ops, maybe(wanted, attribute));
    if wanted {
        lemma_replay_one(replay(t, ops), Op::SetAttribute(attribute));
    }
}

/// The modifiers after the directives of [`turn_off`].
pub open spec fn after_turn_off(last: Modifier, target: Modifier) -> Modifier {
    let removed = last.minus(target);
    let m1 = apply_maybe(last, removed.reversed, Attribute::NoReverse);
    let m2 = apply_maybe(m1, removed.bold, Attribute::NormalIntensity);
    let m3 = apply_maybe(m2, removed.bold && target.dim, Attribute::Dim);
    let m4 = apply_maybe(m3, removed.italic, Attribute::NoItalic);
    let m5 = apply_maybe(m4, removed.underlined, Attribute::NoUnderline);
    let m6 = apply_maybe(m5, removed.dim, Attribute::NormalIntensity);
    let m7 = apply_maybe(m6, removed.crossed_out, Attribute::NotCrossedOut);
    apply_maybe(m7, removed.slow_blink || removed.rapid_blink, Attribute::NoBlink)
}

/// The modifiers after the directives of [`turn_on`] that switch on
/// `added`, from `start`.
pub open spec fn after_turn_on(start: Modifier, added: Modifier) -> Modifier {
    let m1 = apply_maybe(start, added.reversed, Attribute::Reverse);
    let m2 = apply_maybe(m1, added.bold, Attribute::Bold);
    let m3 = apply_maybe(m2, added.italic, Attribute::Italic);
    let m4 = apply_maybe(m3, added.underlined, Attribute::Underlined);
    let m5 = apply_maybe(m4, added.dim, Attribute::Dim);
    let m6 = apply_maybe(m5, added.crossed_out, Attribute::CrossedOut);
    let m7 = apply_maybe(m6, added.slow_blink, Attribute::SlowBlink);
    apply_maybe(m7, added.rapid_blink, Attribute::RapidBlink)
}

proof fn lemma_replay_turn_off(t: Terminal, last: Modifier, target: Modifier)
    requires
        t.pen.modifier == last,
    ensures
        replay(t, turn_off(last, target)) == (Terminal {
            pen: Pen { modifier: after_turn_off(last, target), ..t.pen },
            ..t
        }),
{
    let removed = last.minus(target);
    let s0 = Seq::<Op>::empty();
    let s1 = s0 + maybe(removed.reversed, Attribute::NoReverse);
    let s2 = s1 + maybe(removed.bold, Attribute::NormalIntensity);
    let s3 = s2 + maybe(removed.bold && target.dim, Attribute::Dim);
    let s4 = s3 + maybe(removed.italic, Attribute::NoItalic);
    let s5 = s4 + maybe(removed.underlined, Attribute::NoUnderline);
    let s6 = s5 + maybe(removed.dim, Attribute::NormalIntensity);
    let s7 = s6 + maybe(removed.crossed_out, Attribute::NotCrossedOut);
    lemma_replay_maybe(t, s0, removed.reversed, Attribute::NoReverse);
    lemma_replay_maybe(t, s1, removed.bold, Attribute::NormalIntensity);
    lemma_replay_maybe(t, s2, removed.bold && target.dim, Attribute::Dim);
    lemma_replay_maybe(t, s3, removed.italic, Attribute::NoItalic);
    lemma_replay_maybe(t, s4, removed.underlined, Attribute::NoUnderline);
    lemma_replay_maybe(t, s5, removed.dim, Attribute::NormalIntensity);
    lemma_replay_maybe(t, s6, removed.crossed_out, Attribute::NotCrossedOut);
    lemma_replay_maybe(t, s7, removed.slow_blink || removed.rapid_blink, Attribute::NoBlink);
}

proof fn lemma_replay_turn_on(t: Terminal, last: Modifier, target: Modifier)
    ensures
        replay(t, turn_on(last, target)) == (Terminal {
            pen: Pen { modifier: after_turn_on(t.pen.modifier, target.minus(last)), ..t.pen },
            ..t
        }),
{
    let added = target.minus(last);
    let s0 = Seq::<Op>::empty();
    let s1 = s0 + maybe(added.reversed, Attribute::Reverse);
    let s2 = s1 + maybe(added.bold, Attribute::Bold);
    let s3 = s2 + maybe(added.italic, Attribute::Italic);
    let s4 = s3 + maybe(added.underlined, Attribute::Underlined);
    let s5 = s4 + maybe(added.dim, Attribute::Dim);
    let s6 = s5 + maybe(added.crossed_out, Attribute::CrossedOut);
    let s7 = s6 + maybe(added.slow_blink, Attribute::SlowBlink);
    lemma_replay_maybe(t, s0, added.reversed, Attribute::Reverse);
    lemma_replay_maybe(t, s1, added.bold, Attribute::Bold);
    lemma_replay_maybe(t, s2, added.italic, Attribute::Italic);
    lemma_replay_maybe(t, s3, added.underlined, Attribute::Underlined);
    lemma_replay_maybe(t, s4, added.dim, Attribute::Dim);
    lemma_replay_maybe(t, s5, added.crossed_out, Attribute::CrossedOut);
    lemma_replay_maybe(t, s6, added.slow_blink, Attribute::SlowBlink);
    lemma_replay_maybe(t, s7, added.rapid_blink, Attribute::RapidBlink);
}

/// The modifier directives between two cells bring a terminal from the
/// first cell's modifiers to the second's exactly where [`carries`] holds.
pub proof fn lemma_modifiers_arrive(last: Modifier, target: Modifier)
    ensures
        after_turn_on(after_turn_off(last, target), target.minus(last)) == target <==> carries(
            last,
            target,
        ),
{
    lemma_after_turn_off(last, target);
    lemma_after_turn_on(after_turn_off(last, target), target.minus(last));
}

/// What each conditional directive does to the modifiers.
proof fn lemma_apply_maybe(m: Modifier, wanted: bool)
    ensures
        apply_maybe(m, wanted, Attribute::Bold) == (Modifier { bold: m.bold || wanted, ..m }),
        apply_maybe(m, wanted, Attribute::Dim) == (Modifier { dim: m.dim || wanted, ..m }),
        apply_maybe(m, wanted, Attribute::Italic) == (Modifier { italic: m.italic || wanted, ..m }),
        apply_maybe(m, wanted, Attribute::Underlined) == (Modifier {
            underlined: m.underlined || wanted,
            ..m
        }),
        apply_maybe(m, wanted, Attribute::SlowBlink) == (Modifier {
            slow_blink: m.slow_blink || wanted,
            ..m
        }),
        apply_maybe(m, wanted, Attribute::RapidBlink) == (Modifier {
            rapid_blink: m.rapid_blink || wanted,
            ..m
        }),
        apply_maybe(m, wanted, Attribute::Reverse) == (Modifier {
            reversed: m.reversed || wanted,
            ..m
        }),
        apply_maybe(m, wanted, Attribute::CrossedOut) == (Modifier {
            crossed_out: m.crossed_out || wanted,
            ..m
        }),
        apply_maybe(m, wanted, Attribute::NormalIntensity) == (Modifier {
            bold: m.bold && !wanted,
            dim: m.dim && !wanted,
            ..m
        }),
        apply_maybe(m, wanted, Attribute::NoItalic) == (Modifier {
            italic: m.italic && !wanted,
            ..m
        }),
        apply_maybe(m, wanted, Attribute::NoUnderline) == (Modifier {
            underlined: m.underlined && !wanted,
            ..m
        }),
        apply_maybe(m, wanted, Attribute::NoBlink) == (Modifier {
            slow_blink: m.slow_blink && !wanted,
            rapid_blink: m.rapid_blink && !wanted,
            ..m
        }),
        apply_maybe(m, wanted, Attribute::NoReverse) == (Modifier {
            reversed: m.reversed && !wanted,
            ..m
        }),
        apply_maybe(m, wanted, Attribute::NotCrossedOut) == (Modifier {
            crossed_out: m.crossed_out && !wanted,
            ..m
        }),
{
    reveal(apply_maybe);
}

proof fn lemma_after_turn_off(last: Modifier, target: Modifier)
    ensures
        after_turn_off(last, target) == ({
            let removed = last.minus(target);
            Modifier {
                bold: last.bold && target.bold && !removed.dim,
                dim: if removed.bold {
                    target.dim && !removed.dim
                } else {
                    last.dim && target.dim
                },
                italic: last.italic && target.italic,
                underlined: last.underlined && target.underlined,
                slow_blink: last.slow_blink && !(removed.slow_blink || removed.rapid_blink),
                rapid_blink: last.rapid_blink && !(removed.slow_blink || removed.rapid_blink),
                reversed: last.reversed && target.reversed,
                crossed_out: last.crossed_out && target.crossed_out,
            }
        }),
{
    let removed = last.minus(target);
    let m1 = apply_maybe(last, removed.reversed, Attribute::NoReverse);
    lemma_apply_maybe(last, removed.reversed);
    let m2 = apply_maybe(m1, removed.bold, Attribute::NormalIntensity);
    lemma_apply_maybe(m1, removed.bold);
    let m3 = apply_maybe(m2, removed.bold && target.dim, Attribute::Dim);
    lemma_apply_maybe(m2, removed.bold && target.dim);
    let m4 = apply_maybe(m3, removed.italic, Attribute::NoItalic);
    lemma_apply_maybe(m3, removed.italic);
    let m5 = apply_maybe(m4, removed.underlined, Attribute::NoUnderline);
    lemma_apply_maybe(m4, removed.underlined);
    let m6 = apply_maybe(m5, removed.dim, Attribute::NormalIntensity);
    lemma_apply_maybe(m5, removed.dim);
    let m7 = apply_maybe(m6, removed.crossed_out, Attribute::NotCrossedOut);
    lemma_apply_maybe(m6, removed.crossed_out);
    let gone = removed.slow_blink || removed.rapid_blink;
    lemma_apply_maybe(m7, gone);
}

proof fn lemma_after_turn_on(start: Modifier, added: Modifier)
    ensures
        after_turn_on(start, added) == (Modifier {
            bold: start.bold || added.bold,
            dim: start.dim || added.dim,
            italic: start.italic || added.italic,
            underlined: start.underlined || added.underlined,
            slow_blink: start.slow_blink || added.slow_blink,
            rapid_blink: start.rapid_blink || added.rapid_blink,
            reversed: start.reversed || added.reversed,
            crossed_out: start.crossed_out || added.crossed_out,
        }),
{
    let m1 = apply_maybe(start, added.reversed, Attribute::Reverse);
    lemma_apply_maybe(start, added.reversed);
    let m2 = apply_maybe(m1, added.bold, Attribute::Bold);
    lemma_apply_maybe(m1, added.bold);
    let m3 = apply_maybe(m2, added.italic, Attribute::Italic);
    lemma_apply_maybe(m2, added.italic);
    let m4 = apply_maybe(m3, added.underlined, Attribute::Underlined);
    lemma_apply_maybe(m3, added.underlined);
    let m5 = apply_maybe(m4, added.dim, Attribute::Dim);
    lemma_apply_maybe(m4, added.dim);
    let m6 = apply_maybe(m5, added.crossed_out, Attribute::CrossedOut);
    lemma_apply_maybe(m5, added.crossed_out);
    let m7 = apply_maybe(m6, added.slow_blink, Attribute::SlowBlink);
    lemma_apply_maybe(m6, added.slow_blink);
    lemma_apply_maybe(m7, added.rapid_blink);
}

/// Writing one cell: the terminal then shows the cell where it belongs, its
/// pen is the cell's, and its cursor is just right of the cell.
proof fn lemma_replay_cell(t: Terminal, state: Scan, x: int, y: int, cell: CellView)
    requires
        0 <= x < t.width,
        0 <= y < t.height,
        t.cells.len() == t.width * t.height,
        t.pen == state.pen,
        state.last matches Some(p) ==> t.cursor == (p.0 + 1, p.1),
        carries(state.pen.modifier, cell.modifier),
    ensures
        replay(t, cell_ops(state, x, y, cell)) == (Terminal {
            cells: t.cells.update(y * t.width + x, cell),
            cursor: (x + 1, y),
            pen: Pen::of(cell),
            ..t
        }),
{
    let last = state.pen.modifier;
    let moves = move_ops(state.last, x, y);
    let off = turn_off(last, cell.modifier);
    let on = turn_on(last, cell.modifier);
    let colors = color_ops(state.pen, cell);
    let print = seq![Op::Print(cell.symbol)];
    let t1 = replay(t, moves);
    assert(t1 == Terminal { cursor: (x, y), ..t }) by {
        if state.last == Some((x - 1, y)) {
        } else {
            lemma_replay_one(t, Op::MoveTo { x, y });
        }
    }
    lemma_replay_concat(t, moves, off);
    lemma_replay_turn_off(t1, last, cell.modifier);
    let t2 = replay(t1, off);
    lemma_replay_concat(t, moves + off, on);
    lemma_replay_turn_on(t2, last, cell.modifier);
    let t3 = replay(t2, on);
    lemma_modifiers_arrive(last, cell.modifier);
    lemma_replay_concat(t, moves + off + on, colors);
    let t4 = replay(t3, colors);
    assert(t4 == Terminal { pen: Pen::of(cell), cursor: (x, y), ..t }) by {
        if cell.fg != state.pen.fg || cell.bg != state.pen.bg {
            lemma_replay_one(t3, Op::SetColors { fg: cell.fg, bg: cell.bg });
        }
    }
    lemma_replay_concat(t, moves + off + on + colors, print);
    lemma_replay_one(t4, Op::Print(cell.symbol));
    crate::frame::lemma_index_in_grid(x, y, t.width as int, t.height as int);
}

proof fn lemma_scan_replay(a: FrameView, b: FrameView, from: int, state: Scan, t: Terminal)
    requires
        a.wf(),
        b.wf(),
        a.same_size(b),
        0 <= from <= b.cells.len(),
        t.width == b.width,
        t.height == b.height,
        t.cells.len() == b.cells.len(),
        forall|k: int| 0 <= k < from ==> t.cells[k] == b.cells[k],
        forall|k: int| from <= k < b.cells.len() ==> t.cells[k] == a.cells[k],
        t.pen == state.pen,
        state.last matches Some(p) ==> t.cursor == (p.0 + 1, p.1),
        carried_from(a, b, from, state.pen.modifier),
    ensures
        replay(t, scan_from(a, b, from, state)).cells == b.cells,
        replay(t, scan_from(a, b, from, state)).width == b.width,
        replay(t, scan_from(a, b, from, state)).height == b.height,
    decreases b.cells.len() - from,
{
    if from >= b.cells.len() {
    } else if a.cells[from] == b.cells[from] {
        lemma_scan_replay(a, b, from + 1, state, t);
    } else {
        let width = b.width as int;
        assert(width > 0) by (nonlinear_arith)
            requires
                b.cells.len() == b.width * b.height,
                b.cells.len() > 0,
                width == b.width,
        ;
        let x = from % width;
        let y = from / width;
        let cell = b.cells[from];
        vstd::arithmetic::div_mod::lemma_fundamental_div_mod(from, width);
        vstd::arithmetic::div_mod::lemma_mod_bound(from, width);
        vstd::arithmetic::div_mod::lemma_div_pos_is_pos(from, width);
        vstd::arithmetic::div_mod::lemma_multiply_divide_lt(from, width, b.height as int);
        assert(y * width + x == from) by (nonlinear_arith)
            requires
                from == width * y + x,
        ;
        let step_ops = cell_ops(state, x, y, cell);
        let rest = scan_from(a, b, from + 1, Scan::after(x, y, cell));
        lemma_replay_cell(t, state, x, y, cell);
        let t1 = replay(t, step_ops);
        lemma_replay_concat(t, step_ops, rest);
        lemma_scan_replay(a, b, from + 1, Scan::after(x, y, cell), t1);
    }
}

/// Replay is faithful: on a terminal that shows `baseline`, with a plain
/// pen and the cursor anywhere, the patch from `baseline` to `current` and
/// the trailer leave the terminal showing `current`, again with a plain pen.
/// This is so for frames whose cells each show what fills one cell, and
/// where the modifiers of the cells that are written follow each other as
/// [`carries`] asks.
pub proof fn lemma_replay_reproduces(baseline: FrameView, current: FrameView, cursor: (int, int))
    requires
        baseline.wf(),
        current.wf(),
        baseline.same_size(current),
        baseline.narrow(),
        current.narrow(),
        carried(baseline, current),
    ensures
        replay(Terminal::showing(baseline, cursor), patch(baseline, current) + trailer()).screen()
            == current,
        replay(Terminal::showing(baseline, cursor), patch(baseline, current) + trailer()).pen
            == Pen::plain(),
{
    let t = Terminal::showing(baseline, cursor);
    lemma_scan_replay(baseline, current, 0, Scan::start(), t);
    lemma_replay_concat(t, patch(baseline, current), trailer());
    let t1 = replay(t, patch(baseline, current));
    lemma_replay_trailer(t1);
}

/// The trailer leaves the screen as it is and the pen plain.
pub proof fn lemma_replay_trailer(t: Terminal)
    ensures
        replay(t, trailer()) == (Terminal { pen: Pen::plain(), ..t }),
{
    let s1 = seq![Op::ResetForeground];
    let s2 = s1 + seq![Op::ResetBackground];
    let s3 = s2 + seq![Op::ResetUnderlineColor];
    let s4 = s3 + seq![Op::SetAttribute(Attribute::Reset)];
    assert(s4 =~= trailer());
    lemma_replay_one(t, Op::ResetForeground);
    lemma_replay_concat(t, s1, seq![Op::ResetBackground]);
    lemma_replay_one(replay(t, s1), Op::ResetBackground);
    lemma_replay_concat(t, s2, seq![Op::ResetUnderlineColor]);
    lemma_replay_one(replay(t, s2), Op::ResetUnderlineColor);
    lemma_replay_concat(t, s3, seq![Op::SetAttribute(Attribute::Reset)]);
    lemma_replay_one(replay(t, s3), Op::SetAttribute(Attribute::Reset));
}

/// Whether the directives between two cells with these modifiers leave the
/// terminal with the second cell's modifiers.
pub fn modifiers_carry(last: Modifier, target: Modifier) -> (r: bool)
    ensures
        r == carries(last, target),
{
    !(last.bold && last.dim && target.bold && !target.dim) && !(last.slow_blink
        && last.rapid_blink && target.slow_blink != target.rapid_blink)
}

/// Whether replaying the patch from `baseline` to `current` is certain to
/// show `current`: every cell of both frames shows what fills one cell, and
/// the modifiers of the cells that are written follow each other as
/// [`carries`] asks. Where it is, the patch and the trailer leave a terminal
/// that shows `baseline` showing `current`, wherever its cursor was.
pub fn is_faithful(baseline: &FrameBuffer, current: &FrameBuffer) -> (r: bool)
    requires
        baseline@.wf(),
        current@.wf(),
        baseline@.same_size(current@),
    ensures
        r == (baseline@.narrow() && current@.narrow() && carried(baseline@, current@)),
        forall|cursor: (int, int)|
            r ==> (#[trigger] replay(
                Terminal::showing(baseline@, cursor),
                patch(baseline@, current@) + trailer(),
            )).screen() == current@,
{
    if !baseline.is_narrow() || !current.is_narrow() {
        return false;
    }
    let n = current.len();
    let mut last = Modifier::empty();
    let mut i: usize = 0;
    while i < n
        invariant
            i <= n,
            n == current@.cells.len(),
            n == baseline@.cells.len(),
            carried(baseline@, current@) == carried_from(baseline@, current@, i as int, last),
        decreases n - i,
    {
        let cell = current.cell(i);
        if !baseline.cell(i).same(cell) {
            if !modifiers_carry(last, cell.modifier) {
                return false;
            }
            last = cell.modifier;
        }
        i += 1;
    }
    proof {
        assert forall|cursor: (int, int)|
            (#[trigger] replay(
                Terminal::showing(baseline@, cursor),
                patch(baseline@, current@) + trailer(),
            )).screen() == current@ by {
            lemma_replay_reproduces(baseline@, current@, cursor);
        }
    }
    true
}

/// The patch from a frame to itself has no directive.
pub proof fn lemma_patch_of_same_is_empty(frame: FrameView)
    ensures
        patch(frame, frame) == Seq::<Op>::empty(),
{
    lemma_scan_of_same_is_empty(frame, 0, Scan::start());
}

proof fn lemma_scan_of_same_is_empty(frame: FrameView, from: int, state: Scan)
    ensures
        scan_from(frame, frame, from, state) == Seq::<Op>::empty(),
    decreases frame.cells.len() - from,
{
    if 0 <= from < frame.cells.len() {
        lemma_scan_of_same_is_empty(frame, from + 1, state);
    }
}

/// A full dump redraws the frame: on a blank terminal of the frame's size,
/// the patch from the blank frame and the trailer leave the terminal showing
/// the frame.
pub proof fn lemma_full_dump_reproduces(frame: FrameView, cursor: (int, int))
    requires
        frame.wf(),
        frame.narrow(),
        carried(FrameView::blank(frame.width, frame.height), frame),
    ensures
        replay(
            Terminal::showing(FrameView::blank(frame.width, frame.height), cursor),
            patch(FrameView::blank(frame.width, frame.height), frame) + trailer(),
        ).screen() == frame,
{
    lemma_replay_reproduces(FrameView::blank(frame.width, frame.height), frame, cursor);
}

} // verus!
