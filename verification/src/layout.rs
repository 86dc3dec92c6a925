//! The grid: where each widget goes in the viewport.
//!
//! Widgets are laid out in the order of their names, row after row. A row
//! takes one more name while the viewport, split evenly among the names the
//! row would then hold, still gives each at least a cell's width; the first
//! name of a row is always taken. So every row but the last holds the same
//! number of names, the row limit. Each row is as high as a cell, and each
//! slot of a row is an even share of the viewport's width, at most a cell's
//! width. Rows that reach below the viewport are cut off at its lower edge.
use vstd::prelude::*;
use crate::text::names_of;

verus! {

/// A rectangle of the screen, in cells.
#[derive(Clone, Copy, Debug, PartialEq, Eq, Hash, Structural)]
pub struct Rect {
    pub x: u16,
    pub y: u16,
    pub width: u16,
    pub height: u16,
}

impl Rect {
    /// The empty rectangle at the origin.
    pub fn zero() -> (r: Rect)
        ensures
            r == (Rect { x: 0, y: 0, width: 0, height: 0 }),
    {
        Rect { x: 0, y: 0, width: 0, height: 0 }
    }

    /// The rectangle shrunk by `horizontal` cells on the left and on the
    /// right and by `vertical` cells above and below; the empty rectangle
    /// at the origin where that is more than it has.
    pub open spec fn shrunk(self, horizontal: u16, vertical: u16) -> Rect {
        if self.width < 2 * horizontal || self.height < 2 * vertical {
            Rect { x: 0, y: 0, width: 0, height: 0 }
        } else {
            Rect {
                x: least(self.x + horizontal, u16::MAX as int) as u16,
                y: least(self.y + vertical, u16::MAX as int) as u16,
                width: (self.width - 2 * horizontal) as u16,
                height: (self.height - 2 * vertical) as u16,
            }
        }
    }

    /// The rectangle shrunk on all four sides.
    pub fn inner(self, horizontal: u16, vertical: u16) -> (r: Rect)
        ensures
            r == self.shrunk(horizontal, vertical),
    {
        let double_horizontal: u32 = 2 * (horizontal as u32);
        let double_vertical: u32 = 2 * (vertical as u32);
        if (self.width as u32) < double_horizontal || (self.height as u32) < double_vertical {
            Rect::zero()
        } else {
            Rect {
                x: self.x.saturating_add(horizontal),
                y: self.y.saturating_add(vertical),
                width: ((self.width as u32) - double_horizontal) as u16,
                height: ((self.height as u32) - double_vertical) as u16,
            }
        }
    }
}

/// A widget's place in the grid.
#[derive(Clone, Debug, PartialEq, Eq)]
pub struct Slot {
    /// The widget's name.
    pub name: String,
    /// Where it is drawn, from the viewport's upper left corner.
    pub area: Rect,
}

/// The smaller of two numbers.
pub open spec fn least(a: int, b: int) -> int {
    if a <= b {
        a
    } else {
        b
    }
}

/// Whether a row that holds `len` names can take one more.
pub open spec fn takes_one_more(viewport_width: nat, cell_width: nat, len: nat) -> bool {
    viewport_width / (len + 1) >= cell_width
}

/// The most names a row holds, where `count` names are laid out: the number
/// of cells that fit side by side, at least 1. A cell width of 0 sets no
/// limit, and all the names share one row.
pub open spec fn row_limit(viewport_width: nat, cell_width: nat, count: nat) -> nat {
    if cell_width == 0 {
        if count == 0 {
            1
        } else {
            count
        }
    } else if viewport_width / cell_width == 0 {
        1
    } else {
        viewport_width / cell_width
    }
}

/// The number of rows that `count` names fill.
pub open spec fn row_count(count: nat, limit: nat) -> nat {
    ((count + limit - 1) / (limit as int)) as nat
}

/// The number of names in row `row`.
pub open spec fn row_len(count: nat, limit: nat, row: nat) -> nat {
    least(limit as int, count - row * limit) as nat
}

/// The width of each slot in a row of `len` names.
pub open spec fn slot_width(viewport_width: nat, cell_width: nat, len: nat) -> nat {
    least((viewport_width / len) as int, cell_width as int) as nat
}

/// The upper edge of row `row`.
pub open spec fn row_top(viewport_height: nat, cell_height: nat, row: nat) -> nat {
    least((row * cell_height) as int, viewport_height as int) as nat
}

/// The area of the slot in column `column` of row `row`, a row of `len`
/// names.
pub open spec fn slot_area(
    viewport_width: nat,
    viewport_height: nat,
    cell_width: nat,
    cell_height: nat,
    len: nat,
    row: nat,
    column: nat,
) -> Rect {
    let top = row_top(viewport_height, cell_height, row);
    Rect {
        x: (column * slot_width(viewport_width, cell_width, len)) as u16,
        y: top as u16,
        width: slot_width(viewport_width, cell_width, len) as u16,
        height: least(cell_height as int, viewport_height - top) as u16,
    }
}

/// Whether `rows` is the grid for `names` in a viewport and with cells of
/// the given sizes.
pub open spec fn is_grid(
    rows: Seq<Vec<Slot>>,
    names: Seq<Seq<char>>,
    viewport_width: nat,
    viewport_height: nat,
    cell_width: nat,
    cell_height: nat,
) -> bool {
    let limit = row_limit(viewport_width, cell_width, names.len());
    &&& rows.len() == row_count(names.len(), limit)
    &&& forall|r: int|
        0 <= r < rows.len() ==> (#[trigger] rows[r])@.len() == row_len(
            names.len(),
            limit,
            r as nat,
        )
    &&& forall|r: int, c: int|
        0 <= r < rows.len() && 0 <= c < rows[r]@.len() ==> {
            &&& (#[trigger] rows[r]@[c]).name@ == names[r * limit + c]
            &&& rows[r]@[c].area == slot_area(
                viewport_width,
                viewport_height,
                cell_width,
                cell_height,
                rows[r]@.len(),
                r as nat,
                c as nat,
            )
        }
}

/// The row limit is what taking names one by one comes to: a row of `len`
/// names, `len` at least 1, takes one more exactly while it is below the
/// limit.
pub proof fn lemma_row_limit_is_greedy(viewport_width: nat, cell_width: nat, count: nat, len: nat)
    requires
        1 <= len < count,
    ensures
        takes_one_more(viewport_width, cell_width, len) <==> len < row_limit(
            viewport_width,
            cell_width,
            count,
        ),
{
    let vw = viewport_width as int;
    let cw = cell_width as int;
    let m = len as int + 1;
    if cell_width == 0 {
        vstd::arithmetic::div_mod::lemma_div_pos_is_pos(vw, m);
    } else {
        vstd::arithmetic::div_mod::lemma_fundamental_div_mod(vw, m);
        vstd::arithmetic::div_mod::lemma_mod_bound(vw, m);
        vstd::arithmetic::div_mod::lemma_fundamental_div_mod(vw, cw);
        vstd::arithmetic::div_mod::lemma_mod_bound(vw, cw);
        vstd::arithmetic::div_mod::lemma_div_pos_is_pos(vw, m);
        vstd::arithmetic::div_mod::lemma_div_pos_is_pos(vw, cw);
        let q = vw / m;
        let k = vw / cw;
        if q >= cw {
            // m * cw <= m * q <= vw, so m <= vw / cw
            assert(m * cw <= m * q) by (nonlinear_arith)
                requires
                    q >= cw,
                    m > 0,
            ;
            assert(m <= k) by (nonlinear_arith)
                requires
                    m * cw <= vw,
                    vw == cw * k + vw % cw,
                    0 <= vw % cw < cw,
                    cw > 0,
            ;
        } else {
            // vw < m * (q + 1) <= m * cw, so vw / cw < m
            assert(m * (q + 1) <= m * cw) by (nonlinear_arith)
                requires
                    q + 1 <= cw,
                    m > 0,
            ;
            assert(vw < m * (q + 1)) by (nonlinear_arith)
                requires
                    vw == m * q + vw % m,
                    vw % m < m,
            ;
            assert(k < m) by (nonlinear_arith)
                requires
                    vw < m * cw,
                    vw == cw * k + vw % cw,
                    0 <= vw % cw < cw,
                    cw > 0,
            ;
        }
    }
}

/// A grid is what taking the names one by one comes to: within a row each
/// name after the first was taken because the row could take one more, and
/// every row but the last was closed because it could not.
pub proof fn lemma_grid_follows_rule(
    rows: Seq<Vec<Slot>>,
    names: Seq<Seq<char>>,
    viewport_width: nat,
    viewport_height: nat,
    cell_width: nat,
    cell_height: nat,
)
    requires
        is_grid(rows, names, viewport_width, viewport_height, cell_width, cell_height),
    ensures
        forall|r: int, len: int|
            0 <= r < rows.len() && 1 <= len < (#[trigger] rows[r])@.len() ==> #[trigger] takes_one_more(
                viewport_width,
                cell_width,
                len as nat,
            ),
        forall|r: int|
            0 <= r < rows.len() - 1 ==> !takes_one_more(
                viewport_width,
                cell_width,
                (#[trigger] rows[r])@.len(),
            ),
        forall|r: int| 0 <= r < rows.len() ==> (#[trigger] rows[r])@.len() >= 1,
{
    let count = names.len();
    let limit = row_limit(viewport_width, cell_width, count);
    assert forall|r: int, len: int|
        0 <= r < rows.len() && 1 <= len < (#[trigger] rows[r])@.len() implies #[trigger] takes_one_more(
        viewport_width,
        cell_width,
        len as nat,
    ) by {
        lemma_rows_hold_all(count, limit, r as nat);
        assert(len < count) by (nonlinear_arith)
            requires
                len < row_len(count, limit, r as nat),
                r * limit + row_len(count, limit, r as nat) <= count,
                r * limit >= 0,
        ;
        lemma_row_limit_is_greedy(viewport_width, cell_width, count, len as nat);
    }
    assert forall|r: int| 0 <= r < rows.len() - 1 implies !takes_one_more(
        viewport_width,
        cell_width,
        (#[trigger] rows[r])@.len(),
    ) by {
        lemma_rows_hold_all(count, limit, r as nat);
        lemma_rows_hold_all(count, limit, (r + 1) as nat);
        assert((r + 1) * limit == r * limit + limit) by (nonlinear_arith);
        assert(limit < count) by (nonlinear_arith)
            requires
                r * limit + limit < count,
                r * limit >= 0,
        ;
        lemma_row_limit_is_greedy(viewport_width, cell_width, count, limit);
    }
    assert forall|r: int| 0 <= r < rows.len() implies (#[trigger] rows[r])@.len() >= 1 by {
        lemma_rows_hold_all(count, limit, r as nat);
    }
}

/// All rows but the last are full, and the last is not empty: the rows hold
/// `count` names between them.
pub proof fn lemma_rows_hold_all(count: nat, limit: nat, row: nat)
    requires
        limit >= 1,
        row < row_count(count, limit),
    ensures
        row * limit < count,
        row * limit + row_len(count, limit, row) <= count,
        1 <= row_len(count, limit, row) <= limit,
        row + 1 < row_count(count, limit) ==> row_len(count, limit, row) == limit,
        row + 1 == row_count(count, limit) ==> row * limit + row_len(count, limit, row) == count,
{
    let l = limit as int;
    let total = count + limit - 1;
    let rows = total / l;
    vstd::arithmetic::div_mod::lemma_fundamental_div_mod(total, l);
    vstd::arithmetic::div_mod::lemma_mod_bound(total, l);
    assert(row * l + l <= rows * l) by (nonlinear_arith)
        requires
            row + 1 <= rows,
            l >= 1,
    ;
    if row + 1 == rows {
        assert(l * rows == row * l + l) by (nonlinear_arith)
            requires
                row + 1 == rows,
        ;
    }
    if row + 1 < rows {
        assert((row + 2) * l <= rows * l) by (nonlinear_arith)
            requires
                row + 2 <= rows,
                l >= 1,
        ;
        assert((row + 2) * l == row * l + 2 * l) by (nonlinear_arith);
    }
}

fn limit_of(viewport_width: u16, cell_width: u16, count: usize) -> (limit: usize)
    ensures
        limit == row_limit(viewport_width as nat, cell_width as nat, count as nat),
        limit >= 1,
{
    if cell_width == 0 {
        if count == 0 {
            1
        } else {
            count
        }
    } else if viewport_width / cell_width == 0 {
        1
    } else {
        (viewport_width / cell_width) as usize
    }
}

/// One row of the grid: the names from `start` on, `len` of them.
fn compose_row(
    names: &Vec<String>,
    start: usize,
    len: usize,
    viewport_width: u16,
    cell_width: u16,
    top: u16,
    height: u16,
) -> (row: Vec<Slot>)
    requires
        1 <= len,
        start + len <= names@.len(),
        names@.len() <= usize::MAX,
    ensures
        row@.len() == len,
        forall|c: int|
            0 <= c < len ==> {
                &&& (#[trigger] row@[c]).name@ == names@[start + c]@
                &&& row@[c].area == (Rect {
                    x: (c * slot_width(viewport_width as nat, cell_width as nat, len as nat)) as u16,
                    y: top,
                    width: slot_width(viewport_width as nat, cell_width as nat, len as nat) as u16,
                    height,
                })
            },
{
    let share: usize = (viewport_width as usize) / len;
    let width: u16 = if share < cell_width as usize {
        share as u16
    } else {
        cell_width
    };
    proof {
        vstd::arithmetic::div_mod::lemma_fundamental_div_mod(viewport_width as int, len as int);
        vstd::arithmetic::div_mod::lemma_mod_bound(viewport_width as int, len as int);
    }
    let mut row: Vec<Slot> = Vec::new();
    let mut x: u16 = 0;
    let mut c: usize = 0;
    while c < len
        invariant
            1 <= len,
            start + len <= names@.len(),
            names@.len() <= usize::MAX,
            c <= len,
            width <= share,
            viewport_width == len * share + (viewport_width as int) % (len as int),
            0 <= (viewport_width as int) % (len as int),
            x == c * width,
            row@.len() == c,
            forall|k: int|
                0 <= k < c ==> {
                    &&& (#[trigger] row@[k]).name@ == names@[start + k]@
                    &&& row@[k].area == (Rect { x: (k * width) as u16, y: top, width, height })
                },
        decreases len - c,
    {
        row.push(Slot { name: names[start + c].clone(), area: Rect { x, y: top, width, height } });
        assert((c + 1) * width <= viewport_width) by (nonlinear_arith)
            requires
                c + 1 <= len,
                width <= share,
                viewport_width >= len * share,
        ;
        assert((c + 1) * width == c * width + width) by (nonlinear_arith);
        x = x + width;
        c += 1;
    }
    row
}

/// The grid for the widgets called `names`, which are taken in the order
/// given: the rows from the top down, each with its slots from the left.
pub fn compose(
    names: &Vec<String>,
    viewport_width: u16,
    viewport_height: u16,
    cell_width: u16,
    cell_height: u16,
) -> (rows: Vec<Vec<Slot>>)
    ensures
        is_grid(
            rows@,
            names_of(names@),
            viewport_width as nat,
            viewport_height as nat,
            cell_width as nat,
            cell_height as nat,
        ),
{
    let n = names.len();
    let limit = limit_of(viewport_width, cell_width, n);
    let ghost total = row_count(n as nat, limit as nat);
    let mut rows: Vec<Vec<Slot>> = Vec::new();
    let mut start: usize = 0;
    let mut top: u16 = 0;
    proof {
        if n == 0 {
            vstd::arithmetic::div_mod::lemma_basic_div(limit - 1, limit as int);
        } else {
            lemma_rows_exist(n as nat, limit as nat);
        }
        assert(rows@.len() * limit == 0) by (nonlinear_arith)
            requires
                rows@.len() == 0,
        ;
    }
    while start < n
        invariant
            limit >= 1,
            n == names@.len(),
            limit == row_limit(viewport_width as nat, cell_width as nat, n as nat),
            total == row_count(n as nat, limit as nat),
            start < n ==> start == rows@.len() * limit,
            start < n ==> rows@.len() < total,
            start >= n ==> rows@.len() == total,
            start <= n,
            top == row_top(viewport_height as nat, cell_height as nat, rows@.len() as nat),
            forall|r: int|
                0 <= r < rows@.len() ==> (#[trigger] rows@[r])@.len() == row_len(
                    n as nat,
                    limit as nat,
                    r as nat,
                ),
            forall|r: int, c: int|
                0 <= r < rows@.len() && 0 <= c < rows@[r]@.len() ==> {
                    &&& (#[trigger] rows@[r]@[c]).name@ == names@[r * limit + c]@
                    &&& rows@[r]@[c].area == slot_area(
                        viewport_width as nat,
                        viewport_height as nat,
                        cell_width as nat,
                        cell_height as nat,
                        rows@[r]@.len(),
                        r as nat,
                        c as nat,
                    )
                },
        decreases n - start,
    {
        let ghost r = rows@.len() as nat;
        proof {
            lemma_rows_hold_all(n as nat, limit as nat, r);
        }
        let len = if n - start < limit {
            n - start
        } else {
            limit
        };
        let room: u16 = viewport_height - top;
        let height: u16 = if cell_height < room {
            cell_height
        } else {
            room
        };
        let row = compose_row(names, start, len, viewport_width, cell_width, top, height);
        rows.push(row);
        proof {
            assert forall|i: int, c: int|
                0 <= i < rows@.len() && 0 <= c < rows@[i]@.len() implies {
                &&& (#[trigger] rows@[i]@[c]).name@ == names@[i * limit + c]@
                &&& rows@[i]@[c].area == slot_area(
                    viewport_width as nat,
                    viewport_height as nat,
                    cell_width as nat,
                    cell_height as nat,
                    rows@[i]@.len(),
                    i as nat,
                    c as nat,
                )
            } by {
            }
            assert((r + 1) * cell_height == r * cell_height + cell_height) by (nonlinear_arith);
            assert((r + 1) * limit == r * limit + limit) by (nonlinear_arith);
            if r + 1 < total {
                lemma_rows_hold_all(n as nat, limit as nat, r + 1);
            }
        }
        top = if (top as u32) + (cell_height as u32) < viewport_height as u32 {
            top + cell_height
        } else {
            viewport_height
        };
        start = start + len;
    }
    proof {
        let views = names_of(names@);
        assert forall|r: int, c: int|
            0 <= r < rows@.len() && 0 <= c < rows@[r]@.len() implies (#[trigger] rows@[r]@[c]).name@
            == views[r * limit + c] by {
            lemma_rows_hold_all(n as nat, limit as nat, r as nat);
            assert(r * limit + c < n) by (nonlinear_arith)
                requires
                    r * limit < n,
                    c < row_len(n as nat, limit as nat, r as nat),
                    row_len(n as nat, limit as nat, r as nat) <= n - r * limit,
                    0 <= c,
            ;
        }
    }
    rows
}

/// Where there is a name there is a row.
proof fn lemma_rows_exist(count: nat, limit: nat)
    requires
        count >= 1,
        limit >= 1,
    ensures
        row_count(count, limit) >= 1,
{
    let l = limit as int;
    let total = count + limit - 1;
    vstd::arithmetic::div_mod::lemma_fundamental_div_mod(total, l);
    vstd::arithmetic::div_mod::lemma_mod_bound(total, l);
    assert(total / l >= 1) by (nonlinear_arith)
        requires
            total >= l,
            total == l * (total / l) + total % l,
            0 <= total % l < l,
            l >= 1,
    ;
}

} // verus!
