//! Colours, style modifiers, cells and full-screen frame buffers.
//!
//! A frame buffer is a `width * height` grid of cells stored row by row. Its
//! mathematical model is a [`FrameView`]: the two dimensions and the sequence
//! of cell views in row-major order.
use vstd::prelude::*;

verus! {

/// A terminal colour: the default colour, one of the sixteen named colours,
/// a 24-bit colour or an entry of the 256-colour palette.
#[derive(Clone, Copy, Debug, PartialEq, Eq, Hash, Structural)]
pub enum Colour {
    Reset,
    Black,
    Red,
    Green,
    Yellow,
    Blue,
    Magenta,
    Cyan,
    Gray,
    DarkGray,
    LightRed,
    LightGreen,
    LightYellow,
    LightBlue,
    LightMagenta,
    LightCyan,
    White,
    Rgb(u8, u8, u8),
    Indexed(u8),
}

/// The red, green and blue of a colour as it is painted into a picture: the
/// default colour is painted black, and every palette entry white.
pub open spec fn rgb_of(color: Colour) -> (u8, u8, u8) {
    match color {
        Colour::Black => (0, 0, 0),
        Colour::Blue => (0, 0, 170),
        Colour::Cyan => (0, 170, 170),
        Colour::DarkGray => (85, 85, 85),
        Colour::Green => (0, 170, 0),
        Colour::Indexed(_) => (255, 255, 255),
        Colour::LightBlue => (85, 85, 255),
        Colour::LightCyan => (85, 255, 255),
        Colour::LightGreen => (85, 255, 85),
        Colour::LightMagenta => (255, 85, 255),
        Colour::LightRed => (255, 85, 85),
        Colour::LightYellow => (255, 255, 85),
        Colour::Reset => (0, 0, 0),
        Colour::Rgb(r, g, b) => (r, g, b),
        Colour::White => (255, 255, 255),
        Colour::Gray => (170, 170, 170),
        Colour::Red => (170, 0, 0),
        Colour::Yellow => (170, 85, 0),
        Colour::Magenta => (170, 0, 170),
    }
}

/// The red, green and blue of a colour as it is painted into a picture.
pub fn to_rgb(color: Colour) -> (rgb: (u8, u8, u8))
    ensures
        rgb == rgb_of(color),
{
    match color {
        Colour::Black => (0, 0, 0),
        Colour::Blue => (0, 0, 170),
        Colour::Cyan => (0, 170, 170),
        Colour::DarkGray => (85, 85, 85),
        Colour::Green => (0, 170, 0),
        Colour::Indexed(_) => (255, 255, 255),
        Colour::LightBlue => (85, 85, 255),
        Colour::LightCyan => (85, 255, 255),
        Colour::LightGreen => (85, 255, 85),
        Colour::LightMagenta => (255, 85, 255),
        Colour::LightRed => (255, 85, 85),
        Colour::LightYellow => (255, 255, 85),
        Colour::Reset => (0, 0, 0),
        Colour::Rgb(r, g, b) => (r, g, b),
        Colour::White => (255, 255, 255),
        Colour::Gray => (170, 170, 170),
        Colour::Red => (170, 0, 0),
        Colour::Yellow => (170, 85, 0),
        Colour::Magenta => (170, 0, 170),
    }
}

/// The set of style modifiers of a cell, one flag for each modifier.
#[derive(Clone, Copy, Debug, PartialEq, Eq, Hash, Structural)]
pub struct Modifier {
    pub bold: bool,
    pub dim: bool,
    pub italic: bool,
    pub underlined: bool,
    pub slow_blink: bool,
    pub rapid_blink: bool,
    pub reversed: bool,
    pub crossed_out: bool,
}

impl Modifier {
    /// The empty set.
    pub open spec fn none() -> Modifier {
        Modifier {
            bold: false,
            dim: false,
            italic: false,
            underlined: false,
            slow_blink: false,
            rapid_blink: false,
            reversed: false,
            crossed_out: false,
        }
    }

    /// The modifiers of `self` that `other` does not have.
    pub open spec fn minus(self, other: Modifier) -> Modifier {
        Modifier {
            bold: self.bold && !other.bold,
            dim: self.dim && !other.dim,
            italic: self.italic && !other.italic,
            underlined: self.underlined && !other.underlined,
            slow_blink: self.slow_blink && !other.slow_blink,
            rapid_blink: self.rapid_blink && !other.rapid_blink,
            reversed: self.reversed && !other.reversed,
            crossed_out: self.crossed_out && !other.crossed_out,
        }
    }

    /// The modifiers that `self` or `other` has.
    pub open spec fn plus(self, other: Modifier) -> Modifier {
        Modifier {
            bold: self.bold || other.bold,
            dim: self.dim || other.dim,
            italic: self.italic || other.italic,
            underlined: self.underlined || other.underlined,
            slow_blink: self.slow_blink || other.slow_blink,
            rapid_blink: self.rapid_blink || other.rapid_blink,
            reversed: self.reversed || other.reversed,
            crossed_out: self.crossed_out || other.crossed_out,
        }
    }

    /// The empty set.
    pub fn empty() -> (m: Modifier)
        ensures
            m == Modifier::none(),
    {
        Modifier {
            bold: false,
            dim: false,
            italic: false,
            underlined: false,
            slow_blink: false,
            rapid_blink: false,
            reversed: false,
            crossed_out: false,
        }
    }

    /// The modifiers of `self` that `other` does not have.
    pub fn difference(self, other: Modifier) -> (m: Modifier)
        ensures
            m == self.minus(other),
    {
        Modifier {
            bold: self.bold && !other.bold,
            dim: self.dim && !other.dim,
            italic: self.italic && !other.italic,
            underlined: self.underlined && !other.underlined,
            slow_blink: self.slow_blink && !other.slow_blink,
            rapid_blink: self.rapid_blink && !other.rapid_blink,
            reversed: self.reversed && !other.reversed,
            crossed_out: self.crossed_out && !other.crossed_out,
        }
    }

    /// The modifiers that `self` or `other` has.
    pub fn union(self, other: Modifier) -> (m: Modifier)
        ensures
            m == self.plus(other),
    {
        Modifier {
            bold: self.bold || other.bold,
            dim: self.dim || other.dim,
            italic: self.italic || other.italic,
            underlined: self.underlined || other.underlined,
            slow_blink: self.slow_blink || other.slow_blink,
            rapid_blink: self.rapid_blink || other.rapid_blink,
            reversed: self.reversed || other.reversed,
            crossed_out: self.crossed_out || other.crossed_out,
        }
    }
}

/// One position of the screen: what is drawn there and how.
#[derive(Clone, Debug, PartialEq, Eq)]
pub struct Cell {
    pub symbol: String,
    pub fg: Colour,
    pub bg: Colour,
    pub modifier: Modifier,
}

/// The mathematical value of a [`Cell`].
pub struct CellView {
    pub symbol: Seq<char>,
    pub fg: Colour,
    pub bg: Colour,
    pub modifier: Modifier,
}

impl CellView {
    /// A single space in the default colours with no modifier.
    pub open spec fn blank() -> CellView {
        CellView { symbol: seq![' '], fg: Colour::Reset, bg: Colour::Reset, modifier: Modifier::none() }
    }

    /// Whether what the cell shows fills the cell and no more: it is blank,
    /// or its symbol is one column wide.
    pub open spec fn fills_one_cell(self) -> bool {
        self == CellView::blank() || columns_of(self.symbol) == 1
    }
}

impl View for Cell {
    type V = CellView;

    open spec fn view(&self) -> CellView {
        CellView { symbol: self.symbol@, fg: self.fg, bg: self.bg, modifier: self.modifier }
    }
}

impl Cell {
    /// A cell that shows `symbol`.
    pub fn new(symbol: &str, fg: Colour, bg: Colour, modifier: Modifier) -> (cell: Cell)
        ensures
            cell@ == (CellView { symbol: symbol@, fg, bg, modifier }),
    {
        Cell { symbol: symbol.to_owned(), fg, bg, modifier }
    }

    /// A single space in the default colours with no modifier.
    pub fn blank() -> (cell: Cell)
        ensures
            cell@ == CellView::blank(),
    {
        proof {
            reveal_strlit(" ");
            assert(" "@ =~= seq![' ']);
        }
        Cell { symbol: " ".to_owned(), fg: Colour::Reset, bg: Colour::Reset, modifier: Modifier::empty() }
    }

    /// Whether what the cell shows fills the cell and no more.
    pub fn fills_one_cell(&self) -> (r: bool)
        ensures
            r == self@.fills_one_cell(),
    {
        let blank = Cell::blank();
        self.same(&blank) || text_columns(self.symbol.as_str()) == 1
    }

    /// Whether two cells show the same thing.
    pub fn same(&self, other: &Cell) -> (r: bool)
        ensures
            r == (self@ == other@),
    {
        self.symbol == other.symbol && self.fg == other.fg && self.bg == other.bg
            && self.modifier == other.modifier
    }

    /// A copy of the cell.
    pub fn duplicate(&self) -> (cell: Cell)
        ensures
            cell@ == self@,
    {
        Cell { symbol: self.symbol.clone(), fg: self.fg, bg: self.bg, modifier: self.modifier }
    }
}

/// The number of columns that a terminal gives to a text, as Unicode
/// counts the widths of its characters.
pub uninterp spec fn columns_of(text: Seq<char>) -> nat;

/// `ratatui::text::Span::width`: the number of columns that the text takes
/// on a terminal.
#[verifier::external_body]
fn text_columns(text: &str) -> (columns: usize)
    ensures
        columns == columns_of(text@),
{
    ratatui::text::Span::raw(text).width()
}

/// The mathematical value of a [`FrameBuffer`].
pub struct FrameView {
    pub width: nat,
    pub height: nat,
    pub cells: Seq<CellView>,
}

impl FrameView {
    /// The cells fill the grid exactly.
    pub open spec fn wf(self) -> bool {
        self.cells.len() == self.width * self.height
    }

    /// A grid of the given size with every cell blank.
    pub open spec fn blank(width: nat, height: nat) -> FrameView {
        FrameView { width, height, cells: Seq::new(width * height, |i: int| CellView::blank()) }
    }

    /// The cell in column `x` of row `y`.
    pub open spec fn at(self, x: int, y: int) -> CellView
        recommends
            0 <= x < self.width,
            0 <= y < self.height,
    {
        self.cells[y * self.width + x]
    }

    /// Whether every cell shows what fills it and no more. A symbol that is
    /// wider covers the next cell on a terminal, and one without width
    /// leaves the cursor where it is.
    pub open spec fn narrow(self) -> bool {
        forall|i: int| 0 <= i < self.cells.len() ==> (#[trigger] self.cells[i]).fills_one_cell()
    }

    /// Whether two frames are as wide and as high as each other.
    pub open spec fn same_size(self, other: FrameView) -> bool {
        self.width == other.width && self.height == other.height
    }
}

/// A full-screen grid of cells, stored row by row.
#[derive(Clone, Debug, PartialEq, Eq)]
pub struct FrameBuffer {
    width: u16,
    height: u16,
    content: Vec<Cell>,
}

impl View for FrameBuffer {
    type V = FrameView;

    closed spec fn view(&self) -> FrameView {
        FrameView {
            width: self.width as nat,
            height: self.height as nat,
            cells: Seq::new(self.content@.len(), |i: int| self.content@[i]@),
        }
    }
}

/// `y * width + x` stays inside a grid of `width * height` cells.
pub proof fn lemma_index_in_grid(x: int, y: int, width: int, height: int)
    requires
        0 <= x < width,
        0 <= y < height,
    ensures
        0 <= y * width + x < width * height,
        (y * width + x) / width == y,
        (y * width + x) % width == x,
{
    assert(y * width + x < width * height) by (nonlinear_arith)
        requires
            0 <= x < width,
            0 <= y < height,
    ;
    assert(0 <= y * width) by (nonlinear_arith)
        requires
            0 <= y,
            0 < width,
    ;
    vstd::arithmetic::div_mod::lemma_fundamental_div_mod_converse(y * width + x, width, y, x);
}

impl FrameBuffer {
    /// A buffer of the given size with every cell blank.
    pub fn empty(width: u16, height: u16) -> (buffer: FrameBuffer)
        ensures
            buffer@ == FrameView::blank(width as nat, height as nat),
            buffer@.wf(),
    {
        let total: usize = Self::area(width, height);
        let mut content: Vec<Cell> = Vec::new();
        let mut i: usize = 0;
        while i < total
            invariant
                i <= total,
                content@.len() == i,
                forall|k: int| 0 <= k < i ==> (#[trigger] content@[k])@ == CellView::blank(),
            decreases total - i,
        {
            content.push(Cell::blank());
            i += 1;
        }
        let buffer = FrameBuffer { width, height, content };
        assert(buffer@.cells =~= FrameView::blank(width as nat, height as nat).cells);
        buffer
    }

    /// Builds a buffer from its cells in row-major order; `None` unless
    /// there are exactly `width * height` of them.
    pub fn from_cells(width: u16, height: u16, cells: Vec<Cell>) -> (buffer: Option<FrameBuffer>)
        ensures
            buffer is Some <==> cells@.len() == width as nat * height as nat,
            buffer matches Some(b) ==> b@.wf(),
            buffer matches Some(b) ==> b@ == (FrameView {
                width: width as nat,
                height: height as nat,
                cells: Seq::new(cells@.len(), |i: int| cells@[i]@),
            }),
    {
        if cells.len() == Self::area(width, height) {
            Some(FrameBuffer { width, height, content: cells })
        } else {
            None
        }
    }

    fn area(width: u16, height: u16) -> (n: usize)
        ensures
            n == width as nat * height as nat,
    {
        assert(width as nat * height as nat <= 0xffff * 0xffff) by (nonlinear_arith)
            requires
                width <= 0xffff,
                height <= 0xffff,
        ;
        (width as usize) * (height as usize)
    }

    fn offset(width: u16, x: u16, y: u16) -> (n: usize)
        requires
            x < width,
        ensures
            n == y * width + x,
    {
        assert(y as nat * width as nat + x as nat <= 0xffff * 0x10000) by (nonlinear_arith)
            requires
                x < width <= 0xffff,
                y <= 0xffff,
        ;
        (y as usize) * (width as usize) + (x as usize)
    }

    /// The number of columns.
    pub fn width(&self) -> (w: u16)
        ensures
            w == self@.width,
    {
        self.width
    }

    /// The number of rows.
    pub fn height(&self) -> (h: u16)
        ensures
            h == self@.height,
    {
        self.height
    }

    /// Whether the cells fill the grid exactly, as they do in every buffer
    /// that this module hands out.
    pub fn is_well_formed(&self) -> (r: bool)
        ensures
            r == self@.wf(),
    {
        self.content.len() == Self::area(self.width, self.height)
    }

    /// Whether every cell shows what fills it and no more.
    pub fn is_narrow(&self) -> (r: bool)
        ensures
            r == self@.narrow(),
    {
        let n = self.content.len();
        let mut i: usize = 0;
        while i < n
            invariant
                i <= n,
                n == self.content@.len(),
                forall|k: int| 0 <= k < i ==> (#[trigger] self@.cells[k]).fills_one_cell(),
            decreases n - i,
        {
            if !self.content[i].fills_one_cell() {
                assert(!self@.cells[i as int].fills_one_cell());
                return false;
            }
            i += 1;
        }
        true
    }

    /// The number of cells.
    pub fn len(&self) -> (n: usize)
        ensures
            n == self@.cells.len(),
    {
        self.content.len()
    }

    /// The cell at the given row-major index.
    pub fn cell(&self, index: usize) -> (cell: &Cell)
        requires
            index < self@.cells.len(),
        ensures
            cell@ == self@.cells[index as int],
    {
        &self.content[index]
    }

    /// The cell in column `x` of row `y`.
    pub fn get(&self, x: u16, y: u16) -> (cell: &Cell)
        requires
            self@.wf(),
            x < self@.width,
            y < self@.height,
        ensures
            cell@ == self@.at(x as int, y as int),
    {
        proof {
            lemma_index_in_grid(x as int, y as int, self.width as int, self.height as int);
        }
        &self.content[Self::offset(self.width, x, y)]
    }

    /// Replaces the cell in column `x` of row `y`.
    pub fn set(&mut self, x: u16, y: u16, cell: Cell)
        requires
            old(self)@.wf(),
            x < old(self)@.width,
            y < old(self)@.height,
        ensures
            final(self)@.wf(),
            final(self)@.width == old(self)@.width,
            final(self)@.height == old(self)@.height,
            final(self)@.cells == old(self)@.cells.update(y * old(self)@.width + x, cell@),
    {
        proof {
            lemma_index_in_grid(x as int, y as int, self.width as int, self.height as int);
        }
        let index = Self::offset(self.width, x, y);
        self.content.set(index, cell);
    }

    /// Whether two buffers have the same size and show the same cells.
    pub fn same(&self, other: &FrameBuffer) -> (r: bool)
        ensures
            r == (self@ == other@),
    {
        if self.width != other.width || self.height != other.height {
            return false;
        }
        let n = self.content.len();
        if other.content.len() != n {
            assert(self@.cells.len() != other@.cells.len());
            return false;
        }
        let mut i: usize = 0;
        while i < n
            invariant
                i <= n,
                n == self.content@.len(),
                n == other.content@.len(),
                forall|k: int| 0 <= k < i ==> self@.cells[k] == other@.cells[k],
            decreases n - i,
        {
            if !self.content[i].same(&other.content[i]) {
                assert(self@.cells[i as int] != other@.cells[i as int]);
                return false;
            }
            i += 1;
        }
        assert(self@.cells =~= other@.cells);
        true
    }

    /// A copy of the buffer.
    pub fn duplicate(&self) -> (buffer: FrameBuffer)
        ensures
            buffer@ == self@,
    {
        let n = self.content.len();
        let mut content: Vec<Cell> = Vec::new();
        let mut i: usize = 0;
        while i < n
            invariant
                i <= n,
                n == self.content@.len(),
                content@.len() == i,
                forall|k: int| 0 <= k < i ==> (#[trigger] content@[k])@ == self.content@[k]@,
            decreases n - i,
        {
            content.push(self.content[i].duplicate());
            i += 1;
        }
        let buffer = FrameBuffer { width: self.width, height: self.height, content };
        assert(buffer@.cells =~= self@.cells);
        buffer
    }
}

} // verus!
