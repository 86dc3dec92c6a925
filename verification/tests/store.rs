use dashboard::frame::{to_rgb, Cell, Colour, FrameBuffer, Modifier};
use dashboard::layout::Rect;
use dashboard::text::{begins_with, comes_before, holds_char, same_text};
use dashboard::todo::{goes_before, sort, TodoWidget};
use dashboard::widgets::{
    group_lines, names_background, Alignment, ImageWidget, Registry, Span, TextWidget,
    WidgetState,
};

fn shown(name: &str) -> WidgetState {
    WidgetState::Text(TextWidget {
        name: name.to_string(),
        text: name.to_uppercase(),
        color: Colour::White,
        align: Alignment::Center,
    })
}

fn item(text: &str, done: bool, deadline: u128) -> TodoWidget {
    TodoWidget { text: text.to_string(), done, by: "x".to_string(), deadline }
}

fn span(content: &str) -> Span {
    Span { content: content.to_string(), fg: Colour::White, modifier: Modifier::empty() }
}

#[test]
fn names_are_ordered_as_strings_are() {
    let samples = ["", "a", "A", "ab", "abc", "abd", "b", "task_1", "task_10", "task_2", "é", "한", "z", "😀"];
    for a in samples {
        for b in samples {
            assert_eq!(comes_before(a, b), a < b, "{:?} before {:?}", a, b);
            assert_eq!(same_text(a, b), a == b);
        }
    }
}

#[test]
fn prefixes_and_characters_are_found() {
    assert!(begins_with("task_clock", "task_"));
    assert!(begins_with("task_", "task_"));
    assert!(begins_with("anything", ""));
    assert!(!begins_with("task", "task_"));
    assert!(!begins_with("Task_clock", "task_"));
    assert!(!begins_with("", "task_"));
    assert!(names_background("task_x"));
    assert!(!names_background("xtask_"));
    assert!(holds_char("a\nb", '\n'));
    assert!(holds_char("한\n", '\n'));
    assert!(!holds_char("ab", '\n'));
    assert!(!holds_char("", '\n'));
}

#[test]
fn the_registry_keeps_its_names_in_order() {
    let mut registry = Registry::new();
    for name in ["m", "b", "z", "a", "task_1", "B"] {
        registry.insert(name.to_string(), shown(name));
    }
    assert_eq!(registry.keys(), vec!["B", "a", "b", "m", "task_1", "z"]);
    assert_eq!(registry.len(), 6);
    assert_eq!(registry.get("m"), Some(&shown("m")));
    assert_eq!(registry.get("n"), None);
    assert_eq!(registry.get(""), None);
}

#[test]
fn a_name_is_held_once() {
    let mut registry = Registry::new();
    registry.insert("w".to_string(), shown("w"));
    registry.insert("w".to_string(), WidgetState::Blank);
    assert_eq!(registry.len(), 1);
    assert_eq!(registry.get("w"), Some(&WidgetState::Blank));
    registry.remove("w");
    registry.remove("w");
    assert_eq!(registry.len(), 0);
    assert_eq!(registry.get("w"), None);
}

#[test]
fn only_background_widgets_are_retained() {
    let mut registry = Registry::new();
    for name in ["a", "task_a", "b", "task_b", "tas", "task_"] {
        registry.insert(name.to_string(), shown(name));
    }
    registry.retain_background();
    assert_eq!(registry.keys(), vec!["task_", "task_a", "task_b"]);
    assert_eq!(registry.get("task_a"), Some(&shown("task_a")));
    registry.retain_background();
    assert_eq!(registry.len(), 3);
    let mut none = Registry::new();
    none.retain_background();
    assert_eq!(none.len(), 0);
}

#[test]
fn placing_sets_the_area_of_images_only_where_there_is_one() {
    let mut registry = Registry::new();
    registry.insert("a".to_string(), shown("a"));
    registry.insert(
        "i".to_string(),
        WidgetState::Image(ImageWidget {
            name: "i".to_string(),
            filepath: "i.png".to_string(),
            area: Rect::zero(),
        }),
    );
    let slot = Rect { x: 10, y: 20, width: 30, height: 8 };
    registry.place("a", slot);
    registry.place("i", slot);
    registry.place("missing", slot);
    assert_eq!(registry.get("a"), Some(&shown("a")));
    assert_eq!(
        registry.get("i"),
        Some(&WidgetState::Image(ImageWidget {
            name: "i".to_string(),
            filepath: "i.png".to_string(),
            area: Rect { x: 11, y: 21, width: 28, height: 6 },
        }))
    );
    assert_eq!(registry.keys(), vec!["a", "i"]);
}

#[test]
fn spans_are_grouped_into_lines_at_line_breaks() {
    let spans = vec![span("a"), span("b\n"), span("c\nd"), span("e")];
    assert_eq!(
        group_lines(&spans),
        vec![vec![span("a"), span("b\n")], vec![span("c\nd")], vec![span("e")]]
    );
    assert_eq!(group_lines(&vec![span("a\n")]), vec![vec![span("a\n")]]);
    assert_eq!(group_lines(&Vec::new()), Vec::<Vec<Span>>::new());
}

#[test]
fn sorting_is_by_done_then_deadline_and_keeps_ties_in_place() {
    let mut list = vec![
        item("e", true, 5),
        item("b", false, 7),
        item("f", true, 5),
        item("a", false, 1),
        item("c", false, 7),
        item("d", true, 0),
    ];
    sort(&mut list);
    let order: Vec<&str> = list.iter().map(|t| t.text.as_str()).collect();
    assert_eq!(order, vec!["a", "b", "c", "d", "e", "f"]);
    let mut empty: Vec<TodoWidget> = Vec::new();
    sort(&mut empty);
    assert!(empty.is_empty());
}

#[test]
fn open_entries_rank_before_done_ones() {
    assert!(goes_before(&item("a", false, 9), &item("b", true, 0)));
    assert!(!goes_before(&item("a", true, 0), &item("b", false, 9)));
    assert!(goes_before(&item("a", false, 1), &item("b", false, 2)));
    assert!(!goes_before(&item("a", false, 2), &item("b", false, 2)));
}

#[test]
fn colours_are_painted_in_fixed_values() {
    assert_eq!(to_rgb(Colour::Reset), (0, 0, 0));
    assert_eq!(to_rgb(Colour::Black), (0, 0, 0));
    assert_eq!(to_rgb(Colour::Red), (170, 0, 0));
    assert_eq!(to_rgb(Colour::Yellow), (170, 85, 0));
    assert_eq!(to_rgb(Colour::Gray), (170, 170, 170));
    assert_eq!(to_rgb(Colour::DarkGray), (85, 85, 85));
    assert_eq!(to_rgb(Colour::LightMagenta), (255, 85, 255));
    assert_eq!(to_rgb(Colour::White), (255, 255, 255));
    assert_eq!(to_rgb(Colour::Indexed(3)), (255, 255, 255));
    assert_eq!(to_rgb(Colour::Rgb(1, 2, 3)), (1, 2, 3));
}

#[test]
fn a_frame_buffer_is_a_grid_of_blank_cells_until_set() {
    let mut buffer = FrameBuffer::empty(3, 2);
    assert_eq!((buffer.width(), buffer.height(), buffer.len()), (3, 2, 6));
    assert_eq!(*buffer.get(2, 1), Cell::blank());
    assert_eq!(Cell::blank(), Cell::new(" ", Colour::Reset, Colour::Reset, Modifier::empty()));
    let cell = Cell::new("x", Colour::Red, Colour::Blue, Modifier::empty());
    buffer.set(2, 1, cell.duplicate());
    assert_eq!(*buffer.get(2, 1), cell);
    assert_eq!(*buffer.cell(5), cell);
    assert_eq!(*buffer.get(1, 1), Cell::blank());
    assert!(buffer.is_well_formed());
    assert!(buffer.same(&buffer.duplicate()));
    assert!(!buffer.same(&FrameBuffer::empty(3, 2)));
    assert!(!FrameBuffer::empty(3, 2).same(&FrameBuffer::empty(2, 3)));
}

#[test]
fn a_frame_is_narrow_where_every_symbol_is_one_column_wide() {
    let none = Modifier::empty();
    let mut buffer = FrameBuffer::empty(3, 1);
    assert!(buffer.is_narrow());
    buffer.set(0, 0, Cell::new("a", Colour::Red, Colour::Reset, none));
    buffer.set(1, 0, Cell::new("\u{e9}", Colour::Reset, Colour::Reset, none));
    assert!(buffer.is_narrow());
    assert!(FrameBuffer::empty(0, 0).is_narrow());
    // A symbol two columns wide, and one without width.
    let mut wide = buffer.duplicate();
    wide.set(2, 0, Cell::new("\u{d55c}", Colour::Reset, Colour::Reset, none));
    assert!(!wide.is_narrow());
    assert!(!Cell::new("\u{d55c}", Colour::Reset, Colour::Reset, none).fills_one_cell());
    assert!(!Cell::new("", Colour::Reset, Colour::Reset, none).fills_one_cell());
    assert!(!Cell::new("ab", Colour::Reset, Colour::Reset, none).fills_one_cell());
    assert!(Cell::new(" ", Colour::Reset, Colour::Reset, none).fills_one_cell());
    assert!(Cell::blank().fills_one_cell());
}

#[test]
fn a_frame_buffer_is_built_from_exactly_its_cells() {
    let cells = vec![Cell::blank(), Cell::blank()];
    assert!(FrameBuffer::from_cells(2, 1, cells.clone()).is_some());
    assert!(FrameBuffer::from_cells(1, 2, cells.clone()).is_some());
    assert!(FrameBuffer::from_cells(2, 2, cells.clone()).is_none());
    assert!(FrameBuffer::from_cells(0, 0, cells).is_none());
    assert!(FrameBuffer::from_cells(0, 7, Vec::new()).is_some());
}

#[test]
fn modifiers_are_sets() {
    let mut a = Modifier::empty();
    a.bold = true;
    a.italic = true;
    let mut b = Modifier::empty();
    b.italic = true;
    b.dim = true;
    let mut only_a = Modifier::empty();
    only_a.bold = true;
    assert_eq!(a.difference(b), only_a);
    let mut all = a;
    all.dim = true;
    assert_eq!(a.union(b), all);
    assert_eq!(a.difference(a), Modifier::empty());
}
