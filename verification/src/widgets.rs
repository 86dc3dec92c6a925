//! Widgets and the registry that holds them by name.
//!
//! The registry is a map from names to widget states. It is kept as a list
//! in the order of the names, so that a name occurs once and the order in
//! which widgets are laid out never depends on when they were set.
use vstd::prelude::*;
use crate::frame::{Colour, Modifier};
use crate::layout::Rect;
use crate::payload::Value;
use crate::text::{
    begins_with, comes_before, holds_char, lemma_precedes_total, lemma_precedes_transitive,
    precedes, same_text,
};

verus! {

/// How a text is set in its cell.
#[derive(Clone, Copy, Debug, PartialEq, Eq, Hash, Structural)]
pub enum Alignment {
    Left,
    Center,
    Right,
}

/// A text in one colour.
#[derive(Clone, Debug, PartialEq, Eq)]
pub struct TextWidget {
    pub name: String,
    pub text: String,
    pub color: Colour,
    pub align: Alignment,
}

/// A piece of text with its own colour and modifiers.
#[derive(Clone, Debug, PartialEq, Eq)]
pub struct Span {
    pub content: String,
    pub fg: Colour,
    pub modifier: Modifier,
}

/// A text made of spans, in a border of its own colour.
#[derive(Clone, Debug, PartialEq, Eq)]
pub struct ColorTextWidget {
    pub span: Vec<Span>,
    pub align: Alignment,
    pub name: String,
    pub border_color: Colour,
}

/// A text in large letters.
#[derive(Clone, Debug, PartialEq, Eq)]
pub struct BigTextWidget {
    pub text: String,
    pub color: Colour,
    pub align: Alignment,
    pub area: Rect,
}

/// An image, by the path of its file, and where it is drawn.
#[derive(Clone, Debug, PartialEq, Eq)]
pub struct ImageWidget {
    pub name: String,
    pub filepath: String,
    pub area: Rect,
}

/// A chart, by the payload that describes it.
#[derive(Debug, PartialEq, Eq)]
pub struct ChartWidget {
    pub name: String,
    pub options: Value,
}

/// What a widget shows.
#[derive(Debug, PartialEq, Eq)]
pub enum WidgetState {
    Text(TextWidget),
    Image(ImageWidget),
    BigText(BigTextWidget),
    ColorText(ColorTextWidget),
    Chart(ChartWidget),
    Blank,
}

/// The lines that the first `upto` of `spans` fill, and the line that is
/// still open after them: a span that holds a line break ends its line.
pub open spec fn lines_upto(spans: Seq<Span>, upto: int) -> (Seq<Seq<Span>>, Seq<Span>)
    decreases upto,
{
    if upto <= 0 {
        (Seq::empty(), Seq::empty())
    } else {
        let (lines, line) = lines_upto(spans, upto - 1);
        let span = spans[upto - 1];
        if span.content@.contains('\n') {
            (lines.push(line.push(span)), Seq::empty())
        } else {
            (lines, line.push(span))
        }
    }
}

/// The lines of a text made of spans. The last line need not end with a
/// line break; a line without a span is none.
pub open spec fn lines_of_spans(spans: Seq<Span>) -> Seq<Seq<Span>> {
    let (lines, line) = lines_upto(spans, spans.len() as int);
    if line.len() >= 1 {
        lines.push(line)
    } else {
        lines
    }
}

/// The values of the lines of a list of lines.
pub open spec fn lines_view(lines: Seq<Vec<Span>>) -> Seq<Seq<Span>> {
    lines.map_values(|line: Vec<Span>| line@)
}

/// The lines of a text made of spans.
pub fn group_lines(spans: &Vec<Span>) -> (lines: Vec<Vec<Span>>)
    ensures
        lines_view(lines@) == lines_of_spans(spans@),
{
    let mut lines: Vec<Vec<Span>> = Vec::new();
    let mut line: Vec<Span> = Vec::new();
    let n = spans.len();
    let mut i: usize = 0;
    while i < n
        invariant
            i <= n,
            n == spans@.len(),
            (lines_view(lines@), line@) == lines_upto(spans@, i as int),
        decreases n - i,
    {
        let span = Span {
            content: spans[i].content.clone(),
            fg: spans[i].fg,
            modifier: spans[i].modifier,
        };
        let ends = holds_char(span.content.as_str(), '\n');
        line.push(span);
        if ends {
            lines.push(line);
            line = Vec::new();
        }
        i += 1;
    }
    if line.len() >= 1 {
        lines.push(line);
    }
    lines
}

/// A widget with its drawing area set from the slot `area`: an image is
/// drawn inside the slot's border, and a large text fills the slot. Other
/// widgets keep no area.
pub open spec fn placed(state: WidgetState, area: Rect) -> WidgetState {
    match state {
        WidgetState::Image(image) => WidgetState::Image(
            ImageWidget { area: area.shrunk(1, 1), ..image },
        ),
        WidgetState::BigText(big) => WidgetState::BigText(BigTextWidget { area, ..big }),
        _ => state,
    }
}

/// The names that start with this belong to background scripts.
pub open spec fn background_prefix() -> Seq<char> {
    "task_"@
}

/// Whether a name belongs to a background script.
pub open spec fn is_background(name: Seq<char>) -> bool {
    background_prefix().is_prefix_of(name)
}

/// Whether a name belongs to a background script.
pub fn names_background(name: &str) -> (r: bool)
    ensures
        r == is_background(name@),
{
    begins_with(name, "task_")
}

/// Whether the names of `entries` stand in their order, each once.
pub open spec fn in_order(entries: Seq<(String, WidgetState)>) -> bool {
    forall|i: int, j: int|
        0 <= i < j < entries.len() ==> precedes(#[trigger] entries[i].0@, #[trigger] entries[j].0@)
}

/// Whether one of `entries` is called `name`.
pub open spec fn has_name(entries: Seq<(String, WidgetState)>, name: Seq<char>) -> bool {
    exists|i: int| 0 <= i < entries.len() && #[trigger] entries[i].0@ == name
}

/// The index of the entry called `name`.
pub open spec fn index_of(entries: Seq<(String, WidgetState)>, name: Seq<char>) -> int {
    choose|i: int| 0 <= i < entries.len() && #[trigger] entries[i].0@ == name
}

/// The map that `entries` stands for.
pub open spec fn map_of(entries: Seq<(String, WidgetState)>) -> Map<Seq<char>, WidgetState> {
    Map::new(
        |name: Seq<char>| has_name(entries, name),
        |name: Seq<char>| entries[index_of(entries, name)].1,
    )
}

/// In a list in order, the entry at an index is the one found by its name.
pub proof fn lemma_entry_found(entries: Seq<(String, WidgetState)>, i: int)
    requires
        in_order(entries),
        0 <= i < entries.len(),
    ensures
        has_name(entries, entries[i].0@),
        index_of(entries, entries[i].0@) == i,
        map_of(entries).dom().contains(entries[i].0@),
        map_of(entries)[entries[i].0@] == entries[i].1,
{
    let name = entries[i].0@;
    let j = index_of(entries, name);
    if j < i {
        lemma_precedes_total(entries[j].0@, entries[i].0@);
    } else if i < j {
        lemma_precedes_total(entries[i].0@, entries[j].0@);
    }
}

/// The widgets by name.
#[derive(Debug, PartialEq, Eq)]
pub struct Registry {
    entries: Vec<(String, WidgetState)>,
}

impl View for Registry {
    type V = Map<Seq<char>, WidgetState>;

    closed spec fn view(&self) -> Map<Seq<char>, WidgetState> {
        map_of(self.entries@)
    }
}

impl Registry {
    /// The names stand in their order, each once.
    pub closed spec fn wf(&self) -> bool {
        in_order(self.entries@)
    }

    /// The names, in their order.
    pub closed spec fn names(&self) -> Seq<Seq<char>> {
        Seq::new(self.entries@.len(), |i: int| self.entries@[i].0@)
    }

    /// The names are those of the map, each once, in their order.
    pub proof fn lemma_names(&self)
        requires
            self.wf(),
        ensures
            forall|i: int, j: int|
                0 <= i < j < self.names().len() ==> precedes(
                    #[trigger] self.names()[i],
                    #[trigger] self.names()[j],
                ),
            forall|i: int|
                0 <= i < self.names().len() ==> self@.dom().contains(#[trigger] self.names()[i]),
            forall|name: Seq<char>|
                self@.dom().contains(name) ==> exists|i: int|
                    0 <= i < self.names().len() && #[trigger] self.names()[i] == name,
    {
        let entries = self.entries@;
        assert forall|i: int| 0 <= i < self.names().len() implies self@.dom().contains(
            #[trigger] self.names()[i],
        ) by {
            lemma_entry_found(entries, i);
        }
        assert forall|name: Seq<char>| self@.dom().contains(name) implies exists|i: int|
            0 <= i < self.names().len() && #[trigger] self.names()[i] == name by {
            let i = index_of(entries, name);
            assert(self.names()[i] == name);
        }
    }

    /// A registry without widgets.
    pub fn new() -> (registry: Registry)
        ensures
            registry.wf(),
            registry@ == Map::<Seq<char>, WidgetState>::empty(),
            registry.names().len() == 0,
    {
        let registry = Registry { entries: Vec::new() };
        registry
    }

    /// The number of widgets.
    pub fn len(&self) -> (n: usize)
        ensures
            n == self.names().len(),
    {
        self.entries.len()
    }

    /// The index of the first entry whose name does not come before `name`.
    fn position(&self, name: &str) -> (i: usize)
        requires
            self.wf(),
        ensures
            i <= self.entries@.len(),
            forall|k: int| 0 <= k < i ==> precedes(#[trigger] self.entries@[k].0@, name@),
            i < self.entries@.len() ==> !precedes(self.entries@[i as int].0@, name@),
    {
        let n = self.entries.len();
        let mut i: usize = 0;
        while i < n
            invariant
                i <= n,
                n == self.entries@.len(),
                forall|k: int| 0 <= k < i ==> precedes(#[trigger] self.entries@[k].0@, name@),
            decreases n - i,
        {
            if !comes_before(self.entries[i].0.as_str(), name) {
                return i;
            }
            i += 1;
        }
        i
    }

    /// The widget called `name`, if there is one.
    pub fn get(&self, name: &str) -> (r: Option<&WidgetState>)
        requires
            self.wf(),
        ensures
            r matches Some(state) ==> self@.dom().contains(name@) && self@[name@] == *state,
            r is None ==> !self@.dom().contains(name@),
    {
        let i = self.position(name);
        if i < self.entries.len() && same_text(self.entries[i].0.as_str(), name) {
            proof {
                lemma_entry_found(self.entries@, i as int);
            }
            Some(&self.entries[i].1)
        } else {
            proof {
                self.lemma_absent(name@, i as int);
            }
            None
        }
    }

    /// A name that is not at the place where it would stand is not there.
    proof fn lemma_absent(&self, name: Seq<char>, i: int)
        requires
            self.wf(),
            0 <= i <= self.entries@.len(),
            forall|k: int| 0 <= k < i ==> precedes(#[trigger] self.entries@[k].0@, name),
            i < self.entries@.len() ==> !precedes(self.entries@[i].0@, name) && self.entries@[i].0@
                != name,
        ensures
            !has_name(self.entries@, name),
            !self@.dom().contains(name),
    {
        let entries = self.entries@;
        if has_name(entries, name) {
            let j = index_of(entries, name);
            if j < i {
                lemma_precedes_total(entries[j].0@, name);
            } else if j == i {
            } else {
                lemma_precedes_total(entries[i].0@, name);
            }
        }
    }

    /// Sets the widget called `name`: a widget that had the name is replaced
    /// whole, and no other widget changes.
    pub fn insert(&mut self, name: String, state: WidgetState)
        requires
            old(self).wf(),
        ensures
            final(self).wf(),
            final(self)@ == old(self)@.insert(name@, state),
    {
        let i = self.position(name.as_str());
        let ghost before = self.entries@;
        let ghost key = name@;
        if i < self.entries.len() && same_text(self.entries[i].0.as_str(), name.as_str()) {
            self.entries.set(i, (name, state));
            proof {
                let after = self.entries@;
                assert forall|a: int, b: int| 0 <= a < b < after.len() implies precedes(
                    #[trigger] after[a].0@,
                    #[trigger] after[b].0@,
                ) by {
                }
                assert forall|k: Seq<char>| has_name(after, k) == (has_name(before, k) || k
                    == key) by {
                    if has_name(after, k) {
                        let j = index_of(after, k);
                    }
                    if has_name(before, k) {
                        let j = index_of(before, k);
                        assert(after[j].0@ == k);
                    }
                }
                assert forall|k: Seq<char>| has_name(after, k) implies #[trigger] map_of(after)[k]
                    == old(self)@.insert(key, state)[k] by {
                    let j = index_of(after, k);
                    lemma_entry_found(after, j);
                    if j != i {
                        lemma_entry_found(before, j);
                    }
                }
            }
        } else {
            proof {
                if i < before.len() {
                    lemma_precedes_total(before[i as int].0@, key);
                    assert forall|b: int| i <= b < before.len() implies precedes(
                        key,
                        #[trigger] before[b].0@,
                    ) by {
                        if b > i {
                            lemma_precedes_transitive(key, before[i as int].0@, before[b].0@);
                        }
                    }
                }
            }
            self.entries.insert(i, (name, state));
            proof {
                let after = self.entries@;
                assert forall|a: int, b: int| 0 <= a < b < after.len() implies precedes(
                    #[trigger] after[a].0@,
                    #[trigger] after[b].0@,
                ) by {
                }
                assert forall|k: Seq<char>| has_name(after, k) == (has_name(before, k) || k
                    == key) by {
                    if has_name(after, k) {
                        let j = index_of(after, k);
                    }
                    if has_name(before, k) {
                        let j = index_of(before, k);
                        if j < i {
                            assert(after[j].0@ == k);
                        } else {
                            assert(after[j + 1].0@ == k);
                        }
                    }
                    if k == key {
                        assert(after[i as int].0@ == k);
                    }
                }
                assert forall|k: Seq<char>| has_name(after, k) implies #[trigger] map_of(after)[k]
                    == old(self)@.insert(key, state)[k] by {
                    let j = index_of(after, k);
                    lemma_entry_found(after, j);
                    if j < i {
                        lemma_entry_found(before, j);
                        lemma_precedes_total(k, key);
                    } else if j > i {
                        lemma_entry_found(before, j - 1);
                        lemma_precedes_total(key, k);
                    }
                }
            }
        }
    }

    /// Removes the entry at index `i`.
    fn remove_at(&mut self, i: usize)
        requires
            old(self).wf(),
            i < old(self).entries@.len(),
        ensures
            final(self).wf(),
            final(self).entries@ == old(self).entries@.remove(i as int),
            final(self)@ == old(self)@.remove(old(self).entries@[i as int].0@),
    {
        let _ = self.entries.remove(i);
        proof {
            Self::lemma_removed(old(self).entries@, i as int);
        }
    }

    /// Takes the entry at index `i` out.
    fn take_at(&mut self, i: usize) -> (entry: (String, WidgetState))
        requires
            old(self).wf(),
            i < old(self).entries@.len(),
        ensures
            final(self).wf(),
            entry == old(self).entries@[i as int],
            final(self)@ == old(self)@.remove(entry.0@),
            old(self)@.dom().contains(entry.0@),
            old(self)@[entry.0@] == entry.1,
    {
        proof {
            lemma_entry_found(self.entries@, i as int);
        }
        let entry = self.entries.remove(i);
        proof {
            Self::lemma_removed(old(self).entries@, i as int);
        }
        entry
    }

    /// A list in order without one of its entries is in order and stands
    /// for the map without that entry's name.
    proof fn lemma_removed(before: Seq<(String, WidgetState)>, i: int)
        requires
            in_order(before),
            0 <= i < before.len(),
        ensures
            in_order(before.remove(i)),
            map_of(before.remove(i)) == map_of(before).remove(before[i].0@),
    {
        let after = before.remove(i);
        let key = before[i].0@;
        assert forall|a: int, b: int| 0 <= a < b < after.len() implies precedes(
            #[trigger] after[a].0@,
            #[trigger] after[b].0@,
        ) by {
        }
        assert forall|k: Seq<char>| has_name(after, k) == (has_name(before, k) && k != key) by {
            if has_name(after, k) {
                let j = index_of(after, k);
                let j0 = if j < i { j } else { j + 1 };
                if k == key {
                    if j0 < i {
                        lemma_precedes_total(before[j0].0@, before[i].0@);
                    } else {
                        lemma_precedes_total(before[i].0@, before[j0].0@);
                    }
                }
            }
            if has_name(before, k) && k != key {
                let j = index_of(before, k);
                let j1 = if j < i { j } else { j - 1 };
                assert(after[j1].0@ == k);
            }
        }
        assert forall|k: Seq<char>| has_name(after, k) implies #[trigger] map_of(after)[k]
            == map_of(before).remove(key)[k] by {
            let j = index_of(after, k);
            lemma_entry_found(after, j);
            let j0 = if j < i { j } else { j + 1 };
            lemma_entry_found(before, j0);
        }
    }

    /// Sets the drawing area of the widget called `name` from its slot, if
    /// there is such a widget; no other widget changes.
    pub fn place(&mut self, name: &str, area: Rect)
        requires
            old(self).wf(),
        ensures
            final(self).wf(),
            final(self)@ == if old(self)@.dom().contains(name@) {
                old(self)@.insert(name@, placed(old(self)@[name@], area))
            } else {
                old(self)@
            },
    {
        let i = self.position(name);
        if i < self.entries.len() && same_text(self.entries[i].0.as_str(), name) {
            let (key, state) = self.take_at(i);
            let state = match state {
                WidgetState::Image(image) => WidgetState::Image(
                    ImageWidget { area: area.inner(1, 1), ..image },
                ),
                WidgetState::BigText(big) => WidgetState::BigText(BigTextWidget { area, ..big }),
                other => other,
            };
            self.insert(key, state);
        } else {
            proof {
                self.lemma_absent(name@, i as int);
            }
        }
    }

    /// Removes the widget called `name`, if there is one; no other widget
    /// changes.
    pub fn remove(&mut self, name: &str)
        requires
            old(self).wf(),
        ensures
            final(self).wf(),
            final(self)@ == old(self)@.remove(name@),
    {
        let i = self.position(name);
        if i < self.entries.len() && same_text(self.entries[i].0.as_str(), name) {
            self.remove_at(i);
        } else {
            proof {
                self.lemma_absent(name@, i as int);
            }
        }
    }

    /// Keeps the widgets of background scripts and removes all others.
    pub fn retain_background(&mut self)
        requires
            old(self).wf(),
        ensures
            final(self).wf(),
            final(self)@ == old(self)@.restrict(Set::new(|name: Seq<char>| is_background(name))),
    {
        let ghost start = self@;
        let ghost wanted = Set::new(|name: Seq<char>| is_background(name));
        let mut i: usize = 0;
        while i < self.entries.len()
            invariant
                self.wf(),
                i <= self.entries@.len(),
                forall|k: int| 0 <= k < i ==> is_background(#[trigger] self.entries@[k].0@),
                forall|name: Seq<char>|
                    #![trigger self@.dom().contains(name)]
                    self@.dom().contains(name) ==> start.dom().contains(name) && self@[name]
                        == start[name],
                forall|name: Seq<char>|
                    #![trigger start.dom().contains(name)]
                    start.dom().contains(name) && is_background(name) ==> self@.dom().contains(
                        name,
                    ),
            decreases self.entries@.len() - i,
        {
            if names_background(self.entries[i].0.as_str()) {
                i += 1;
            } else {
                self.remove_at(i);
                proof {
                    assert forall|name: Seq<char>| #[trigger]
                        self@.dom().contains(name) implies start.dom().contains(name) && self@[name]
                        == start[name] by {
                    }
                    assert forall|name: Seq<char>| #[trigger]
                        start.dom().contains(name) && is_background(
                            name,
                        ) implies self@.dom().contains(name) by {
                    }
                }
            }
        }
        proof {
            assert forall|name: Seq<char>| #[trigger]
                self@.dom().contains(name) implies is_background(name) by {
            }
            let kept = start.restrict(wanted);
            assert forall|name: Seq<char>| self@.dom().contains(name) == kept.dom().contains(
                name,
            ) by {
            }
        }
    }

    /// The names, in their order.
    pub fn keys(&self) -> (names: Vec<String>)
        ensures
            names@.len() == self.names().len(),
            forall|i: int| 0 <= i < names@.len() ==> (#[trigger] names@[i])@ == self.names()[i],
    {
        let n = self.entries.len();
        let mut names: Vec<String> = Vec::new();
        let mut i: usize = 0;
        while i < n
            invariant
                i <= n,
                n == self.entries@.len(),
                names@.len() == i,
                forall|k: int| 0 <= k < i ==> (#[trigger] names@[k])@ == self.entries@[k].0@,
            decreases n - i,
        {
            names.push(self.entries[i].0.clone());
            i += 1;
        }
        names
    }
}

} // verus!
