//! The dashboard's state, and how commands, keys and the outcomes of script
//! runs change it.
//!
//! Nothing here runs a script, draws or waits. Each function takes what
//! happened and says what the state is afterwards and what is to be done
//! next; the program around the library does it and reports back.
use vstd::prelude::*;
use crate::actions::Action;
use crate::command::{decode, decoded, Command, FrameData, Rejection};
use crate::layout::{compose, is_grid, lemma_rows_hold_all, row_limit, Rect, Slot};
use crate::modules::Instance;
use crate::text::{lemma_precedes_total, names_of};
use crate::todo::{is_sorted_form, sort, TodoWidget};
use crate::widgets::{
    is_background, names_background, placed, BigTextWidget, ChartWidget, ColorTextWidget,
    ImageWidget, Registry, TextWidget, WidgetState,
};

verus! {

/// What is kept from one run of the dashboard to the next: the size of a
/// grid cell and the to-do list.
#[derive(Clone, Debug, PartialEq, Eq)]
pub struct AppState {
    pub w: u16,
    pub h: u16,
    pub todo: Vec<TodoWidget>,
}

/// What the program around the library is to do after a message was read.
#[derive(Debug, PartialEq, Eq)]
pub enum Effect {
    /// Nothing: the state holds all that the command asked for.
    Applied,
    /// Nothing: the message was no command.
    Ignored(Rejection),
    /// Find the scripts again and load them.
    Reload,
    /// Read the image file at `filepath` for the widget called `name`,
    /// then report how that went. The widget is not set before.
    Image { name: String, filepath: String },
}

/// What the program around the library is to do after a key was pressed.
#[derive(Clone, Copy, Debug, PartialEq, Eq, Structural)]
pub enum KeyEffect {
    Nothing,
    /// Write the kept state to durable storage.
    Save,
}

/// Where a script stands.
#[derive(Clone, Copy, Debug, PartialEq, Eq, Structural)]
pub enum Status {
    Loading,
    Ready,
    Failed,
}

/// What is to be done with one script when the scripts are loaded.
#[derive(Clone, Debug, PartialEq, Eq)]
pub enum LoadStep {
    /// Compile it, run it and call its `init`; then report the outcome.
    Foreground(Action),
    /// Start it on a worker of its own, which is never joined.
    Background(Action),
    /// Leave it: it is a background script that runs already.
    Skip(Action),
}

/// What a module's `update` is called with.
#[derive(Clone, Copy, Debug, PartialEq, Eq, Structural)]
pub struct TickContext {
    /// The time of the tick, in milliseconds since the epoch.
    pub now: u128,
}

/// What one turn of the main loop owes.
#[derive(Clone, Debug, PartialEq, Eq)]
pub enum Turn {
    /// Leave the loop.
    Stop,
    /// Draw and publish the frame, then read events and commands.
    Draw,
    /// Draw and publish the frame, call `update` of each of these modules
    /// with the context, then read events and commands.
    Tick { context: TickContext, modules: Vec<String> },
}

/// The dashboard's state.
#[derive(Debug, PartialEq, Eq)]
pub struct App {
    pub exit: bool,
    pub actions: Vec<Action>,
    pub failed: Vec<String>,
    pub modules: Vec<String>,
    pub current_loading: String,
    pub widgets: Registry,
    pub state: AppState,
    pub size: Option<(u16, u16)>,
    pub screenshot: String,
    pub resized: bool,
    /// Whether the scripts were loaded before, so that the background
    /// scripts run already.
    pub loaded_before: bool,
}

/// The kept state where none was found: cells of 20 by 10 and nothing to
/// do.
pub open spec fn fresh_state(state: AppState) -> bool {
    state.w == 20 && state.h == 10 && state.todo@.len() == 0
}

/// The widget that a command sets, under its name; `None` for a command
/// that sets no widget. An image is no such command: its widget is set once
/// its file was read.
pub open spec fn widget_of(command: Command) -> Option<(String, WidgetState)> {
    match command {
        Command::SetText { name, text, color, align } => Some(
            (name, WidgetState::Text(TextWidget { name, text, color, align })),
        ),
        Command::SetColorText { name, span, align, border_color } => Some(
            (name, WidgetState::ColorText(ColorTextWidget { span, align, name, border_color })),
        ),
        Command::SetBigText { name, text, color, align } => Some(
            (
                name,
                WidgetState::BigText(
                    BigTextWidget {
                        text,
                        color,
                        align,
                        area: Rect { x: 0, y: 0, width: 0, height: 0 },
                    },
                ),
            ),
        ),
        Command::SetChart { name, options } => Some(
            (name, WidgetState::Chart(ChartWidget { name, options })),
        ),
        _ => None,
    }
}

/// The widget that shows the image in the file at `filepath`, before it
/// has a place in the grid.
pub open spec fn image_widget(name: String, filepath: String) -> WidgetState {
    WidgetState::Image(
        ImageWidget { name, filepath, area: Rect { x: 0, y: 0, width: 0, height: 0 } },
    )
}

/// Whether two states differ in their widgets at most.
pub open spec fn same_but_widgets(pre: App, post: App) -> bool {
    &&& post.exit == pre.exit
    &&& post.actions == pre.actions
    &&& post.failed == pre.failed
    &&& post.modules == pre.modules
    &&& post.current_loading == pre.current_loading
    &&& post.state == pre.state
    &&& post.size == pre.size
    &&& post.screenshot == pre.screenshot
    &&& post.resized == pre.resized
    &&& post.loaded_before == pre.loaded_before
}

/// Whether two states differ in their to-do lists at most.
pub open spec fn same_but_todo(pre: App, post: App) -> bool {
    &&& post.exit == pre.exit
    &&& post.actions == pre.actions
    &&& post.failed == pre.failed
    &&& post.modules == pre.modules
    &&& post.current_loading == pre.current_loading
    &&& post.widgets == pre.widgets
    &&& post.state.w == pre.state.w
    &&& post.state.h == pre.state.h
    &&& post.size == pre.size
    &&& post.screenshot == pre.screenshot
    &&& post.resized == pre.resized
    &&& post.loaded_before == pre.loaded_before
}

/// Whether two states differ at most in which scripts are loaded, have
/// failed or are being loaded.
pub open spec fn same_but_scripts(pre: App, post: App) -> bool {
    &&& post.exit == pre.exit
    &&& post.actions == pre.actions
    &&& post.widgets == pre.widgets
    &&& post.state == pre.state
    &&& post.size == pre.size
    &&& post.screenshot == pre.screenshot
    &&& post.resized == pre.resized
    &&& post.loaded_before == pre.loaded_before
}

/// The to-do list before it is put in order again, after `command`.
pub open spec fn todo_after(list: Seq<TodoWidget>, command: Command) -> Seq<TodoWidget> {
    match command {
        Command::TodoAdd { text, by, deadline } => list.insert(
            0,
            TodoWidget { text, done: false, by, deadline },
        ),
        Command::TodoComplete { index } => if 1 <= index <= list.len() {
            list.update(index - 1, TodoWidget { done: true, ..list[index - 1] })
        } else {
            list
        },
        Command::TodoDelete { index } => if 1 <= index <= list.len() {
            list.remove(index - 1)
        } else {
            list
        },
        _ => list,
    }
}

/// Whether `post` and `effect` are what `command` makes of `pre`.
///
/// A command that sets a widget puts it under its name, in place of what
/// was there. An image is not set yet: the state stays as it is, and the
/// effect asks for the file to be read. `Clear` removes the widget of that
/// name. The to-do commands
/// change the list and put it in order; entries are counted from 1, and a
/// number that names no entry changes nothing. `Reload` leaves the state to
/// the loading that follows, `Exit` sets the flag that ends the main loop,
/// and `Screenshot` notes the path and touches no widget.
pub open spec fn applied(pre: App, command: Command, post: App, effect: Effect) -> bool {
    match command {
        Command::Clear { name } => {
            &&& same_but_widgets(pre, post)
            &&& post.widgets.wf()
            &&& post.widgets@ == pre.widgets@.remove(name@)
            &&& effect == Effect::Applied
        },
        Command::TodoAdd { .. } | Command::TodoDelete { .. } => {
            &&& same_but_todo(pre, post)
            &&& is_sorted_form(post.state.todo@, todo_after(pre.state.todo@, command))
            &&& effect == Effect::Applied
        },
        Command::TodoComplete { index } => {
            &&& same_but_todo(pre, post)
            &&& if 1 <= index <= pre.state.todo@.len() {
                is_sorted_form(post.state.todo@, todo_after(pre.state.todo@, command))
            } else {
                post.state.todo == pre.state.todo
            }
            &&& effect == Effect::Applied
        },
        Command::Reload => post == pre && effect == Effect::Reload,
        Command::SetImage { name, filepath } => post == pre && effect == (Effect::Image {
            name,
            filepath,
        }),
        Command::Exit => post == (App { exit: true, ..pre }) && effect == Effect::Applied,
        Command::Screenshot { path } => post == (App { screenshot: path, ..pre }) && effect
            == Effect::Applied,
        _ => {
            &&& widget_of(command) matches Some(entry)
            &&& same_but_widgets(pre, post)
            &&& post.widgets.wf()
            &&& post.widgets@ == pre.widgets@.insert(entry.0@, entry.1)
            &&& effect == Effect::Applied
        },
    }
}

/// Whether `post` and `effect` are what the message `data` makes of `pre`:
/// what its command makes of it, or nothing where it is no command.
pub open spec fn consumed(pre: App, data: FrameData, post: App, effect: Effect) -> bool {
    match decoded(data) {
        Ok(view) => exists|command: Command| #[trigger]
            command@ == view && applied(pre, command, post, effect),
        Err(rejection) => post == pre && effect == Effect::Ignored(rejection),
    }
}

/// Whether `states` and `effects` are what reading the messages `queue` one
/// after the other makes of the first of `states`.
pub open spec fn consumed_all(states: Seq<App>, queue: Seq<FrameData>, effects: Seq<Effect>) -> bool {
    &&& states.len() == queue.len() + 1
    &&& effects.len() == queue.len()
    &&& forall|i: int|
        0 <= i < queue.len() ==> consumed(
            #[trigger] states[i],
            queue[i],
            states[i + 1],
            effects[i],
        )
}

/// The number of foreground scripts among the first `upto` of `actions`.
pub open spec fn foreground_count(actions: Seq<Action>, upto: int) -> nat
    decreases upto,
{
    if upto <= 0 {
        0
    } else if is_background(actions[upto - 1].name@) {
        foreground_count(actions, upto - 1)
    } else {
        foreground_count(actions, upto - 1) + 1
    }
}

/// What is done with a script when the scripts are loaded. `again` says
/// that scripts were loaded before.
pub open spec fn step_for(action: Action, again: bool) -> LoadStep {
    if is_background(action.name@) {
        if again {
            LoadStep::Skip(action)
        } else {
            LoadStep::Background(action)
        }
    } else {
        LoadStep::Foreground(action)
    }
}

/// Whether one of `names` is `name`.
pub fn holds_name(names: &Vec<String>, name: &str) -> (r: bool)
    ensures
        r == names_of(names@).contains(name@),
{
    let n = names.len();
    let mut i: usize = 0;
    while i < n
        invariant
            i <= n,
            n == names@.len(),
            forall|k: int| 0 <= k < i ==> names_of(names@)[k] != name@,
        decreases n - i,
    {
        if crate::text::same_text(names[i].as_str(), name) {
            assert(names_of(names@)[i as int] == name@);
            return true;
        }
        i += 1;
    }
    false
}

impl App {
    /// The widgets are well formed.
    pub open spec fn wf(&self) -> bool {
        self.widgets.wf()
    }

    /// Where the script called `name` stands: `Ready` if it is loaded,
    /// else `Failed` if loading it failed, else `Loading` if it is being
    /// loaded.
    pub open spec fn status_of(&self, name: Seq<char>) -> Option<Status> {
        if names_of(self.modules@).contains(name) {
            Some(Status::Ready)
        } else if names_of(self.failed@).contains(name) {
            Some(Status::Failed)
        } else if self.current_loading@ == name {
            Some(Status::Loading)
        } else {
            None
        }
    }

    /// The state at the start: no widget, no script loaded, and the kept
    /// state as it was saved, or the fresh one where nothing usable was.
    pub fn new(
        actions: Vec<Action>,
        size: Option<(u16, u16)>,
        saved: Option<AppState>,
    ) -> (app: App)
        ensures
            app.wf(),
            !app.exit,
            !app.resized,
            !app.loaded_before,
            app.actions == actions,
            app.size == size,
            app.failed@.len() == 0,
            app.modules@.len() == 0,
            app.current_loading@.len() == 0,
            app.screenshot@.len() == 0,
            app.widgets@ == Map::<Seq<char>, WidgetState>::empty(),
            match saved {
                Some(state) => app.state == state,
                None => fresh_state(app.state),
            },
    {
        let state = match saved {
            Some(state) => state,
            None => AppState { w: 20, h: 10, todo: Vec::new() },
        };
        App {
            exit: false,
            actions,
            failed: Vec::new(),
            modules: Vec::new(),
            current_loading: String::new(),
            widgets: Registry::new(),
            state,
            size,
            screenshot: String::new(),
            resized: false,
            loaded_before: false,
        }
    }

    /// Starts loading the scripts `actions`, at the start or again: no
    /// script is loaded or failed any more, and of the widgets those of
    /// background scripts stay. The kept state stays as it is. The result
    /// says, script by script, what is to be done. Background scripts are
    /// started at the first loading only: they are never stopped, so at
    /// every later loading they run already.
    pub fn init(&mut self, actions: Vec<Action>) -> (plan: Vec<LoadStep>)
        requires
            old(self).wf(),
        ensures
            final(self).wf(),
            final(self).state == old(self).state,
            final(self).exit == old(self).exit,
            final(self).size == old(self).size,
            final(self).screenshot == old(self).screenshot,
            final(self).resized == old(self).resized,
            final(self).loaded_before,
            final(self).actions == actions,
            final(self).modules@.len() == 0,
            final(self).failed@.len() == 0,
            final(self).current_loading@.len() == 0,
            final(self).widgets@ == old(self).widgets@.restrict(
                Set::new(|name: Seq<char>| is_background(name)),
            ),
            plan@.len() == actions@.len(),
            forall|i: int|
                0 <= i < actions@.len() ==> #[trigger] plan@[i] == step_for(
                    actions@[i],
                    old(self).loaded_before,
                ),
    {
        let again = self.loaded_before;
        self.loaded_before = true;
        self.modules.clear();
        self.widgets.retain_background();
        self.failed.clear();
        let mut plan: Vec<LoadStep> = Vec::new();
        let n = actions.len();
        let mut i: usize = 0;
        while i < n
            invariant
                i <= n,
                n == actions@.len(),
                plan@.len() == i,
                forall|k: int| 0 <= k < i ==> #[trigger] plan@[k] == step_for(actions@[k], again),
            decreases n - i,
        {
            let action = Action { code: actions[i].code.clone(), name: actions[i].name.clone() };
            let step = if names_background(action.name.as_str()) {
                if again {
                    LoadStep::Skip(action)
                } else {
                    LoadStep::Background(action)
                }
            } else {
                LoadStep::Foreground(action)
            };
            plan.push(step);
            i += 1;
        }
        self.actions = actions;
        self.current_loading = String::new();
        plan
    }

    /// Notes that the script called `name` is being loaded.
    pub fn loading(&mut self, name: String)
        ensures
            same_but_scripts(*old(self), *final(self)),
            final(self).modules == old(self).modules,
            final(self).failed == old(self).failed,
            final(self).current_loading == name,
    {
        self.current_loading = name;
    }

    /// Notes how loading the foreground script called `name` ended: it is
    /// ready if compiling it and calling its `init` went well, and failed
    /// otherwise. Nothing else changes, so a failure stops no other script.
    /// A background script is never noted: it takes no part in the ticks.
    pub fn loaded(&mut self, name: String, succeeded: bool)
        ensures
            same_but_scripts(*old(self), *final(self)),
            final(self).current_loading == old(self).current_loading,
            is_background(name@) ==> *final(self) == *old(self),
            !is_background(name@) && succeeded ==> final(self).modules@ == old(self).modules@.push(
                name,
            ) && final(self).failed == old(self).failed,
            !is_background(name@) && !succeeded ==> final(self).failed@ == old(self).failed@.push(
                name,
            ) && final(self).modules == old(self).modules,
    {
        if names_background(name.as_str()) {
        } else if succeeded {
            self.modules.push(name);
        } else {
            self.failed.push(name);
        }
    }

    /// Notes that all scripts were gone through.
    pub fn finish_loading(&mut self)
        ensures
            same_but_scripts(*old(self), *final(self)),
            final(self).modules == old(self).modules,
            final(self).failed == old(self).failed,
            final(self).current_loading@.len() == 0,
    {
        self.current_loading = String::new();
    }

    /// The modules whose `update` a tick calls: all that are ready, in the
    /// order in which they were loaded.
    pub fn exec(&self) -> (names: Vec<String>)
        ensures
            names@ == self.modules@,
    {
        let n = self.modules.len();
        let mut names: Vec<String> = Vec::new();
        let mut i: usize = 0;
        while i < n
            invariant
                i <= n,
                n == self.modules@.len(),
                names@.len() == i,
                forall|k: int| 0 <= k < i ==> names@[k] == self.modules@[k],
            decreases n - i,
        {
            names.push(self.modules[i].clone());
            i += 1;
        }
        names
    }

    /// Notes how a call of `update` ended. Whether it went well or not, the
    /// module stays ready and nothing else changes: it is called again at
    /// the next tick. The result is true where the failure is to be logged.
    pub fn updated(&mut self, name: &str, succeeded: bool) -> (log: bool)
        ensures
            *final(self) == *old(self),
            log == !succeeded,
    {
        !succeeded
    }

    /// Where the script called `name` stands.
    pub fn status(&self, name: &str) -> (status: Option<Status>)
        ensures
            status == self.status_of(name@),
    {
        if holds_name(&self.modules, name) {
            Some(Status::Ready)
        } else if holds_name(&self.failed, name) {
            Some(Status::Failed)
        } else if crate::text::same_text(self.current_loading.as_str(), name) {
            Some(Status::Loading)
        } else {
            None
        }
    }

    /// Whether loading is over: every foreground script is ready or has
    /// failed.
    pub fn is_loaded(&self) -> (r: bool)
        ensures
            r == (self.modules@.len() + self.failed@.len() == foreground_count(
                self.actions@,
                self.actions@.len() as int,
            )),
    {
        let n = self.actions.len();
        let mut count: usize = 0;
        let mut i: usize = 0;
        while i < n
            invariant
                i <= n,
                n == self.actions@.len(),
                count <= i,
                count == foreground_count(self.actions@, i as int),
            decreases n - i,
        {
            if !names_background(self.actions[i].name.as_str()) {
                count += 1;
            }
            i += 1;
        }
        (self.modules.len() as u128) + (self.failed.len() as u128) == count as u128
    }

    /// Lays the widgets out in a viewport of the given size, in the order
    /// of their names and with grid cells of the kept size, and sets the
    /// drawing area of each widget that keeps one from its slot.
    pub fn render(&mut self, viewport_width: u16, viewport_height: u16) -> (rows: Vec<Vec<Slot>>)
        requires
            old(self).wf(),
        ensures
            final(self).wf(),
            same_but_widgets(*old(self), *final(self)),
            is_grid(
                rows@,
                old(self).widgets.names(),
                viewport_width as nat,
                viewport_height as nat,
                old(self).state.w as nat,
                old(self).state.h as nat,
            ),
            final(self).widgets@.dom() == old(self).widgets@.dom(),
            forall|r: int, c: int|
                0 <= r < rows@.len() && 0 <= c < rows@[r]@.len() ==> final(self).widgets@[(
                #[trigger] rows@[r]@[c]).name@] == placed(
                    old(self).widgets@[rows@[r]@[c].name@],
                    rows@[r]@[c].area,
                ),
    {
        let keys = self.widgets.keys();
        let rows = compose(&keys, viewport_width, viewport_height, self.state.w, self.state.h);
        let ghost names = old(self).widgets.names();
        let ghost start = old(self).widgets@;
        let ghost limit = row_limit(viewport_width as nat, self.state.w as nat, names.len());
        proof {
            assert(names_of(keys@) =~= names);
            old(self).widgets.lemma_names();
        }
        let mut r: usize = 0;
        while r < rows.len()
            invariant
                self.wf(),
                same_but_widgets(*old(self), *self),
                names == old(self).widgets.names(),
                start == old(self).widgets@,
                limit == row_limit(viewport_width as nat, old(self).state.w as nat, names.len()),
                limit >= 1,
                is_grid(
                    rows@,
                    names,
                    viewport_width as nat,
                    viewport_height as nat,
                    old(self).state.w as nat,
                    old(self).state.h as nat,
                ),
                forall|i: int, j: int|
                    0 <= i < j < names.len() ==> crate::text::precedes(
                        #[trigger] names[i],
                        #[trigger] names[j],
                    ),
                forall|i: int| 0 <= i < names.len() ==> start.dom().contains(#[trigger] names[i]),
                r <= rows@.len(),
                self.widgets@.dom() == start.dom(),
                forall|i: int|
                    r * limit <= i < names.len() ==> self.widgets@[#[trigger] names[i]]
                        == start[names[i]],
                forall|p: int, c: int|
                    0 <= p < r && 0 <= c < rows@[p]@.len() ==> self.widgets@[(
                    #[trigger] rows@[p]@[c]).name@] == placed(
                        start[rows@[p]@[c].name@],
                        rows@[p]@[c].area,
                    ),
            decreases rows@.len() - r,
        {
            let row = &rows[r];
            proof {
                lemma_rows_hold_all(names.len(), limit, r as nat);
            }
            let mut c: usize = 0;
            while c < row.len()
                invariant
                    self.wf(),
                    same_but_widgets(*old(self), *self),
                    names == old(self).widgets.names(),
                    start == old(self).widgets@,
                    limit >= 1,
                    is_grid(
                        rows@,
                        names,
                        viewport_width as nat,
                        viewport_height as nat,
                        old(self).state.w as nat,
                        old(self).state.h as nat,
                    ),
                    limit == row_limit(
                        viewport_width as nat,
                        old(self).state.w as nat,
                        names.len(),
                    ),
                    forall|i: int, j: int|
                        0 <= i < j < names.len() ==> crate::text::precedes(
                            #[trigger] names[i],
                            #[trigger] names[j],
                        ),
                    forall|i: int|
                        0 <= i < names.len() ==> start.dom().contains(#[trigger] names[i]),
                    r < rows@.len(),
                    *row == rows@[r as int],
                    c <= row@.len(),
                    r * limit < names.len(),
                    row@.len() <= limit,
                    r * limit + row@.len() <= names.len(),
                    self.widgets@.dom() == start.dom(),
                    forall|i: int|
                        r * limit + c <= i < names.len() ==> self.widgets@[#[trigger] names[i]]
                            == start[names[i]],
                    forall|p: int, q: int|
                        0 <= p < r && 0 <= q < rows@[p]@.len() ==> self.widgets@[(
                        #[trigger] rows@[p]@[q]).name@] == placed(
                            start[rows@[p]@[q].name@],
                            rows@[p]@[q].area,
                        ),
                    forall|q: int|
                        0 <= q < c ==> self.widgets@[(#[trigger] row@[q]).name@] == placed(
                            start[row@[q].name@],
                            row@[q].area,
                        ),
                decreases row@.len() - c,
            {
                let ghost index = r * limit + c;
                self.widgets.place(row[c].name.as_str(), row[c].area);
                proof {
                    assert forall|i: int| index + 1 <= i < names.len() implies self.widgets@[
                    #[trigger] names[i]] == start[names[i]] by {
                        lemma_precedes_total(names[index], names[i]);
                    }
                    assert forall|q: int| 0 <= q < c implies self.widgets@[(
                    #[trigger] row@[q]).name@] == placed(start[row@[q].name@], row@[q].area) by {
                        lemma_precedes_total(names[r * limit + q], names[index]);
                    }
                    assert forall|p: int, q: int|
                        0 <= p < r && 0 <= q < rows@[p]@.len() implies self.widgets@[(
                    #[trigger] rows@[p]@[q]).name@] == placed(
                        start[rows@[p]@[q].name@],
                        rows@[p]@[q].area,
                    ) by {
                        lemma_rows_hold_all(names.len(), limit, p as nat);
                        assert(p * limit + q < index) by (nonlinear_arith)
                            requires
                                0 <= p < r,
                                0 <= q < limit,
                                index == r * limit + c,
                                c >= 0,
                                limit >= 1,
                        ;
                        lemma_precedes_total(names[p * limit + q], names[index]);
                    }
                }
                c += 1;
            }
            proof {
                assert((r + 1) * limit == r * limit + limit) by (nonlinear_arith);
            }
            r += 1;
        }
        rows
    }

    /// Puts the to-do list in order.
    pub fn sort_todo(&mut self)
        ensures
            same_but_todo(*old(self), *final(self)),
            is_sorted_form(final(self).state.todo@, old(self).state.todo@),
    {
        sort(&mut self.state.todo);
    }

    /// Sets the flag that ends the main loop.
    pub fn exit(&mut self)
        ensures
            *final(self) == (App { exit: true, ..*old(self) }),
    {
        self.exit = true;
    }

    /// Carries out a command.
    pub fn apply(&mut self, command: Command) -> (effect: Effect)
        requires
            old(self).wf(),
        ensures
            final(self).wf(),
            applied(*old(self), command, *final(self), effect),
    {
        match command {
            Command::SetText { name, text, color, align } => {
                let state = WidgetState::Text(TextWidget { name: name.clone(), text, color, align });
                self.widgets.insert(name, state);
                Effect::Applied
            },
            Command::SetColorText { name, span, align, border_color } => {
                let state = WidgetState::ColorText(
                    ColorTextWidget { span, align, name: name.clone(), border_color },
                );
                self.widgets.insert(name, state);
                Effect::Applied
            },
            Command::SetBigText { name, text, color, align } => {
                let state = WidgetState::BigText(
                    BigTextWidget { text, color, align, area: Rect::zero() },
                );
                self.widgets.insert(name, state);
                Effect::Applied
            },
            Command::SetChart { name, options } => {
                let state = WidgetState::Chart(ChartWidget { name: name.clone(), options });
                self.widgets.insert(name, state);
                Effect::Applied
            },
            Command::SetImage { name, filepath } => Effect::Image { name, filepath },
            Command::Clear { name } => {
                self.widgets.remove(name.as_str());
                Effect::Applied
            },
            Command::TodoAdd { text, by, deadline } => {
                self.state.todo.insert(0, TodoWidget { text, done: false, by, deadline });
                sort(&mut self.state.todo);
                Effect::Applied
            },
            Command::TodoComplete { index } => {
                if index >= 1 && (index as u64) <= (self.state.todo.len() as u64) {
                    let at = (index - 1) as usize;
                    let item = self.state.todo.remove(at);
                    self.state.todo.insert(at, TodoWidget { done: true, ..item });
                    assert(self.state.todo@ =~= todo_after(old(self).state.todo@, command));
                    sort(&mut self.state.todo);
                }
                Effect::Applied
            },
            Command::TodoDelete { index } => {
                if index >= 1 && (index as u64) <= (self.state.todo.len() as u64) {
                    let _ = self.state.todo.remove((index - 1) as usize);
                }
                sort(&mut self.state.todo);
                Effect::Applied
            },
            Command::Reload => Effect::Reload,
            Command::Exit => {
                self.exit = true;
                Effect::Applied
            },
            Command::Screenshot { path } => {
                self.screenshot = path;
                Effect::Applied
            },
        }
    }

    /// Notes how reading the image file of the widget called `name` ended:
    /// where it was read, the widget is set, in place of what had the name;
    /// where it was not, nothing changes, and the result asks for a line in
    /// the log.
    pub fn image_loaded(&mut self, name: String, filepath: String, loaded: bool) -> (log: bool)
        requires
            old(self).wf(),
        ensures
            final(self).wf(),
            log == !loaded,
            loaded ==> same_but_widgets(*old(self), *final(self)) && final(self).widgets@ == old(self).widgets@.insert(name@, image_widget(name, filepath)),
            !loaded ==> *final(self) == *old(self),
    {
        if loaded {
            let state = WidgetState::Image(
                ImageWidget { name: name.clone(), filepath, area: Rect::zero() },
            );
            self.widgets.insert(name, state);
        }
        !loaded
    }

    /// Reads one message and carries out its command, if it is one.
    pub fn consumer(&mut self, data: FrameData) -> (effect: Effect)
        requires
            old(self).wf(),
        ensures
            final(self).wf(),
            consumed(*old(self), data, *final(self), effect),
    {
        match decode(data) {
            Ok(command) => self.apply(command),
            Err(rejection) => Effect::Ignored(rejection),
        }
    }

    /// Reads all the messages that wait at `instance`, oldest first, and
    /// carries out their commands one after the other.
    pub fn drain(&mut self, instance: &mut Instance) -> (effects: Vec<Effect>)
        requires
            old(self).wf(),
        ensures
            final(self).wf(),
            final(instance).queue@.len() == 0,
            final(instance).log@ == old(instance).log@,
            exists|states: Seq<App>|
                consumed_all(states, old(instance).queue@, effects@) && states[0] == *old(self)
                    && #[trigger] states.last() == *final(self),
    {
        let ghost queue = instance.queue@;
        let ghost mut states: Seq<App> = seq![*self];
        let mut effects: Vec<Effect> = Vec::new();
        loop
            invariant
                self.wf(),
                instance.log@ == old(instance).log@,
                states.len() == effects@.len() + 1,
                effects@.len() <= queue.len(),
                instance.queue@ == queue.skip(effects@.len() as int),
                states[0] == *old(self),
                states.last() == *self,
                forall|i: int|
                    0 <= i < effects@.len() ==> consumed(
                        #[trigger] states[i],
                        queue[i],
                        states[i + 1],
                        effects@[i],
                    ),
            ensures
                self.wf(),
                instance.log@ == old(instance).log@,
                instance.queue@.len() == 0,
                consumed_all(states, queue, effects@),
                states[0] == *old(self),
                states.last() == *self,
            decreases queue.len() - effects@.len(),
        {
            match instance.receive() {
                None => {
                    break ;
                },
                Some(data) => {
                    let effect = self.consumer(data);
                    effects.push(effect);
                    proof {
                        states = states.push(*self);
                    }
                },
            }
        }
        effects
    }

    /// What a pressed key does: `q` ends the main loop, `s` asks for the
    /// kept state to be saved, `r` asks for the scripts to be loaded again,
    /// by a message put into the queue, `=`, `+` and `z` make the grid cells
    /// 2 wider and 1 higher, and `-` and `x` 2 narrower and 1 lower. A step
    /// that would take a cell's size out of the range of its numbers is not
    /// taken. Other keys do nothing.
    pub fn handle_key_event(&mut self, key: char, instance: &mut Instance) -> (effect: KeyEffect)
        ensures
            final(instance).log@ == old(instance).log@,
            key == 'r' ==> {
                &&& *final(self) == *old(self)
                &&& final(instance).queue@.len() == old(instance).queue@.len() + 1
                &&& final(instance).queue@.drop_last() == old(instance).queue@
                &&& crate::modules::is_reload_request(final(instance).queue@.last())
            },
            key != 'r' ==> final(instance).queue@ == old(instance).queue@,
            key == 'q' ==> *final(self) == (App { exit: true, ..*old(self) }),
            (key == '=' || key == '+' || key == 'z') && old(self).state.w <= u16::MAX - 2 && old(self).state.h <= u16::MAX - 1 ==> *final(self) == (App {
                state: AppState {
                    w: (old(self).state.w + 2) as u16,
                    h: (old(self).state.h + 1) as u16,
                    todo: old(self).state.todo,
                },
                ..*old(self)
            }),
            (key == '-' || key == 'x') && old(self).state.w >= 2 && old(self).state.h >= 1
                ==> *final(self) == (App {
                state: AppState {
                    w: (old(self).state.w - 2) as u16,
                    h: (old(self).state.h - 1) as u16,
                    todo: old(self).state.todo,
                },
                ..*old(self)
            }),
            (key == '=' || key == '+' || key == 'z') && !(old(self).state.w <= u16::MAX - 2 && old(self).state.h <= u16::MAX - 1) ==> *final(self) == *old(self),
            (key == '-' || key == 'x') && !(old(self).state.w >= 2 && old(self).state.h >= 1)
                ==> *final(self) == *old(self),
            !(key == 'q' || key == 'r' || key == '=' || key == '+' || key == 'z' || key == '-'
                || key == 'x') ==> *final(self) == *old(self),
            effect == if key == 's' {
                KeyEffect::Save
            } else {
                KeyEffect::Nothing
            },
    {
        if key == 'q' {
            self.exit = true;
            KeyEffect::Nothing
        } else if key == 'r' {
            crate::modules::reload_scripts(instance);
            KeyEffect::Nothing
        } else if key == 's' {
            KeyEffect::Save
        } else if key == '=' || key == '+' || key == 'z' {
            if self.state.w <= u16::MAX - 2 && self.state.h <= u16::MAX - 1 {
                self.state.w = self.state.w + 2;
                self.state.h = self.state.h + 1;
            }
            KeyEffect::Nothing
        } else if key == '-' || key == 'x' {
            if self.state.w >= 2 && self.state.h >= 1 {
                self.state.w = self.state.w - 2;
                self.state.h = self.state.h - 1;
            }
            KeyEffect::Nothing
        } else {
            KeyEffect::Nothing
        }
    }

    /// Notes that the terminal now has `width` columns and `height` rows,
    /// where it had `old_width` and `old_height`: the terminal is to be
    /// resized exactly if they differ.
    pub fn handle_resize(
        &mut self,
        width: u16,
        height: u16,
        old_width: u16,
        old_height: u16,
    ) -> (resize: bool)
        ensures
            resize == (width != old_width || height != old_height),
            *final(self) == (App { resized: old(self).resized || resize, ..*old(self) }),
    {
        let resize = width != old_width || height != old_height;
        if resize {
            self.resized = true;
        }
        resize
    }

    /// What the next turn of the main loop owes at the time `now`,
    /// `elapsed_millis` after the last tick: nothing more once the exit flag
    /// is set; else a frame is drawn and published, and all ready modules
    /// are ticked as well when more than a second has gone by.
    pub fn run(&self, elapsed_millis: u128, now: u128) -> (turn: Turn)
        ensures
            self.exit ==> turn == Turn::Stop,
            !self.exit && elapsed_millis <= 1000 ==> turn == Turn::Draw,
            !self.exit && elapsed_millis > 1000 ==> (turn matches Turn::Tick { context, modules }
                && context.now == now && modules@ == self.modules@),
    {
        if self.exit {
            Turn::Stop
        } else if elapsed_millis > 1000 {
            Turn::Tick { context: TickContext { now }, modules: self.exec() }
        } else {
            Turn::Draw
        }
    }
}

/// Whether `command` sets the widget called `name` to `state`.
pub open spec fn sets(command: Command, name: Seq<char>, state: WidgetState) -> bool {
    widget_of(command) matches Some(entry) && entry.0@ == name && entry.1 == state
}

/// The last of two commands for one name decides: after two commands that
/// each set the widget called `name`, the widgets are what they would be
/// after the second alone, and the widget called `name` is the second's.
pub proof fn lemma_last_write_wins(
    start: App,
    first: Command,
    between: App,
    first_effect: Effect,
    second: Command,
    end: App,
    second_effect: Effect,
    name: Seq<char>,
    first_state: WidgetState,
    second_state: WidgetState,
)
    requires
        applied(start, first, between, first_effect),
        applied(between, second, end, second_effect),
        sets(first, name, first_state),
        sets(second, name, second_state),
    ensures
        end.widgets@ == start.widgets@.insert(name, second_state),
        end.widgets@[name] == second_state,
        same_but_widgets(start, end),
{
}

} // verus!
