use dashboard::actions::Action;
use dashboard::app::{App, AppState, Effect, KeyEffect, LoadStep, Status, TickContext, Turn};
use dashboard::command::{Command, FrameData, Rejection};
use dashboard::frame::Colour;
use dashboard::layout::Rect;
use dashboard::modules::{initialize, send};
use dashboard::payload::{Number, Value};
use dashboard::todo::TodoWidget;
use dashboard::widgets::{
    Alignment, BigTextWidget, ImageWidget, TextWidget, WidgetState,
};

fn text(s: &str) -> Value {
    Value::Text(s.to_string())
}

fn object(members: Vec<(&str, Value)>) -> Value {
    Value::Object(members.into_iter().map(|(k, v)| (k.to_string(), v)).collect())
}

fn set_text(name: &str, content: &str) -> FrameData {
    FrameData {
        action: "text".to_string(),
        name: name.to_string(),
        value: object(vec![("text", text(content))]),
    }
}

fn index(action: &str, i: u64) -> FrameData {
    FrameData {
        action: action.to_string(),
        name: "todo".to_string(),
        value: object(vec![("index", Value::Number(Number::PosInt(i)))]),
    }
}

fn add(what: &str, deadline: u64) -> FrameData {
    FrameData {
        action: "todo_add".to_string(),
        name: "todo".to_string(),
        value: object(vec![
            ("text", text(what)),
            ("by", text("me")),
            ("deadline", Value::Number(Number::PosInt(deadline))),
        ]),
    }
}

fn shown(name: &str, content: &str) -> WidgetState {
    WidgetState::Text(TextWidget {
        name: name.to_string(),
        text: content.to_string(),
        color: Colour::White,
        align: Alignment::Center,
    })
}

fn script(name: &str) -> Action {
    Action { code: format!("# {}", name), name: name.to_string() }
}

fn fresh() -> App {
    App::new(Vec::new(), None, None)
}

fn todo_texts(app: &App) -> Vec<(String, bool)> {
    app.state.todo.iter().map(|t| (t.text.clone(), t.done)).collect()
}

#[test]
fn a_new_app_has_the_default_geometry_and_nothing_else() {
    let app = App::new(vec![script("a")], Some((1280, 720)), None);
    assert_eq!(app.state, AppState { w: 20, h: 10, todo: Vec::new() });
    assert_eq!(app.size, Some((1280, 720)));
    assert_eq!(app.actions, vec![script("a")]);
    assert!(!app.exit && !app.resized);
    assert!(app.modules.is_empty() && app.failed.is_empty());
    assert_eq!(app.widgets.len(), 0);
}

#[test]
fn a_new_app_takes_the_saved_state() {
    let item = TodoWidget { text: "t".to_string(), done: true, by: "b".to_string(), deadline: 5 };
    let saved = AppState { w: 30, h: 12, todo: vec![item.clone()] };
    let app = App::new(Vec::new(), None, Some(saved));
    assert_eq!(app.state, AppState { w: 30, h: 12, todo: vec![item] });
}

#[test]
fn the_last_of_two_commands_for_one_name_wins() {
    let mut app = fresh();
    let mut bus = initialize();
    send(&mut bus, set_text("w", "hello"));
    send(&mut bus, set_text("w", "world"));
    let effects = app.drain(&mut bus);
    assert_eq!(effects, vec![Effect::Applied, Effect::Applied]);
    assert_eq!(app.widgets.len(), 1);
    assert_eq!(app.widgets.get("w"), Some(&shown("w", "world")));
    assert!(bus.queue.is_empty());
}

#[test]
fn commands_are_carried_out_in_the_order_they_came() {
    let mut app = fresh();
    let mut bus = initialize();
    send(&mut bus, set_text("a", "1"));
    send(&mut bus, FrameData { action: "clear".to_string(), name: "a".to_string(), value: Value::Null });
    send(&mut bus, set_text("b", "2"));
    send(&mut bus, FrameData { action: "nonsense".to_string(), name: "a".to_string(), value: Value::Null });
    send(&mut bus, set_text("a", "3"));
    let effects = app.drain(&mut bus);
    assert_eq!(
        effects,
        vec![
            Effect::Applied,
            Effect::Applied,
            Effect::Applied,
            Effect::Ignored(Rejection::UnknownAction),
            Effect::Applied,
        ]
    );
    assert_eq!(app.widgets.keys(), vec!["a".to_string(), "b".to_string()]);
    assert_eq!(app.widgets.get("a"), Some(&shown("a", "3")));
    assert_eq!(app.drain(&mut bus), Vec::new());
}

#[test]
fn clear_removes_only_the_named_widget() {
    let mut app = fresh();
    app.consumer(set_text("a", "1"));
    app.consumer(set_text("b", "2"));
    let effect = app.apply(Command::Clear { name: "a".to_string() });
    assert_eq!(effect, Effect::Applied);
    assert_eq!(app.widgets.get("a"), None);
    assert_eq!(app.widgets.get("b"), Some(&shown("b", "2")));
    app.apply(Command::Clear { name: "missing".to_string() });
    assert_eq!(app.widgets.len(), 1);
}

#[test]
fn a_widget_is_replaced_whole_by_one_of_another_kind() {
    let mut app = fresh();
    app.consumer(set_text("w", "hello"));
    let effect = app.apply(Command::SetImage {
        name: "w".to_string(),
        filepath: "cat.png".to_string(),
    });
    assert_eq!(effect, Effect::Image { name: "w".to_string(), filepath: "cat.png".to_string() });
    // Nothing is set before the file was read.
    assert_eq!(app.widgets.get("w"), Some(&shown("w", "hello")));
    assert!(!app.image_loaded("w".to_string(), "cat.png".to_string(), true));
    assert_eq!(
        app.widgets.get("w"),
        Some(&WidgetState::Image(ImageWidget {
            name: "w".to_string(),
            filepath: "cat.png".to_string(),
            area: Rect::zero(),
        }))
    );
    app.apply(Command::SetBigText {
        name: "w".to_string(),
        text: "12".to_string(),
        color: Colour::Red,
        align: Alignment::Left,
    });
    assert_eq!(
        app.widgets.get("w"),
        Some(&WidgetState::BigText(BigTextWidget {
            text: "12".to_string(),
            color: Colour::Red,
            align: Alignment::Left,
            area: Rect::zero(),
        }))
    );
}

#[test]
fn an_image_that_cannot_be_read_changes_nothing() {
    let mut app = fresh();
    app.consumer(set_text("w", "hello"));
    let effect = app.consumer(FrameData {
        action: "image".to_string(),
        name: "w".to_string(),
        value: object(vec![("filepath", text("missing.png"))]),
    });
    assert_eq!(effect, Effect::Image { name: "w".to_string(), filepath: "missing.png".to_string() });
    assert_eq!(app.widgets.get("w"), Some(&shown("w", "hello")));
    // The file could not be read: the failure is to be logged.
    assert!(app.image_loaded("w".to_string(), "missing.png".to_string(), false));
    assert_eq!(app.widgets.get("w"), Some(&shown("w", "hello")));
    assert_eq!(app.widgets.len(), 1);
    assert!(app.image_loaded("new".to_string(), "missing.png".to_string(), false));
    assert_eq!(app.widgets.get("new"), None);
}

#[test]
fn a_malformed_chart_changes_nothing() {
    let mut app = fresh();
    app.consumer(set_text("cpu", "before"));
    let effect = app.consumer(FrameData {
        action: "chart".to_string(),
        name: "cpu".to_string(),
        value: object(Vec::new()),
    });
    assert_eq!(effect, Effect::Ignored(Rejection::MalformedChart));
    assert_eq!(app.widgets.get("cpu"), Some(&shown("cpu", "before")));
    let effect = app.consumer(FrameData {
        action: "chart".to_string(),
        name: "other".to_string(),
        value: object(vec![("name", text("other"))]),
    });
    assert_eq!(effect, Effect::Ignored(Rejection::MalformedChart));
    assert_eq!(app.widgets.len(), 1);
}

#[test]
fn background_scripts_are_started_once() {
    let mut app = fresh();
    assert!(!app.loaded_before);
    let plan = app.init(vec![script("bad"), script("task_bg")]);
    assert_eq!(plan[1], LoadStep::Background(script("task_bg")));
    assert!(app.loaded_before);
    // No foreground script became ready.
    app.loaded("bad".to_string(), false);
    app.finish_loading();
    let plan = app.init(vec![script("bad"), script("task_bg"), script("task_new")]);
    assert_eq!(
        plan,
        vec![
            LoadStep::Foreground(script("bad")),
            LoadStep::Skip(script("task_bg")),
            LoadStep::Skip(script("task_new")),
        ]
    );
    let plan = app.init(Vec::new());
    assert!(plan.is_empty());
    let plan = app.init(vec![script("task_bg")]);
    assert_eq!(plan, vec![LoadStep::Skip(script("task_bg"))]);
}

#[test]
fn a_message_that_is_no_command_changes_nothing() {
    let mut app = fresh();
    app.consumer(set_text("w", "hello"));
    let effect = app.consumer(FrameData {
        action: "image".to_string(),
        name: "w".to_string(),
        value: Value::Null,
    });
    assert_eq!(effect, Effect::Ignored(Rejection::NoFilePath));
    assert_eq!(app.widgets.get("w"), Some(&shown("w", "hello")));
}

#[test]
fn the_to_do_list_stands_open_first_then_by_deadline() {
    let mut app = fresh();
    app.consumer(add("late", 30));
    app.consumer(add("early", 10));
    app.consumer(add("middle", 20));
    assert_eq!(
        todo_texts(&app),
        vec![("early".to_string(), false), ("middle".to_string(), false), ("late".to_string(), false)]
    );
    app.consumer(index("todo_done", 1));
    assert_eq!(
        todo_texts(&app),
        vec![("middle".to_string(), false), ("late".to_string(), false), ("early".to_string(), true)]
    );
    app.consumer(index("todo_done", 2));
    assert_eq!(
        todo_texts(&app),
        vec![("middle".to_string(), false), ("early".to_string(), true), ("late".to_string(), true)]
    );
    app.consumer(index("todo_del", 2));
    assert_eq!(todo_texts(&app), vec![("middle".to_string(), false), ("late".to_string(), true)]);
}

#[test]
fn a_new_entry_goes_before_one_with_the_same_deadline() {
    let mut app = fresh();
    app.consumer(add("first", 10));
    app.consumer(add("second", 10));
    assert_eq!(
        todo_texts(&app),
        vec![("second".to_string(), false), ("first".to_string(), false)]
    );
}

#[test]
fn a_number_that_names_no_entry_changes_nothing() {
    let mut app = fresh();
    app.consumer(add("only", 10));
    for i in [0, 2, 99] {
        app.consumer(index("todo_done", i));
        app.consumer(index("todo_del", i));
        assert_eq!(todo_texts(&app), vec![("only".to_string(), false)]);
    }
    app.apply(Command::TodoComplete { index: -1 });
    app.apply(Command::TodoDelete { index: i64::MIN });
    assert_eq!(todo_texts(&app), vec![("only".to_string(), false)]);
}

#[test]
fn sort_todo_puts_a_loaded_list_in_order() {
    let item = |text: &str, done: bool, deadline: u128| TodoWidget {
        text: text.to_string(),
        done,
        by: String::new(),
        deadline,
    };
    let saved = AppState {
        w: 20,
        h: 10,
        todo: vec![item("d", true, 1), item("b", false, 9), item("c", true, 0), item("a", false, 2)],
    };
    let mut app = App::new(Vec::new(), None, Some(saved));
    app.sort_todo();
    let order: Vec<String> = app.state.todo.iter().map(|t| t.text.clone()).collect();
    assert_eq!(order, vec!["a", "b", "c", "d"]);
}

#[test]
fn exit_and_screenshot_touch_no_widget() {
    let mut app = fresh();
    app.consumer(set_text("w", "hello"));
    assert_eq!(app.apply(Command::Screenshot { path: "out.png".to_string() }), Effect::Applied);
    assert_eq!(app.screenshot, "out.png");
    assert!(!app.exit);
    assert_eq!(app.apply(Command::Exit), Effect::Applied);
    assert!(app.exit);
    assert_eq!(app.widgets.get("w"), Some(&shown("w", "hello")));
    assert_eq!(app.run(5000, 0), Turn::Stop);
}

#[test]
fn a_failing_update_leaves_its_module_ready_and_stops_no_other() {
    let mut app = fresh();
    let mut bus = initialize();
    let plan = app.init(vec![script("a"), script("b")]);
    assert_eq!(plan, vec![LoadStep::Foreground(script("a")), LoadStep::Foreground(script("b"))]);
    app.loaded("a".to_string(), true);
    app.loaded("b".to_string(), true);
    app.finish_loading();
    for tick in 1..=3u128 {
        let names = match app.run(1001, 1_700_000_000_000 + tick) {
            Turn::Tick { context, modules } => {
                assert_eq!(context.now, 1_700_000_000_000 + tick);
                modules
            }
            other => panic!("no tick: {:?}", other),
        };
        assert_eq!(names, vec!["a".to_string(), "b".to_string()]);
        // a raises, b sends a command and returns.
        assert!(app.updated("a", false));
        send(&mut bus, set_text("b", &format!("tick {}", tick)));
        assert!(!app.updated("b", true));
        let effects = app.drain(&mut bus);
        assert_eq!(effects, vec![Effect::Applied]);
        assert_eq!(app.widgets.get("b"), Some(&shown("b", &format!("tick {}", tick))));
    }
    assert_eq!(app.modules, vec!["a".to_string(), "b".to_string()]);
    assert!(app.failed.is_empty());
    assert_eq!(app.exec(), vec!["a".to_string(), "b".to_string()]);
}

#[test]
fn a_script_that_fails_to_load_stops_no_other() {
    let mut app = fresh();
    let plan = app.init(vec![script("bad"), script("good"), script("task_bg")]);
    assert_eq!(
        plan,
        vec![
            LoadStep::Foreground(script("bad")),
            LoadStep::Foreground(script("good")),
            LoadStep::Background(script("task_bg")),
        ]
    );
    assert!(!app.is_loaded());
    app.loading("bad".to_string());
    assert_eq!(app.current_loading, "bad");
    assert_eq!(app.status("bad"), Some(Status::Loading));
    assert_eq!(app.status("good"), None);
    app.loaded("bad".to_string(), false);
    assert_eq!(app.status("bad"), Some(Status::Failed));
    assert!(!app.is_loaded());
    app.loading("good".to_string());
    app.loaded("good".to_string(), true);
    assert_eq!(app.status("good"), Some(Status::Ready));
    // A background script is never one of the modules that are ticked.
    app.loaded("task_bg".to_string(), true);
    app.loaded("task_bg".to_string(), false);
    assert_eq!(app.status("task_bg"), None);
    app.finish_loading();
    assert!(app.is_loaded());
    assert_eq!(app.current_loading, "");
    assert_eq!(app.failed, vec!["bad".to_string()]);
    assert_eq!(app.modules, vec!["good".to_string()]);
    assert_eq!(app.exec(), vec!["good".to_string()]);
}

#[test]
fn reload_keeps_the_kept_state_and_the_background_widgets() {
    let mut app = fresh();
    let plan = app.init(vec![script("x"), script("y"), script("task_bg")]);
    assert_eq!(plan[2], LoadStep::Background(script("task_bg")));
    app.loaded("x".to_string(), false);
    app.loaded("y".to_string(), true);
    app.consumer(set_text("task_bg", "background"));
    app.consumer(set_text("y", "foreground"));
    app.consumer(add("keep me", 7));
    let mut bus = initialize();
    app.handle_key_event('+', &mut bus);
    let kept = app.state.clone();
    assert_eq!((kept.w, kept.h), (22, 11));

    let effect = app.consumer(FrameData {
        action: "reload".to_string(),
        name: "reload".to_string(),
        value: Value::Null,
    });
    assert_eq!(effect, Effect::Reload);
    let plan = app.init(vec![script("x"), script("y"), script("task_bg")]);
    assert_eq!(
        plan,
        vec![
            LoadStep::Foreground(script("x")),
            LoadStep::Foreground(script("y")),
            LoadStep::Skip(script("task_bg")),
        ]
    );
    assert_eq!(app.state, kept);
    assert_eq!(app.widgets.keys(), vec!["task_bg".to_string()]);
    assert_eq!(app.widgets.get("task_bg"), Some(&shown("task_bg", "background")));
    assert!(app.failed.is_empty() && app.modules.is_empty());
    // What failed before may be ready now.
    app.loaded("x".to_string(), true);
    app.loaded("y".to_string(), true);
    assert_eq!(app.modules, vec!["x".to_string(), "y".to_string()]);
    assert!(app.failed.is_empty());
}

#[test]
fn keys_change_the_geometry_by_two_and_one() {
    let mut app = fresh();
    let mut bus = initialize();
    for key in ['=', '+', 'z'] {
        assert_eq!(app.handle_key_event(key, &mut bus), KeyEffect::Nothing);
    }
    assert_eq!((app.state.w, app.state.h), (26, 13));
    for key in ['-', 'x'] {
        app.handle_key_event(key, &mut bus);
    }
    assert_eq!((app.state.w, app.state.h), (22, 11));
    app.handle_key_event('?', &mut bus);
    assert_eq!((app.state.w, app.state.h), (22, 11));
    assert!(bus.queue.is_empty());
}

#[test]
fn a_geometry_step_out_of_range_is_not_taken() {
    let mut bus = initialize();
    let mut app = App::new(Vec::new(), None, Some(AppState { w: 1, h: 5, todo: Vec::new() }));
    app.handle_key_event('-', &mut bus);
    assert_eq!((app.state.w, app.state.h), (1, 5));
    let mut app = App::new(Vec::new(), None, Some(AppState { w: 4, h: 0, todo: Vec::new() }));
    app.handle_key_event('x', &mut bus);
    assert_eq!((app.state.w, app.state.h), (4, 0));
    let mut app = App::new(Vec::new(), None, Some(AppState { w: 65534, h: 5, todo: Vec::new() }));
    app.handle_key_event('+', &mut bus);
    assert_eq!((app.state.w, app.state.h), (65534, 5));
    let mut app = App::new(Vec::new(), None, Some(AppState { w: 65533, h: 65534, todo: Vec::new() }));
    app.handle_key_event('z', &mut bus);
    assert_eq!((app.state.w, app.state.h), (65535, 65535));
}

#[test]
fn the_other_keys_quit_save_and_ask_for_a_reload() {
    let mut app = fresh();
    let mut bus = initialize();
    assert_eq!(app.handle_key_event('s', &mut bus), KeyEffect::Save);
    assert!(!app.exit);
    assert_eq!(app.handle_key_event('r', &mut bus), KeyEffect::Nothing);
    assert_eq!(
        bus.queue,
        vec![FrameData {
            action: "reload".to_string(),
            name: "reload".to_string(),
            value: Value::Null,
        }]
    );
    assert_eq!(app.drain(&mut bus), vec![Effect::Reload]);
    assert_eq!(app.handle_key_event('q', &mut bus), KeyEffect::Nothing);
    assert!(app.exit);
}

#[test]
fn a_turn_ticks_after_more_than_a_second() {
    let mut app = fresh();
    assert_eq!(app.run(0, 5), Turn::Draw);
    assert_eq!(app.run(1000, 5), Turn::Draw);
    assert_eq!(
        app.run(1001, 5),
        Turn::Tick { context: TickContext { now: 5 }, modules: Vec::new() }
    );
    app.loaded("m".to_string(), true);
    assert_eq!(
        app.run(u128::MAX, 6),
        Turn::Tick { context: TickContext { now: 6 }, modules: vec!["m".to_string()] }
    );
    app.exit();
    assert_eq!(app.run(0, 7), Turn::Stop);
    assert_eq!(app.run(2000, 7), Turn::Stop);
}

#[test]
fn a_resize_is_noted_only_when_the_size_changed() {
    let mut app = fresh();
    assert!(!app.handle_resize(80, 24, 80, 24));
    assert!(!app.resized);
    assert!(app.handle_resize(81, 24, 80, 24));
    assert!(app.resized);
    assert!(!app.handle_resize(81, 24, 81, 24));
    assert!(app.resized);
    assert!(app.handle_resize(81, 25, 81, 24));
}

#[test]
fn render_lays_the_widgets_out_by_name_and_places_images() {
    let mut app = fresh();
    for name in ["d", "b", "a", "c", "e", "f"] {
        app.consumer(set_text(name, name));
    }
    app.image_loaded("b".to_string(), "b.png".to_string(), true);
    app.apply(Command::SetBigText {
        name: "f".to_string(),
        text: "F".to_string(),
        color: Colour::White,
        align: Alignment::Center,
    });
    let rows = app.render(100, 30);
    let names: Vec<Vec<String>> =
        rows.iter().map(|row| row.iter().map(|slot| slot.name.clone()).collect()).collect();
    assert_eq!(names, vec![vec!["a", "b", "c", "d", "e"], vec!["f"]]);
    assert_eq!(rows[0][1].area, Rect { x: 20, y: 0, width: 20, height: 10 });
    assert_eq!(rows[1][0].area, Rect { x: 0, y: 10, width: 20, height: 10 });
    assert_eq!(
        app.widgets.get("b"),
        Some(&WidgetState::Image(ImageWidget {
            name: "b".to_string(),
            filepath: "b.png".to_string(),
            area: Rect { x: 21, y: 1, width: 18, height: 8 },
        }))
    );
    assert_eq!(
        app.widgets.get("f"),
        Some(&WidgetState::BigText(BigTextWidget {
            text: "F".to_string(),
            color: Colour::White,
            align: Alignment::Center,
            area: Rect { x: 0, y: 10, width: 20, height: 10 },
        }))
    );
    assert_eq!(app.widgets.get("a"), Some(&shown("a", "a")));
}
