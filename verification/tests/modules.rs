use dashboard::command::FrameData;
use dashboard::modules::{fetch, initialize, print, reload_scripts, send, FetchError};
use dashboard::payload::Value;

fn data(action: &str) -> FrameData {
    FrameData { action: action.to_string(), name: "n".to_string(), value: Value::Null }
}

#[test]
fn print_queues_lines_for_the_log() {
    let mut bus = initialize();
    print(&mut bus, "one".to_string());
    print(&mut bus, "two".to_string());
    assert_eq!(bus.log, vec!["one".to_string(), "two".to_string()]);
    assert!(bus.queue.is_empty());
    assert_eq!(bus.take_log(), vec!["one".to_string(), "two".to_string()]);
    assert!(bus.log.is_empty());
    assert_eq!(bus.take_log(), Vec::<String>::new());
}

#[test]
fn messages_leave_in_the_order_they_came() {
    let mut bus = initialize();
    assert_eq!(bus.receive(), None);
    send(&mut bus, data("a"));
    send(&mut bus, data("b"));
    send(&mut bus, data("c"));
    assert_eq!(bus.receive(), Some(data("a")));
    send(&mut bus, data("d"));
    assert_eq!(bus.receive(), Some(data("b")));
    assert_eq!(bus.receive(), Some(data("c")));
    assert_eq!(bus.receive(), Some(data("d")));
    assert_eq!(bus.receive(), None);
    assert!(bus.log.is_empty());
}

#[test]
fn reload_scripts_queues_a_reload() {
    let mut bus = initialize();
    send(&mut bus, data("a"));
    reload_scripts(&mut bus);
    assert_eq!(bus.receive(), Some(data("a")));
    assert_eq!(
        bus.receive(),
        Some(FrameData {
            action: "reload".to_string(),
            name: "reload".to_string(),
            value: Value::Null,
        })
    );
}

#[test]
fn only_get_is_fetched() {
    assert_eq!(
        fetch("GET".to_string(), "http://example.org/".to_string()),
        Ok("http://example.org/".to_string())
    );
    assert_eq!(fetch("POST".to_string(), "http://example.org/".to_string()), Err(FetchError::MethodIncorrect));
    assert_eq!(fetch("get".to_string(), "u".to_string()), Err(FetchError::MethodIncorrect));
    assert_eq!(fetch(String::new(), "u".to_string()), Err(FetchError::MethodIncorrect));
}
