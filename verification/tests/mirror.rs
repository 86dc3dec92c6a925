use dashboard::ansi::to_ansi;
use dashboard::frame::{Cell, Colour, FrameBuffer, Modifier};
use dashboard::mirror::{
    frame_message, message, resize_message, size_json, Inbound, Mirror, MirrorClient,
    OPCODE_FRAME, OPCODE_PATCH, OPCODE_SIZE,
};

fn painted() -> FrameBuffer {
    let mut frame = FrameBuffer::empty(80, 24);
    let mut bold = Modifier::empty();
    bold.bold = true;
    frame.set(0, 0, Cell::new("R", Colour::Green, Colour::Reset, bold));
    frame.set(1, 0, Cell::new("2", Colour::Green, Colour::Reset, bold));
    frame.set(79, 23, Cell::new("┘", Colour::Yellow, Colour::Black, Modifier::empty()));
    frame
}

fn with_opcode(opcode: u8, text: &str) -> Vec<u8> {
    let mut bytes = vec![opcode];
    bytes.extend_from_slice(text.as_bytes());
    bytes
}

#[test]
fn the_opcodes_are_zero_one_and_two() {
    assert_eq!((OPCODE_PATCH, OPCODE_FRAME, OPCODE_SIZE), (0, 1, 2));
}

#[test]
fn a_message_is_its_opcode_and_its_text_in_utf8() {
    assert_eq!(message(0, "aé"), vec![0, b'a', 0xc3, 0xa9]);
    assert_eq!(message(1, ""), vec![1]);
}

#[test]
fn the_size_is_sent_as_json_with_cols_first() {
    assert_eq!(resize_message(80, 24), with_opcode(2, "{\"cols\":24,\"rows\":80}"));
    assert_eq!(resize_message(0, 65535), with_opcode(2, "{\"cols\":65535,\"rows\":0}"));
    assert_eq!(size_json(24, 80), "{\"cols\":80,\"rows\":24}");
    assert_eq!(size_json(7, 7), "{\"cols\":7,\"rows\":7}");
}

#[test]
fn a_viewer_that_connects_gets_the_size_then_the_whole_frame() {
    let mut mirror = Mirror::new();
    mirror.rebase(painted());
    let (client, greeting) = MirrorClient::accept(&mirror);
    assert!(client.alive());
    assert_eq!(greeting.len(), 2);
    // The frame is 80 columns wide and 24 rows high.
    assert_eq!(greeting[0], with_opcode(2, "{\"cols\":80,\"rows\":24}"));
    let whole = to_ansi(painted(), FrameBuffer::empty(80, 24));
    assert_eq!(greeting[1], with_opcode(1, &whole));
    assert_eq!(
        whole,
        "\x1b[1;1H\x1b[1m\x1b[38;5;2m\x1b[49mR2\
         \x1b[24;80H\x1b[22m\x1b[38;5;3m\x1b[48;5;0m┘\
         \x1b[39m\x1b[49m\x1b[59m\x1b[0m"
    );
    assert_eq!(mirror.greeting(), greeting);
    assert_eq!(frame_message(&painted()), greeting[1]);
}

#[test]
fn the_greeting_tells_rows_from_columns() {
    let mut mirror = Mirror::new();
    mirror.rebase(FrameBuffer::empty(2, 1));
    let (_, greeting) = MirrorClient::accept(&mirror);
    assert_eq!(greeting[0], with_opcode(2, "{\"cols\":2,\"rows\":1}"));
    assert_eq!(greeting[0], resize_message(1, 2));
}

#[test]
fn a_new_mirror_greets_with_an_empty_screen() {
    let mirror = Mirror::new();
    let (_, greeting) = MirrorClient::accept(&mirror);
    assert_eq!(greeting[0], with_opcode(2, "{\"cols\":0,\"rows\":0}"));
    assert_eq!(greeting[1], with_opcode(1, "\x1b[39m\x1b[49m\x1b[59m\x1b[0m"));
}

#[test]
fn publishing_sends_the_patch_and_moves_the_baseline() {
    let mut mirror = Mirror::new();
    mirror.rebase(FrameBuffer::empty(80, 24));
    let sent = mirror.publish(painted());
    let patch = to_ansi(painted(), FrameBuffer::empty(80, 24));
    assert_eq!(sent, Some(with_opcode(0, &patch)));
    assert!(mirror.baseline.same(&painted()));
    // The same frame again: nothing differs, nothing is sent.
    assert_eq!(mirror.publish(painted()), None);
    assert!(mirror.baseline.same(&painted()));
    // One cell more.
    let mut next = painted();
    next.set(2, 0, Cell::new("!", Colour::Reset, Colour::Reset, Modifier::empty()));
    assert_eq!(
        mirror.publish(next.duplicate()),
        Some(with_opcode(0, "\x1b[1;3H!\x1b[39m\x1b[49m\x1b[59m\x1b[0m"))
    );
    assert!(mirror.baseline.same(&next));
}

#[test]
fn a_frame_of_another_size_is_sent_whole() {
    let mut mirror = Mirror::new();
    mirror.rebase(painted());
    let mut small = FrameBuffer::empty(2, 1);
    small.set(1, 0, Cell::new("x", Colour::Reset, Colour::Reset, Modifier::empty()));
    assert_eq!(
        mirror.publish(small.duplicate()),
        Some(with_opcode(1, "\x1b[1;2Hx\x1b[39m\x1b[49m\x1b[59m\x1b[0m"))
    );
    assert!(mirror.baseline.same(&small));
}

#[test]
fn a_live_viewer_is_handed_every_message() {
    let mirror = Mirror::new();
    let (mut client, _) = MirrorClient::accept(&mirror);
    assert_eq!(client.on_broadcast(Some(vec![0, 65])), Some(vec![0, 65]));
    client.on_sent(true);
    client.on_inbound(&Inbound::Binary(vec![1]));
    client.on_inbound(&Inbound::Binary(Vec::new()));
    client.on_inbound(&Inbound::Other);
    assert!(client.alive());
    assert_eq!(client.on_broadcast(Some(vec![2])), Some(vec![2]));
}

#[test]
fn a_failure_ends_the_connection() {
    let mirror = Mirror::new();
    let (mut client, _) = MirrorClient::accept(&mirror);
    client.on_sent(false);
    assert!(!client.alive());
    assert_eq!(client.on_broadcast(Some(vec![0, 65])), None);

    let (mut client, _) = MirrorClient::accept(&mirror);
    client.on_inbound(&Inbound::Closed);
    assert!(!client.alive());
    client.on_inbound(&Inbound::Other);
    assert!(!client.alive());

    let (mut client, _) = MirrorClient::accept(&mirror);
    assert_eq!(client.on_broadcast(None), None);
    assert!(!client.alive());
    client.on_sent(true);
    client.on_inbound(&Inbound::Binary(vec![1]));
    assert!(!client.alive());
}
