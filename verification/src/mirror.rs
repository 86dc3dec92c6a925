//! The mirror: what remote viewers are sent, and when.
//!
//! Every message is one byte that says what follows, then the payload. A
//! viewer that connects is first told the size of the screen and then sent
//! the whole frame as it was last published; after that it is sent the
//! patch from each published frame to the next.
use vstd::prelude::*;
use vstd::utf8::encode_utf8;
use crate::ansi::{decimal, decimal_text, encode_patch, renders};
use crate::frame::{FrameBuffer, FrameView};
use crate::patch::{diff, patch, trailer, Op};
use crate::terminal::{carried, lemma_full_dump_reproduces, replay, Terminal};

verus! {

/// Before a patch from the frame published last.
pub const OPCODE_PATCH: u8 = 0;

/// Before a whole frame: the patch from a blank screen.
pub const OPCODE_FRAME: u8 = 1;

/// Before the size of the screen.
pub const OPCODE_SIZE: u8 = 2;

/// The size of a screen of `rows` rows and `cols` columns as a JSON object,
/// its members in the order of their names.
pub open spec fn size_text(rows: u16, cols: u16) -> Seq<char> {
    "{\"cols\":"@ + decimal(cols as nat) + ",\"rows\":"@ + decimal(rows as nat) + "}"@
}

/// Whether `bytes` is the message with this opcode whose payload is `text`.
pub open spec fn carries_text(bytes: Seq<u8>, opcode: u8, text: Seq<char>) -> bool {
    bytes == seq![opcode] + encode_utf8(text)
}

/// Whether `bytes` is a message with this opcode whose payload is the
/// directives `ops` as text.
pub open spec fn carries_ops(bytes: Seq<u8>, opcode: u8, ops: Seq<Op>) -> bool {
    exists|text: Seq<char>| renders(ops, text) && #[trigger] carries_text(bytes, opcode, text)
}

/// The directives that draw `frame` on a blank screen of its size.
pub open spec fn full_frame(frame: FrameView) -> Seq<Op> {
    patch(FrameView::blank(frame.width, frame.height), frame) + trailer()
}

/// A whole frame shows itself: on a blank terminal of the frame's size, the
/// directives of the whole frame leave the terminal showing the frame.
pub proof fn lemma_full_frame_shows(frame: FrameView, cursor: (int, int))
    requires
        frame.wf(),
        frame.narrow(),
        carried(FrameView::blank(frame.width, frame.height), frame),
    ensures
        replay(
            Terminal::showing(FrameView::blank(frame.width, frame.height), cursor),
            full_frame(frame),
        ).screen() == frame,
{
    lemma_full_dump_reproduces(frame, cursor);
}

/// The size of a screen of `rows` rows and `cols` columns as a JSON object.
pub fn size_json(rows: u16, cols: u16) -> (out: String)
    ensures
        out@ == size_text(rows, cols),
{
    let mut out = "{\"cols\":".to_owned();
    out.append(decimal_text(cols).as_str());
    out.append(",\"rows\":");
    out.append(decimal_text(rows).as_str());
    out.append("}");
    out
}

/// The message with the given opcode and payload.
pub fn message(opcode: u8, text: &str) -> (bytes: Vec<u8>)
    ensures
        carries_text(bytes@, opcode, text@),
{
    let mut bytes = text.as_bytes_vec();
    bytes.insert(0, opcode);
    assert(bytes@ =~= seq![opcode] + encode_utf8(text@));
    bytes
}

/// The message that tells a viewer that the screen has `rows` rows and
/// `cols` columns.
pub fn resize_message(rows: u16, cols: u16) -> (bytes: Vec<u8>)
    ensures
        carries_text(bytes@, OPCODE_SIZE, size_text(rows, cols)),
{
    let text = size_json(rows, cols);
    message(OPCODE_SIZE, text.as_str())
}

/// The message that sends a viewer the whole of `frame`.
pub fn frame_message(frame: &FrameBuffer) -> (bytes: Vec<u8>)
    requires
        frame@.wf(),
    ensures
        carries_ops(bytes@, OPCODE_FRAME, full_frame(frame@)),
{
    let blank = FrameBuffer::empty(frame.width(), frame.height());
    let text = encode_patch(diff(&blank, frame));
    let bytes = message(OPCODE_FRAME, text.as_str());
    bytes
}

/// The server's side of the mirror: the frame that was published last.
pub struct Mirror {
    pub baseline: FrameBuffer,
}

impl Mirror {
    /// The frame published last is a well-formed grid.
    pub open spec fn wf(&self) -> bool {
        self.baseline@.wf()
    }

    /// A mirror that has published nothing: its frame has no cell.
    pub fn new() -> (mirror: Mirror)
        ensures
            mirror.wf(),
            mirror.baseline@ == FrameView::blank(0, 0),
    {
        Mirror { baseline: FrameBuffer::empty(0, 0) }
    }

    /// Takes `frame` as the frame published last, without a message.
    pub fn rebase(&mut self, frame: FrameBuffer)
        requires
            frame@.wf(),
        ensures
            final(self).wf(),
            final(self).baseline == frame,
    {
        self.baseline = frame;
    }

    /// What a viewer is sent when it connects: the size of the screen,
    /// which has as many rows as the frame published last is high and as
    /// many columns as it is wide, then that frame whole.
    pub fn greeting(&self) -> (messages: Vec<Vec<u8>>)
        requires
            self.wf(),
        ensures
            messages@.len() == 2,
            carries_text(
                messages@[0]@,
                OPCODE_SIZE,
                size_text(self.baseline@.height as u16, self.baseline@.width as u16),
            ),
            carries_ops(messages@[1]@, OPCODE_FRAME, full_frame(self.baseline@)),
    {
        let mut messages: Vec<Vec<u8>> = Vec::new();
        messages.push(resize_message(self.baseline.height(), self.baseline.width()));
        messages.push(frame_message(&self.baseline));
        messages
    }

    /// Publishes `frame`: it becomes the frame published last, and the
    /// result is the message for the viewers. That is the patch from the
    /// frame published before, or none where no cell differs. Where the new
    /// frame has another size, no patch leads to it, and the message is the
    /// whole frame.
    pub fn publish(&mut self, frame: FrameBuffer) -> (message: Option<Vec<u8>>)
        requires
            old(self).wf(),
            frame@.wf(),
        ensures
            final(self).wf(),
            final(self).baseline == frame,
            old(self).baseline@.same_size(frame@) && patch(old(self).baseline@, frame@).len() == 0
                ==> message is None,
            old(self).baseline@.same_size(frame@) && patch(old(self).baseline@, frame@).len() > 0
                ==> (message matches Some(bytes) && carries_ops(
                bytes@,
                OPCODE_PATCH,
                patch(old(self).baseline@, frame@) + trailer(),
            )),
            !old(self).baseline@.same_size(frame@) ==> (message matches Some(bytes) && carries_ops(
                bytes@,
                OPCODE_FRAME,
                full_frame(frame@),
            )),
    {
        let message = if self.baseline.width() == frame.width() && self.baseline.height()
            == frame.height() {
            let directives = diff(&self.baseline, &frame);
            if directives.len() == 0 {
                None
            } else {
                let text = encode_patch(directives);
                let bytes = crate::mirror::message(OPCODE_PATCH, text.as_str());
                Some(bytes)
            }
        } else {
            Some(frame_message(&frame))
        };
        self.baseline = frame;
        message
    }
}

/// What came in from a viewer, as far as the mirror reads it.
#[derive(Debug, PartialEq, Eq)]
pub enum Inbound {
    /// A binary message. The mirror reads none yet and lets it pass.
    Binary(Vec<u8>),
    /// A message of another kind, which is let pass too.
    Other,
    /// The end of the stream, or an error on it.
    Closed,
}

/// One viewer's connection.
pub struct MirrorClient {
    alive: bool,
    sent: Ghost<Seq<Seq<u8>>>,
}

impl MirrorClient {
    /// The messages that were handed out for this viewer, oldest first.
    pub closed spec fn transcript(&self) -> Seq<Seq<u8>> {
        self.sent@
    }

    /// Whether the connection is up.
    pub closed spec fn is_alive(&self) -> bool {
        self.alive
    }

    /// What every connection has seen first: the size of the screen, then
    /// a whole frame.
    pub open spec fn wf(&self) -> bool {
        &&& self.transcript().len() >= 2
        &&& self.transcript()[0].len() > 0
        &&& self.transcript()[0][0] == OPCODE_SIZE
        &&& self.transcript()[1].len() > 0
        &&& self.transcript()[1][0] == OPCODE_FRAME
    }

    /// A viewer connects: it is sent the greeting, and nothing before it.
    pub fn accept(mirror: &Mirror) -> (r: (MirrorClient, Vec<Vec<u8>>))
        requires
            mirror.wf(),
        ensures
            r.0.wf(),
            r.0.is_alive(),
            r.1@.len() == 2,
            r.0.transcript() == seq![r.1@[0]@, r.1@[1]@],
            carries_text(
                r.1@[0]@,
                OPCODE_SIZE,
                size_text(mirror.baseline@.height as u16, mirror.baseline@.width as u16),
            ),
            carries_ops(r.1@[1]@, OPCODE_FRAME, full_frame(mirror.baseline@)),
    {
        let messages = mirror.greeting();
        let ghost greeting = seq![messages@[0]@, messages@[1]@];
        let sent: Ghost<Seq<Seq<u8>>> = Ghost(greeting);
        let client = MirrorClient { alive: true, sent };
        (client, messages)
    }

    /// Whether the connection is up.
    pub fn alive(&self) -> (alive: bool)
        ensures
            alive == self.is_alive(),
    {
        self.alive
    }

    /// Something came in from the viewer: every message is accepted and
    /// let pass, and only the end of the stream or an error on it ends the
    /// connection.
    pub fn on_inbound(&mut self, inbound: &Inbound)
        ensures
            final(self).transcript() == old(self).transcript(),
            final(self).is_alive() == (old(self).is_alive() && !(inbound is Closed)),
    {
        match inbound {
            Inbound::Binary(_) => {},
            Inbound::Other => {},
            Inbound::Closed => {
                self.alive = false;
            },
        }
    }

    /// A message was published, or the channel that brings them failed
    /// (`None`): a message is handed on to a viewer whose connection is up,
    /// and a failure ends the connection.
    pub fn on_broadcast(&mut self, message: Option<Vec<u8>>) -> (forward: Option<Vec<u8>>)
        ensures
            old(self).is_alive() && message is Some ==> forward == message && final(self).transcript() == old(self).transcript().push(message->0@) && final(self).is_alive(),
            !(old(self).is_alive() && message is Some) ==> forward is None && final(self).transcript() == old(self).transcript() && !final(self).is_alive(),
            old(self).wf() ==> final(self).wf(),
    {
        if !self.alive {
            return None;
        }
        match message {
            Some(bytes) => {
                let sent: Ghost<Seq<Seq<u8>>> = Ghost(self.sent@.push(bytes@));
                self.sent = sent;
                Some(bytes)
            },
            None => {
                self.alive = false;
                None
            },
        }
    }

    /// A message was sent, or could not be: a failure ends the connection.
    pub fn on_sent(&mut self, delivered: bool)
        ensures
            final(self).transcript() == old(self).transcript(),
            final(self).is_alive() == (old(self).is_alive() && delivered),
    {
        if !delivered {
            self.alive = false;
        }
    }
}

} // verus!
