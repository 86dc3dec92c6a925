//! What a running script can reach: the queue of commands, the log and the
//! rule for fetching.
//!
//! The queue is first in, first out, and never full. Scripts put their
//! messages in at one end, and the dashboard takes them out at the other.
use vstd::prelude::*;
use crate::command::FrameData;
use crate::payload::Value;
use crate::text::same_text;

verus! {

/// The endpoint that scripts write to: the messages that wait to be read,
/// oldest first, and the lines that wait to be written to the log.
pub struct Instance {
    pub queue: Vec<FrameData>,
    pub log: Vec<String>,
}

/// Why nothing is fetched.
#[derive(Clone, Copy, Debug, PartialEq, Eq, Structural)]
pub enum FetchError {
    /// Only `GET` is served.
    MethodIncorrect,
}

/// An endpoint with nothing waiting.
pub fn initialize() -> (instance: Instance)
    ensures
        instance.queue@.len() == 0,
        instance.log@.len() == 0,
{
    Instance { queue: Vec::new(), log: Vec::new() }
}

/// Hands `text` to the log: it becomes the last line that waits.
pub fn print(instance: &mut Instance, text: String)
    ensures
        final(instance).log@ == old(instance).log@.push(text),
        final(instance).queue@ == old(instance).queue@,
{
    instance.log.push(text);
}

/// Puts a message into the queue, behind all that wait.
pub fn send(instance: &mut Instance, data: FrameData)
    ensures
        final(instance).queue@ == old(instance).queue@.push(data),
        final(instance).log@ == old(instance).log@,
{
    instance.queue.push(data);
}

/// What asks the dashboard to load its scripts again.
pub open spec fn is_reload_request(data: FrameData) -> bool {
    data.action@ == "reload"@ && data.name@ == "reload"@ && data.value == Value::Null
}

/// Asks the dashboard to load its scripts again: the request is put into
/// the queue, behind all that wait.
pub fn reload_scripts(instance: &mut Instance)
    ensures
        final(instance).queue@.len() == old(instance).queue@.len() + 1,
        final(instance).queue@.drop_last() == old(instance).queue@,
        is_reload_request(final(instance).queue@.last()),
        final(instance).log@ == old(instance).log@,
{
    let data = FrameData {
        action: "reload".to_owned(),
        name: "reload".to_owned(),
        value: Value::Null,
    };
    send(instance, data);
}

/// Whether a request may be made: only with the method `GET`. The address
/// to fetch comes back as it was given.
pub fn fetch(method: String, url: String) -> (r: Result<String, FetchError>)
    ensures
        method@ == "GET"@ ==> r == Ok::<String, FetchError>(url),
        method@ != "GET"@ ==> r == Err::<String, FetchError>(FetchError::MethodIncorrect),
{
    if same_text(method.as_str(), "GET") {
        Ok(url)
    } else {
        Err(FetchError::MethodIncorrect)
    }
}

impl Instance {
    /// Takes the oldest message out of the queue, if one waits.
    pub fn receive(&mut self) -> (r: Option<FrameData>)
        ensures
            old(self).queue@.len() == 0 ==> r is None && final(self).queue@ == old(self).queue@,
            old(self).queue@.len() > 0 ==> r == Some(old(self).queue@[0]) && final(self).queue@
                == old(self).queue@.drop_first(),
            final(self).log@ == old(self).log@,
    {
        if self.queue.len() == 0 {
            None
        } else {
            let data = self.queue.remove(0);
            Some(data)
        }
    }

    /// Takes the lines that wait for the log, oldest first.
    pub fn take_log(&mut self) -> (lines: Vec<String>)
        ensures
            lines@ == old(self).log@,
            final(self).log@.len() == 0,
            final(self).queue@ == old(self).queue@,
    {
        let mut lines: Vec<String> = Vec::new();
        lines.append(&mut self.log);
        lines
    }
}

} // verus!
