//! The handling of one connection, as a machine that is told what the
//! socket and the disk gave and says what to do next.

use vstd::prelude::*;
use vstd::utf8::*;
use crate::mime::{content_type, content_type_of};
use crate::path::{request_file, request_path};
use crate::response::{not_found, not_found_response, ok, ok_response};
use crate::text::text_of;

verus! {

/// How many bytes of a request are read, and looked at.
pub const DEFAULT_REQUEST_SIZE: usize = 1024;

/// Where the handling of a connection stands.
#[derive(Debug)]
pub enum Handler {
    /// Nothing was read yet.
    AwaitingRequest,
    /// The request asked for the file at `path`, which is being read.
    AwaitingFile { path: String },
    /// The connection was answered or given up.
    Finished,
}

/// What happened outside since the last step.
#[derive(Debug)]
pub enum Event {
    /// One read from the connection gave these bytes.
    Request { bytes: Vec<u8> },
    /// The read from the connection failed.
    RequestFailed,
    /// The file was opened and read to its end.
    File { body: Vec<u8> },
    /// The file could not be opened, or not be read.
    FileFailed,
}

/// What is to be done outside next.
#[derive(Debug)]
pub enum Action {
    /// Read at most `limit` bytes from the connection, once.
    ReadRequest { limit: usize },
    /// Open the file at `path` and read all of it.
    ReadFile { path: String },
    /// Write `response` to the connection, then close it.
    Respond { response: Vec<u8> },
    /// Close the connection and write nothing.
    Hangup,
}

/// A [`Handler`] as contracts speak of it.
pub enum HandlerView {
    AwaitingRequest,
    AwaitingFile { path: Seq<char> },
    Finished,
}

/// An [`Event`] as contracts speak of it.
pub enum EventView {
    Request { bytes: Seq<u8> },
    RequestFailed,
    File { body: Seq<u8> },
    FileFailed,
}

/// An [`Action`] as contracts speak of it.
pub enum ActionView {
    ReadRequest { limit: nat },
    ReadFile { path: Seq<char> },
    Respond { response: Seq<u8> },
    Hangup,
}

impl View for Handler {
    type V = HandlerView;

    open spec fn view(&self) -> HandlerView {
        match self {
            Handler::AwaitingRequest => HandlerView::AwaitingRequest,
            Handler::AwaitingFile { path } => HandlerView::AwaitingFile { path: path@ },
            Handler::Finished => HandlerView::Finished,
        }
    }
}

impl View for Event {
    type V = EventView;

    open spec fn view(&self) -> EventView {
        match self {
            Event::Request { bytes } => EventView::Request { bytes: bytes@ },
            Event::RequestFailed => EventView::RequestFailed,
            Event::File { body } => EventView::File { body: body@ },
            Event::FileFailed => EventView::FileFailed,
        }
    }
}

impl View for Action {
    type V = ActionView;

    open spec fn view(&self) -> ActionView {
        match self {
            Action::ReadRequest { limit } => ActionView::ReadRequest { limit: *limit as nat },
            Action::ReadFile { path } => ActionView::ReadFile { path: path@ },
            Action::Respond { response } => ActionView::Respond { response: response@ },
            Action::Hangup => ActionView::Hangup,
        }
    }
}

/// The part of what was read that counts as the request: its first
/// [`DEFAULT_REQUEST_SIZE`] bytes.
pub open spec fn request_bytes(bytes: Seq<u8>) -> Seq<u8> {
    if bytes.len() <= DEFAULT_REQUEST_SIZE {
        bytes
    } else {
        bytes.take(DEFAULT_REQUEST_SIZE as int)
    }
}

/// The step that the machine takes in `state` on `event`.
///
/// Bytes that are no UTF-8 end the handling with nothing written, as a
/// failed read does. A file that was read is sent with its content type; one
/// that was not is answered with the failure response. An event that the
/// state does not wait for ends the handling with nothing written.
pub open spec fn step_of(state: HandlerView, event: EventView) -> (HandlerView, ActionView) {
    match (state, event) {
        (HandlerView::AwaitingRequest, EventView::Request { bytes }) => {
            if valid_utf8(request_bytes(bytes)) {
                let path = request_path(decode_utf8(request_bytes(bytes)));
                (HandlerView::AwaitingFile { path }, ActionView::ReadFile { path })
            } else {
                (HandlerView::Finished, ActionView::Hangup)
            }
        },
        (HandlerView::AwaitingFile { path }, EventView::File { body }) => (
            HandlerView::Finished,
            ActionView::Respond { response: ok_response(content_type_of(path), body) },
        ),
        (HandlerView::AwaitingFile { path }, EventView::FileFailed) => (
            HandlerView::Finished,
            ActionView::Respond { response: not_found_response() },
        ),
        _ => (HandlerView::Finished, ActionView::Hangup),
    }
}

impl Handler {
    /// Takes up a connection: nothing is known yet, and the request is to
    /// be read.
    pub fn start() -> (begun: (Handler, Action))
        ensures
            begun.0@ == HandlerView::AwaitingRequest,
            begun.1@ == (ActionView::ReadRequest { limit: DEFAULT_REQUEST_SIZE as nat }),
    {
        (Handler::AwaitingRequest, Action::ReadRequest { limit: DEFAULT_REQUEST_SIZE })
    }

    /// Takes one step: from the state and what happened to the next state
    /// and what to do.
    pub fn step(self, event: Event) -> (next: (Handler, Action))
        ensures
            (next.0@, next.1@) == step_of(self@, event@),
    {
        match (self, event) {
            (Handler::AwaitingRequest, Event::Request { bytes }) => {
                let ghost read = bytes@;
                let mut bytes = bytes;
                bytes.truncate(DEFAULT_REQUEST_SIZE);
                assert(bytes@ =~= request_bytes(read));
                match text_of(bytes.as_slice()) {
                    Some(request) => {
                        proof {
                            encode_utf8_decode_utf8(request@);
                        }
                        let path = request_file(request);
                        let asked = path.clone();
                        (Handler::AwaitingFile { path }, Action::ReadFile { path: asked })
                    },
                    None => (Handler::Finished, Action::Hangup),
                }
            },
            (Handler::AwaitingFile { path }, Event::File { body }) => {
                let mime = content_type(path.as_str());
                (Handler::Finished, Action::Respond { response: ok(mime.as_str(), body) })
            },
            (Handler::AwaitingFile { path }, Event::FileFailed) => (
                Handler::Finished,
                Action::Respond { response: not_found() },
            ),
            _ => (Handler::Finished, Action::Hangup),
        }
    }
}

/// The actions that the machine asks for, one for each event, when it
/// starts in `state` and is told `events` in turn.
pub open spec fn run(state: HandlerView, events: Seq<EventView>) -> Seq<ActionView>
    decreases events.len(),
{
    if events.len() == 0 {
        Seq::empty()
    } else {
        let (next, action) = step_of(state, events.first());
        seq![action] + run(next, events.drop_first())
    }
}

/// How many of `actions` write a response.
pub open spec fn responses(actions: Seq<ActionView>) -> nat
    decreases actions.len(),
{
    if actions.len() == 0 {
        0
    } else if actions.first() is Respond {
        1 + responses(actions.drop_first())
    } else {
        responses(actions.drop_first())
    }
}

/// How many responses may still be written from `state`.
pub open spec fn responses_left(state: HandlerView) -> nat {
    if state is Finished {
        0
    } else {
        1
    }
}

/// No run writes more responses than its first state has left.
pub proof fn responses_bounded(state: HandlerView, events: Seq<EventView>)
    ensures
        responses(run(state, events)) <= responses_left(state),
    decreases events.len(),
{
    if events.len() > 0 {
        let (next, action) = step_of(state, events.first());
        let rest = run(next, events.drop_first());
        responses_bounded(next, events.drop_first());
        assert((seq![action] + rest).drop_first() =~= rest);
    }
}

/// A connection gets one response or none: whatever happens outside, and
/// in whatever order it is told, the machine asks for at most one response
/// from the moment it takes the connection up, and for none once it has
/// finished.
pub proof fn one_response_per_connection(events: Seq<EventView>)
    ensures
        responses(run(HandlerView::AwaitingRequest, events)) <= 1,
        responses(run(HandlerView::Finished, events)) == 0,
{
    responses_bounded(HandlerView::AwaitingRequest, events);
    responses_bounded(HandlerView::Finished, events);
}

/// Whether `event` tells of bytes that were read and are text.
pub open spec fn is_readable_request(event: EventView) -> bool {
    event matches EventView::Request { bytes } && valid_utf8(request_bytes(bytes))
}

/// A response is written when a request was read and the file was then
/// tried, and at no other time: the run from the start writes one exactly
/// when its first event is a request that is text and its second tells how
/// the file fared. The read comes before the write.
pub proof fn response_follows_request(events: Seq<EventView>)
    ensures
        responses(run(HandlerView::AwaitingRequest, events)) == 1 <==> {
            &&& events.len() >= 2
            &&& is_readable_request(events[0])
            &&& events[1] is File || events[1] is FileFailed
        },
{
    let start = HandlerView::AwaitingRequest;
    if events.len() > 0 {
        let (second, first_action) = step_of(start, events[0]);
        let later = events.drop_first();
        let rest = run(second, later);
        assert((seq![first_action] + rest).drop_first() =~= rest);
        assert(responses(run(start, events)) == responses(rest));
        responses_bounded(second, later);
        if later.len() > 0 {
            let (third, second_action) = step_of(second, later[0]);
            let tail = run(third, later.drop_first());
            assert((seq![second_action] + tail).drop_first() =~= tail);
            responses_bounded(third, later.drop_first());
        }
    }
}

} // verus!
