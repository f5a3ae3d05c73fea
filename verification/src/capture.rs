//! The capture hook: what becomes of an event of the host engine.

use crate::text::{digits, push_digits};
use crate::worker::{received_view, LogMessage, LoggingSystem, Message, SystemState};
use vstd::prelude::*;

verus! {

/// An event of the host engine, as far as the hook reads it.
#[derive(Debug)]
pub enum Event {
    /// A statement begins to run; its text.
    Stmt(String),
    /// A statement has finished; its text, and how many nanoseconds it ran.
    Profile(String, u128),
    /// Any other event.
    Other,
}

/// An `Event` by what its text holds.
pub enum EventView {
    Stmt(Seq<char>),
    Profile(Seq<char>, nat),
    Other,
}

impl View for Event {
    type V = EventView;

    open spec fn view(&self) -> EventView {
        match self {
            Event::Stmt(sql) => EventView::Stmt(sql@),
            Event::Profile(sql, nanos) => EventView::Profile(sql@, *nanos as nat),
            Event::Other => EventView::Other,
        }
    }
}

/// The text that records a finished statement: the statement, and behind it
/// the time it ran, in nanoseconds, written as a comment.
pub open spec fn profile_text(sql: Seq<char>, nanos: nat) -> Seq<char> {
    sql + " -- "@ + digits(nanos) + " ns"@
}

/// The message that the hook sends for `event`, if it sends one: the
/// statement's text for a statement that begins, the profile text for one
/// that has finished, and nothing for any other event.
pub open spec fn message_for(event: EventView) -> Option<Message> {
    match event {
        EventView::Stmt(sql) => Some(Message::Sql(sql)),
        EventView::Profile(sql, nanos) => Some(Message::Sql(profile_text(sql, nanos))),
        EventView::Other => None,
    }
}

/// The pipeline `s` after the hook has run on `event`.
pub open spec fn captured(s: SystemState, event: EventView) -> SystemState {
    match message_for(event) {
        Some(message) => s.send(message),
        None => s,
    }
}

/// The message that the hook sends for `event`, if it sends one.
pub fn capture_message(event: Event) -> (message: Option<LogMessage>)
    ensures
        received_view(message) == message_for(event@),
{
    match event {
        Event::Stmt(sql) => Some(LogMessage::Sql(sql)),
        Event::Profile(sql, nanos) => {
            let mut text = sql;
            text.append(" -- ");
            push_digits(&mut text, nanos);
            text.append(" ns");
            Some(LogMessage::Sql(text))
        },
        Event::Other => None,
    }
}

/// Runs the hook on `event`: the event's message, if it has one, is sent
/// without blocking, and whether it was queued or dropped is not reported.
pub fn capture(system: &mut LoggingSystem, event: Event)
    ensures
        final(system)@ == captured(old(system)@, event@),
        old(system)@.wf() ==> final(system)@.wf(),
{
    match capture_message(event) {
        Some(message) => {
            system.send(message);
        },
        None => {},
    }
}

} // verus!
