//! Events that a PTY session reports to the terminal.

use vstd::prelude::*;

verus! {

/// A failure report that is shown to the user.
#[derive(Clone, Debug, PartialEq, Eq)]
pub struct TerminalFailure {
    pub operation: Option<&'static str>,
    pub user_message: String,
    pub cause: String,
}

impl TerminalFailure {
    /// A failure that names no operation.
    pub fn new(user_message: &str, cause: &str) -> (failure: Self)
        ensures
            failure.operation == None::<&'static str>,
            failure.user_message@ == user_message@,
            failure.cause@ == cause@,
    {
        TerminalFailure {
            operation: None,
            user_message: user_message.to_owned(),
            cause: cause.to_owned(),
        }
    }

    /// A failure of the named operation.
    pub fn with_operation(
        operation: &'static str,
        user_message: &str,
        cause: &str,
    ) -> (failure: Self)
        ensures
            failure.operation == Some(operation),
            failure.user_message@ == user_message@,
            failure.cause@ == cause@,
    {
        TerminalFailure {
            operation: Some(operation),
            user_message: user_message.to_owned(),
            cause: cause.to_owned(),
        }
    }
}

/// What a PTY session reports.
#[derive(Clone, Debug, PartialEq, Eq)]
pub enum TerminalEvent {
    /// Bytes that the child process wrote.
    PtyOutput(Vec<u8>),
    /// Bytes that were thrown away because the queue was full.
    PtyOutputDropped { byte_count: usize },
    /// The reading side of the PTY reached its end.
    PtyClosed,
    /// The child process ended.
    ChildExited { code: Option<u32> },
    /// Writing to the child's input failed.
    StdinWriteFailed(TerminalFailure),
    /// Any other failure of the session.
    Failure(TerminalFailure),
}

/// The mathematical form of an event: output is the sequence of its bytes,
/// every other event stands for itself.
pub enum EventItem {
    Control(TerminalEvent),
    Output(Seq<u8>),
}

pub open spec fn event_item(event: TerminalEvent) -> EventItem {
    match event {
        TerminalEvent::PtyOutput(bytes) => EventItem::Output(bytes@),
        other => EventItem::Control(other),
    }
}

/// The mathematical form of a list of events.
pub open spec fn event_items(events: Seq<TerminalEvent>) -> Seq<EventItem> {
    Seq::new(events.len(), |i: int| event_item(events[i]))
}

/// The number of output bytes an item holds.
pub open spec fn item_bytes(item: EventItem) -> nat {
    match item {
        EventItem::Output(bytes) => bytes.len(),
        EventItem::Control(_) => 0,
    }
}

/// The number of output bytes that a list of items holds.
pub open spec fn total_bytes(items: Seq<EventItem>) -> nat
    decreases items.len(),
{
    if items.len() == 0 {
        0
    } else {
        total_bytes(items.drop_last()) + item_bytes(items.last())
    }
}

/// Output is counted by its bytes, whatever comes between; nothing else counts.
pub proof fn law_output_is_counted_by_its_bytes(
    first: Seq<EventItem>,
    second: Seq<EventItem>,
    bytes: Seq<u8>,
    event: TerminalEvent,
)
    ensures
        total_bytes(first + second) == total_bytes(first) + total_bytes(second),
        total_bytes(seq![EventItem::Output(bytes)]) == bytes.len(),
        total_bytes(seq![EventItem::Control(event)]) == 0,
        event_item(event) is Output <==> event is PtyOutput,
        event matches TerminalEvent::PtyOutput(held) ==> event_item(event) == EventItem::Output(
            held@,
        ),
        !(event is PtyOutput) ==> event_item(event) == EventItem::Control(event),
    decreases second.len(),
{
    assert(seq![EventItem::Output(bytes)].drop_last() =~= Seq::<EventItem>::empty());
    assert(seq![EventItem::Control(event)].drop_last() =~= Seq::<EventItem>::empty());
    assert(total_bytes(Seq::<EventItem>::empty()) == 0);
    if second.len() == 0 {
        assert(first + second =~= first);
    } else {
        law_output_is_counted_by_its_bytes(first, second.drop_last(), bytes, event);
        assert((first + second).drop_last() =~= first + second.drop_last());
        assert((first + second).last() == second.last());
    }
}

} // verus!
