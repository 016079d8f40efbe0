//! The queue between the workers of a session and its owner.

use j3term::domain::event::{TerminalEvent, TerminalFailure};
use j3term::error::{AppError, AppResult};
use j3term::pty::event_queue::{
    PtyEventDrainBudget, PtyEventQueue, MAX_OUTPUT_NODE_BYTES, MAX_PENDING_EVENT_COUNT,
    MAX_PENDING_OUTPUT_BYTES, READ_BUFFER_SIZE,
};

fn fill_control_queue(queue: &mut PtyEventQueue) {
    for index in 0..MAX_PENDING_EVENT_COUNT {
        assert!(queue.push(TerminalEvent::ChildExited {
            code: Some(index as u32),
        }));
    }
}

#[test]
fn drain_merges_consecutive_output_chunks() {
    let mut queue = PtyEventQueue::new();

    assert!(queue.push_output(b"hello "));
    assert!(queue.push_output(b"world"));

    let events = queue.drain();

    assert_eq!(events.len(), 1);
    assert!(matches!(
        events.as_slice(),
        [TerminalEvent::PtyOutput(bytes)] if bytes.as_slice() == b"hello world"
    ));
}

#[test]
fn drain_merges_read_sized_output_chunks_to_node_limit() {
    let mut queue = PtyEventQueue::new();
    let chunk = vec![b'x'; READ_BUFFER_SIZE];

    for _ in 0..(MAX_OUTPUT_NODE_BYTES / READ_BUFFER_SIZE) {
        assert!(queue.push_output(&chunk));
    }

    let events = queue.drain();

    assert_eq!(events.len(), 1);
    assert!(matches!(
        events.as_slice(),
        [TerminalEvent::PtyOutput(bytes)]
            if bytes.len() == MAX_OUTPUT_NODE_BYTES
                && bytes.iter().all(|byte| *byte == b'x')
    ));
}

#[test]
fn drain_splits_reader_output_at_node_byte_limit() {
    let mut queue = PtyEventQueue::new();
    let first_chunk = vec![b'a'; MAX_OUTPUT_NODE_BYTES - 1];

    assert!(queue.push_output(&first_chunk));
    assert!(queue.push_output(b"bc"));

    let events = queue.drain();

    assert_eq!(events.len(), 2);
    assert!(matches!(
        &events[0],
        TerminalEvent::PtyOutput(bytes)
            if bytes.len() == MAX_OUTPUT_NODE_BYTES - 1
                && bytes.iter().all(|byte| *byte == b'a')
    ));
    assert!(matches!(
        &events[1],
        TerminalEvent::PtyOutput(bytes) if bytes.as_slice() == b"bc"
    ));
}

#[test]
fn reader_output_chunks_preserve_pending_byte_drop_accounting() {
    const EXTRA_OUTPUTS: usize = 10;
    let mut queue = PtyEventQueue::new();
    let retained_output_count = MAX_PENDING_OUTPUT_BYTES / MAX_OUTPUT_NODE_BYTES;

    for index in 0..(retained_output_count + EXTRA_OUTPUTS) {
        let mut bytes = vec![0; MAX_OUTPUT_NODE_BYTES];
        bytes[0] = (index % 256) as u8;
        assert!(queue.push_output(&bytes));
    }

    let events = queue.drain();

    assert_eq!(events.len(), retained_output_count + 1);
    assert!(matches!(
        events.first(),
        Some(TerminalEvent::PtyOutputDropped { byte_count })
            if *byte_count == EXTRA_OUTPUTS * MAX_OUTPUT_NODE_BYTES
    ));
    assert_eq!(
        events
            .iter()
            .filter(|event| matches!(event, TerminalEvent::PtyOutput(_)))
            .count(),
        retained_output_count
    );
    assert!(matches!(
        events.get(1),
        Some(TerminalEvent::PtyOutput(bytes))
            if bytes.first().copied() == Some((EXTRA_OUTPUTS % 256) as u8)
    ));
}

#[test]
fn budgeted_drain_keeps_undrained_output_pending() {
    let mut queue = PtyEventQueue::new();

    assert!(queue.push_output(&vec![b'a'; MAX_OUTPUT_NODE_BYTES]));
    assert!(queue.push_output(&vec![b'b'; MAX_OUTPUT_NODE_BYTES]));
    assert!(queue.push_output(&vec![b'c'; MAX_OUTPUT_NODE_BYTES]));

    let first = queue.drain_with_budget(PtyEventDrainBudget::new(
        MAX_PENDING_EVENT_COUNT,
        MAX_OUTPUT_NODE_BYTES * 2,
    ));
    let second = queue.drain();

    assert_eq!(first.len(), 2);
    assert!(matches!(
        &first[0],
        TerminalEvent::PtyOutput(bytes)
            if bytes.len() == MAX_OUTPUT_NODE_BYTES
                && bytes.iter().all(|byte| *byte == b'a')
    ));
    assert!(matches!(
        &first[1],
        TerminalEvent::PtyOutput(bytes)
            if bytes.len() == MAX_OUTPUT_NODE_BYTES
                && bytes.iter().all(|byte| *byte == b'b')
    ));
    assert_eq!(second.len(), 1);
    assert!(matches!(
        &second[0],
        TerminalEvent::PtyOutput(bytes)
            if bytes.len() == MAX_OUTPUT_NODE_BYTES
                && bytes.iter().all(|byte| *byte == b'c')
    ));
}

#[test]
fn budgeted_drain_counts_output_drop_marker_against_event_budget() {
    let mut queue = PtyEventQueue::new();
    let retained_output_count = MAX_PENDING_OUTPUT_BYTES / MAX_OUTPUT_NODE_BYTES;

    for _ in 0..(retained_output_count + 1) {
        assert!(queue.push_output(&vec![b'x'; MAX_OUTPUT_NODE_BYTES]));
    }

    let first = queue.drain_with_budget(PtyEventDrainBudget::new(1, MAX_PENDING_OUTPUT_BYTES));
    let second = queue.drain();

    assert!(matches!(
        first.as_slice(),
        [TerminalEvent::PtyOutputDropped { byte_count }]
            if *byte_count == MAX_OUTPUT_NODE_BYTES
    ));
    assert_eq!(
        second
            .iter()
            .filter(|event| matches!(event, TerminalEvent::PtyOutput(_)))
            .count(),
        retained_output_count
    );
}

#[test]
fn drain_keeps_control_event_boundaries_between_output_chunks() {
    let mut queue = PtyEventQueue::new();

    assert!(queue.push_output(b"before"));
    assert!(queue.push(TerminalEvent::PtyClosed));
    assert!(queue.push_output(b"after"));

    let events = queue.drain();

    assert_eq!(events.len(), 3);
    assert!(matches!(
        &events[0],
        TerminalEvent::PtyOutput(bytes) if bytes.as_slice() == b"before"
    ));
    assert!(matches!(events[1], TerminalEvent::PtyClosed));
    assert!(matches!(
        &events[2],
        TerminalEvent::PtyOutput(bytes) if bytes.as_slice() == b"after"
    ));
}

#[test]
fn pty_output_event_reports_drop_when_control_only_queue_is_full() {
    let mut queue = PtyEventQueue::new();
    let bytes = vec![b'x'; MAX_OUTPUT_NODE_BYTES];
    fill_control_queue(&mut queue);

    assert!(!queue.push(TerminalEvent::PtyOutput(bytes)));

    let events = queue.drain();

    assert_eq!(events.len(), MAX_PENDING_EVENT_COUNT + 1);
    assert!(matches!(
        events.first(),
        Some(TerminalEvent::PtyOutputDropped { byte_count })
            if *byte_count == MAX_OUTPUT_NODE_BYTES
    ));
    assert!(
        !events
            .iter()
            .any(|event| matches!(event, TerminalEvent::PtyOutput(_)))
    );
    assert!(matches!(
        events.get(1),
        Some(TerminalEvent::ChildExited { code: Some(0) })
    ));
}

#[test]
fn reader_output_reports_drop_when_control_only_queue_is_full() {
    let mut queue = PtyEventQueue::new();
    let bytes = b"lost output";
    fill_control_queue(&mut queue);

    assert!(!queue.push_output(bytes));

    let events = queue.drain();

    assert_eq!(events.len(), MAX_PENDING_EVENT_COUNT + 1);
    assert!(matches!(
        events.first(),
        Some(TerminalEvent::PtyOutputDropped { byte_count })
            if *byte_count == bytes.len()
    ));
    assert!(
        !events
            .iter()
            .any(|event| matches!(event, TerminalEvent::PtyOutput(_)))
    );
}

#[test]
fn control_events_are_rejected_when_control_only_queue_is_full() {
    let mut queue = PtyEventQueue::new();
    let failure = TerminalFailure::new("read failed", "reader error");
    fill_control_queue(&mut queue);

    assert!(!queue.push(TerminalEvent::PtyClosed));
    assert!(!queue.push(TerminalEvent::Failure(failure.clone())));
    for _ in 0..MAX_PENDING_EVENT_COUNT {
        assert!(!queue.push(TerminalEvent::Failure(failure.clone())));
    }

    let events = queue.drain();

    assert_eq!(events.len(), MAX_PENDING_EVENT_COUNT);
    assert!(matches!(
        events.first(),
        Some(TerminalEvent::ChildExited { code: Some(0) })
    ));
    assert!(matches!(
        events.last(),
        Some(TerminalEvent::ChildExited { code: Some(code) })
            if *code == (MAX_PENDING_EVENT_COUNT - 1) as u32
    ));
}

#[test]
fn pty_event_queue_bounds_pending_output() -> AppResult<()> {
    const EXTRA_OUTPUTS: usize = 10;
    let mut queue = PtyEventQueue::new();

    for index in 0..(MAX_PENDING_EVENT_COUNT + EXTRA_OUTPUTS) {
        let mut bytes = vec![0; READ_BUFFER_SIZE];
        bytes[0] = (index % 256) as u8;
        queue.push(TerminalEvent::PtyOutput(bytes));
    }

    let events = queue.drain();
    assert_eq!(events.len(), MAX_PENDING_EVENT_COUNT + 1);
    assert!(matches!(
        events.first(),
        Some(TerminalEvent::PtyOutputDropped { byte_count })
            if *byte_count == EXTRA_OUTPUTS * READ_BUFFER_SIZE
    ));
    assert_eq!(
        events
            .iter()
            .filter(|event| matches!(event, TerminalEvent::PtyOutput(_)))
            .count(),
        MAX_PENDING_EVENT_COUNT
    );

    let Some(TerminalEvent::PtyOutput(bytes)) = events.get(1) else {
        return Err(AppError::pty_message(
            "assert bounded pty event queue",
            "bounded event queue did not retain pty output".to_string(),
        ));
    };
    assert_eq!(bytes.first().copied(), Some((EXTRA_OUTPUTS % 256) as u8));
    Ok(())
}

#[test]
fn pty_event_queue_prefers_control_events_when_full() {
    let mut queue = PtyEventQueue::new();

    for _ in 0..MAX_PENDING_EVENT_COUNT {
        queue.push(TerminalEvent::PtyOutput(vec![b'x'; READ_BUFFER_SIZE]));
    }
    queue.push(TerminalEvent::PtyClosed);

    let events = queue.drain();
    assert_eq!(events.len(), MAX_PENDING_EVENT_COUNT + 1);
    assert!(matches!(
        events.first(),
        Some(TerminalEvent::PtyOutputDropped { byte_count })
            if *byte_count == READ_BUFFER_SIZE
    ));
    assert!(matches!(events.last(), Some(TerminalEvent::PtyClosed)));
    assert_eq!(
        events
            .iter()
            .filter(|event| matches!(event, TerminalEvent::PtyOutput(_)))
            .count(),
        MAX_PENDING_EVENT_COUNT - 1
    );
}

#[test]
fn pty_event_queue_rejects_events_after_close() {
    let mut queue = PtyEventQueue::new();

    assert!(queue.push(TerminalEvent::PtyOutput(vec![b'a'])));
    queue.close();

    assert!(!queue.push(TerminalEvent::PtyOutput(vec![b'b'])));
    assert!(queue.drain().is_empty());
}

#[test]
fn empty_output_is_an_event_of_its_own_or_part_of_the_last() {
    let mut queue = PtyEventQueue::new();

    assert!(queue.push_output(b""));
    assert_eq!(queue.drain(), vec![TerminalEvent::PtyOutput(Vec::new())]);
    assert!(queue.push_output(b"a"));
    assert!(queue.push_output(b""));
    assert_eq!(queue.drain(), vec![TerminalEvent::PtyOutput(b"a".to_vec())]);
}

#[test]
fn dropped_bytes_and_delivered_bytes_add_up() {
    let mut queue = PtyEventQueue::new();
    let pushed = MAX_PENDING_OUTPUT_BYTES + MAX_OUTPUT_NODE_BYTES + 5;
    let mut left = pushed;
    while left > 0 {
        let part = left.min(READ_BUFFER_SIZE);
        assert!(queue.push_output(&vec![b'x'; part]));
        left -= part;
    }

    let mut total = 0;
    for event in queue.drain() {
        match event {
            TerminalEvent::PtyOutput(bytes) => total += bytes.len(),
            TerminalEvent::PtyOutputDropped { byte_count } => total += byte_count,
            other => panic!("{:?}", other),
        }
    }
    assert_eq!(total, pushed);
}

#[test]
fn budget_without_event_capacity_drains_nothing() {
    let mut queue = PtyEventQueue::new();
    assert!(queue.push(TerminalEvent::PtyClosed));

    assert!(queue.drain_with_budget(PtyEventDrainBudget::new(0, 10)).is_empty());
    assert_eq!(queue.drain(), vec![TerminalEvent::PtyClosed]);
}

#[test]
fn first_output_is_drained_though_it_is_over_the_budget() {
    let mut queue = PtyEventQueue::new();
    assert!(queue.push(TerminalEvent::PtyOutput(vec![1, 2, 3])));
    assert!(queue.push(TerminalEvent::PtyOutput(vec![4])));

    assert_eq!(
        queue.drain_with_budget(PtyEventDrainBudget::new(5, 1)),
        vec![TerminalEvent::PtyOutput(vec![1, 2, 3])]
    );
    assert_eq!(queue.drain(), vec![TerminalEvent::PtyOutput(vec![4])]);
}

#[test]
fn budget_shrinks_by_what_was_drained() {
    let budget = PtyEventDrainBudget::new(3, 10);
    let left = budget.remaining_after(&[
        TerminalEvent::PtyOutput(vec![1, 2, 3]),
        TerminalEvent::PtyClosed,
    ]);

    assert_eq!(left.max_events, 1);
    assert_eq!(left.max_output_bytes, 7);
    assert!(left.has_event_capacity());
    assert!(!left.remaining_after(&[TerminalEvent::PtyClosed]).has_event_capacity());
}

#[test]
fn closing_hands_out_what_was_waiting() {
    let mut queue = PtyEventQueue::new();
    assert!(queue.push_output(b"last"));

    assert_eq!(queue.close_and_drain(), vec![TerminalEvent::PtyOutput(b"last".to_vec())]);
    assert!(!queue.push(TerminalEvent::PtyClosed));
    assert!(queue.drain().is_empty());
}

#[test]
fn cleared_queue_takes_events_again() {
    let mut queue = PtyEventQueue::new();
    assert!(queue.push_output(b"old"));
    queue.clear();

    assert!(queue.push_output(b"new"));
    assert_eq!(queue.drain(), vec![TerminalEvent::PtyOutput(b"new".to_vec())]);
}

#[test]
fn drain_after_pushes_reports_the_drop_first_and_keeps_controls_in_order() {
    let mut queue = PtyEventQueue::new();
    let mut pushed = Vec::new();
    for index in 0..40_u8 {
        let part = vec![index; READ_BUFFER_SIZE];
        assert!(queue.push_output(&part));
        pushed.extend_from_slice(&part);
        if index % 16 == 3 {
            assert!(queue.push(TerminalEvent::ChildExited { code: Some(u32::from(index)) }));
        }
    }

    let events = queue.drain();

    let mut dropped = 0;
    let mut delivered = Vec::new();
    let mut codes = Vec::new();
    for (place, event) in events.into_iter().enumerate() {
        match event {
            TerminalEvent::PtyOutput(bytes) => delivered.extend_from_slice(&bytes),
            TerminalEvent::PtyOutputDropped { byte_count } => {
                assert_eq!(place, 0);
                dropped = byte_count;
            }
            TerminalEvent::ChildExited { code } => codes.push(code),
            other => panic!("{:?}", other),
        }
    }
    assert_eq!(codes, vec![Some(3), Some(19), Some(35)]);
    assert_eq!(dropped + delivered.len(), pushed.len());
    assert_eq!(delivered.as_slice(), &pushed[dropped..]);
    assert!(queue.drain().is_empty());
}
