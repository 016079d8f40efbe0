//! What holds of the event queue whatever is pushed and drained.

use vstd::prelude::*;

use crate::domain::event::{self, EventItem, TerminalEvent};
use crate::pty::event_queue::{
    self, ListModel, PtyEventDrainBudget, QueueModel, QueuedEventNodeId,
    MAX_PENDING_EVENT_COUNT, MAX_PENDING_OUTPUT_BYTES,
};

verus! {

/// The events other than output, in order.
pub open spec fn controls(items: Seq<EventItem>) -> Seq<TerminalEvent>
    decreases items.len(),
{
    if items.len() == 0 {
        Seq::empty()
    } else {
        match items.last() {
            EventItem::Control(event) => controls(items.drop_last()).push(event),
            EventItem::Output(_) => controls(items.drop_last()),
        }
    }
}

/// The output bytes of all items, in order.
pub open spec fn output_text(items: Seq<EventItem>) -> Seq<u8>
    decreases items.len(),
{
    if items.len() == 0 {
        Seq::empty()
    } else {
        match items.last() {
            EventItem::Control(_) => output_text(items.drop_last()),
            EventItem::Output(bytes) => output_text(items.drop_last()) + bytes,
        }
    }
}

proof fn lemma_push(items: Seq<EventItem>, item: EventItem)
    ensures
        event::total_bytes(items.push(item)) == event::total_bytes(items) + event::item_bytes(item),
        controls(items.push(item)) == (match item {
            EventItem::Control(event) => controls(items).push(event),
            EventItem::Output(_) => controls(items),
        }),
        output_text(items.push(item)) == (match item {
            EventItem::Control(_) => output_text(items),
            EventItem::Output(bytes) => output_text(items) + bytes,
        }),
{
    assert(items.push(item).drop_last() =~= items);
}

/// No output before position `k`.
proof fn lemma_no_output_text(items: Seq<EventItem>)
    requires
        forall|i: int| 0 <= i < items.len() ==> !(#[trigger] items[i] is Output),
    ensures
        output_text(items) =~= Seq::<u8>::empty(),
        event::total_bytes(items) == 0,
    decreases items.len(),
{
    if items.len() > 0 {
        assert forall|i: int| 0 <= i < items.len() - 1 implies !(#[trigger] items.drop_last()[i] is Output) by {
            assert(items.drop_last()[i] == items[i]);
        }
        assert(!(items[items.len() - 1] is Output));
        lemma_no_output_text(items.drop_last());
    }
}

/// Taking out the first output at `k`.
proof fn lemma_remove_output(items: Seq<EventItem>, k: int)
    requires
        0 <= k < items.len(),
        items[k] is Output,
        forall|i: int| 0 <= i < k ==> !(#[trigger] items[i] is Output),
    ensures
        controls(items.remove(k)) == controls(items),
        output_text(items) =~= items[k]->Output_0 + output_text(items.remove(k)),
    decreases items.len(),
{
    let items0 = items.drop_last();
    if k == items.len() - 1 {
        assert(items.remove(k) =~= items0);
        assert forall|i: int| 0 <= i < items0.len() implies !(#[trigger] items0[i] is Output) by {
            assert(items0[i] == items[i]);
        }
        lemma_no_output_text(items0);
    } else {
        assert forall|i: int| 0 <= i < k implies !(#[trigger] items0[i] is Output) by {
            assert(items0[i] == items[i]);
        }
        lemma_remove_output(items0, k);
        assert(items.remove(k).drop_last() =~= items0.remove(k));
        assert(items.remove(k).last() == items.last());
    }
}

proof fn lemma_drop_oldest(q: QueueModel)
    requires
        event_queue::has_output(q.items),
    ensures
        q.drop_oldest().items.len() == q.items.len() - 1,
        q.drop_oldest().closed == q.closed,
        controls(q.drop_oldest().items) == controls(q.items),
        output_text(q.drop_oldest().items).is_suffix_of(output_text(q.items)),
        event::total_bytes(q.drop_oldest().items) <= event::total_bytes(q.items),
        0 <= q.dropped && q.dropped + event::total_bytes(q.items) <= usize::MAX ==> q.drop_oldest().dropped
            + event::total_bytes(q.drop_oldest().items) == q.dropped + event::total_bytes(q.items)
            && q.drop_oldest().dropped >= 0,
{
    let first = event_queue::first_output(q.items);
    event_queue::lemma_first_output(q.items);
    lemma_remove_output(q.items, first);
    event_queue::lemma_total_bytes_remove(q.items, first);
    let kept = output_text(q.drop_oldest().items);
    let all = output_text(q.items);
    assert(all.subrange(all.len() - kept.len(), all.len() as int) =~= kept);
}

proof fn lemma_suffix_trans(a: Seq<u8>, b: Seq<u8>, c: Seq<u8>)
    requires
        a.is_suffix_of(b),
        b.is_suffix_of(c),
    ensures
        a.is_suffix_of(c),
{
    assert(c.subrange(c.len() - a.len(), c.len() as int) =~= a) by {
        assert forall|i: int| 0 <= i < a.len() implies c[c.len() - a.len() + i] == a[i] by {
            assert(a[i] == b.subrange(b.len() - a.len(), b.len() as int)[i]);
            assert(b[b.len() - a.len() + i] == c.subrange(c.len() - b.len(), c.len() as int)[b.len()
                - a.len() + i]);
        }
    }
}

proof fn lemma_suffix_append(a: Seq<u8>, b: Seq<u8>, more: Seq<u8>)
    requires
        a.is_suffix_of(b),
    ensures
        (a + more).is_suffix_of(b + more),
{
    let c = b + more;
    let d = a + more;
    assert(c.subrange(c.len() - d.len(), c.len() as int) =~= d) by {
        assert forall|i: int| 0 <= i < a.len() implies c[c.len() - d.len() + i] == d[i] by {
            assert(a[i] == b.subrange(b.len() - a.len(), b.len() as int)[i]);
        }
    }
}

proof fn lemma_make_room(q: QueueModel, bytes: nat)
    ensures
        ({
            let room = q.make_room(bytes);
            &&& room.closed == q.closed
            &&& room.items.len() <= q.items.len()
            &&& controls(room.items) == controls(q.items)
            &&& output_text(room.items).is_suffix_of(output_text(q.items))
            &&& room.fits(bytes) <==> bytes <= MAX_PENDING_OUTPUT_BYTES
            &&& !room.fits(bytes) ==> !event_queue::has_output(room.items)
            &&& event_queue::has_output(q.items) ==> event_queue::has_output(room.items) || room.items.len() < q.items.len()
            &&& !event_queue::has_output(q.items) ==> room == q
            &&& 0 <= q.dropped && q.dropped + event::total_bytes(q.items) <= usize::MAX ==> room.dropped
                + event::total_bytes(room.items) == q.dropped + event::total_bytes(q.items) && room.dropped >= 0
        }),
    decreases q.items.len(),
{
    event_queue::lemma_first_output(q.items);
    if q.fits(bytes) || !event_queue::has_output(q.items) {
        assert(output_text(q.items).is_suffix_of(output_text(q.items))) by {
            let all = output_text(q.items);
            assert(all.subrange(0, all.len() as int) =~= all);
        }
        if !event_queue::has_output(q.items) {
            lemma_no_output_text(q.items);
        }
    } else {
        lemma_drop_oldest(q);
        lemma_make_room(q.drop_oldest(), bytes);
        lemma_suffix_trans(
            output_text(q.make_room(bytes).items),
            output_text(q.drop_oldest().items),
            output_text(q.items),
        );
    }
}

/// A closed queue takes nothing and stays as it is.
pub proof fn law_closed_queue_rejects(q: QueueModel, event: TerminalEvent, bytes: Seq<u8>)
    requires
        q.closed,
    ensures
        q.push_control(event) == (q, false),
        q.push_output_event(bytes) == (q, false),
        q.push_read(bytes) == (q, false),
{
}

/// Events other than output are never thrown away to make room, keep their
/// order, and go behind those that came before.
pub proof fn law_controls_survive(q: QueueModel, event: TerminalEvent, bytes: Seq<u8>)
    ensures
        controls(q.push_read(bytes).0.items) == controls(q.items),
        controls(q.push_output_event(bytes).0.items) == controls(q.items),
        controls(q.push_control(event).0.items) == (if q.push_control(event).1 {
            controls(q.items).push(event)
        } else {
            controls(q.items)
        }),
{
    let room = q.make_room(bytes.len());
    lemma_make_room(q, bytes.len());
    lemma_push(room.items, EventItem::Output(bytes));
    lemma_push(q.items, EventItem::Control(event));
    if event_queue::has_output(room.items) {
        lemma_drop_oldest(room);
        lemma_push(room.drop_oldest().items, EventItem::Output(bytes));
    }
    if event_queue::has_output(q.items) {
        lemma_drop_oldest(q);
        lemma_push(q.drop_oldest().items, EventItem::Control(event));
    }
    if room.tail_fits(bytes.len()) {
        assert(room.items.update(
            room.items.len() - 1,
            EventItem::Output(room.items.last()->Output_0 + bytes),
        ).drop_last() =~= room.items.drop_last());
    }
}

/// Every output byte offered to an open queue is pending or counted as thrown
/// away, as long as the count can hold it.
pub proof fn law_bytes_are_accounted_for(q: QueueModel, event: TerminalEvent, bytes: Seq<u8>)
    requires
        !q.closed,
        0 <= q.dropped,
        q.dropped + event::total_bytes(q.items) + bytes.len() <= usize::MAX,
    ensures
        ({
            let after = q.push_read(bytes).0;
            after.dropped + event::total_bytes(after.items) == q.dropped + event::total_bytes(q.items)
                + bytes.len()
        }),
        ({
            let after = q.push_output_event(bytes).0;
            after.dropped + event::total_bytes(after.items) == q.dropped + event::total_bytes(q.items)
                + bytes.len()
        }),
        ({
            let after = q.push_control(event).0;
            after.dropped + event::total_bytes(after.items) == q.dropped + event::total_bytes(q.items)
        }),
{
    let room = q.make_room(bytes.len());
    lemma_make_room(q, bytes.len());
    lemma_push(room.items, EventItem::Output(bytes));
    lemma_push(q.items, EventItem::Control(event));
    if event_queue::has_output(room.items) {
        lemma_drop_oldest(room);
        lemma_push(room.drop_oldest().items, EventItem::Output(bytes));
    }
    if event_queue::has_output(q.items) {
        lemma_drop_oldest(q);
        lemma_push(q.drop_oldest().items, EventItem::Control(event));
    }
    if room.tail_fits(bytes.len()) {
        assert(room.items.update(
            room.items.len() - 1,
            EventItem::Output(room.items.last()->Output_0 + bytes),
        ).drop_last() =~= room.items.drop_last());
    }
}

/// Only the oldest output is ever thrown away: what is pending after a push is
/// the end of what was pending before, followed by the new bytes.
pub proof fn law_newest_output_survives(q: QueueModel, bytes: Seq<u8>)
    requires
        !q.closed,
    ensures
        output_text(q.push_read(bytes).0.items).is_suffix_of(output_text(q.items) + bytes),
        output_text(q.push_output_event(bytes).0.items).is_suffix_of(output_text(q.items) + bytes),
{
    let room = q.make_room(bytes.len());
    let all = output_text(q.items);
    let kept = output_text(room.items);
    lemma_make_room(q, bytes.len());
    event_queue::lemma_first_output(room.items);
    lemma_push(room.items, EventItem::Output(bytes));
    lemma_suffix_append(kept, all, bytes);
    assert((all + bytes).subrange((all + bytes).len() as int, (all + bytes).len() as int) =~= Seq::<
        u8,
    >::empty());
    if event_queue::has_output(room.items) {
        lemma_drop_oldest(room);
        lemma_push(room.drop_oldest().items, EventItem::Output(bytes));
        lemma_suffix_append(output_text(room.drop_oldest().items), kept, bytes);
        lemma_suffix_trans(
            output_text(room.drop_oldest().items) + bytes,
            kept + bytes,
            all + bytes,
        );
    } else {
        lemma_no_output_text(room.items);
    }
    if room.tail_fits(bytes.len()) {
        let joined = room.items.update(
            room.items.len() - 1,
            EventItem::Output(room.items.last()->Output_0 + bytes),
        );
        assert(joined.drop_last() =~= room.items.drop_last());
        assert(output_text(joined) =~= kept + bytes);
    }
}

/// An open queue takes output exactly where it is no larger than the limit and
/// something other than control events can give way.
pub proof fn law_when_output_is_taken(q: QueueModel, bytes: Seq<u8>)
    requires
        !q.closed,
        q.items.len() <= MAX_PENDING_EVENT_COUNT,
    ensures
        q.push_output_event(bytes).1 <==> bytes.len() <= MAX_PENDING_OUTPUT_BYTES && (q.items.len()
            < MAX_PENDING_EVENT_COUNT || event_queue::has_output(q.items)),
        q.push_read(bytes).1 <==> bytes.len() <= MAX_PENDING_OUTPUT_BYTES && (q.items.len()
            < MAX_PENDING_EVENT_COUNT || event_queue::has_output(q.items)),
{
    lemma_make_room(q, bytes.len());
    event_queue::lemma_first_output(q.make_room(bytes.len()).items);
    let room = q.make_room(bytes.len());
    if room.tail_fits(bytes.len()) && !event_queue::has_output(room.items) {
        assert(!(room.items[room.items.len() - 1] is Output));
    }
}

proof fn lemma_drain_count(
    items: Seq<EventItem>,
    max_items: nat,
    max_bytes: nat,
    taken: nat,
    bytes: nat,
)
    requires
        taken <= items.len(),
        taken <= max_items,
        bytes == event::total_bytes(items.take(taken as int)),
        bytes <= max_bytes || (taken > 0 && max_bytes > 0 && bytes == event::item_bytes(items[0])),
    ensures
        ({
            let count = event_queue::drain_count(items, max_items, max_bytes, taken, bytes);
            let handed = event::total_bytes(items.take(count as int));
            &&& taken <= count <= items.len()
            &&& count <= max_items
            &&& handed <= max_bytes || (count > 0 && max_bytes > 0 && handed == event::item_bytes(items[0]))
        }),
    decreases items.len() - taken,
{
    if taken < items.len() && taken < max_items {
        let next = event::item_bytes(items[taken as int]);
        event_queue::lemma_total_bytes_take(items, taken as int);
        if taken == 0 {
            assert(items.take(0) =~= Seq::<EventItem>::empty());
        }
        if !(next > 0 && bytes + next > max_bytes && (taken > 0 || max_bytes == 0)) {
            lemma_drain_count(items, max_items, max_bytes, taken + 1, bytes + next);
        }
    }
}

/// A drain within a budget hands out no more events than it allows, and no
/// more output bytes, except that a first output larger than a budget other
/// than 0 goes out alone.
pub proof fn law_budget_is_kept(q: QueueModel, budget: PtyEventDrainBudget)
    ensures
        q.budgeted_events(budget).len() <= budget.max_events,
        ({
            let handed = event::total_bytes(q.items.take(q.budgeted_count(budget) as int));
            handed <= budget.max_output_bytes || (budget.max_output_bytes > 0 && handed
                == event::item_bytes(q.items[0]))
        }),
{
    let reports: nat = if q.dropped > 0 {
        1
    } else {
        0
    };
    assert(q.items.take(0) =~= Seq::<EventItem>::empty());
    lemma_drain_count(
        q.items,
        event_queue::remaining(budget.max_events as nat, reports),
        budget.max_output_bytes as nat,
        0,
        0,
    );
}

/// Draining within a budget and then draining the rest hands out what one
/// drain would have, in the same order.
pub proof fn law_budgeted_drain_keeps_order(q: QueueModel, budget: PtyEventDrainBudget)
    ensures
        ({
            let rest = q.budgeted_rest(budget);
            q.budgeted_events(budget) + rest.drop_report() + rest.items =~= q.drop_report()
                + q.items
        }),
{
    let reports: nat = if q.dropped > 0 {
        1
    } else {
        0
    };
    assert(q.items.take(0) =~= Seq::<EventItem>::empty());
    lemma_drain_count(
        q.items,
        event_queue::remaining(budget.max_events as nat, reports),
        budget.max_output_bytes as nat,
        0,
        0,
    );
    let count = q.budgeted_count(budget) as int;
    if budget.max_events > 0 {
        assert(q.items.take(count) + q.items.skip(count) =~= q.items);
    }
}

/// A drain with a budget for events and bytes hands out something whenever
/// something is pending.
pub proof fn law_budgeted_drain_makes_progress(q: QueueModel, budget: PtyEventDrainBudget)
    requires
        budget.max_events > 0,
        budget.max_output_bytes > 0,
        q.items.len() > 0 || q.dropped > 0,
    ensures
        q.budgeted_events(budget).len() > 0,
{
    let reports: nat = if q.dropped > 0 {
        1
    } else {
        0
    };
    let max_items = event_queue::remaining(budget.max_events as nat, reports);
    let max_bytes = budget.max_output_bytes as nat;
    assert(q.items.take(0) =~= Seq::<EventItem>::empty());
    lemma_drain_count(q.items, max_items, max_bytes, 0, 0);
    if q.dropped <= 0 {
        let next = event::item_bytes(q.items[0]);
        event_queue::lemma_total_bytes_take(q.items, 0);
        lemma_drain_count(q.items, max_items, max_bytes, 1, next);
    }
}

/// Something that is offered to a queue: an event, or bytes that were read.
pub enum Offer {
    Event(TerminalEvent),
    Read(Seq<u8>),
}

/// The queue after an offer, and whether it was taken.
pub open spec fn after_offer(q: QueueModel, offer: Offer) -> (QueueModel, bool) {
    match offer {
        Offer::Event(event) => match event::event_item(event) {
            EventItem::Output(bytes) => q.push_output_event(bytes),
            EventItem::Control(event) => q.push_control(event),
        },
        Offer::Read(bytes) => q.push_read(bytes),
    }
}

/// The queue after some offers, one after the other.
pub open spec fn after_offers(q: QueueModel, offers: Seq<Offer>) -> QueueModel
    decreases offers.len(),
{
    if offers.len() == 0 {
        q
    } else {
        after_offer(after_offers(q, offers.drop_last()), offers.last()).0
    }
}

/// The output bytes of an offer.
pub open spec fn offered_bytes(offer: Offer) -> Seq<u8> {
    match offer {
        Offer::Event(TerminalEvent::PtyOutput(bytes)) => bytes@,
        Offer::Event(_) => Seq::empty(),
        Offer::Read(bytes) => bytes,
    }
}

/// All output bytes that were offered, taken or not.
pub open spec fn offered_text(offers: Seq<Offer>) -> Seq<u8>
    decreases offers.len(),
{
    if offers.len() == 0 {
        Seq::empty()
    } else {
        offered_text(offers.drop_last()) + offered_bytes(offers.last())
    }
}

/// Whether an offer is an event other than output.
pub open spec fn offers_control(offer: Offer) -> bool {
    offer matches Offer::Event(event) && !(event is PtyOutput)
}

/// The events other than output that were taken, in the order of their offers.
pub open spec fn taken_controls(q: QueueModel, offers: Seq<Offer>) -> Seq<TerminalEvent>
    decreases offers.len(),
{
    if offers.len() == 0 {
        Seq::empty()
    } else {
        let before = taken_controls(q, offers.drop_last());
        if offers_control(offers.last()) && after_offer(
            after_offers(q, offers.drop_last()),
            offers.last(),
        ).1 {
            before.push(offers.last()->Event_0)
        } else {
            before
        }
    }
}

/// A queue that is open and holds nothing.
pub open spec fn open_and_empty() -> QueueModel {
    QueueModel { items: Seq::empty(), dropped: 0, closed: false }
}

proof fn lemma_text_len(items: Seq<EventItem>)
    ensures
        output_text(items).len() == event::total_bytes(items),
    decreases items.len(),
{
    if items.len() > 0 {
        lemma_text_len(items.drop_last());
    }
}

/// Every event other than output is among the controls.
proof fn lemma_controls_hold(items: Seq<EventItem>, i: int)
    requires
        0 <= i < items.len(),
        items[i] is Control,
    ensures
        controls(items).contains(items[i]->Control_0),
    decreases items.len(),
{
    let rest = controls(items.drop_last());
    if i == items.len() - 1 {
        assert(controls(items)[rest.len() as int] == items[i]->Control_0);
    } else {
        lemma_controls_hold(items.drop_last(), i);
        let at = choose|at: int| 0 <= at < rest.len() && rest[at] == items[i]->Control_0;
        assert(controls(items)[at] == items[i]->Control_0);
    }
}

proof fn lemma_offers(offers: Seq<Offer>)
    requires
        offered_text(offers).len() <= usize::MAX,
    ensures
        ({
            let q = after_offers(open_and_empty(), offers);
            &&& !q.closed
            &&& q.dropped >= 0
            &&& q.dropped + output_text(q.items).len() == offered_text(offers).len()
            &&& output_text(q.items).is_suffix_of(offered_text(offers))
            &&& controls(q.items) == taken_controls(open_and_empty(), offers)
        }),
    decreases offers.len(),
{
    let q = after_offers(open_and_empty(), offers);
    if offers.len() == 0 {
        assert(offered_text(offers).subrange(0, 0) =~= Seq::<u8>::empty());
    } else {
        let earlier = offers.drop_last();
        let before = after_offers(open_and_empty(), earlier);
        let last = offers.last();
        let bytes = offered_bytes(last);
        let event = match last {
            Offer::Event(event) => event,
            Offer::Read(_) => TerminalEvent::PtyClosed,
        };
        lemma_offers(earlier);
        lemma_text_len(before.items);
        lemma_text_len(q.items);
        law_controls_survive(before, event, bytes);
        law_bytes_are_accounted_for(before, event, bytes);
        law_newest_output_survives(before, bytes);
        lemma_make_room(before, bytes.len());
        if offers_control(last) {
            lemma_push(before.items, EventItem::Control(event));
            let all = output_text(before.items);
            assert(all.subrange(0, all.len() as int) =~= all);
            assert(offered_text(offers) =~= offered_text(earlier));
            if event_queue::has_output(before.items) {
                lemma_drop_oldest(before);
                lemma_push(before.drop_oldest().items, EventItem::Control(event));
                lemma_suffix_trans(
                    output_text(before.drop_oldest().items),
                    all,
                    offered_text(earlier),
                );
            }
        } else {
            lemma_suffix_append(output_text(before.items), offered_text(earlier), bytes);
            lemma_suffix_trans(
                output_text(q.items),
                output_text(before.items) + bytes,
                offered_text(earlier) + bytes,
            );
            let room = before.make_room(bytes.len());
            if event_queue::has_output(room.items) {
                lemma_drop_oldest(room);
            }
        }
    }
}

/// What a drain hands out after any pushes to an open queue that was empty, no
/// matter which of them were taken: the output is the end of all that was offered,
/// so that only the oldest bytes are missing; how many are missing is reported
/// first, and only where some are; and the other events that were taken are there
/// once each, in their order.
pub proof fn law_drain_after_pushes(offers: Seq<Offer>)
    requires
        offered_text(offers).len() <= usize::MAX,
        forall|i: int|
            0 <= i < offers.len() ==> !(#[trigger] offers[i] matches Offer::Event(
                TerminalEvent::PtyOutputDropped { .. },
            )),
    ensures
        ({
            let q = after_offers(open_and_empty(), offers);
            let drained = q.drop_report() + q.items;
            let all = offered_text(offers);
            let out = output_text(drained);
            let missing = all.len() - out.len();
            &&& out.is_suffix_of(all)
            &&& controls(q.items) == taken_controls(open_and_empty(), offers)
            &&& missing == 0 ==> drained == q.items
            &&& missing > 0 ==> drained == seq![
                EventItem::Control(
                    TerminalEvent::PtyOutputDropped { byte_count: missing as usize },
                ),
            ] + q.items
            &&& forall|i: int|
                0 <= i < q.items.len() ==> !(#[trigger] q.items[i] matches EventItem::Control(
                    TerminalEvent::PtyOutputDropped { .. },
                ))
        }),
{
    let q = after_offers(open_and_empty(), offers);
    let drained = q.drop_report() + q.items;
    lemma_offers(offers);
    lemma_report_text(q.drop_report(), q.items);
    if q.dropped == 0 {
        assert(drained =~= q.items);
    }
    assert forall|i: int| 0 <= i < q.items.len() implies !(
    #[trigger] q.items[i] matches EventItem::Control(
        TerminalEvent::PtyOutputDropped { .. },
    )) by {
        if q.items[i] is Control {
            lemma_controls_hold(q.items, i);
            lemma_taken_were_offered(offers, q.items[i]->Control_0);
        }
    }
}

/// A report in front of some items adds no output.
proof fn lemma_report_text(report: Seq<EventItem>, items: Seq<EventItem>)
    requires
        forall|i: int| 0 <= i < report.len() ==> !(#[trigger] report[i] is Output),
    ensures
        output_text(report + items) == output_text(items),
    decreases items.len(),
{
    if items.len() == 0 {
        assert(report + items =~= report);
        lemma_no_output_text(report);
    } else {
        assert((report + items).drop_last() =~= report + items.drop_last());
        lemma_report_text(report, items.drop_last());
    }
}

/// What was taken was offered.
proof fn lemma_taken_were_offered(offers: Seq<Offer>, event: TerminalEvent)
    requires
        taken_controls(open_and_empty(), offers).contains(event),
    ensures
        exists|i: int| 0 <= i < offers.len() && #[trigger] offers[i] == Offer::Event(event),
    decreases offers.len(),
{
    if offers.len() > 0 {
        let earlier = offers.drop_last();
        let taken = taken_controls(open_and_empty(), offers);
        let at = choose|at: int| 0 <= at < taken.len() && taken[at] == event;
        let before = taken_controls(open_and_empty(), earlier);
        if at < before.len() {
            assert(before[at] == event);
            lemma_taken_were_offered(earlier, event);
            let i = choose|i: int|
                0 <= i < earlier.len() && #[trigger] earlier[i] == Offer::Event(event);
            assert(offers[i] == Offer::Event(event));
        } else {
            assert(offers[offers.len() - 1] == Offer::Event(event));
        }
    }
}

/// A list after some events were added, each under its identifier.
pub open spec fn pushed_all(
    list: ListModel,
    pushes: Seq<(QueuedEventNodeId, EventItem)>,
) -> ListModel
    decreases pushes.len(),
{
    if pushes.len() == 0 {
        list
    } else {
        pushed_all(list, pushes.drop_last()).pushed(pushes.last().0, pushes.last().1)
    }
}

/// Whether events can be added under these identifiers, one after the other.
pub open spec fn can_take_all(
    list: ListModel,
    pushes: Seq<(QueuedEventNodeId, EventItem)>,
) -> bool
    decreases pushes.len(),
{
    pushes.len() > 0 ==> can_take_all(list, pushes.drop_last()) && pushed_all(
        list,
        pushes.drop_last(),
    ).can_take(pushes.last().0)
}

/// An identifier that named an event names no other one later.
proof fn lemma_stays_gone(
    list: ListModel,
    id: QueuedEventNodeId,
    pushes: Seq<(QueuedEventNodeId, EventItem)>,
)
    requires
        !list.ids.contains(id),
        list.generations[id.index] == id.generation,
        can_take_all(list, pushes),
        id.generation + pushes.len() <= u64::MAX,
    ensures
        !pushed_all(list, pushes).ids.contains(id),
        id.generation <= pushed_all(list, pushes).generations[id.index] <= id.generation
            + pushes.len(),
    decreases pushes.len(),
{
    if pushes.len() > 0 {
        let rest = pushes.drop_last();
        let before = pushed_all(list, rest);
        let after = pushed_all(list, pushes);
        lemma_stays_gone(list, id, rest);
        if after.ids.contains(id) {
            let i = choose|i: int| 0 <= i < after.ids.len() && after.ids[i] == id;
            if i < before.ids.len() {
                assert(before.ids[i] == id);
            }
        }
    }
}

/// An event that is taken out of a list by its identifier is the one that was added
/// under it; the other events stay, in their order. To take it out a second time
/// gives nothing and changes nothing, also where other events were added meanwhile
/// and one of them has the slot, as long as the slot's generations have not begun
/// anew.
pub proof fn law_event_is_taken_out_once(
    list: ListModel,
    id: QueuedEventNodeId,
    pushes: Seq<(QueuedEventNodeId, EventItem)>,
)
    requires
        list.wf(),
        list.ids.contains(id),
        can_take_all(list.removed(id), pushes),
        id.generation + pushes.len() <= u64::MAX,
    ensures
        ({
            let at = list.ids.index_of(id);
            let once = list.removed(id);
            let later = pushed_all(once, pushes);
            &&& 0 <= at < list.items.len()
            &&& once.items == list.items.remove(at)
            &&& once.items.len() == list.items.len() - 1
            &&& !later.ids.contains(id)
            &&& later.removed(id) == later
        }),
{
    let at = list.ids.index_of(id);
    let once = list.removed(id);
    assert(list.ids[at] == id);
    if once.ids.contains(id) {
        let i = choose|i: int| 0 <= i < once.ids.len() && once.ids[i] == id;
        if i < at {
            assert(list.ids[i].index != list.ids[at].index);
        } else {
            assert(list.ids[at].index != list.ids[i + 1].index);
        }
    }
    lemma_stays_gone(once, id, pushes);
}

/// A list keeps its events apart, whatever is added and taken out.
pub proof fn law_list_keeps_its_events_apart(
    list: ListModel,
    id: QueuedEventNodeId,
    item: EventItem,
)
    requires
        list.wf(),
    ensures
        list.removed(id).wf(),
        list.can_take(id) ==> list.pushed(id, item).wf(),
{
    if list.ids.contains(id) {
        let at = list.ids.index_of(id);
        let once = list.removed(id);
        assert forall|i: int| 0 <= i < once.ids.len() implies once.generations[(
        #[trigger] once.ids[i]).index] == once.ids[i].generation by {
            let j = if i < at {
                i
            } else {
                i + 1
            };
            assert(once.ids[i] == list.ids[j]);
        }
        assert forall|i: int, j: int| 0 <= i < j < once.ids.len() implies (
        #[trigger] once.ids[i]).index != (#[trigger] once.ids[j]).index by {
            let a = if i < at {
                i
            } else {
                i + 1
            };
            let b = if j < at {
                j
            } else {
                j + 1
            };
            assert(list.ids[a].index != list.ids[b].index);
        }
    }
}

/// What is read joins the last event where that is output and both together are small enough; it
/// is an event of its own otherwise. No event gets too big by that.
pub proof fn law_reads_join_small_outputs(q: QueueModel, bytes: Seq<u8>)
    requires
        !q.closed,
        q.items.len() < MAX_PENDING_EVENT_COUNT,
        event::total_bytes(q.items) + bytes.len() <= MAX_PENDING_OUTPUT_BYTES,
    ensures
        ({
            let joins = q.items.len() > 0 && q.items.last() is Output
                && q.items.last()->Output_0.len() + bytes.len() <= 32 * 1024
                && bytes.len() < 32 * 1024;
            &&& q.push_read(bytes).1
            &&& joins ==> q.push_read(bytes).0.items == q.items.drop_last().push(
                EventItem::Output(q.items.last()->Output_0 + bytes),
            )
            &&& !joins ==> q.push_read(bytes).0.items == q.items.push(EventItem::Output(bytes))
            &&& q.push_read(bytes).0.dropped == q.dropped
            &&& !q.push_read(bytes).0.closed
        }),
{
    if q.items.len() > 0 && q.items.last() is Output {
        let joined = EventItem::Output(q.items.last()->Output_0 + bytes);
        assert(q.items.update(q.items.len() - 1, joined) =~= q.items.drop_last().push(joined));
    }
}

/// An event is put behind all others while there is room; a queue full of events takes one in the
/// place of the oldest output, and none where there is no output.
pub proof fn law_events_are_put_behind_the_others(q: QueueModel, event: TerminalEvent)
    requires
        !q.closed,
    ensures
        q.items.len() < MAX_PENDING_EVENT_COUNT ==> q.push_control(event).1 && q.push_control(
            event,
        ).0.items == q.items.push(EventItem::Control(event)),
        q.items.len() >= MAX_PENDING_EVENT_COUNT ==> {
            &&& q.push_control(event).1 <==> exists|i: int|
                0 <= i < q.items.len() && (#[trigger] q.items[i]) is Output
            &&& !q.push_control(event).1 ==> q.push_control(event).0 == q
            &&& q.push_control(event).1 ==> q.push_control(event).0.items.last()
                == EventItem::Control(event) && q.push_control(event).0.items.len()
                == q.items.len()
        },
{
    event_queue::lemma_first_output(q.items);
}

/// However much output is offered, a queue that is within its limits stays so.
pub proof fn law_output_stays_within_its_limits(q: QueueModel, bytes: Seq<u8>)
    requires
        !q.closed,
        q.items.len() <= 512,
        event::total_bytes(q.items) <= 4 * 1024 * 1024,
    ensures
        q.push_output_event(bytes).0.items.len() <= 512,
        event::total_bytes(q.push_output_event(bytes).0.items) <= 4 * 1024 * 1024,
{
    let room = q.make_room(bytes.len());
    lemma_room_is_smaller(q, bytes.len());
    let item = EventItem::Output(bytes);
    event_queue::lemma_first_output(room.items);
    assert(room.items.push(item).drop_last() =~= room.items);
    if event_queue::has_output(room.items) {
        let less = room.drop_oldest();
        event_queue::lemma_total_bytes_remove(
            room.items,
            event_queue::first_output(room.items),
        );
        assert(less.items.push(item).drop_last() =~= less.items);
    }
}

proof fn lemma_room_is_smaller(q: QueueModel, bytes: nat)
    ensures
        q.make_room(bytes).items.len() <= q.items.len(),
        event::total_bytes(q.make_room(bytes).items) <= event::total_bytes(q.items),
    decreases q.items.len(),
{
    if !(q.fits(bytes) || !event_queue::has_output(q.items)) {
        event_queue::lemma_first_output(q.items);
        event_queue::lemma_total_bytes_remove(q.items, event_queue::first_output(q.items));
        lemma_room_is_smaller(q.drop_oldest(), bytes);
    }
}

/// A queue that was drained holds nothing and has nothing to report, and is as open as it was.
pub proof fn law_drained_queue_is_empty(q: QueueModel)
    ensures
        q.emptied().items.len() == 0,
        q.emptied().dropped == 0,
        q.emptied().closed == q.closed,
        q.emptied().drop_report().len() == 0,
        q.dropped > 0 ==> q.drop_report().len() == 1,
{
}

} // verus!
