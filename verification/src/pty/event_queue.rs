//! Bounded queue between the PTY reader and the terminal.
//!
//! Output bytes may be thrown away, oldest first, to stay within the limits;
//! lifecycle and failure events never are.

use std::collections::VecDeque;

use vstd::prelude::*;

use crate::domain::event::{self, EventItem, TerminalEvent};

verus! {

/// Size of one read from the PTY.
pub const READ_BUFFER_SIZE: usize = 8192;

/// Most events that may be pending.
pub const MAX_PENDING_EVENT_COUNT: usize = 512;

/// Most output bytes that may be pending.
pub const MAX_PENDING_OUTPUT_BYTES: usize = READ_BUFFER_SIZE * 512;

/// Most bytes that reads are merged into one output event.
pub const MAX_OUTPUT_NODE_BYTES: usize = READ_BUFFER_SIZE * 4;

/// Identifies a queued event as long as it is queued.
#[derive(Clone, Copy, PartialEq, Eq, Structural)]
pub struct QueuedEventNodeId {
    pub index: usize,
    pub generation: u64,
}

/// What a list of events holds.
#[verifier::ext_equal]
pub struct ListModel {
    /// The identifiers of the events, first to last.
    pub ids: Seq<QueuedEventNodeId>,
    /// The events, first to last.
    pub items: Seq<EventItem>,
    /// The generation of each slot's last event; 0 where it had none yet.
    pub generations: Map<usize, u64>,
}

impl ListModel {
    /// No two events share a slot, and each has the generation of its slot.
    pub open spec fn wf(self) -> bool {
        &&& self.ids.len() == self.items.len()
        &&& forall|i: int|
            0 <= i < self.ids.len() ==> self.generations[(#[trigger] self.ids[i]).index]
                == self.ids[i].generation
        &&& forall|i: int, j: int|
            0 <= i < j < self.ids.len() ==> (#[trigger] self.ids[i]).index != (
            #[trigger] self.ids[j]).index
    }

    /// Whether an event that is added can get an identifier: its slot is vacant, and
    /// the generation is the slot's next one. 0 is never a generation.
    pub open spec fn can_take(self, id: QueuedEventNodeId) -> bool {
        &&& forall|i: int| 0 <= i < self.ids.len() ==> (#[trigger] self.ids[i]).index != id.index
        &&& id.generation == (if self.generations[id.index] < u64::MAX {
            self.generations[id.index] + 1
        } else {
            1
        })
    }

    /// The list with an event added behind the others.
    pub open spec fn pushed(self, id: QueuedEventNodeId, item: EventItem) -> ListModel {
        ListModel {
            ids: self.ids.push(id),
            items: self.items.push(item),
            generations: self.generations.insert(id.index, id.generation),
        }
    }

    /// The list without the event that an identifier names, if it names one.
    pub open spec fn removed(self, id: QueuedEventNodeId) -> ListModel {
        if self.ids.contains(id) {
            let at = self.ids.index_of(id);
            ListModel { ids: self.ids.remove(at), items: self.items.remove(at), ..self }
        } else {
            self
        }
    }
}

struct QueuedOutput {
    bytes: Vec<u8>,
}

enum QueuedEvent {
    Control(TerminalEvent),
    Output(QueuedOutput),
}

struct QueuedEventNode {
    event: QueuedEvent,
    prev: Option<usize>,
    next: Option<usize>,
}

struct QueuedEventSlot {
    generation: u64,
    node: Option<QueuedEventNode>,
}

/// A doubly linked list whose nodes live in reusable slots.
struct QueuedEventList {
    slots: Vec<QueuedEventSlot>,
    free_slots: Vec<usize>,
    head: Option<usize>,
    tail: Option<usize>,
    len: usize,
    /// The slots of the linked nodes, first to last.
    order: Ghost<Seq<usize>>,
}

impl QueuedOutput {
    fn from_vec(bytes: Vec<u8>) -> (output: Self)
        ensures
            output.bytes@ == bytes@,
    {
        Self { bytes }
    }

    fn len(&self) -> (len: usize)
        ensures
            len == self.bytes@.len(),
    {
        self.bytes.len()
    }

    fn push_chunk(&mut self, bytes: &[u8])
        ensures
            final(self).bytes@ == old(self).bytes@ + bytes@,
    {
        self.bytes.extend_from_slice(bytes);
        assert(self.bytes@ =~= old(self).bytes@ + bytes@);
    }

    fn into_vec(self) -> (bytes: Vec<u8>)
        ensures
            bytes@ == self.bytes@,
    {
        self.bytes
    }
}

impl QueuedEvent {
    spec fn item(self) -> EventItem {
        match self {
            QueuedEvent::Control(event) => EventItem::Control(event),
            QueuedEvent::Output(output) => EventItem::Output(output.bytes@),
        }
    }

    /// Output is never queued as a control event.
    spec fn sorted_by_kind(self) -> bool {
        self matches QueuedEvent::Control(event) ==> !(event is PtyOutput)
    }
}

impl View for QueuedEventList {
    type V = ListModel;

    closed spec fn view(&self) -> ListModel {
        ListModel {
            ids: self.ids(),
            items: self.items(),
            generations: Map::new(|index: usize| true, |index: usize| self.generation(index)),
        }
    }
}

impl QueuedEventList {
    /// The node in a slot that holds one.
    spec fn node_at(self, index: usize) -> QueuedEventNode {
        self.slots@[index as int].node->0
    }

    /// The queued items, first to last.
    spec fn items(self) -> Seq<EventItem> {
        Seq::new(self.order@.len(), |i: int| self.node_at(self.order@[i]).event.item())
    }

    /// The identifiers of the queued items, first to last.
    spec fn ids(self) -> Seq<QueuedEventNodeId> {
        Seq::new(
            self.order@.len(),
            |i: int|
                QueuedEventNodeId {
                    index: self.order@[i],
                    generation: self.slots@[self.order@[i] as int].generation,
                },
        )
    }

    spec fn slot_before(self, i: int) -> Option<usize> {
        if i == 0 {
            None
        } else {
            Some(self.order@[i - 1])
        }
    }

    spec fn slot_after(self, i: int) -> Option<usize> {
        if i + 1 == self.order@.len() {
            None
        } else {
            Some(self.order@[i + 1])
        }
    }

    /// The node at position `i` is linked to its neighbours.
    spec fn linked(self, i: int) -> bool {
        &&& self.node_at(self.order@[i]).prev == self.slot_before(i)
        &&& self.node_at(self.order@[i]).next == self.slot_after(i)
    }

    /// The links describe `order`, and vacant slots are listed once.
    spec fn wf(self) -> bool {
        &&& self.len == self.order@.len()
        &&& self.order@.no_duplicates()
        &&& forall|i: int|
            0 <= i < self.order@.len() ==> (#[trigger] self.order@[i]) < self.slots@.len()
        &&& forall|i: int|
            0 <= i < self.order@.len() ==> self.slots@[(#[trigger] self.order@[i]) as int].node is Some
        &&& forall|i: int| 0 <= i < self.order@.len() ==> #[trigger] self.linked(i)
        &&& forall|i: int|
            0 <= i < self.order@.len() ==> self.node_at(
                #[trigger] self.order@[i],
            ).event.sorted_by_kind()
        &&& self.head == (if self.order@.len() == 0 {
            None
        } else {
            Some(self.order@[0])
        })
        &&& self.tail == (if self.order@.len() == 0 {
            None
        } else {
            Some(self.order@[self.order@.len() - 1])
        })
        &&& self.free_slots@.no_duplicates()
        &&& forall|k: int|
            0 <= k < self.free_slots@.len() ==> (#[trigger] self.free_slots@[k]) < self.slots@.len()
                && self.slots@[self.free_slots@[k] as int].node is None
        &&& forall|s: int|
            0 <= s < self.slots@.len() && (#[trigger] self.slots@[s]).node is Some
                ==> self.holds_slot(s)
    }

    /// Whether the node in a slot is linked.
    spec fn holds_slot(self, s: int) -> bool {
        exists|i: int| 0 <= i < self.order@.len() && #[trigger] self.order@[i] == s
    }

    /// The generation of a slot's last node; 0 where it had none yet.
    spec fn generation(self, index: usize) -> u64 {
        if index < self.slots@.len() {
            self.slots@[index as int].generation
        } else {
            0
        }
    }

    fn new() -> (list: Self)
        ensures
            list.wf(),
            list.items() =~= Seq::<EventItem>::empty(),
            list.ids() =~= Seq::<QueuedEventNodeId>::empty(),
            list@.wf(),
    {
        Self {
            slots: Vec::new(),
            free_slots: Vec::new(),
            head: None,
            tail: None,
            len: 0,
            order: Ghost(Seq::empty()),
        }
    }

    fn len(&self) -> (len: usize)
        requires
            self.wf(),
        ensures
            len == self.items().len(),
            len == self.ids().len(),
    {
        self.len
    }

    fn clear(&mut self)
        ensures
            final(self).wf(),
            final(self).items() =~= Seq::<EventItem>::empty(),
            final(self).ids() =~= Seq::<QueuedEventNodeId>::empty(),
    {
        self.slots.clear();
        self.free_slots.clear();
        self.head = None;
        self.tail = None;
        self.len = 0;
        self.order = Ghost(Seq::empty());
    }

    /// A slot that holds no node, taken off the free list or added.
    fn next_slot_index(&mut self) -> (index: usize)
        requires
            old(self).wf(),
        ensures
            final(self).wf(),
            final(self).items() =~= old(self).items(),
            final(self).ids() =~= old(self).ids(),
            final(self).order@ == old(self).order@,
            index < final(self).slots@.len(),
            final(self).slots@[index as int].node is None,
            !final(self).free_slots@.contains(index),
            forall|i: usize| #[trigger] final(self).generation(i) == old(self).generation(i),
    {
        let index: usize = match self.free_slots.pop() {
            Some(index) if index < self.slots.len() => {
                proof {
                    let freed = old(self).free_slots@;
                    assert(freed[freed.len() - 1] == index);
                }
                index
            },
            _ => {
                self.slots.push(QueuedEventSlot { generation: 0, node: None });
                self.slots.len().saturating_sub(1)
            },
        };
        assert forall|i: int| 0 <= i < self.order@.len() implies #[trigger] self.linked(i) by {
            assert(old(self).linked(i));
        }
        assert forall|s: int|
            0 <= s < self.slots@.len() && (#[trigger] self.slots@[s]).node is Some implies
        self.holds_slot(s) by {
            assert(old(self).slots@[s].node is Some);
            assert(old(self).holds_slot(s));
        }
        index
    }

    /// Gives a vacant slot its next generation; 0 is never a generation.
    fn next_generation(&mut self, index: usize) -> (generation: u64)
        requires
            old(self).wf(),
            index < old(self).slots@.len(),
            old(self).slots@[index as int].node is None,
        ensures
            final(self).wf(),
            final(self).items() =~= old(self).items(),
            final(self).ids() =~= old(self).ids(),
            final(self).order@ == old(self).order@,
            final(self).free_slots == old(self).free_slots,
            final(self).slots@.len() == old(self).slots@.len(),
            final(self).slots@[index as int].node is None,
            final(self).slots@[index as int].generation == generation,
            generation == (if old(self).generation(index) < u64::MAX {
                old(self).generation(index) + 1
            } else {
                1
            }),
            forall|i: usize|
                i != index ==> #[trigger] final(self).generation(i) == old(self).generation(i),
    {
        let mut generation: u64 = self.slots[index].generation.wrapping_add(1);
        if generation == 0 {
            generation = 1;
        }
        self.slots[index].generation = generation;
        assert forall|i: int| 0 <= i < self.order@.len() implies #[trigger] self.linked(i) by {
            assert(old(self).linked(i));
        }
        assert forall|s: int|
            0 <= s < self.slots@.len() && (#[trigger] self.slots@[s]).node is Some implies
        self.holds_slot(s) by {
            assert(old(self).slots@[s].node is Some);
            assert(old(self).holds_slot(s));
        }
        generation
    }

    fn push_back(&mut self, event: QueuedEvent) -> (id: QueuedEventNodeId)
        requires
            old(self).wf(),
            old(self).items().len() < usize::MAX,
            event.sorted_by_kind(),
        ensures
            final(self).wf(),
            final(self).items() =~= old(self).items().push(event.item()),
            final(self).ids() =~= old(self).ids().push(id),
            old(self)@.can_take(id),
            final(self)@ == old(self)@.pushed(id, event.item()),
            final(self)@.wf(),
    {
        let index: usize = self.next_slot_index();
        let generation: u64 = self.next_generation(index);
        let ghost before = *self;
        proof {
            assert forall|i: int| 0 <= i < self.order@.len() implies self.order@[i] != index by {
                assert(self.slots@[self.order@[i] as int].node is Some);
            }
        }
        let node = QueuedEventNode { event, prev: self.tail, next: None };
        self.slots[index].node = Some(node);
        match self.tail {
            Some(tail) => {
                if let Some(tail_node) = &mut self.slots[tail].node {
                    tail_node.next = Some(index);
                }
            },
            None => {
                self.head = Some(index);
            },
        }
        self.tail = Some(index);
        self.len = self.len.saturating_add(1);
        self.order = Ghost(self.order@.push(index));
        proof {
            let n = before.order@.len() as int;
            assert forall|i: int| 0 <= i < n implies #[trigger] self.linked(i) && self.node_at(
                self.order@[i],
            ).event == before.node_at(before.order@[i]).event by {
                assert(before.linked(i));
                assert(before.order@[i] != index);
                if i + 1 < n {
                    assert(before.order@[i] != before.order@[n - 1]);
                }
            }
            assert(self.linked(n));
            assert forall|i: int| 0 <= i < n implies self.node_at(#[trigger] self.order@[i]).event
                == before.node_at(before.order@[i]).event by {
                assert(self.linked(i));
            }
            assert forall|s: int|
                0 <= s < self.slots@.len() && (#[trigger] self.slots@[s]).node is Some implies
            self.holds_slot(s) by {
                if s == index {
                    assert(self.order@[n] == s);
                } else {
                    assert(before.slots@[s].node is Some);
                    assert(before.holds_slot(s));
                    let i = choose|i: int|
                        0 <= i < before.order@.len() && #[trigger] before.order@[i] == s;
                    assert(self.order@[i] == s);
                }
            }
            let id = QueuedEventNodeId { index, generation };
            assert(self.ids() =~= old(self).ids().push(id));
            assert forall|i: usize| #[trigger] self.generation(i) == (if i == index {
                generation
            } else {
                old(self).generation(i)
            }) by {
                assert(before.generation(i) == self.generation(i));
            }
            assert forall|i: int| 0 <= i < n implies (#[trigger] old(self)@.ids[i]).index
                != index by {
                assert(before.order@[i] == old(self).order@[i]);
            }
            assert(self@ =~= old(self)@.pushed(id, event.item()));
        }
        QueuedEventNodeId { index, generation }
    }

    fn event(&self, node: QueuedEventNodeId) -> (event: Option<&QueuedEvent>)
        ensures
            event == (if node.index < self.slots@.len() && self.slots@[node.index as int].generation
                == node.generation && self.slots@[node.index as int].node is Some {
                Some(&self.node_at(node.index).event)
            } else {
                None
            }),
    {
        if node.index >= self.slots.len() {
            return None;
        }
        let slot = &self.slots[node.index];
        if slot.generation != node.generation {
            return None;
        }
        match &slot.node {
            Some(queued) => Some(&queued.event),
            None => None,
        }
    }

    fn front(&self) -> (front: Option<(QueuedEventNodeId, &QueuedEvent)>)
        requires
            self.wf(),
        ensures
            front is Some <==> self.items().len() > 0,
            front is Some ==> (front->0).0 == self.ids()[0] && (front->0).1.item() == self.items()[0],
    {
        let index: usize = match self.head {
            Some(index) => index,
            None => return None,
        };
        let generation: u64 = self.slots[index].generation;
        let node = QueuedEventNodeId { index, generation };
        match self.event(node) {
            Some(event) => Some((node, event)),
            None => None,
        }
    }

    /// `after` is `before` with the node at position `k` unlinked.
    spec fn unlinked(before: Self, after: Self, k: int) -> bool {
        &&& 0 <= k < before.order@.len()
        &&& after.order@ == before.order@.remove(k)
        &&& after.len == before.len - 1
        &&& after.slots@.len() == before.slots@.len()
        &&& after.free_slots@ == before.free_slots@.push(before.order@[k])
        &&& after.slots@[before.order@[k] as int].node is None
        &&& after.head == (if k == 0 {
            before.slot_after(k)
        } else {
            before.head
        })
        &&& after.tail == (if k + 1 == before.order@.len() {
            before.slot_before(k)
        } else {
            before.tail
        })
        &&& forall|s: int|
            0 <= s < before.slots@.len() && s != before.order@[k] ==> Self::relinked(
                before,
                #[trigger] before.slots@[s],
                after.slots@[s],
                s,
                k,
            )
    }

    /// Slot `s` before and after the node at position `k` is unlinked.
    spec fn relinked(before: Self, was: QueuedEventSlot, is: QueuedEventSlot, s: int, k: int) -> bool {
        &&& is.generation == was.generation
        &&& is.node is Some == was.node is Some
        &&& was.node is Some ==> {
            &&& (is.node->0).event == (was.node->0).event
            &&& (is.node->0).prev == (if k + 1 < before.order@.len() && s == before.order@[k + 1] {
                before.slot_before(k)
            } else {
                (was.node->0).prev
            })
            &&& (is.node->0).next == (if k > 0 && s == before.order@[k - 1] {
                before.slot_after(k)
            } else {
                (was.node->0).next
            })
        }
    }

    /// The node at position `j`, not `k`, after the one at `k` is unlinked.
    proof fn lemma_unlinked_node(before: Self, after: Self, k: int, j: int)
        requires
            before.wf(),
            Self::unlinked(before, after, k),
            0 <= j < before.order@.len(),
            j != k,
        ensures
            ({
                let i = if j < k {
                    j
                } else {
                    j - 1
                };
                let s = before.order@[j] as int;
                &&& after.order@[i] == before.order@[j]
                &&& s < after.slots@.len()
                &&& after.slots@[s].node is Some
                &&& after.slots@[s].generation == before.slots@[s].generation
                &&& after.node_at(before.order@[j]).event == before.node_at(before.order@[j]).event
                &&& after.linked(i)
            }),
    {
        let n = before.order@.len() as int;
        assert(before.order@[j] != before.order@[k]);
        assert(before.linked(j));
        if k > 0 && j != k - 1 {
            assert(before.order@[j] != before.order@[k - 1]);
        }
        if k + 1 < n && j != k + 1 {
            assert(before.order@[j] != before.order@[k + 1]);
        }
        let s = before.order@[j] as int;
        assert(Self::relinked(before, before.slots@[s], after.slots@[s], s, k));
    }

    /// Unlinking the node at position `k` keeps the list well formed and
    /// takes out that item alone.
    proof fn lemma_unlinked(before: Self, after: Self, k: int)
        requires
            before.wf(),
            Self::unlinked(before, after, k),
        ensures
            after.wf(),
            after.items() =~= before.items().remove(k),
            after.ids() =~= before.ids().remove(k),
    {
        let n = before.order@.len() as int;
        assert forall|i: int| 0 <= i < n - 1 implies {
            let s = (#[trigger] after.order@[i]) as int;
            &&& s == before.order@[if i < k { i } else { i + 1 }]
            &&& s < after.slots@.len()
            &&& after.slots@[s].node is Some
            &&& after.slots@[s].generation == before.slots@[s].generation
            &&& after.node_at(after.order@[i]).event == before.node_at(after.order@[i]).event
        } by {
            Self::lemma_unlinked_node(before, after, k, if i < k { i } else { i + 1 });
        }
        assert forall|i: int| 0 <= i < n - 1 implies #[trigger] after.linked(i) by {
            Self::lemma_unlinked_node(before, after, k, if i < k { i } else { i + 1 });
        }
        assert(after.order@.no_duplicates());
        assert forall|q: int| 0 <= q < before.free_slots@.len() implies {
            &&& (#[trigger] before.free_slots@[q]) != before.order@[k]
            &&& after.slots@[before.free_slots@[q] as int].node is None
        } by {
            let f = before.free_slots@[q] as int;
            assert(before.slots@[f].node is None);
            assert(before.slots@[before.order@[k] as int].node is Some);
            assert(Self::relinked(before, before.slots@[f], after.slots@[f], f, k));
        }
        assert forall|s: int|
            0 <= s < after.slots@.len() && (#[trigger] after.slots@[s]).node is Some implies
        after.holds_slot(s) by {
            assert(Self::relinked(before, before.slots@[s], after.slots@[s], s, k));
            assert(before.holds_slot(s));
            let i = choose|i: int| 0 <= i < n && #[trigger] before.order@[i] == s;
            let j = if i < k {
                i
            } else {
                i - 1
            };
            assert(after.order@[j] == s);
        }
    }

    /// Unlinks the node that an identifier names. One that names nothing, or nothing
    /// any more, changes nothing.
    fn remove(&mut self, id: QueuedEventNodeId) -> (event: Option<QueuedEvent>)
        requires
            old(self).wf(),
        ensures
            final(self).wf(),
            event is Some == old(self).ids().contains(id),
            event is None ==> final(self).items() == old(self).items() && final(self).ids()
                == old(self).ids(),
            forall|at: int|
                0 <= at < old(self).ids().len() && #[trigger] old(self).ids()[at] == id ==> {
                    &&& event is Some
                    &&& (event->0).item() == old(self).items()[at]
                    &&& event->0 is Output <==> old(self).items()[at] is Output
                    &&& (event->0).sorted_by_kind()
                    &&& final(self).items() == old(self).items().remove(at)
                    &&& final(self).ids() == old(self).ids().remove(at)
                },
            final(self)@ == old(self)@.removed(id),
            final(self)@.wf(),
    {
        let ghost before = *self;
        let ghost n = self.order@.len() as int;
        if id.index >= self.slots.len() || self.slots[id.index].generation != id.generation
            || self.slots[id.index].node.is_none() {
            return None;
        }
        let removed = match self.slots[id.index].node.take() {
            Some(node) => node,
            None => return None,
        };
        assert(before.slots@[id.index as int].node is Some);
        assert(before.holds_slot(id.index as int));
        let ghost k = choose|k: int| 0 <= k < n && #[trigger] before.order@[k] == id.index;
        assert(before.ids()[k] == id);
        assert(removed == before.node_at(before.order@[k]));
        assert(before.linked(k));
        match removed.prev {
            Some(prev) => {
                assert(prev == before.order@[k - 1]);
                if let Some(prev_node) = &mut self.slots[prev].node {
                    prev_node.next = removed.next;
                }
            },
            None => {
                self.head = removed.next;
            },
        }
        match removed.next {
            Some(next) => {
                assert(next == before.order@[k + 1]);
                if let Some(next_node) = &mut self.slots[next].node {
                    next_node.prev = removed.prev;
                }
            },
            None => {
                self.tail = removed.prev;
            },
        }
        self.free_slots.push(id.index);
        self.len = self.len.saturating_sub(1);
        self.order = Ghost(self.order@.remove(k));
        proof {
            Self::lemma_unlinked(before, *self, k);
            assert forall|at: int|
                0 <= at < before.ids().len() && #[trigger] before.ids()[at] == id implies at
                == k by {
                assert(before.order@[at] == before.order@[k]);
            }
            assert(before.ids().index_of(id) == k);
            assert forall|i: usize| #[trigger] self.generation(i) == before.generation(i) by {
                if i < before.slots@.len() && i != before.order@[k] {
                    assert(Self::relinked(
                        before,
                        before.slots@[i as int],
                        self.slots@[i as int],
                        i as int,
                        k,
                    ));
                }
            }
            assert(self@ =~= before@.removed(id));
        }
        Some(removed.event)
    }

    fn pop_front(&mut self) -> (front: Option<(QueuedEventNodeId, QueuedEvent)>)
        requires
            old(self).wf(),
        ensures
            final(self).wf(),
            front is Some <==> old(self).items().len() > 0,
            front is Some ==> {
                &&& (front->0).0 == old(self).ids()[0]
                &&& (front->0).1.item() == old(self).items()[0]
                &&& (front->0).1.sorted_by_kind()
                &&& final(self).items() =~= old(self).items().remove(0)
                &&& final(self).ids() =~= old(self).ids().remove(0)
            },
            front is None ==> final(self).items() == old(self).items() && final(self).ids() == old(
                self,
            ).ids(),
    {
        let index: usize = match self.head {
            Some(index) => index,
            None => return None,
        };
        let generation: u64 = self.slots[index].generation;
        let node = QueuedEventNodeId { index, generation };
        assert(self.order@[0] == index);
        assert(self.ids()[0] == node);
        match self.remove(node) {
            Some(event) => Some((node, event)),
            None => None,
        }
    }

    /// Whether the last item is output that `additional_bytes` more can join.
    spec fn tail_fits(self, additional_bytes: nat) -> bool {
        &&& self.items().len() > 0
        &&& self.items().last() matches EventItem::Output(bytes)
        &&& bytes.len() + additional_bytes <= MAX_OUTPUT_NODE_BYTES
    }

    fn tail_output_has_capacity(&self, additional_bytes: usize) -> (fits: bool)
        requires
            self.wf(),
        ensures
            fits == self.tail_fits(additional_bytes as nat),
    {
        let tail: usize = match self.tail {
            Some(tail) => tail,
            None => return false,
        };
        match &self.slots[tail].node {
            Some(node) => match &node.event {
                QueuedEvent::Output(output) => output.len().saturating_add(additional_bytes)
                    <= MAX_OUTPUT_NODE_BYTES,
                QueuedEvent::Control(_) => false,
            },
            None => false,
        }
    }

    /// Joins `bytes` to the last item where they fit.
    fn push_tail_output_chunk(&mut self, bytes: &[u8]) -> (joined: bool)
        requires
            old(self).wf(),
        ensures
            final(self).wf(),
            joined == old(self).tail_fits(bytes@.len()),
            !joined ==> *final(self) == *old(self),
            joined ==> final(self).items() =~= old(self).items().update(
                old(self).items().len() - 1,
                EventItem::Output(old(self).items().last()->Output_0 + bytes@),
            ),
            final(self).ids() =~= old(self).ids(),
    {
        if !self.tail_output_has_capacity(bytes.len()) {
            return false;
        }
        let ghost before = *self;
        let tail: usize = match self.tail {
            Some(tail) => tail,
            None => return false,
        };
        if let Some(node) = &mut self.slots[tail].node {
            if let QueuedEvent::Output(output) = &mut node.event {
                output.push_chunk(bytes);
            }
        }
        proof {
            let n = before.order@.len() as int;
            assert forall|i: int| 0 <= i < n - 1 implies (#[trigger] before.order@[i]) != tail by {
                assert(before.order@[i] != before.order@[n - 1]);
            }
            assert forall|i: int| 0 <= i < n implies #[trigger] self.linked(i) by {
                assert(before.linked(i));
            }
        }
        true
    }

    /// Takes out the output that an identifier names. One that names nothing, or no
    /// output, changes nothing.
    fn remove_output(&mut self, id: QueuedEventNodeId) -> (output: Option<QueuedOutput>)
        requires
            old(self).wf(),
        ensures
            final(self).wf(),
            !old(self).ids().contains(id) ==> output is None,
            output is None ==> final(self).items() == old(self).items() && final(self).ids()
                == old(self).ids(),
            forall|at: int|
                0 <= at < old(self).ids().len() && #[trigger] old(self).ids()[at] == id ==> {
                    &&& output is Some == old(self).items()[at] is Output
                    &&& output is Some ==> {
                        &&& EventItem::Output((output->0).bytes@) == old(self).items()[at]
                        &&& final(self).items() == old(self).items().remove(at)
                        &&& final(self).ids() == old(self).ids().remove(at)
                    }
                },
    {
        let names_output = match self.event(id) {
            Some(QueuedEvent::Output(_)) => true,
            _ => false,
        };
        if !names_output {
            return None;
        }
        proof {
            assert(self.slots@[id.index as int].node is Some);
            assert(self.holds_slot(id.index as int));
            let k = choose|k: int|
                0 <= k < self.order@.len() && #[trigger] self.order@[k] == id.index;
            assert(self.ids()[k] == id);
        }
        match self.remove(id) {
            Some(QueuedEvent::Output(output)) => Some(output),
            _ => None,
        }
    }
}

/// What a queue holds.
pub struct QueueModel {
    /// Pending items, first to last.
    pub items: Seq<EventItem>,
    /// Output bytes thrown away since the last report of it.
    pub dropped: int,
    /// Whether the queue takes no more events.
    pub closed: bool,
}

/// Position of the first output, or the length where there is none.
pub open spec fn first_output(items: Seq<EventItem>) -> int
    decreases items.len(),
{
    if items.len() == 0 {
        0
    } else {
        let first = first_output(items.drop_last());
        if first < items.len() - 1 {
            first
        } else if items.last() is Output {
            items.len() - 1
        } else {
            items.len() as int
        }
    }
}

pub open spec fn has_output(items: Seq<EventItem>) -> bool {
    first_output(items) < items.len()
}

/// A byte count that stops at the largest `usize`.
pub open spec fn saturated(count: int) -> int {
    if count > usize::MAX {
        usize::MAX as int
    } else {
        count
    }
}

impl QueueModel {
    /// `bytes` more output bytes thrown away.
    pub open spec fn lose(self, bytes: nat) -> QueueModel {
        QueueModel { dropped: saturated(self.dropped + bytes), ..self }
    }

    /// The oldest output thrown away.
    pub open spec fn drop_oldest(self) -> QueueModel {
        let first = first_output(self.items);
        QueueModel { items: self.items.remove(first), ..self }.lose(event::item_bytes(self.items[first]))
    }

    pub open spec fn append(self, item: EventItem) -> QueueModel {
        QueueModel { items: self.items.push(item), ..self }
    }

    /// The oldest outputs thrown away until `bytes` more can be pending.
    pub open spec fn make_room(self, bytes: nat) -> QueueModel
        decreases self.items.len(),
    {
        if self.fits(bytes) || !has_output(self.items) {
            self
        } else {
            proof {
                lemma_first_output(self.items);
            }
            self.drop_oldest().make_room(bytes)
        }
    }

    pub open spec fn fits(self, bytes: nat) -> bool {
        event::total_bytes(self.items) + bytes <= MAX_PENDING_OUTPUT_BYTES
    }

    pub open spec fn full(self) -> bool {
        self.items.len() >= MAX_PENDING_EVENT_COUNT
    }

    /// Whether `bytes` more bytes can join the last item.
    pub open spec fn tail_fits(self, bytes: nat) -> bool {
        &&& self.items.len() > 0
        &&& self.items.last() matches EventItem::Output(held)
        &&& held.len() + bytes <= MAX_OUTPUT_NODE_BYTES
    }

    /// The queue after an event other than output is offered, and whether it
    /// was taken.
    pub open spec fn push_control(self, event: TerminalEvent) -> (QueueModel, bool) {
        if self.closed {
            (self, false)
        } else if !self.full() {
            (self.append(EventItem::Control(event)), true)
        } else if has_output(self.items) {
            (self.drop_oldest().append(EventItem::Control(event)), true)
        } else {
            (self, false)
        }
    }

    /// The queue after output is added behind everything else, room for its
    /// bytes having been made.
    pub open spec fn append_output(self, bytes: Seq<u8>) -> (QueueModel, bool) {
        if !self.fits(bytes.len()) {
            (self.lose(bytes.len()), false)
        } else if !self.full() {
            (self.append(EventItem::Output(bytes)), true)
        } else if has_output(self.items) {
            (self.drop_oldest().append(EventItem::Output(bytes)), true)
        } else {
            (self.lose(bytes.len()), false)
        }
    }

    /// The queue after output is offered as an event of its own.
    pub open spec fn push_output_event(self, bytes: Seq<u8>) -> (QueueModel, bool) {
        if self.closed {
            (self, false)
        } else {
            self.make_room(bytes.len()).append_output(bytes)
        }
    }

    /// The queue after output is offered that may join the last item.
    pub open spec fn push_read(self, bytes: Seq<u8>) -> (QueueModel, bool) {
        let room = self.make_room(bytes.len());
        if bytes.len() >= MAX_OUTPUT_NODE_BYTES {
            self.push_output_event(bytes)
        } else if self.closed {
            (self, false)
        } else if room.fits(bytes.len()) && room.tail_fits(bytes.len()) {
            (
                QueueModel {
                    items: room.items.update(
                        room.items.len() - 1,
                        EventItem::Output(room.items.last()->Output_0 + bytes),
                    ),
                    ..room
                },
                true,
            )
        } else {
            room.append_output(bytes)
        }
    }

    /// The report on thrown away output, where there is any.
    pub open spec fn drop_report(self) -> Seq<EventItem> {
        if self.dropped > 0 {
            seq![EventItem::Control(
                TerminalEvent::PtyOutputDropped { byte_count: self.dropped as usize },
            )]
        } else {
            Seq::empty()
        }
    }

    pub open spec fn emptied(self) -> QueueModel {
        QueueModel { items: Seq::empty(), dropped: 0, closed: self.closed }
    }
}

pub proof fn lemma_first_output(items: Seq<EventItem>)
    ensures
        0 <= first_output(items) <= items.len(),
        forall|i: int| 0 <= i < first_output(items) ==> !(#[trigger] items[i] is Output),
        has_output(items) ==> items[first_output(items)] is Output,
    decreases items.len(),
{
    if items.len() > 0 {
        lemma_first_output(items.drop_last());
        assert forall|i: int| 0 <= i < first_output(items) implies !(#[trigger] items[i] is Output) by {
            if i < items.len() - 1 {
                assert(items.drop_last()[i] == items[i]);
            }
        }
    }
}

pub proof fn lemma_total_bytes_remove(items: Seq<EventItem>, k: int)
    requires
        0 <= k < items.len(),
    ensures
        event::total_bytes(items.remove(k)) + event::item_bytes(items[k]) == event::total_bytes(items),
    decreases items.len(),
{
    if k == items.len() - 1 {
        assert(items.remove(k) =~= items.drop_last());
    } else {
        lemma_total_bytes_remove(items.drop_last(), k);
        assert(items.remove(k).drop_last() =~= items.drop_last().remove(k));
    }
}

/// One more item of a list, and no list's part holds more than the whole.
pub proof fn lemma_total_bytes_take(items: Seq<EventItem>, k: int)
    requires
        0 <= k <= items.len(),
    ensures
        event::total_bytes(items.take(k)) <= event::total_bytes(items),
        k < items.len() ==> event::total_bytes(items.take(k + 1)) == event::total_bytes(items.take(k))
            + event::item_bytes(items[k]),
        k < items.len() ==> event::total_bytes(items.take(k + 1)) <= event::total_bytes(items),
    decreases items.len(),
{
    if k < items.len() {
        assert(items.take(k + 1).drop_last() =~= items.take(k));
        lemma_total_bytes_take(items.drop_last(), k);
        assert(items.drop_last().take(k) =~= items.take(k));
        if k + 1 < items.len() {
            assert(items.drop_last().take(k + 1) =~= items.take(k + 1));
        } else {
            assert(items.take(k + 1) =~= items);
        }
    } else {
        assert(items.take(k) =~= items);
    }
}

/// The identifiers of those items that are output.
spec fn output_ids(ids: Seq<QueuedEventNodeId>, items: Seq<EventItem>) -> Seq<QueuedEventNodeId>
    decreases items.len(),
{
    if items.len() == 0 {
        Seq::empty()
    } else {
        let rest = output_ids(ids.drop_last(), items.drop_last());
        if items.last() is Output {
            rest.push(ids.last())
        } else {
            rest
        }
    }
}

/// Taking out the item at `k`, with no output before it.
proof fn lemma_output_ids_remove(ids: Seq<QueuedEventNodeId>, items: Seq<EventItem>, k: int)
    requires
        ids.len() == items.len(),
        0 <= k < items.len(),
        forall|i: int| 0 <= i < k ==> !(#[trigger] items[i] is Output),
    ensures
        items[k] is Output ==> {
            &&& output_ids(ids, items).len() > 0
            &&& output_ids(ids, items)[0] == ids[k]
            &&& output_ids(ids.remove(k), items.remove(k)) =~= output_ids(ids, items).drop_first()
        },
        !(items[k] is Output) ==> output_ids(ids.remove(k), items.remove(k)) =~= output_ids(
            ids,
            items,
        ),
    decreases items.len(),
{
    let items0 = items.drop_last();
    let ids0 = ids.drop_last();
    if k == items.len() - 1 {
        assert(items.remove(k) =~= items0);
        assert(ids.remove(k) =~= ids0);
        lemma_output_ids_none(ids0, items0);
    } else {
        assert forall|i: int| 0 <= i < k implies !(#[trigger] items0[i] is Output) by {
            assert(items0[i] == items[i]);
        }
        lemma_output_ids_remove(ids0, items0, k);
        assert(items.remove(k).drop_last() =~= items0.remove(k));
        assert(ids.remove(k).drop_last() =~= ids0.remove(k));
    }
}

proof fn lemma_output_ids_none(ids: Seq<QueuedEventNodeId>, items: Seq<EventItem>)
    requires
        ids.len() == items.len(),
        forall|i: int| 0 <= i < items.len() ==> !(#[trigger] items[i] is Output),
    ensures
        output_ids(ids, items) =~= Seq::<QueuedEventNodeId>::empty(),
    decreases items.len(),
{
    if items.len() > 0 {
        assert forall|i: int| 0 <= i < items.len() - 1 implies !(#[trigger] items.drop_last()[i] is Output) by {
            assert(items.drop_last()[i] == items[i]);
        }
        lemma_output_ids_none(ids.drop_last(), items.drop_last());
    }
}

/// How many events and how much output one drain may hand out.
#[derive(Clone, Copy, Debug, PartialEq, Eq)]
pub struct PtyEventDrainBudget {
    pub max_events: usize,
    pub max_output_bytes: usize,
}

/// `whole` without `part`, 0 where there is less.
pub open spec fn remaining(whole: nat, part: nat) -> nat {
    if part <= whole {
        (whole - part) as nat
    } else {
        0
    }
}

impl PtyEventDrainBudget {
    pub fn new(max_events: usize, max_output_bytes: usize) -> (budget: Self)
        ensures
            budget.max_events == max_events,
            budget.max_output_bytes == max_output_bytes,
    {
        Self { max_events, max_output_bytes }
    }

    pub fn has_event_capacity(self) -> (capacity: bool)
        ensures
            capacity == (self.max_events > 0),
    {
        self.max_events > 0
    }

    /// What is left after `events` were handed out.
    pub fn remaining_after(self, events: &[TerminalEvent]) -> (budget: Self)
        ensures
            budget.max_events == remaining(self.max_events as nat, events@.len()),
            budget.max_output_bytes == remaining(
                self.max_output_bytes as nat,
                event::total_bytes(event::event_items(events@)),
            ),
    {
        let mut output_bytes: usize = 0;
        let mut index: usize = 0;
        assert(event::event_items(events@.take(0)) =~= Seq::<EventItem>::empty());
        while index < events.len()
            invariant
                index <= events@.len(),
                output_bytes == saturated(
                    event::total_bytes(event::event_items(events@.take(index as int))) as int,
                ),
            decreases events@.len() - index,
        {
            let bytes: usize = match &events[index] {
                TerminalEvent::PtyOutput(bytes) => bytes.len(),
                _ => 0,
            };
            proof {
                let longer = event::event_items(events@.take(index + 1));
                assert(longer.drop_last() =~= event::event_items(events@.take(index as int)));
                assert(longer.last() == event::event_item(events@[index as int]));
            }
            output_bytes = output_bytes.saturating_add(bytes);
            index += 1;
        }
        assert(events@.take(index as int) =~= events@);
        Self {
            max_events: self.max_events.saturating_sub(events.len()),
            max_output_bytes: self.max_output_bytes.saturating_sub(output_bytes),
        }
    }
}

/// How many items a drain hands out that has handed out `taken` of them, with
/// `bytes` bytes of output. One output larger than the whole budget still goes
/// out where it comes first and the budget is not 0.
pub open spec fn drain_count(
    items: Seq<EventItem>,
    max_items: nat,
    max_bytes: nat,
    taken: nat,
    bytes: nat,
) -> nat
    decreases items.len() - taken,
{
    if taken >= items.len() || taken >= max_items {
        taken
    } else {
        let next = event::item_bytes(items[taken as int]);
        if next > 0 && bytes + next > max_bytes && (taken > 0 || max_bytes == 0) {
            taken
        } else {
            drain_count(items, max_items, max_bytes, taken + 1, bytes + next)
        }
    }
}

impl QueueModel {
    /// How many items a drain within `budget` hands out; the report on thrown
    /// away output counts as one event.
    pub open spec fn budgeted_count(self, budget: PtyEventDrainBudget) -> nat {
        let reports: nat = if self.dropped > 0 {
            1
        } else {
            0
        };
        drain_count(
            self.items,
            remaining(budget.max_events as nat, reports),
            budget.max_output_bytes as nat,
            0,
            0,
        )
    }

    /// What a drain within `budget` hands out.
    pub open spec fn budgeted_events(self, budget: PtyEventDrainBudget) -> Seq<EventItem> {
        if budget.max_events == 0 {
            Seq::empty()
        } else {
            self.drop_report() + self.items.take(self.budgeted_count(budget) as int)
        }
    }

    /// What a drain within `budget` leaves.
    pub open spec fn budgeted_rest(self, budget: PtyEventDrainBudget) -> QueueModel {
        if budget.max_events == 0 {
            self
        } else {
            QueueModel {
                items: self.items.skip(self.budgeted_count(budget) as int),
                dropped: 0,
                closed: self.closed,
            }
        }
    }
}

/// Events taken out of a queue.
struct DrainedQueuedEvents {
    events: QueuedEventList,
    event_count: usize,
    dropped_output_bytes: usize,
}

impl DrainedQueuedEvents {
    spec fn all_items(self) -> Seq<EventItem> {
        QueueModel {
            items: self.events.items(),
            dropped: self.dropped_output_bytes as int,
            closed: false,
        }.drop_report() + self.events.items()
    }

    fn into_terminal_events(self) -> (events: Vec<TerminalEvent>)
        requires
            self.events.wf(),
        ensures
            event::event_items(events@) =~= self.all_items(),
    {
        let mut list = self.events;
        let mut drained: Vec<TerminalEvent> = Vec::with_capacity(
            self.event_count.saturating_add(if self.dropped_output_bytes > 0 { 1 } else { 0 }),
        );
        if self.dropped_output_bytes > 0 {
            drained.push(
                TerminalEvent::PtyOutputDropped { byte_count: self.dropped_output_bytes },
            );
        }
        assert(event::event_items(drained@) + list.items() =~= self.all_items());
        loop
            invariant
                list.wf(),
                event::event_items(drained@) + list.items() =~= self.all_items(),
            ensures
                event::event_items(drained@) =~= self.all_items(),
            decreases list.items().len(),
        {
            let ghost items = list.items();
            let ghost before = drained@;
            match list.pop_front() {
                Some((_, event)) => {
                    match event {
                        QueuedEvent::Control(event) => drained.push(event),
                        QueuedEvent::Output(output) => {
                            drained.push(TerminalEvent::PtyOutput(output.into_vec()));
                        },
                    }
                    assert(event::event_items(drained@) =~= event::event_items(before).push(items[0]));
                    assert(event::event_items(before) + items =~= event::event_items(before).push(items[0])
                        + items.remove(0));
                },
                None => {
                    assert(event::event_items(drained@) + items =~= event::event_items(drained@));
                    break;
                },
            }
        }
        drained
    }
}

/// A bounded queue of terminal events.
pub struct PtyEventQueue {
    events: QueuedEventList,
    output_nodes: VecDeque<QueuedEventNodeId>,
    pending_output_bytes: usize,
    dropped_output_bytes: usize,
    closed: bool,
}

impl View for PtyEventQueue {
    type V = QueueModel;

    closed spec fn view(&self) -> QueueModel {
        QueueModel {
            items: self.events.items(),
            dropped: self.dropped_output_bytes as int,
            closed: self.closed,
        }
    }
}

impl PtyEventQueue {
    /// The bookkeeping matches the pending items.
    spec fn tracked_items(&self) -> bool {
        &&& self.events.wf()
        &&& self.pending_output_bytes == event::total_bytes(self.events.items())
        &&& self.output_nodes@ =~= output_ids(self.events.ids(), self.events.items())
    }

    /// The bookkeeping matches the pending items, which are within the limits. A
    /// closed queue is empty.
    pub closed spec fn wf(&self) -> bool {
        &&& self.tracked_items()
        &&& self.events.items().len() <= MAX_PENDING_EVENT_COUNT
        &&& self.pending_output_bytes <= MAX_PENDING_OUTPUT_BYTES
        &&& self.closed ==> self.events.items().len() == 0 && self.dropped_output_bytes == 0
    }

    pub fn new() -> (queue: Self)
        ensures
            queue.wf(),
            queue@ == (QueueModel { items: Seq::empty(), dropped: 0, closed: false }),
    {
        Self {
            events: QueuedEventList::new(),
            output_nodes: VecDeque::new(),
            pending_output_bytes: 0,
            dropped_output_bytes: 0,
            closed: false,
        }
    }

    fn record_dropped_output_bytes(&mut self, byte_count: usize)
        requires
            old(self).wf(),
            !old(self)@.closed,
        ensures
            final(self).wf(),
            final(self)@ == old(self)@.lose(byte_count as nat),
    {
        self.dropped_output_bytes = self.dropped_output_bytes.saturating_add(byte_count);
    }

    fn drop_oldest_output(&mut self) -> (dropped: bool)
        requires
            old(self).wf(),
        ensures
            final(self).wf(),
            dropped == has_output(old(self)@.items),
            dropped ==> final(self)@ == old(self)@.drop_oldest(),
            dropped ==> final(self)@.items.len() == old(self)@.items.len() - 1,
            !dropped ==> final(self)@ == old(self)@,
    {
        let ghost items = self.events.items();
        let ghost ids = self.events.ids();
        let ghost first = first_output(items);
        proof {
            lemma_first_output(items);
            if has_output(items) {
                lemma_output_ids_remove(ids, items, first);
                lemma_total_bytes_remove(items, first);
            } else {
                lemma_output_ids_none(ids, items);
            }
        }
        let node = match self.output_nodes.pop_front() {
            Some(node) => node,
            None => return false,
        };
        match self.events.remove_output(node) {
            Some(output) => {
                self.pending_output_bytes = self.pending_output_bytes.saturating_sub(output.len());
                self.record_dropped_output_bytes(output.len());
                true
            },
            None => false,
        }
    }

    /// Throws away the oldest outputs until `byte_count` more bytes can be
    /// pending; reports whether they can.
    fn make_room(&mut self, byte_count: usize) -> (fits: bool)
        requires
            old(self).wf(),
        ensures
            final(self).wf(),
            final(self)@ == old(self)@.make_room(byte_count as nat),
            fits == final(self)@.fits(byte_count as nat),
            final(self)@.closed == old(self)@.closed,
    {
        while self.pending_output_bytes.saturating_add(byte_count) > MAX_PENDING_OUTPUT_BYTES
            invariant
                self.wf(),
                self@.make_room(byte_count as nat) == old(self)@.make_room(byte_count as nat),
                self@.closed == old(self)@.closed,
            decreases self@.items.len(),
        {
            if !self.drop_oldest_output() {
                return false;
            }
        }
        true
    }

    /// Appends output as an item of its own.
    fn push_output_node(&mut self, bytes: Vec<u8>)
        requires
            old(self).wf(),
            old(self)@.fits(bytes@.len()),
            !old(self)@.full(),
            !old(self)@.closed,
        ensures
            final(self).wf(),
            final(self)@ == old(self)@.append(EventItem::Output(bytes@)),
    {
        let ghost before = *self;
        let output = QueuedOutput::from_vec(bytes);
        self.pending_output_bytes = self.pending_output_bytes.saturating_add(output.len());
        let node = self.events.push_back(QueuedEvent::Output(output));
        self.output_nodes.push_back(node);
        proof {
            assert(self.events.items().drop_last() =~= before.events.items());
            assert(self.events.ids().drop_last() =~= before.events.ids());
        }
    }

    /// Adds output behind everything else, throwing away the oldest output
    /// where the queue is full.
    fn append_output(&mut self, bytes: Vec<u8>, fits: bool) -> (taken: bool)
        requires
            old(self).wf(),
            !old(self)@.closed,
            fits == old(self)@.fits(bytes@.len()),
        ensures
            final(self).wf(),
            (final(self)@, taken) == old(self)@.append_output(bytes@),
    {
        let byte_count = bytes.len();
        if !fits {
            self.record_dropped_output_bytes(byte_count);
            return false;
        }
        if self.events.len() >= MAX_PENDING_EVENT_COUNT {
            proof {
                if has_output(self@.items) {
                    lemma_first_output(self@.items);
                    lemma_total_bytes_remove(self@.items, first_output(self@.items));
                }
            }
            if !self.drop_oldest_output() {
                self.record_dropped_output_bytes(byte_count);
                return false;
            }
        }
        self.push_output_node(bytes);
        true
    }

    fn push_output_vec(&mut self, bytes: Vec<u8>) -> (taken: bool)
        requires
            old(self).wf(),
            !old(self)@.closed,
        ensures
            final(self).wf(),
            (final(self)@, taken) == old(self)@.push_output_event(bytes@),
    {
        let fits = self.make_room(bytes.len());
        self.append_output(bytes, fits)
    }

    fn push_control(&mut self, event: TerminalEvent) -> (taken: bool)
        requires
            old(self).wf(),
            !old(self)@.closed,
            !(event is PtyOutput),
        ensures
            final(self).wf(),
            (final(self)@, taken) == old(self)@.push_control(event),
    {
        if self.events.len() >= MAX_PENDING_EVENT_COUNT {
            // Lifecycle and failure events are more important than stale terminal output.
            if !self.drop_oldest_output() {
                return false;
            }
        }
        let ghost before = *self;
        self.events.push_back(QueuedEvent::Control(event));
        proof {
            assert(self.events.items().drop_last() =~= before.events.items());
            assert(self.events.ids().drop_last() =~= before.events.ids());
        }
        true
    }

    fn merge_reader_output(&mut self, bytes: &[u8]) -> (taken: bool)
        requires
            old(self).wf(),
            !old(self)@.closed,
            bytes@.len() < MAX_OUTPUT_NODE_BYTES,
        ensures
            final(self).wf(),
            (final(self)@, taken) == old(self)@.push_read(bytes@),
    {
        let byte_count = bytes.len();
        let fits = self.make_room(byte_count);
        let ghost before = *self;
        if fits && self.events.push_tail_output_chunk(bytes) {
            self.pending_output_bytes = self.pending_output_bytes.saturating_add(byte_count);
            proof {
                let items = before.events.items();
                let last = items.len() - 1;
                assert(self.events.items().drop_last() =~= items.drop_last());
                assert(items =~= items.drop_last().push(items.last()));
                lemma_output_ids_same_kinds(self.events.ids(), self.events.items(), items);
            }
            return true;
        }
        let mut copy: Vec<u8> = Vec::new();
        copy.extend_from_slice(bytes);
        assert(copy@ =~= bytes@);
        self.append_output(copy, fits)
    }

    /// Offers an event; reports whether it was taken.
    pub fn push(&mut self, event: TerminalEvent) -> (taken: bool)
        requires
            old(self).wf(),
        ensures
            final(self).wf(),
            (final(self)@, taken) == (match event::event_item(event) {
                EventItem::Output(bytes) => old(self)@.push_output_event(bytes),
                EventItem::Control(event) => old(self)@.push_control(event),
            }),
    {
        if self.closed {
            return false;
        }
        match event {
            TerminalEvent::PtyOutput(bytes) => self.push_output_vec(bytes),
            event => self.push_control(event),
        }
    }

    /// Offers bytes that were read from the PTY; reports whether they were
    /// taken.
    pub fn push_output(&mut self, bytes: &[u8]) -> (taken: bool)
        requires
            old(self).wf(),
        ensures
            final(self).wf(),
            (final(self)@, taken) == old(self)@.push_read(bytes@),
    {
        if self.closed {
            return false;
        }
        if bytes.len() >= MAX_OUTPUT_NODE_BYTES {
            let mut copy: Vec<u8> = Vec::new();
            copy.extend_from_slice(bytes);
            assert(copy@ =~= bytes@);
            return self.push_output_vec(copy);
        }
        self.merge_reader_output(bytes)
    }

    /// Takes out everything that is pending.
    fn take_all(&mut self) -> (drained: DrainedQueuedEvents)
        requires
            old(self).wf(),
        ensures
            final(self).wf(),
            final(self)@ == old(self)@.emptied(),
            drained.events.wf(),
            drained.all_items() == old(self)@.drop_report() + old(self)@.items,
    {
        let event_count = self.events.len();
        let mut events = QueuedEventList::new();
        if event_count > 0 {
            std::mem::swap(&mut self.events, &mut events);
        }
        let dropped_output_bytes = self.dropped_output_bytes;
        self.dropped_output_bytes = 0;
        self.output_nodes.clear();
        self.pending_output_bytes = 0;
        assert(self.events.items() =~= Seq::<EventItem>::empty());
        assert(events.items() =~= old(self).events.items());
        DrainedQueuedEvents { events, event_count, dropped_output_bytes }
    }

    /// Hands out everything that is pending.
    pub fn drain(&mut self) -> (events: Vec<TerminalEvent>)
        requires
            old(self).wf(),
        ensures
            final(self).wf(),
            final(self)@ == old(self)@.emptied(),
            event::event_items(events@) == old(self)@.drop_report() + old(self)@.items,
    {
        let drained = self.take_all();
        drained.into_terminal_events()
    }

    /// Hands out everything that is pending and takes no more events.
    pub fn close_and_drain(&mut self) -> (events: Vec<TerminalEvent>)
        requires
            old(self).wf(),
        ensures
            final(self).wf(),
            final(self)@ == (QueueModel { closed: true, ..old(self)@.emptied() }),
            event::event_items(events@) == old(self)@.drop_report() + old(self)@.items,
    {
        let drained = self.take_all();
        self.closed = true;
        drained.into_terminal_events()
    }

    /// Takes out what a budget allows.
    fn take_budgeted(&mut self, budget: PtyEventDrainBudget) -> (drained: DrainedQueuedEvents)
        requires
            old(self).wf(),
        ensures
            final(self).wf(),
            final(self)@ == old(self)@.budgeted_rest(budget),
            drained.events.wf(),
            drained.all_items() == old(self)@.budgeted_events(budget),
    {
        let ghost q = self@;
        let dropped_output_bytes = if budget.max_events > 0 {
            let dropped = self.dropped_output_bytes;
            self.dropped_output_bytes = 0;
            dropped
        } else {
            0
        };
        let event_budget = budget.max_events.saturating_sub(
            if dropped_output_bytes > 0 {
                1
            } else {
                0
            },
        );
        let mut drained = QueuedEventList::new();
        let mut event_count: usize = 0;
        let mut output_bytes: usize = 0;
        let ghost count = drain_count(
            q.items,
            event_budget as nat,
            budget.max_output_bytes as nat,
            0,
            0,
        );
        assert(q.items.skip(0) =~= q.items);
        assert(q.items.take(0) =~= Seq::<EventItem>::empty());
        loop
            invariant
                self.wf(),
                self.closed == q.closed,
                self.dropped_output_bytes as int == (if budget.max_events > 0 {
                    0
                } else {
                    q.dropped
                }),
                drained.wf(),
                event_count <= q.items.len(),
                event_count <= event_budget,
                q.items.len() <= MAX_PENDING_EVENT_COUNT,
                event::total_bytes(q.items) <= MAX_PENDING_OUTPUT_BYTES,
                self.events.items() =~= q.items.skip(event_count as int),
                drained.items() =~= q.items.take(event_count as int),
                output_bytes == event::total_bytes(q.items.take(event_count as int)),
                count == drain_count(
                    q.items,
                    event_budget as nat,
                    budget.max_output_bytes as nat,
                    event_count as nat,
                    output_bytes as nat,
                ),
            ensures
                event_count == count,
                event_count <= q.items.len(),
                self.wf(),
                self.closed == q.closed,
                self.dropped_output_bytes as int == (if budget.max_events > 0 {
                    0
                } else {
                    q.dropped
                }),
                drained.wf(),
                self.events.items() =~= q.items.skip(event_count as int),
                drained.items() =~= q.items.take(event_count as int),
            decreases q.items.len() - event_count,
        {
            if event_count >= event_budget {
                break;
            }
            let next_output_bytes: usize = match self.events.front() {
                Some((_, QueuedEvent::Output(output))) => output.len(),
                Some((_, QueuedEvent::Control(_))) => 0,
                None => {
                    break;
                },
            };
            let ghost items = self.events.items();
            let ghost ids = self.events.ids();
            proof {
                lemma_total_bytes_take(q.items, event_count as int);
                lemma_total_bytes_remove(items, 0);
                lemma_output_ids_remove(ids, items, 0);
            }
            if next_output_bytes > 0 && output_bytes.saturating_add(next_output_bytes)
                > budget.max_output_bytes && (event_count > 0 || budget.max_output_bytes == 0) {
                break;
            }
            match self.events.pop_front() {
                Some((_, event)) => {
                    if let QueuedEvent::Output(output) = &event {
                        self.pending_output_bytes =
                        self.pending_output_bytes.saturating_sub(output.len());
                        output_bytes = output_bytes.saturating_add(output.len());
                        self.output_nodes.pop_front();
                    }
                    drained.push_back(event);
                    event_count = event_count.saturating_add(1);
                },
                None => {
                    break;
                },
            }
            assert(self.events.items() =~= q.items.skip(event_count as int));
            assert(q.items.take(event_count as int) =~= q.items.take(event_count - 1).push(
                q.items[event_count - 1],
            ));
        }
        DrainedQueuedEvents { events: drained, event_count, dropped_output_bytes }
    }

    /// Hands out what a budget allows.
    pub fn drain_with_budget(&mut self, budget: PtyEventDrainBudget) -> (events: Vec<
        TerminalEvent,
    >)
        requires
            old(self).wf(),
        ensures
            final(self).wf(),
            final(self)@ == old(self)@.budgeted_rest(budget),
            event::event_items(events@) == old(self)@.budgeted_events(budget),
    {
        let drained = self.take_budgeted(budget);
        drained.into_terminal_events()
    }

    /// Throws away everything that is pending.
    pub fn clear(&mut self)
        requires
            old(self).wf(),
        ensures
            final(self).wf(),
            final(self)@ == old(self)@.emptied(),
    {
        self.events.clear();
        self.output_nodes.clear();
        self.pending_output_bytes = 0;
        self.dropped_output_bytes = 0;
    }

    /// Throws away everything that is pending and takes no more events.
    pub fn close(&mut self)
        requires
            old(self).wf(),
        ensures
            final(self).wf(),
            final(self)@ == (QueueModel { closed: true, ..old(self)@.emptied() }),
    {
        self.clear();
        self.closed = true;
    }
}

/// Output identifiers depend only on which items are output.
proof fn lemma_output_ids_same_kinds(
    ids: Seq<QueuedEventNodeId>,
    items: Seq<EventItem>,
    others: Seq<EventItem>,
)
    requires
        items.len() == others.len(),
        forall|i: int| 0 <= i < items.len() ==> (#[trigger] items[i] is Output <==> others[i] is Output),
    ensures
        output_ids(ids, items) == output_ids(ids, others),
    decreases items.len(),
{
    if items.len() > 0 {
        let items0 = items.drop_last();
        let others0 = others.drop_last();
        assert forall|i: int| 0 <= i < items0.len() implies (#[trigger] items0[i] is Output <==> others0[i] is Output) by {
            assert(items[i] is Output <==> others[i] is Output);
        }
        lemma_output_ids_same_kinds(ids.drop_last(), items0, others0);
        assert(items[items.len() - 1] is Output <==> others[items.len() - 1] is Output);
    }
}

/// A closed queue holds nothing and has nothing to report.
pub proof fn law_closed_queue_is_empty(queue: PtyEventQueue)
    requires
        queue.wf(),
        queue@.closed,
    ensures
        queue@.items.len() == 0,
        queue@.dropped == 0,
{
}

/// A queue never holds more events or output bytes than its limits.
pub proof fn law_queue_is_bounded(queue: PtyEventQueue)
    requires
        queue.wf(),
    ensures
        queue@.items.len() <= MAX_PENDING_EVENT_COUNT,
        event::total_bytes(queue@.items) <= MAX_PENDING_OUTPUT_BYTES,
        queue@.items.len() <= 512,
        event::total_bytes(queue@.items) <= 4 * 1024 * 1024,
        0 <= queue@.dropped <= usize::MAX,
{
}

} // verus!
