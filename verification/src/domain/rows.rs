//! Sets of rows of a terminal.

use vstd::prelude::*;

verus! {

/// The rows from `start` up to `end`, which is not one of them.
#[derive(Clone, Copy, Debug, PartialEq, Eq, Structural)]
pub struct RowRange {
    pub start: usize,
    pub end: usize,
}

impl RowRange {
    pub open spec fn has(self, row: int) -> bool {
        self.start <= row < self.end
    }
}

/// Whether a row is in one of the ranges.
pub open spec fn in_ranges(ranges: Seq<RowRange>, row: int) -> bool {
    exists|i: int| 0 <= i < ranges.len() && (#[trigger] ranges[i]).has(row)
}

/// No range is empty, each ends before the next starts, with a row between.
pub open spec fn apart(ranges: Seq<RowRange>) -> bool {
    &&& forall|i: int| 0 <= i < ranges.len() ==> (#[trigger] ranges[i]).start < ranges[i].end
    &&& forall|i: int, j: int|
        0 <= i < j < ranges.len() ==> (#[trigger] ranges[i]).end < (#[trigger] ranges[j]).start
}

/// Rows that changed.
#[derive(Clone, Debug, PartialEq, Eq)]
pub struct TerminalChangedRows {
    ranges: Vec<RowRange>,
}

impl View for TerminalChangedRows {
    type V = Set<int>;

    closed spec fn view(&self) -> Set<int> {
        Set::new(|row: int| in_ranges(self.ranges@, row))
    }
}

/// Adds a range that starts no earlier than the last one.
fn add_range(ranges: &mut Vec<RowRange>, range: RowRange)
    requires
        apart(old(ranges)@),
        range.start < range.end,
        old(ranges)@.len() > 0 ==> old(ranges)@.last().start <= range.start,
    ensures
        apart(final(ranges)@),
        final(ranges)@.len() > 0,
        final(ranges)@.last().start <= range.start,
        forall|row: int|
            #![trigger in_ranges(final(ranges)@, row)]
            in_ranges(final(ranges)@, row) <==> in_ranges(old(ranges)@, row) || range.has(row),
{
    let ghost before = ranges@;
    let count: usize = ranges.len();
    if count > 0 && range.start <= ranges[count - 1].end {
        let last = ranges[count - 1];
        let end = if range.end > last.end {
            range.end
        } else {
            last.end
        };
        ranges.set(count - 1, RowRange { start: last.start, end });
    } else {
        ranges.push(range);
    }
    proof {
        assert forall|row: int|
            #![trigger in_ranges(ranges@, row)]
            in_ranges(ranges@, row) <==> in_ranges(before, row) || range.has(row) by {
            if in_ranges(ranges@, row) {
                let i = choose|i: int| 0 <= i < ranges@.len() && (#[trigger] ranges@[i]).has(row);
                if i < before.len() {
                    if before[i].has(row) {
                        assert(in_ranges(before, row));
                    }
                }
            }
            if in_ranges(before, row) {
                let i = choose|i: int| 0 <= i < before.len() && (#[trigger] before[i]).has(row);
                assert(ranges@[i].has(row));
            }
            if range.has(row) {
                assert(ranges@[ranges@.len() - 1].has(row));
            }
        }
    }
}

impl TerminalChangedRows {
    /// Ranges are apart from each other, in order.
    pub closed spec fn wf(&self) -> bool {
        apart(self.ranges@)
    }

    pub fn empty() -> (rows: Self)
        ensures
            rows.wf(),
            rows@ =~= Set::<int>::empty(),
    {
        let rows = TerminalChangedRows { ranges: Vec::new() };
        assert forall|row: int| !in_ranges(rows.ranges@, row) by {}
        rows
    }

    /// The rows of one range.
    pub fn from_range(start: usize, end: usize) -> (rows: Self)
        ensures
            rows.wf(),
            rows@ =~= Set::new(|row: int| start <= row < end),
    {
        let mut ranges: Vec<RowRange> = Vec::new();
        let ghost none = ranges@;
        if start < end {
            add_range(&mut ranges, RowRange { start, end });
        }
        let rows = TerminalChangedRows { ranges };
        assert forall|row: int| rows@.contains(row) <==> start <= row < end by {
            assert(!in_ranges(none, row));
            assert(in_ranges(ranges@, row) == rows@.contains(row));
        }
        rows
    }

    /// The ranges, first to last.
    pub closed spec fn ranges_view(&self) -> Seq<RowRange> {
        self.ranges@
    }

    /// The ranges, first to last.
    pub fn ranges(&self) -> (ranges: &Vec<RowRange>)
        requires
            self.wf(),
        ensures
            ranges@ == self.ranges_view(),
            apart(ranges@),
            forall|row: int| in_ranges(ranges@, row) == self@.contains(row),
    {
        &self.ranges
    }

    pub fn is_empty(&self) -> (empty: bool)
        requires
            self.wf(),
        ensures
            empty == (self@ =~= Set::<int>::empty()),
    {
        let empty = self.ranges.len() == 0;
        proof {
            if !empty {
                let first = self.ranges@[0];
                assert(first.has(first.start as int));
                assert(self@.contains(first.start as int));
            }
        }
        empty
    }

    /// The first row and the one behind the last, where there are any.
    pub fn bounds(&self) -> (bounds: Option<RowRange>)
        requires
            self.wf(),
        ensures
            bounds is None <==> self@ =~= Set::<int>::empty(),
            bounds matches Some(range) ==> {
                &&& range.start < range.end
                &&& self@.contains(range.start as int)
                &&& self@.contains(range.end - 1)
                &&& forall|row: int| self@.contains(row) ==> range.has(row)
            },
    {
        if self.ranges.len() == 0 {
            return None;
        }
        let first = self.ranges[0];
        let last = self.ranges[self.ranges.len() - 1];
        let range = RowRange { start: first.start, end: last.end };
        proof {
            let n = self.ranges@.len();
            assert(self.ranges@[0].has(first.start as int));
            assert(self@.contains(first.start as int));
            assert(self.ranges@[n - 1].has(last.end - 1));
            assert forall|row: int| self@.contains(row) implies range.has(row) by {
                let i = choose|i: int| 0 <= i < n && (#[trigger] self.ranges@[i]).has(row);
                if i > 0 {
                    assert(self.ranges@[0].end < self.ranges@[i].start);
                }
                if i < n - 1 {
                    assert(self.ranges@[i].end < self.ranges@[n - 1].start);
                }
            }
        }
        Some(range)
    }

    /// Adds the rows of another set.
    pub fn merge(&mut self, other: &TerminalChangedRows)
        requires
            old(self).wf(),
            other.wf(),
        ensures
            final(self).wf(),
            final(self)@ =~= old(self)@.union(other@),
    {
        let ghost left = self.ranges@;
        let ghost right = other.ranges@;
        let mut merged: Vec<RowRange> = Vec::new();
        let mut i: usize = 0;
        let mut j: usize = 0;
        assert forall|row: int| !in_ranges(merged@, row) by {}
        assert(left.take(0) =~= Seq::<RowRange>::empty());
        assert(right.take(0) =~= Seq::<RowRange>::empty());
        while i < self.ranges.len() || j < other.ranges.len()
            invariant
                self.ranges@ == left,
                other.ranges@ == right,
                apart(left),
                apart(right),
                i <= left.len(),
                j <= right.len(),
                apart(merged@),
                merged@.len() > 0 && i < left.len() ==> merged@.last().start <= left[i as int].start,
                merged@.len() > 0 && j < right.len() ==> merged@.last().start
                    <= right[j as int].start,
                forall|row: int|
                    #![trigger in_ranges(merged@, row)]
                    in_ranges(merged@, row) <==> in_ranges(left.take(i as int), row) || in_ranges(
                        right.take(j as int),
                        row,
                    ),
            decreases left.len() - i + right.len() - j,
        {
            let from_left = j >= other.ranges.len() || (i < self.ranges.len()
                && self.ranges[i].start <= other.ranges[j].start);
            let next = if from_left {
                self.ranges[i]
            } else {
                other.ranges[j]
            };
            let ghost before = merged@;
            add_range(&mut merged, next);
            proof {
                if from_left {
                    lemma_one_more_range(left, i as int);
                    if i + 1 < left.len() {
                        assert(left[i as int].end < left[i + 1].start);
                    }
                } else {
                    lemma_one_more_range(right, j as int);
                    if j + 1 < right.len() {
                        assert(right[j as int].end < right[j + 1].start);
                    }
                }
                assert forall|row: int|
                    #![trigger in_ranges(merged@, row)]
                    in_ranges(merged@, row) <==> in_ranges(before, row) || next.has(row) by {}
            }
            if from_left {
                i += 1;
            } else {
                j += 1;
            }
        }
        proof {
            assert(left.take(i as int) =~= left);
            assert(right.take(j as int) =~= right);
            assert forall|row: int| in_ranges(merged@, row) <==> in_ranges(left, row) || in_ranges(
                right,
                row,
            ) by {}
        }
        self.ranges = merged;
    }
}

proof fn lemma_one_more_range(ranges: Seq<RowRange>, k: int)
    requires
        0 <= k < ranges.len(),
    ensures
        forall|row: int|
            #![trigger in_ranges(ranges.take(k + 1), row)]
            #![trigger in_ranges(ranges.take(k), row)]
            in_ranges(ranges.take(k + 1), row) <==> in_ranges(ranges.take(k), row) || ranges[k].has(
                row,
            ),
{
    assert forall|row: int|
        #![trigger in_ranges(ranges.take(k + 1), row)]
        #![trigger in_ranges(ranges.take(k), row)]
        in_ranges(ranges.take(k + 1), row) <==> in_ranges(ranges.take(k), row) || ranges[k].has(
            row,
        ) by {
        let more = ranges.take(k + 1);
        let some = ranges.take(k);
        if in_ranges(more, row) {
            let i = choose|i: int| 0 <= i < more.len() && (#[trigger] more[i]).has(row);
            if i < k {
                assert(some[i].has(row));
            }
        }
        if in_ranges(some, row) {
            let i = choose|i: int| 0 <= i < some.len() && (#[trigger] some[i]).has(row);
            assert(more[i].has(row));
        }
        if ranges[k].has(row) {
            assert(more[k].has(row));
        }
    }
}

/// A range has its first row and not its end, and so have ranges that hold it.
pub proof fn law_range_has_its_rows(ranges: Seq<RowRange>, range: RowRange, row: int)
    ensures
        range.start < range.end ==> range.has(range.start as int) && range.has(range.end - 1),
        !range.has(range.end as int),
        !range.has(range.start - 1),
        in_ranges(ranges.push(range), row) <==> in_ranges(ranges, row) || range.start <= row
            < range.end,
{
    let more = ranges.push(range);
    if in_ranges(ranges, row) {
        let i = choose|i: int| 0 <= i < ranges.len() && (#[trigger] ranges[i]).has(row);
        assert(more[i].has(row));
    }
    if range.has(row) {
        assert(more[ranges.len() as int].has(row));
    }
    if in_ranges(more, row) {
        let i = choose|i: int| 0 <= i < more.len() && (#[trigger] more[i]).has(row);
        if i < ranges.len() {
            assert(ranges[i].has(row));
        }
    }
}

} // verus!
