use vstd::prelude::*;

verus! {

/// One lyric line as the table stores it: start (inclusive) and end
/// (exclusive) in microseconds, and the line's text.
pub type LyricLine = (u64, u64, String);

/// Whether line `i` of the table covers the instant `value`.
pub open spec fn covers(t: Seq<LyricLine>, i: int, value: u64) -> bool {
    0 <= i < t.len() && t[i].0 <= value && value < t[i].1
}

/// Starts ascend, and each line ends no later than any later line starts.
pub open spec fn well_ordered(t: Seq<LyricLine>) -> bool {
    forall|i: int, j: int| 0 <= i < j < t.len() ==> t[i].0 <= t[j].0 && t[i].1 <= t[j].0
}

/// Returns the index of the line that covers `value`, found by binary search
/// for the last line that starts at or before it.
///
/// A returned index always covers `value`. On a well-ordered table `None`
/// comes exactly when no line covers it.
pub fn find_in_interval(intervals: &[LyricLine], value: u64) -> (r: Option<usize>)
    ensures
        r matches Some(i) ==> covers(intervals@, i as int, value),
        intervals@.len() == 0 ==> r is None,
        well_ordered(intervals@) && r is None ==> forall|i: int|
            !covers(intervals@, i, value),
{
    let mut left: usize = 0;
    let mut right: usize = intervals.len();
    while left < right
        invariant
            left <= right <= intervals@.len(),
            well_ordered(intervals@) ==> forall|k: int| 0 <= k < left ==> intervals@[k].0 <= value,
            well_ordered(intervals@) ==> forall|k: int|
                right <= k < intervals@.len() ==> intervals@[k].0 > value,
        decreases right - left,
    {
        let mid = left + (right - left) / 2;
        if intervals[mid].0 <= value {
            left = mid + 1;
        } else {
            right = mid;
        }
    }
    if left > 0 {
        let line = &intervals[left - 1];
        if line.0 <= value && value < line.1 {
            return Some(left - 1);
        }
        assert(well_ordered(intervals@) ==> forall|i: int| !covers(intervals@, i, value)) by {
            if well_ordered(intervals@) {
                assert forall|i: int| !covers(intervals@, i, value) by {
                    if 0 <= i < left - 1 {
                        assert(intervals@[i].1 <= intervals@[left - 1].0);
                    }
                }
            }
        }
    }
    None
}

} // verus!
