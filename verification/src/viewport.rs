//! The window of list items that fits on the screen.

use crate::expansion::{state_of, ExpansionState};
use std::collections::{HashMap, HashSet};
use vstd::prelude::*;

verus! {

/// Rows that the item at `index` takes on screen: one for its summary and,
/// when it is expanded and its body has been cached, one per body line.
pub open spec fn row_height(state: ExpansionState, index: int) -> int {
    if 0 <= index <= usize::MAX {
        state.height(index as usize)
    } else {
        1
    }
}

/// The heights of the items `0..total`, in list order.
pub open spec fn row_heights(total: int, state: ExpansionState) -> Seq<int> {
    Seq::new(
        if total >= 0 {
            total as nat
        } else {
            0
        },
        |i: int| row_height(state, i),
    )
}

/// Every item takes at least one row.
pub open spec fn heights_positive(heights: Seq<int>) -> bool {
    forall|i: int| 0 <= i < heights.len() ==> #[trigger] heights[i] >= 1
}

/// Rows taken by the `count` items that start at index `from`.
pub open spec fn rows_used(heights: Seq<int>, from: int, count: int) -> int
    decreases count,
{
    if count <= 0 || from < 0 || from >= heights.len() {
        0
    } else {
        heights[from] + rows_used(heights, from + 1, count - 1)
    }
}

/// How many items, walking up from `scroll`, fit within `limit` rows: items
/// are taken while the next one still fits whole.
pub open spec fn fit_count(heights: Seq<int>, scroll: int, limit: int) -> int
    decreases heights.len() - scroll,
{
    if 0 <= scroll < heights.len() && heights[scroll] <= limit {
        1 + fit_count(heights, scroll + 1, limit - heights[scroll])
    } else {
        0
    }
}

/// `count` items starting at `scroll` fit within `limit` rows and no further
/// item does: the run stays inside the list, its rows do not exceed `limit`,
/// and either the list ends with it or the next item would not fit.
pub open spec fn is_fit(heights: Seq<int>, scroll: int, limit: int, count: int) -> bool {
    &&& 0 <= count
    &&& count > 0 ==> scroll + count <= heights.len()
    &&& rows_used(heights, scroll, count) <= limit
    &&& 0 <= scroll && scroll + count < heights.len() ==> rows_used(heights, scroll, count + 1)
        > limit
}

/// The run of `count` indices that starts at `scroll`.
pub open spec fn index_run(scroll: int, count: int) -> Seq<int> {
    Seq::new(
        if count >= 0 {
            count as nat
        } else {
            0
        },
        |i: int| scroll + i,
    )
}

/// The greedy count is a fit in the sense of [`is_fit`].
pub proof fn lemma_fit_count_is_fit(heights: Seq<int>, scroll: int, limit: int)
    requires
        heights_positive(heights),
        0 <= limit,
    ensures
        is_fit(heights, scroll, limit, fit_count(heights, scroll, limit)),
        fit_count(heights, scroll, limit) <= limit,
    decreases heights.len() - scroll,
{
    if 0 <= scroll < heights.len() && heights[scroll] <= limit {
        lemma_fit_count_is_fit(heights, scroll + 1, limit - heights[scroll]);
        let rest = fit_count(heights, scroll + 1, limit - heights[scroll]);
        assert(rows_used(heights, scroll, rest + 1) == heights[scroll] + rows_used(
            heights,
            scroll + 1,
            rest,
        ));
        if scroll + 1 + rest < heights.len() {
            assert(rows_used(heights, scroll, rest + 2) == heights[scroll] + rows_used(
                heights,
                scroll + 1,
                rest + 1,
            ));
        }
    } else {
        if 0 <= scroll < heights.len() {
            assert(rows_used(heights, scroll, 1) == heights[scroll] + rows_used(
                heights,
                scroll + 1,
                0,
            ));
        }
    }
}

/// Taking more items never takes fewer rows.
pub proof fn lemma_rows_used_monotone(heights: Seq<int>, from: int, a: int, b: int)
    requires
        heights_positive(heights),
        a <= b,
    ensures
        rows_used(heights, from, a) <= rows_used(heights, from, b),
        0 <= rows_used(heights, from, a),
    decreases b,
{
    if b <= 0 || from < 0 || from >= heights.len() {
    } else if a <= 0 {
        lemma_rows_used_monotone(heights, from + 1, b - 1, b - 1);
    } else {
        lemma_rows_used_monotone(heights, from + 1, a - 1, b - 1);
    }
}

/// At most one count is a fit: [`is_fit`] determines the window.
pub proof fn lemma_fit_unique(heights: Seq<int>, scroll: int, limit: int, a: int, b: int)
    requires
        heights_positive(heights),
        0 <= scroll,
        is_fit(heights, scroll, limit, a),
        is_fit(heights, scroll, limit, b),
    ensures
        a == b,
{
    if a < b {
        lemma_rows_used_monotone(heights, scroll, a + 1, b);
    } else if b < a {
        lemma_rows_used_monotone(heights, scroll, b + 1, a);
    }
}

/// A smaller budget never shows more items.
pub proof fn lemma_fit_count_monotone(heights: Seq<int>, scroll: int, small: int, large: int)
    requires
        heights_positive(heights),
        small <= large,
    ensures
        0 <= fit_count(heights, scroll, small) <= fit_count(heights, scroll, large),
    decreases heights.len() - scroll,
{
    if 0 <= scroll < heights.len() && heights[scroll] <= small {
        lemma_fit_count_monotone(
            heights,
            scroll + 1,
            small - heights[scroll],
            large - heights[scroll],
        );
    } else if 0 <= scroll < heights.len() && heights[scroll] <= large {
        lemma_fit_count_monotone(
            heights,
            scroll + 1,
            large - heights[scroll],
            large - heights[scroll],
        );
    }
}

/// The heights derived from an expansion state are all at least one.
pub proof fn lemma_row_heights_positive(total: int, state: ExpansionState)
    ensures
        heights_positive(row_heights(total, state)),
        row_heights(total, state).len() == if total >= 0 {
            total
        } else {
            0
        },
{
}

/// Returns the indices of the items that fit within `limit` display rows
/// starting at `scroll`: the longest run `scroll, scroll + 1, ..` whose
/// heights add up to at most `limit`.
pub fn collect_visible<T>(
    commits: &[T],
    expanded: &HashSet<usize>,
    bodies: &HashMap<usize, Vec<String>>,
    scroll: usize,
    limit: usize,
) -> (vis: Vec<usize>)
    ensures
        vis@.len() == fit_count(
            row_heights(commits@.len() as int, state_of(expanded@, bodies@)),
            scroll as int,
            limit as int,
        ),
        vis@.map_values(|i: usize| i as int) == index_run(scroll as int, vis@.len() as int),
        is_fit(
            row_heights(commits@.len() as int, state_of(expanded@, bodies@)),
            scroll as int,
            limit as int,
            vis@.len() as int,
        ),
        vis@.len() <= limit,
{
    broadcast use vstd::std_specs::hash::group_hash_axioms;

    let total: usize = commits.len();
    let ghost heights = row_heights(total as int, state_of(expanded@, bodies@));
    let mut vis: Vec<usize> = Vec::new();
    let mut lines: usize = 0;
    let mut idx: usize = scroll;
    while idx < total
        invariant
            total == commits@.len(),
            heights == row_heights(total as int, state_of(expanded@, bodies@)),
            scroll <= idx,
            lines <= limit,
            vis@.len() == idx - scroll,
            forall|i: int| 0 <= i < vis@.len() ==> vis@[i] == scroll + i,
            fit_count(heights, scroll as int, limit as int) == (idx - scroll) + fit_count(
                heights,
                idx as int,
                limit - lines,
            ),
        ensures
            scroll <= idx,
            vis@.len() == idx - scroll,
            forall|i: int| 0 <= i < vis@.len() ==> vis@[i] == scroll + i,
            fit_count(heights, scroll as int, limit as int) == idx - scroll,
        decreases total - idx,
    {
        let extra: usize = if expanded.contains(&idx) {
            match bodies.get(&idx) {
                Some(body) => body.len(),
                None => 0,
            }
        } else {
            0
        };
        assert(heights[idx as int] == 1 + extra);
        if extra >= limit - lines {
            break ;
        }
        vis.push(idx);
        lines = lines + 1 + extra;
        idx = idx + 1;
    }
    proof {
        lemma_row_heights_positive(total as int, state_of(expanded@, bodies@));
        lemma_fit_count_is_fit(heights, scroll as int, limit as int);
        assert(vis@.map_values(|i: usize| i as int) =~= index_run(
            scroll as int,
            vis@.len() as int,
        ));
    }
    vis
}

/// What one frame shows: the indices of the items on screen, in order, and
/// whether an indicator row stands above and below them.
#[derive(Clone, Debug, PartialEq, Eq)]
pub struct ViewportResult {
    pub visible_indices: Vec<usize>,
    pub has_more_above: bool,
    pub has_more_below: bool,
}

/// Rows left for items and the lower indicator once the upper indicator,
/// shown whenever `scroll > 0`, has taken its row.
pub open spec fn base_budget(row_budget: int, scroll: int) -> int {
    if scroll > 0 && row_budget > 0 {
        row_budget - 1
    } else {
        row_budget
    }
}

/// Whether the lower indicator is shown: some item fits in the base budget
/// and the list goes on past the items that fit.
pub open spec fn more_below(heights: Seq<int>, scroll: int, row_budget: int) -> bool {
    let first = fit_count(heights, scroll, base_budget(row_budget, scroll));
    first > 0 && scroll + first < heights.len()
}

/// Number of items shown: what fits in the base budget, after one row of it
/// has gone to the lower indicator where that indicator is shown.
pub open spec fn visible_count(heights: Seq<int>, scroll: int, row_budget: int) -> int {
    let base = base_budget(row_budget, scroll);
    if more_below(heights, scroll, row_budget) {
        fit_count(heights, scroll, base - 1)
    } else {
        fit_count(heights, scroll, base)
    }
}

/// The window never holds more items than the screen has rows, and the items
/// together with the lower indicator stay within the base budget.
pub proof fn lemma_window_within_budget(heights: Seq<int>, scroll: int, row_budget: int)
    requires
        heights_positive(heights),
        0 <= row_budget,
    ensures
        0 <= visible_count(heights, scroll, row_budget) <= row_budget,
        rows_used(heights, scroll, visible_count(heights, scroll, row_budget)) + (if more_below(
            heights,
            scroll,
            row_budget,
        ) {
            1int
        } else {
            0int
        }) <= base_budget(row_budget, scroll),
{
    let base = base_budget(row_budget, scroll);
    lemma_fit_count_is_fit(heights, scroll, base);
    if more_below(heights, scroll, row_budget) {
        lemma_fit_count_is_fit(heights, scroll, base - 1);
    }
}

/// Whenever something is visible, the lower indicator is shown exactly when
/// the list goes on past the last visible item.
pub proof fn lemma_more_below_iff_items_remain(heights: Seq<int>, scroll: int, row_budget: int)
    requires
        heights_positive(heights),
        0 <= row_budget,
        0 <= scroll,
        visible_count(heights, scroll, row_budget) > 0,
    ensures
        more_below(heights, scroll, row_budget) <==> scroll + visible_count(
            heights,
            scroll,
            row_budget,
        ) < heights.len(),
{
    let base = base_budget(row_budget, scroll);
    lemma_fit_count_is_fit(heights, scroll, base);
    if more_below(heights, scroll, row_budget) {
        lemma_fit_count_monotone(heights, scroll, base - 1, base);
    }
}

/// Computes the window for one frame in two passes: first what fits once the
/// upper indicator has its row, then, if the list goes on past that, what
/// fits with one more row given to the lower indicator.
pub fn layout<T>(
    commits: &[T],
    expanded: &HashSet<usize>,
    bodies: &HashMap<usize, Vec<String>>,
    scroll: usize,
    row_budget: usize,
) -> (view: ViewportResult)
    ensures
        view.has_more_above == (scroll > 0),
        view.has_more_below == more_below(
            row_heights(commits@.len() as int, state_of(expanded@, bodies@)),
            scroll as int,
            row_budget as int,
        ),
        view.visible_indices@.len() == visible_count(
            row_heights(commits@.len() as int, state_of(expanded@, bodies@)),
            scroll as int,
            row_budget as int,
        ),
        view.visible_indices@.map_values(|i: usize| i as int) == index_run(
            scroll as int,
            view.visible_indices@.len() as int,
        ),
        view.visible_indices@.len() <= row_budget,
        view.visible_indices@.len() > 0 ==> (view.has_more_below <==> view.visible_indices@.last()
            + 1 < commits@.len()),
{
    let ghost heights = row_heights(commits@.len() as int, state_of(expanded@, bodies@));
    let has_more_above: bool = scroll > 0;
    let base: usize = if has_more_above && row_budget > 0 {
        row_budget - 1
    } else {
        row_budget
    };
    let first = collect_visible(commits, expanded, bodies, scroll, base);
    let has_more_below: bool = first.len() > 0 && first.len() < commits.len() - scroll;
    proof {
        lemma_row_heights_positive(commits@.len() as int, state_of(expanded@, bodies@));
        lemma_window_within_budget(heights, scroll as int, row_budget as int);
        if visible_count(heights, scroll as int, row_budget as int) > 0 {
            lemma_more_below_iff_items_remain(heights, scroll as int, row_budget as int);
        }
    }
    let visible_indices = if has_more_below {
        collect_visible(commits, expanded, bodies, scroll, base - 1)
    } else {
        first
    };
    proof {
        let n = visible_indices@.len() as int;
        if n > 0 {
            assert(visible_indices@.map_values(|i: usize| i as int)[n - 1] == index_run(
                scroll as int,
                n,
            )[n - 1]);
        }
    }
    ViewportResult { visible_indices, has_more_above, has_more_below }
}

/// Where the window starts after the selection has moved to `next`, given
/// whether `next` was visible before the move. Moving above the window
/// realigns it to `next`; moving below it scrolls by one, and by one more
/// when the window stood at the top, to make up for the row that the upper
/// indicator takes from then on.
pub open spec fn scroll_after(scroll: int, next: int, visible: bool) -> int {
    if next < scroll {
        next
    } else if !visible {
        if scroll == 0 {
            2
        } else {
            scroll + 1
        }
    } else {
        scroll
    }
}

/// Whether `index` is one of `indices`.
pub fn contains_index(indices: &Vec<usize>, index: usize) -> (found: bool)
    ensures
        found == indices@.contains(index),
{
    let mut i: usize = 0;
    while i < indices.len()
        invariant
            i <= indices@.len(),
            forall|j: int| 0 <= j < i ==> indices@[j] != index,
        decreases indices@.len() - i,
    {
        if indices[i] == index {
            return true;
        }
        i = i + 1;
    }
    false
}

/// The selected item and the first item of the window.
#[derive(Clone, Copy, Debug, PartialEq, Eq)]
pub struct Cursor {
    pub selected: usize,
    pub scroll: usize,
}

impl Cursor {
    /// A cursor on the first item, with the window at the top of the list.
    pub fn new() -> (cursor: Cursor)
        ensures
            cursor.selected == 0,
            cursor.scroll == 0,
    {
        Cursor { selected: 0, scroll: 0 }
    }

    /// Moves the selection to `next_index` and scrolls as [`scroll_after`]
    /// says, judging visibility by `view`, the window of the frame in which
    /// the move was made.
    pub fn select(&mut self, next_index: usize, view: &ViewportResult)
        requires
            next_index < usize::MAX,
        ensures
            final(self).selected == next_index,
            final(self).scroll == scroll_after(
                old(self).scroll as int,
                next_index as int,
                view.visible_indices@.contains(next_index),
            ),
    {
        self.selected = next_index;
        if next_index < self.scroll {
            self.scroll = next_index;
        } else if !contains_index(&view.visible_indices, next_index) {
            if self.scroll == 0 {
                self.scroll = 2;
            } else {
                self.scroll = self.scroll + 1;
            }
        }
    }
}

} // verus!
