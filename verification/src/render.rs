//! The rows of one frame, planned for the front end to draw.

use crate::expansion::{ExpansionState, ExpansionStore};
use crate::viewport::{
    base_budget, heights_positive, index_run, lemma_window_within_budget, more_below,
    row_heights, rows_used, visible_count, ViewportResult,
};
use vstd::prelude::*;

verus! {

/// One screen row of the list area. `newline` says whether the row ends with
/// a line break: the row that ends the frame has none, so that drawing it
/// does not scroll the screen.
#[derive(Clone, Copy, Debug, PartialEq, Eq)]
pub enum Row {
    /// The indicator that items are hidden above the window.
    MoreAbove,
    /// The summary line of the item at `index`.
    Summary { index: usize, selected: bool, newline: bool },
    /// Line `line` of the cached body of the item at `index`.
    Body { index: usize, line: usize, newline: bool },
    /// The indicator that items are hidden below the window.
    MoreBelow,
}

/// The rows of one visible item: its summary and, while it is expanded and
/// its body is cached, the lines of the body. `last` says that the item is
/// the last of the window. A summary ends with a line break unless it is the
/// last row of an item that is collapsed, last in the window and not
/// followed by the lower indicator; a body line ends with one unless it ends
/// the last item and no indicator follows.
pub open spec fn item_rows(
    state: ExpansionState,
    index: usize,
    selected: usize,
    last: bool,
    below: bool,
) -> Seq<Row> {
    let summary = Row::Summary {
        index,
        selected: index == selected,
        newline: state.expanded.contains(index) || !last || below,
    };
    if state.expanded.contains(index) && state.bodies.contains_key(index) {
        seq![summary] + Seq::new(
            state.bodies[index].len(),
            |line: int|
                Row::Body {
                    index,
                    line: line as usize,
                    newline: !(last && line + 1 == state.bodies[index].len()) || below,
                },
        )
    } else {
        seq![summary]
    }
}

/// The rows of the first `count` visible items.
pub open spec fn list_rows(
    state: ExpansionState,
    visible: Seq<usize>,
    selected: usize,
    below: bool,
    count: int,
) -> Seq<Row>
    decreases count,
{
    if count <= 0 || count > visible.len() {
        Seq::empty()
    } else {
        list_rows(state, visible, selected, below, count - 1) + item_rows(
            state,
            visible[count - 1],
            selected,
            count == visible.len(),
            below,
        )
    }
}

/// The rows of a frame, top to bottom: the upper indicator if it is shown,
/// the rows of the visible items, the lower indicator if it is shown.
pub open spec fn frame_rows(
    state: ExpansionState,
    visible: Seq<usize>,
    above: bool,
    below: bool,
    selected: usize,
) -> Seq<Row> {
    (if above {
        seq![Row::MoreAbove]
    } else {
        Seq::empty()
    }) + list_rows(state, visible, selected, below, visible.len() as int) + (if below {
        seq![Row::MoreBelow]
    } else {
        Seq::empty()
    })
}

/// Taking one more item adds its height to the rows used.
pub proof fn lemma_rows_used_extend(heights: Seq<int>, from: int, count: int)
    requires
        0 <= from,
        0 <= count,
        from + count < heights.len(),
    ensures
        rows_used(heights, from, count + 1) == rows_used(heights, from, count) + heights[from
            + count],
    decreases count,
{
    if count > 0 {
        lemma_rows_used_extend(heights, from + 1, count - 1);
    } else {
        assert(rows_used(heights, from + 1, 0) == 0);
    }
}

/// The items of a window take as many rows as their heights add up to.
pub proof fn lemma_list_rows_len(
    state: ExpansionState,
    visible: Seq<usize>,
    selected: usize,
    below: bool,
    total: int,
    scroll: int,
    count: int,
)
    requires
        0 <= scroll,
        0 <= count <= visible.len(),
        scroll + visible.len() <= total,
        visible.map_values(|i: usize| i as int) == index_run(scroll, visible.len() as int),
    ensures
        list_rows(state, visible, selected, below, count).len() == rows_used(
            row_heights(total, state),
            scroll,
            count,
        ),
    decreases count,
{
    if count > 0 {
        lemma_list_rows_len(state, visible, selected, below, total, scroll, count - 1);
        lemma_rows_used_extend(row_heights(total, state), scroll, count - 1);
        assert(visible.map_values(|i: usize| i as int)[count - 1] == index_run(
            scroll,
            visible.len() as int,
        )[count - 1]);
    }
}

/// A frame laid out for a screen with `row_budget` rows for the list takes
/// no more rows than that, provided the screen has a row for the list or the
/// window stands at the top.
pub proof fn lemma_frame_within_budget(
    state: ExpansionState,
    visible: Seq<usize>,
    selected: usize,
    total: int,
    scroll: int,
    row_budget: int,
)
    requires
        0 <= scroll,
        0 <= total,
        0 <= row_budget,
        row_budget > 0 || scroll == 0,
        visible.len() == visible_count(row_heights(total, state), scroll, row_budget),
        visible.map_values(|i: usize| i as int) == index_run(scroll, visible.len() as int),
    ensures
        frame_rows(
            state,
            visible,
            scroll > 0,
            more_below(row_heights(total, state), scroll, row_budget),
            selected,
        ).len() <= row_budget,
{
    let heights = row_heights(total, state);
    let below = more_below(heights, scroll, row_budget);
    assert(heights_positive(heights));
    lemma_window_within_budget(heights, scroll, row_budget);
    crate::viewport::lemma_fit_count_is_fit(heights, scroll, base_budget(row_budget, scroll));
    if below {
        crate::viewport::lemma_fit_count_is_fit(
            heights,
            scroll,
            base_budget(row_budget, scroll) - 1,
        );
    }
    if visible.len() > 0 {
        lemma_list_rows_len(state, visible, selected, below, total, scroll, visible.len() as int);
    }
}

/// Plans the rows of the frame that shows `view`, with the item at
/// `selected` marked.
pub fn plan_frame(view: &ViewportResult, store: &ExpansionStore, selected: usize) -> (rows: Vec<
    Row,
>)
    ensures
        rows@ == frame_rows(
            store@,
            view.visible_indices@,
            view.has_more_above,
            view.has_more_below,
            selected,
        ),
{
    let ghost state = store@;
    let ghost visible = view.visible_indices@;
    let below: bool = view.has_more_below;
    let mut rows: Vec<Row> = Vec::new();
    if view.has_more_above {
        rows.push(Row::MoreAbove);
    }
    let ghost head = rows@;
    let count: usize = view.visible_indices.len();
    let mut at: usize = 0;
    while at < count
        invariant
            state == store@,
            visible == view.visible_indices@,
            count == visible.len(),
            at <= count,
            rows@ == head + list_rows(state, visible, selected, below, at as int),
        decreases count - at,
    {
        let index: usize = view.visible_indices[at];
        let last: bool = at + 1 == count;
        let expanded: bool = store.is_expanded(index);
        let ghost before = rows@;
        let ghost item = item_rows(state, index, selected, last, below);
        rows.push(
            Row::Summary { index, selected: index == selected, newline: expanded || !last || below },
        );
        if expanded {
            match store.body(index) {
                Some(body) => {
                    let lines: usize = body.len();
                    let mut line: usize = 0;
                    while line < lines
                        invariant
                            line <= lines,
                            lines == state.bodies[index].len(),
                            state.expanded.contains(index),
                            state.bodies.contains_key(index),
                            item == item_rows(state, index, selected, last, below),
                            rows@ == before + item.take(line + 1),
                        decreases lines - line,
                    {
                        rows.push(
                            Row::Body {
                                index,
                                line,
                                newline: !(last && line + 1 == lines) || below,
                            },
                        );
                        assert(item.take(line + 2) =~= item.take(line + 1).push(item[line + 1]));
                        line = line + 1;
                    }
                    assert(item.take(lines + 1) =~= item);
                },
                None => {
                    assert(rows@ =~= before + item);
                },
            }
        } else {
            assert(rows@ =~= before + item);
        }
        assert(rows@ =~= head + list_rows(state, visible, selected, below, at + 1));
        at = at + 1;
    }
    if below {
        rows.push(Row::MoreBelow);
    }
    assert(rows@ =~= frame_rows(
        state,
        visible,
        view.has_more_above,
        view.has_more_below,
        selected,
    ));
    rows
}

} // verus!
