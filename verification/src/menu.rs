//! The menu session: its state and how each intent changes it.

use crate::expansion::{ExpansionState, ExpansionStore};
use crate::input::MenuEvent;
use crate::message::body_of;
use crate::paged_list::{page_due, present, taken, Item, PagedList};
use crate::viewport::{
    base_budget, fit_count, index_run, layout, more_below, row_heights, scroll_after,
    visible_count, Cursor, ViewportResult,
};
use crate::render::{frame_rows, lemma_frame_within_budget, plan_frame, Row};
use vstd::prelude::*;

verus! {

/// Screen rows that the heading above the list takes.
pub const HEADER_ROWS: u16 = 2;

/// Rows left for the list on a screen of `rows` rows.
pub fn row_budget(rows: u16) -> (budget: usize)
    ensures
        budget == if rows >= HEADER_ROWS {
            rows - HEADER_ROWS
        } else {
            0
        },
{
    if rows >= HEADER_ROWS {
        (rows - HEADER_ROWS) as usize
    } else {
        0
    }
}

/// Number of commits to load before the first frame on a screen of `rows`
/// rows: twice the screen's height.
pub fn initial_page_size(rows: u16) -> (count: usize)
    ensures
        count == 2 * rows,
{
    (rows as usize) * 2
}

/// Where a session stands.
#[derive(Clone, Copy, Debug, PartialEq, Eq)]
pub enum Phase {
    /// Waiting for the next intent.
    Running,
    /// Ended with the item at this index chosen.
    Confirmed(usize),
    /// Ended without a choice.
    Cancelled,
}

/// What the front end is to fetch before the next frame.
#[derive(Clone, Copy, Debug, PartialEq, Eq)]
pub enum Request {
    /// Nothing.
    Nothing,
    /// The next page of the history, of this many entries.
    Page(usize),
    /// The full message of the item at this index.
    Message(usize),
}

/// The mathematical content of a [`Menu`].
pub struct MenuState {
    pub items: Seq<Item>,
    pub exhausted: bool,
    pub expansion: ExpansionState,
    pub selected: usize,
    pub scroll: usize,
    pub phase: Phase,
}

impl MenuState {
    /// The selection is an item of the list, and so is a confirmed choice.
    pub open spec fn wf(self) -> bool {
        &&& self.selected < self.items.len()
        &&& self.items.len() <= usize::MAX
        &&& self.expansion.bounded()
        &&& match self.phase {
            Phase::Confirmed(index) => index < self.items.len(),
            _ => true,
        }
    }

    /// The heights of the listed items.
    pub open spec fn heights(self) -> Seq<int> {
        row_heights(self.items.len() as int, self.expansion)
    }

    /// Whether the item at `index` is in the window of a screen with
    /// `row_budget` rows for the list.
    pub open spec fn in_window(self, index: int, row_budget: int) -> bool {
        self.scroll <= index < self.scroll + visible_count(
            self.heights(),
            self.scroll as int,
            row_budget,
        )
    }

    /// The indices in the window of a screen with `row_budget` rows for the
    /// list: a run that starts at `scroll`.
    pub open spec fn visible(self, row_budget: int) -> Seq<usize> {
        Seq::new(
            visible_count(self.heights(), self.scroll as int, row_budget) as nat,
            |i: int| (self.scroll + i) as usize,
        )
    }

    /// The rows of the frame on a screen with `row_budget` rows for the list.
    pub open spec fn frame(self, row_budget: int) -> Seq<Row> {
        frame_rows(
            self.expansion,
            self.visible(row_budget),
            self.scroll > 0,
            more_below(self.heights(), self.scroll as int, row_budget),
            self.selected,
        )
    }

    /// The state after the selection has moved by `delta`. A move that would
    /// leave the list changes nothing. Otherwise the selection moves and the
    /// window follows it as [`scroll_after`] says.
    pub open spec fn moved(self, delta: int, row_budget: int) -> MenuState {
        let next = self.selected + delta;
        if 0 <= next < self.items.len() {
            MenuState {
                selected: next as usize,
                scroll: scroll_after(
                    self.scroll as int,
                    next,
                    self.in_window(next, row_budget),
                ) as usize,
                ..self
            }
        } else {
            self
        }
    }

    /// The state after `event` on a screen with `row_budget` rows for the
    /// list. A session that has ended stays as it is.
    pub open spec fn step(self, event: MenuEvent, row_budget: int) -> MenuState {
        if self.phase != Phase::Running {
            self
        } else {
            match event {
                MenuEvent::Move(delta) => self.moved(delta as int, row_budget),
                MenuEvent::Expand => MenuState {
                    expansion: self.expansion.toggle(self.selected),
                    ..self
                },
                MenuEvent::Collapse => MenuState {
                    expansion: self.expansion.collapse(self.selected),
                    ..self
                },
                MenuEvent::Confirm => MenuState {
                    phase: Phase::Confirmed(self.selected),
                    ..self
                },
                MenuEvent::Quit => MenuState { phase: Phase::Cancelled, ..self },
            }
        }
    }

    /// What `event` asks the front end to fetch: after a move inside the
    /// list, the next page when the new selection is within a screenful of
    /// the end of what is loaded; after an expansion, the message of the
    /// selected item unless its body is cached.
    pub open spec fn request(self, event: MenuEvent, row_budget: int) -> Request {
        if self.phase != Phase::Running {
            Request::Nothing
        } else {
            match event {
                MenuEvent::Move(delta) => {
                    let next = self.selected + delta;
                    if 0 <= next < self.items.len() && page_due(
                        self.items.len() as int,
                        next,
                        row_budget,
                    ) {
                        Request::Page(row_budget as usize)
                    } else {
                        Request::Nothing
                    }
                },
                MenuEvent::Expand => if self.expansion.wants_body(self.selected) {
                    Request::Message(self.selected)
                } else {
                    Request::Nothing
                },
                _ => Request::Nothing,
            }
        }
    }

    /// The state after a page fetched on a request for `count` entries has
    /// arrived.
    pub open spec fn with_page(self, count: int, page: Seq<Option<Item>>) -> MenuState {
        MenuState {
            items: self.items + present(taken(page, count)),
            exhausted: self.exhausted || page.len() < count,
            ..self
        }
    }

    /// The state after the message of the item at `index` has arrived.
    pub open spec fn with_message(self, index: usize, message: Seq<char>) -> MenuState {
        MenuState { expansion: self.expansion.cache(index, body_of(message)), ..self }
    }

    /// The identifier that the session hands to the follow-up action: that
    /// of the confirmed item, and nothing unless an item was confirmed.
    pub open spec fn outcome(self) -> Option<Seq<char>> {
        match self.phase {
            Phase::Confirmed(index) => Some(self.items[index as int].id@),
            _ => None,
        }
    }
}

/// Moving up from the first item changes nothing and asks for nothing.
pub proof fn lemma_move_up_at_top(state: MenuState, row_budget: int)
    requires
        state.selected == 0,
    ensures
        state.step(MenuEvent::Move(-1i32), row_budget) == state,
        state.request(MenuEvent::Move(-1i32), row_budget) == Request::Nothing,
{
}

/// Moving down from the last loaded item changes nothing and asks for
/// nothing: the page that could extend the list was asked for by the move
/// that reached the item.
pub proof fn lemma_move_down_at_end(state: MenuState, row_budget: int)
    requires
        state.selected + 1 == state.items.len(),
    ensures
        state.step(MenuEvent::Move(1i32), row_budget) == state,
        state.request(MenuEvent::Move(1i32), row_budget) == Request::Nothing,
{
}

/// A move that reaches the last loaded item asks for the next page, on any
/// screen that has a row for the list.
pub proof fn lemma_reaching_end_asks_for_page(state: MenuState, delta: i32, row_budget: int)
    requires
        state.wf(),
        state.phase == Phase::Running,
        0 <= state.selected + delta,
        state.selected + delta + 1 == state.items.len(),
        1 <= row_budget <= usize::MAX,
    ensures
        state.request(MenuEvent::Move(delta), row_budget) == Request::Page(row_budget as usize),
        state.step(MenuEvent::Move(delta), row_budget).selected == state.selected + delta,
{
}

/// A page from an exhausted source, one without entries, leaves the list
/// and the cursor as they were.
pub proof fn lemma_empty_page_changes_nothing(state: MenuState, count: int)
    ensures
        state.with_page(count, Seq::empty()).items == state.items,
        state.with_page(count, Seq::empty()).selected == state.selected,
        state.with_page(count, Seq::empty()).scroll == state.scroll,
        state.with_page(count, Seq::empty()).exhausted == (state.exhausted || count > 0),
{
    assert(taken(Seq::<Option<Item>>::empty(), count) =~= Seq::empty());
    assert(state.items + present(Seq::<Option<Item>>::empty()) =~= state.items);
}

/// A page only ever extends the list: every item stays at its index.
pub proof fn lemma_page_keeps_items(state: MenuState, count: int, page: Seq<Option<Item>>)
    ensures
        state.with_page(count, page).items.len() >= state.items.len(),
        forall|i: int|
            0 <= i < state.items.len() ==> state.with_page(count, page).items[i] == state.items[i],
{
}

/// A session that was left yields no identifier, whatever happens after.
pub proof fn lemma_quit_yields_nothing(state: MenuState, later: MenuEvent, row_budget: int)
    requires
        state.phase == Phase::Running,
    ensures
        state.step(MenuEvent::Quit, row_budget).outcome() is None,
        state.step(MenuEvent::Quit, row_budget).step(later, row_budget) == state.step(
            MenuEvent::Quit,
            row_budget,
        ),
        state.step(MenuEvent::Quit, row_budget).request(later, row_budget) == Request::Nothing,
{
}

/// Confirming yields the identifier of the selected item.
pub proof fn lemma_confirm_yields_selected(state: MenuState, row_budget: int)
    requires
        state.phase == Phase::Running,
    ensures
        state.step(MenuEvent::Confirm, row_budget).outcome() == Some(
            state.items[state.selected as int].id@,
        ),
{
}

/// Among items of one row each, where `scroll` is inside the list, the
/// number that fits is the budget or what is left of the list, whichever is
/// less.
pub proof fn lemma_fit_count_unit_heights(heights: Seq<int>, scroll: int, limit: int)
    requires
        forall|i: int| 0 <= i < heights.len() ==> #[trigger] heights[i] == 1,
        0 <= scroll <= heights.len(),
    ensures
        fit_count(heights, scroll, limit) == if limit <= 0 {
            0
        } else if limit <= heights.len() - scroll {
            limit
        } else {
            heights.len() - scroll
        },
    decreases heights.len() - scroll,
{
    if scroll < heights.len() && heights[scroll] <= limit {
        lemma_fit_count_unit_heights(heights, scroll + 1, limit - 1);
    }
}

/// While every item takes one row and the screen has at least three rows
/// for the list, a step up or down from a visible selection ends with the
/// selection visible again, at or below the start of the window.
pub proof fn lemma_selection_stays_visible(state: MenuState, delta: i32, row_budget: int)
    requires
        state.wf(),
        state.phase == Phase::Running,
        forall|i: int| 0 <= i < state.heights().len() ==> #[trigger] state.heights()[i] == 1,
        3 <= row_budget,
        delta == 1 || delta == -1,
        state.in_window(state.selected as int, row_budget),
    ensures
        ({
            let after = state.step(MenuEvent::Move(delta), row_budget);
            after.in_window(after.selected as int, row_budget) && after.scroll <= after.selected
        }),
{
    let heights = state.heights();
    let after = state.step(MenuEvent::Move(delta), row_budget);
    assert(after.heights() == heights);
    let scroll = state.scroll as int;
    let base = base_budget(row_budget, scroll);
    lemma_fit_count_unit_heights(heights, scroll, base);
    lemma_fit_count_unit_heights(heights, scroll, base - 1);
    let next = after.scroll as int;
    if next <= heights.len() {
        let next_base = base_budget(row_budget, next);
        lemma_fit_count_unit_heights(heights, next, next_base);
        lemma_fit_count_unit_heights(heights, next, next_base - 1);
    }
}

/// One interactive session over a list of commits.
pub struct Menu {
    list: PagedList,
    store: ExpansionStore,
    cursor: Cursor,
    phase: Phase,
}

impl View for Menu {
    type V = MenuState;

    closed spec fn view(&self) -> MenuState {
        MenuState {
            items: self.list@,
            exhausted: self.list.exhausted(),
            expansion: self.store@,
            selected: self.cursor.selected,
            scroll: self.cursor.scroll,
            phase: self.phase,
        }
    }
}

impl Menu {
    /// The invariant of a session: see [`MenuState::wf`].
    pub open spec fn wf(&self) -> bool {
        self@.wf()
    }

    /// Starts a session over `list`, with the first item selected, the
    /// window at the top and nothing expanded. There is no session over an
    /// empty list.
    pub fn new(list: PagedList) -> (menu: Option<Menu>)
        ensures
            menu is Some <==> list@.len() > 0,
            menu is Some ==> menu->0.wf() && menu->0@ == (MenuState {
                items: list@,
                exhausted: list.exhausted(),
                expansion: ExpansionState::empty(),
                selected: 0,
                scroll: 0,
                phase: Phase::Running,
            }),
    {
        if list.is_empty() {
            None
        } else {
            proof {
                list.lemma_len_fits();
            }
            Some(
                Menu {
                    list,
                    store: ExpansionStore::new(),
                    cursor: Cursor::new(),
                    phase: Phase::Running,
                },
            )
        }
    }

    /// The list of commits.
    pub fn list(&self) -> (list: &PagedList)
        ensures
            list@ == self@.items,
            list.exhausted() == self@.exhausted,
    {
        &self.list
    }

    /// The expansion state.
    pub fn store(&self) -> (store: &ExpansionStore)
        ensures
            store@ == self@.expansion,
    {
        &self.store
    }

    /// The selection and the start of the window.
    pub fn cursor(&self) -> (cursor: Cursor)
        ensures
            cursor.selected == self@.selected,
            cursor.scroll == self@.scroll,
    {
        self.cursor
    }

    /// Where the session stands.
    pub fn phase(&self) -> (phase: Phase)
        ensures
            phase == self@.phase,
    {
        self.phase
    }

    /// The identifier of the confirmed item, for the follow-up action; `None`
    /// while the session runs and after it was cancelled.
    pub fn outcome(&self) -> (id: Option<&str>)
        requires
            self.wf(),
        ensures
            id is Some <==> self@.outcome() is Some,
            id is Some ==> id->0@ == self@.outcome()->0,
    {
        match self.phase {
            Phase::Confirmed(index) => {
                match self.list.get(index) {
                    Some(item) => Some(item.id.as_str()),
                    None => None,
                }
            },
            _ => None,
        }
    }

    /// The window of the current frame on a screen with `row_budget` rows
    /// for the list.
    pub fn window(&self, row_budget: usize) -> (view: ViewportResult)
        ensures
            view.has_more_above == (self@.scroll > 0),
            view.has_more_below == more_below(
                self@.heights(),
                self@.scroll as int,
                row_budget as int,
            ),
            view.visible_indices@.len() == visible_count(
                self@.heights(),
                self@.scroll as int,
                row_budget as int,
            ),
            view.visible_indices@.map_values(|i: usize| i as int) == index_run(
                self@.scroll as int,
                view.visible_indices@.len() as int,
            ),
            forall|index: usize|
                view.visible_indices@.contains(index) <==> self@.in_window(
                    index as int,
                    row_budget as int,
                ),
            view.visible_indices@.len() <= row_budget,
            view.visible_indices@.len() > 0 ==> (view.has_more_below
                <==> view.visible_indices@.last() + 1 < self@.items.len()),
    {
        let view = layout(
            self.list.items(),
            self.store.expanded(),
            self.store.bodies(),
            self.cursor.scroll,
            row_budget,
        );
        proof {
            let shown = view.visible_indices@;
            let run = index_run(self@.scroll as int, shown.len() as int);
            assert forall|index: usize| shown.contains(index) <==> self@.in_window(
                index as int,
                row_budget as int,
            ) by {
                if shown.contains(index) {
                    let k = choose|k: int| 0 <= k < shown.len() && shown[k] == index;
                    assert(shown.map_values(|i: usize| i as int)[k] == run[k]);
                }
                if self@.in_window(index as int, row_budget as int) {
                    let k = index - self@.scroll;
                    assert(shown.map_values(|i: usize| i as int)[k] == run[k]);
                    assert(shown[k] == index);
                }
            }
        }
        view
    }

    /// The rows of the current frame on a screen with `row_budget` rows for
    /// the list, top to bottom.
    pub fn frame(&self, row_budget: usize) -> (rows: Vec<Row>)
        ensures
            rows@ == self@.frame(row_budget as int),
            row_budget > 0 || self@.scroll == 0 ==> rows@.len() <= row_budget,
    {
        let view = self.window(row_budget);
        let rows = plan_frame(&view, &self.store, self.cursor.selected);
        proof {
            let state = self@;
            assert(view.visible_indices@ =~= state.visible(row_budget as int)) by {
                let shown = view.visible_indices@;
                let run = index_run(state.scroll as int, shown.len() as int);
                assert forall|k: int| 0 <= k < shown.len() implies shown[k]
                    == state.visible(row_budget as int)[k] by {
                    assert(shown.map_values(|i: usize| i as int)[k] == run[k]);
                }
            }
            if row_budget > 0 || state.scroll == 0 {
                lemma_frame_within_budget(
                    state.expansion,
                    view.visible_indices@,
                    state.selected,
                    state.items.len() as int,
                    state.scroll as int,
                    row_budget as int,
                );
            }
        }
        rows
    }

    /// Applies one intent on a screen with `row_budget` rows for the list and
    /// says what is to be fetched before the next frame.
    pub fn handle(&mut self, event: MenuEvent, row_budget: usize) -> (request: Request)
        requires
            old(self).wf(),
        ensures
            final(self)@ == old(self)@.step(event, row_budget as int),
            request == old(self)@.request(event, row_budget as int),
            final(self).wf(),
    {
        match self.phase {
            Phase::Running => {},
            _ => {
                return Request::Nothing;
            },
        }
        match event {
            MenuEvent::Move(delta) => {
                let len: usize = self.list.len();
                let selected: usize = self.cursor.selected;
                let target: Option<usize> = if delta >= 0 {
                    let forward: usize = delta as usize;
                    if forward < len - selected {
                        Some(selected + forward)
                    } else {
                        None
                    }
                } else {
                    let back: usize = (-(delta as i64)) as usize;
                    if back <= selected {
                        Some(selected - back)
                    } else {
                        None
                    }
                };
                match target {
                    Some(next) => {
                        let view = self.window(row_budget);
                        self.cursor.select(next, &view);
                        match self.list.ensure_capacity(next, row_budget) {
                            Some(count) => Request::Page(count),
                            None => Request::Nothing,
                        }
                    },
                    None => Request::Nothing,
                }
            },
            MenuEvent::Expand => {
                if self.store.toggle(self.cursor.selected) {
                    Request::Message(self.cursor.selected)
                } else {
                    Request::Nothing
                }
            },
            MenuEvent::Collapse => {
                self.store.collapse(self.cursor.selected);
                Request::Nothing
            },
            MenuEvent::Confirm => {
                self.phase = Phase::Confirmed(self.cursor.selected);
                Request::Nothing
            },
            MenuEvent::Quit => {
                self.phase = Phase::Cancelled;
                Request::Nothing
            },
        }
    }

    /// Takes in a page that was fetched on a request for `count` entries.
    pub fn supply_page(&mut self, count: usize, page: Vec<Option<Item>>)
        requires
            old(self).wf(),
        ensures
            final(self)@ == old(self)@.with_page(count as int, page@),
            final(self).wf(),
    {
        self.list.grow(count, page);
    }

    /// Takes in the full message of the item at `index`.
    pub fn supply_message(&mut self, index: usize, message: &str)
        requires
            old(self).wf(),
        ensures
            final(self)@ == old(self)@.with_message(index, message@),
            final(self).wf(),
    {
        self.store.cache_body(index, message);
    }
}

} // verus!
