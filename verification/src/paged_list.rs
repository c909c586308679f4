//! The list of commits, loaded page by page.

use vstd::prelude::*;
use vstd::std_specs::iter::IteratorSpec;
use vstd::string::StrSliceExecFns;

verus! {

/// Number of characters of a full commit identifier that make its short form.
pub const SHORT_ID_LEN: usize = 7;

/// The short form of an identifier: its first [`SHORT_ID_LEN`] characters,
/// or all of it where it has fewer.
pub open spec fn short_form(full_id: Seq<char>) -> Seq<char> {
    if full_id.len() <= SHORT_ID_LEN {
        full_id
    } else {
        full_id.take(SHORT_ID_LEN as int)
    }
}

/// Shortens a full commit identifier to the form under which it is listed.
pub fn short_id(full_id: &str) -> (short: String)
    ensures
        short@ == short_form(full_id@),
{
    let n: usize = full_id.unicode_len();
    let keep: usize = if n <= SHORT_ID_LEN {
        n
    } else {
        SHORT_ID_LEN
    };
    let short = full_id.substring_char(0, keep).to_owned();
    assert(short@ =~= short_form(full_id@));
    short
}

/// One entry of the list: a commit's short identifier and the first line of
/// its message.
#[derive(Clone, Debug, PartialEq, Eq)]
pub struct Item {
    pub id: String,
    pub summary: String,
}

impl Item {
    /// The entry for the commit with identifier `full_id` and summary line
    /// `summary`.
    pub fn new(full_id: &str, summary: &str) -> (item: Item)
        ensures
            item.id@ == short_form(full_id@),
            item.summary@ == summary@,
    {
        Item { id: short_id(full_id), summary: summary.to_owned() }
    }
}

/// The entries of a fetched page that are present, in page order. An entry
/// is absent where the commit behind it could not be read.
pub open spec fn present(page: Seq<Option<Item>>) -> Seq<Item>
    decreases page.len(),
{
    if page.len() == 0 {
        Seq::empty()
    } else {
        let before = present(page.drop_last());
        match page.last() {
            Some(item) => before.push(item),
            None => before,
        }
    }
}

/// The part of a fetched page that a request for `count` entries takes: its
/// first `count` entries, or all of it where it has fewer.
pub open spec fn taken(page: Seq<Option<Item>>, count: int) -> Seq<Option<Item>> {
    if count <= 0 {
        Seq::empty()
    } else if count >= page.len() {
        page
    } else {
        page.take(count)
    }
}

/// No more entries are present than the page has.
pub proof fn lemma_present_len(page: Seq<Option<Item>>)
    ensures
        present(page).len() <= page.len(),
    decreases page.len(),
{
    if page.len() > 0 {
        lemma_present_len(page.drop_last());
    }
}

/// Whether a cursor at `past_index` is within `page_size` items of the end
/// of a list of `len` items, so that the next page is due.
pub open spec fn page_due(len: int, past_index: int, page_size: int) -> bool {
    past_index + page_size >= len
}

/// The commits loaded so far, in history order. The list only ever grows at
/// its end: an item, once at an index, stays there unchanged.
pub struct PagedList {
    items: Vec<Item>,
    exhausted: bool,
}

impl View for PagedList {
    type V = Seq<Item>;

    closed spec fn view(&self) -> Seq<Item> {
        self.items@
    }
}

impl PagedList {
    /// Whether some page came back shorter than asked for, which is how the
    /// source says that the history has no more commits.
    pub closed spec fn exhausted(&self) -> bool {
        self.exhausted
    }

    /// The list is held in memory, so its length is a `usize`.
    pub proof fn lemma_len_fits(&self)
        ensures
            self@.len() <= usize::MAX,
    {
        assert(self.items.len() == self.items@.len());
    }

    /// An empty list over a source that is not known to be exhausted.
    pub fn new() -> (list: PagedList)
        ensures
            list@ == Seq::<Item>::empty(),
            !list.exhausted(),
    {
        PagedList { items: Vec::new(), exhausted: false }
    }

    /// Number of items loaded.
    pub fn len(&self) -> (n: usize)
        ensures
            n == self@.len(),
    {
        self.items.len()
    }

    /// Whether nothing is loaded.
    pub fn is_empty(&self) -> (empty: bool)
        ensures
            empty == (self@.len() == 0),
    {
        self.items.len() == 0
    }

    /// Whether the source has signalled its end.
    pub fn is_exhausted(&self) -> (done: bool)
        ensures
            done == self.exhausted(),
    {
        self.exhausted
    }

    /// The item at `index`, if that many are loaded.
    pub fn get(&self, index: usize) -> (item: Option<&Item>)
        ensures
            index < self@.len() ==> item == Some(&self@[index as int]),
            index >= self@.len() ==> item is None,
    {
        if index < self.items.len() {
            Some(&self.items[index])
        } else {
            None
        }
    }

    /// The loaded items, in order.
    pub fn items(&self) -> (items: &[Item])
        ensures
            items@ == self@,
    {
        self.items.as_slice()
    }

    /// Says whether the next page is due for a cursor at `past_index`, and
    /// how many entries to ask the source for: `page_size`, whenever
    /// `past_index + page_size` reaches the end of what is loaded.
    pub fn ensure_capacity(&self, past_index: usize, page_size: usize) -> (request: Option<usize>)
        ensures
            page_due(self@.len() as int, past_index as int, page_size as int) ==> request == Some(
                page_size,
            ),
            !page_due(self@.len() as int, past_index as int, page_size as int) ==> request is None,
    {
        let len: usize = self.items.len();
        if page_size >= len || past_index >= len - page_size {
            Some(page_size)
        } else {
            None
        }
    }

    /// Appends a page that was fetched on a request for `count` entries: of
    /// its first `count` entries, those that are present, in order. A page
    /// with fewer than `count` entries marks the source as exhausted. Returns
    /// the number of items appended.
    pub fn grow(&mut self, count: usize, page: Vec<Option<Item>>) -> (added: usize)
        ensures
            final(self)@ == old(self)@ + present(taken(page@, count as int)),
            final(self).exhausted() == (old(self).exhausted() || page@.len() < count),
            added == final(self)@.len() - old(self)@.len(),
            old(self)@.len() <= final(self)@.len() <= old(self)@.len() + count,
            final(self)@.len() <= usize::MAX,
            final(self)@.take(old(self)@.len() as int) == old(self)@,
    {
        let ghost whole = page@;
        let mut page = page;
        if page.len() < count {
            self.exhausted = true;
        }
        page.truncate(count);
        let ghost used = page@;
        let entries: usize = page.len();
        assert(used =~= taken(whole, count as int));
        let mut added: usize = 0;
        for entry in it: page
            invariant
                it.seq() == used,
                used.len() == entries,
                self.exhausted == (old(self).exhausted || whole.len() < count),
                self.items@ == old(self).items@ + present(used.take(it.index() as int)),
                added == present(used.take(it.index() as int)).len(),
        {
            proof {
                let i = it.index() as int;
                assert(used.take(i + 1).drop_last() =~= used.take(i));
                lemma_present_len(used.take(i));
            }
            match entry {
                Some(item) => {
                    self.items.push(item);
                    added = added + 1;
                    assert(self.items@ =~= old(self).items@ + present(
                        used.take(it.index() + 1),
                    ));
                },
                None => {},
            }
        }
        proof {
            assert(used.take(used.len() as int) =~= used);
            lemma_present_len(used);
            assert(self.items.len() == self.items@.len());
            assert(self.items@.take(old(self).items@.len() as int) =~= old(self).items@);
        }
        added
    }
}

} // verus!
