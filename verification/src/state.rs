//! The state that the panes share: the list of books, the list of pages of
//! the selected book, the text of the selected page, the focus and the
//! status line.

use crate::dnote::{book_names, page_views, DnoteBook, DnotePage, NoteId, PageView};
use crate::list::{after_next, after_previous, in_range, place, ListState, StatefulList};
use crate::mode::Mode;
use vstd::prelude::*;

verus! {

/// The index of the first item of `s` that equals `x`.
pub open spec fn first_position<A>(s: Seq<A>, x: A) -> Option<int>
    decreases s.len(),
{
    if s.len() == 0 {
        None
    } else if s.first() == x {
        Some(0)
    } else {
        match first_position(s.drop_first(), x) {
            Some(i) => Some(i + 1),
            None => None,
        }
    }
}

/// The first position of `x` is the index where `x` stands and before which
/// it does not stand.
pub proof fn lemma_first_position_found<A>(s: Seq<A>, x: A, k: int)
    requires
        0 <= k < s.len(),
        s[k] == x,
        forall|j: int| 0 <= j < k ==> s[j] != x,
    ensures
        first_position(s, x) == Some(k),
    decreases k,
{
    if k > 0 {
        let t = s.drop_first();
        assert forall|j: int| 0 <= j < k - 1 implies t[j] != x by {
            assert(t[j] == s[j + 1]);
        }
        lemma_first_position_found(t, x, k - 1);
    }
}

/// What does not occur has no first position.
pub proof fn lemma_first_position_absent<A>(s: Seq<A>, x: A)
    requires
        forall|j: int| 0 <= j < s.len() ==> s[j] != x,
    ensures
        first_position(s, x) is None,
    decreases s.len(),
{
    if s.len() > 0 {
        let t = s.drop_first();
        assert forall|j: int| 0 <= j < t.len() implies t[j] != x by {
            assert(t[j] == s[j + 1]);
        }
        lemma_first_position_absent(t, x);
    }
}

/// The identifiers of a list of pages.
pub open spec fn page_ids(pages: Seq<PageView>) -> Seq<NoteId> {
    Seq::new(pages.len(), |i: int| pages[i].id)
}

/// Whether a page with identifier `id` is among `pages`.
pub open spec fn has_page(pages: Seq<PageView>, id: NoteId) -> bool {
    exists|i: int| 0 <= i < pages.len() && (#[trigger] pages[i]).id == id
}

/// A list of pages after one fetched page was brought in: every page with
/// the identifier of the fetched page takes its summary and stays where it
/// is; if there is no such page, the fetched page is added at the end.
pub open spec fn upserted(pages: Seq<PageView>, fetched: PageView) -> Seq<PageView> {
    if has_page(pages, fetched.id) {
        Seq::new(
            pages.len(),
            |i: int|
                if pages[i].id == fetched.id {
                    fetched
                } else {
                    pages[i]
                },
        )
    } else {
        pages.push(fetched)
    }
}

/// A list of pages after a fetched list was brought in, page by page in the
/// order in which they were fetched.
pub open spec fn reconciled(pages: Seq<PageView>, fetched: Seq<PageView>) -> Seq<PageView>
    decreases fetched.len(),
{
    if fetched.len() == 0 {
        pages
    } else {
        upserted(reconciled(pages, fetched.drop_last()), fetched.last())
    }
}

/// Bringing in fetched pages removes no page and moves none: the list keeps
/// its pages, by identifier, at their indices, and grows only at its end.
pub proof fn lemma_reconciled_keeps_positions(pages: Seq<PageView>, fetched: Seq<PageView>)
    ensures
        reconciled(pages, fetched).len() >= pages.len(),
        forall|i: int|
            0 <= i < pages.len() ==> (#[trigger] reconciled(pages, fetched)[i]).id == pages[i].id,
    decreases fetched.len(),
{
    if fetched.len() > 0 {
        lemma_reconciled_keeps_positions(pages, fetched.drop_last());
    }
}

/// A page that the fetched list does not name is left untouched.
pub proof fn lemma_reconciled_leaves_unnamed(
    pages: Seq<PageView>,
    fetched: Seq<PageView>,
    i: int,
)
    requires
        0 <= i < pages.len(),
        !has_page(fetched, pages[i].id),
    ensures
        i < reconciled(pages, fetched).len(),
        reconciled(pages, fetched)[i] == pages[i],
    decreases fetched.len(),
{
    if fetched.len() > 0 {
        let init = fetched.drop_last();
        assert forall|j: int| 0 <= j < init.len() implies (#[trigger] init[j]).id
            != pages[i].id by {
            assert(init[j] == fetched[j]);
        }
        lemma_reconciled_leaves_unnamed(pages, init, i);
        lemma_reconciled_keeps_positions(pages, init);
        assert(fetched[fetched.len() - 1].id != pages[i].id);
    }
}

/// Every fetched page is in the list afterwards, and a page that the fetched
/// list names has the summary that the last fetched page of that identifier
/// gives it.
pub proof fn lemma_reconciled_takes_fetched(pages: Seq<PageView>, fetched: Seq<PageView>, k: int)
    requires
        0 <= k < fetched.len(),
        forall|j: int| k < j < fetched.len() ==> (#[trigger] fetched[j]).id != fetched[k].id,
    ensures
        has_page(reconciled(pages, fetched), fetched[k].id),
        forall|i: int|
            0 <= i < reconciled(pages, fetched).len() && (#[trigger] reconciled(
                pages,
                fetched,
            )[i]).id == fetched[k].id ==> reconciled(pages, fetched)[i] == fetched[k],
    decreases fetched.len(),
{
    let init = fetched.drop_last();
    let before = reconciled(pages, init);
    let last = fetched.last();
    let after = reconciled(pages, fetched);
    if k == fetched.len() - 1 {
        if has_page(before, last.id) {
            let w = choose|i: int| 0 <= i < before.len() && (#[trigger] before[i]).id == last.id;
            assert(after[w].id == last.id);
        } else {
            assert(after[before.len() as int].id == last.id);
            assert forall|i: int| 0 <= i < after.len() && (#[trigger] after[i]).id
                == last.id implies after[i] == last by {
                if i < before.len() {
                    assert(before[i].id != last.id);
                }
            }
        }
    } else {
        assert(init[k] == fetched[k]);
        assert forall|j: int| k < j < init.len() implies (#[trigger] init[j]).id
            != init[k].id by {
            assert(init[j] == fetched[j]);
        }
        lemma_reconciled_takes_fetched(pages, init, k);
        assert(last.id != fetched[k].id);
        let w = choose|i: int| 0 <= i < before.len() && (#[trigger] before[i]).id == fetched[k].id;
        assert(after[w].id == fetched[k].id);
        assert forall|i: int| 0 <= i < after.len() && (#[trigger] after[i]).id
            == fetched[k].id implies after[i] == fetched[k] by {
            if i < before.len() {
                assert(before[i].id == fetched[k].id);
            }
        }
    }
}

/// Bringing in fetched pages invents nothing: every page of the list
/// afterwards has the identifier of a page that was in the list or of a page
/// that was fetched, and the list has grown by no more than was fetched.
pub proof fn lemma_reconciled_has_known_pages(pages: Seq<PageView>, fetched: Seq<PageView>)
    ensures
        reconciled(pages, fetched).len() <= pages.len() + fetched.len(),
        forall|i: int|
            0 <= i < reconciled(pages, fetched).len() ==> has_page(
                pages,
                (#[trigger] reconciled(pages, fetched)[i]).id,
            ) || has_page(fetched, reconciled(pages, fetched)[i].id),
    decreases fetched.len(),
{
    let after = reconciled(pages, fetched);
    if fetched.len() == 0 {
        assert forall|i: int| 0 <= i < after.len() implies has_page(
            pages,
            (#[trigger] after[i]).id,
        ) by {
            assert(pages[i].id == after[i].id);
        }
    } else {
        let init = fetched.drop_last();
        let before = reconciled(pages, init);
        let last = fetched.last();
        lemma_reconciled_has_known_pages(pages, init);
        assert forall|i: int| 0 <= i < after.len() implies has_page(
            pages,
            (#[trigger] after[i]).id,
        ) || has_page(fetched, after[i].id) by {
            if after[i].id == last.id {
                assert(fetched[fetched.len() - 1].id == last.id);
            } else {
                assert(i < before.len());
                assert(after[i].id == before[i].id);
                if has_page(init, before[i].id) {
                    let j = choose|j: int| 0 <= j < init.len() && (#[trigger] init[j]).id
                        == before[i].id;
                    assert(fetched[j].id == before[i].id);
                }
            }
        }
    }
}

/// Brings one fetched page into a list of pages.
pub fn upsert(pages: &mut Vec<DnotePage>, fetched: &DnotePage)
    ensures
        page_views(final(pages)@) == upserted(page_views(old(pages)@), fetched@),
{
    let ghost before = page_views(pages@);
    let n = pages.len();
    let mut found = false;
    let mut i: usize = 0;
    while i < n
        invariant
            n == pages@.len(),
            n == before.len(),
            i <= n,
            found <==> exists|k: int| 0 <= k < i && (#[trigger] before[k]).id == fetched@.id,
            forall|k: int|
                0 <= k < i ==> (#[trigger] pages@[k])@ == if before[k].id == fetched@.id {
                    fetched@
                } else {
                    before[k]
                },
            forall|k: int| i <= k < n ==> (#[trigger] pages@[k])@ == before[k],
        decreases n - i,
    {
        if pages[i].id == fetched.id {
            pages.set(i, fetched.clone());
            found = true;
        }
        i += 1;
    }
    if !found {
        pages.push(fetched.clone());
        assert(page_views(pages@) =~= before.push(fetched@));
    } else {
        assert(page_views(pages@) =~= upserted(before, fetched@));
    }
}

/// What the shared state holds, as plain values.
#[verifier::ext_equal]
pub ghost struct StateView {
    pub mode: Mode,
    pub books: Seq<Seq<char>>,
    pub book_cursor: Option<int>,
    pub pages: Seq<PageView>,
    pub page_cursor: Option<int>,
    pub page_content: Option<Seq<char>>,
    pub status_line: Seq<char>,
}

impl StateView {
    /// Whether each cursor, if there is one, points at an item of its list.
    pub open spec fn wf(self) -> bool {
        &&& in_range(self.book_cursor, self.books.len() as int)
        &&& in_range(self.page_cursor, self.pages.len() as int)
    }

    /// The name of the selected book.
    pub open spec fn active_book(self) -> Option<Seq<char>> {
        match self.book_cursor {
            Some(i) => if 0 <= i < self.books.len() {
                Some(self.books[i])
            } else {
                None
            },
            None => None,
        }
    }

    /// The selected page.
    pub open spec fn active_page(self) -> Option<PageView> {
        match self.page_cursor {
            Some(i) => if 0 <= i < self.pages.len() {
                Some(self.pages[i])
            } else {
                None
            },
            None => None,
        }
    }

    /// The state with the cursor of the book list moved to the first book of
    /// the given name; unchanged if there is no such book.
    pub open spec fn with_book_selected(self, name: Seq<char>) -> StateView {
        match first_position(self.books, name) {
            Some(i) => StateView { book_cursor: Some(i), ..self },
            None => self,
        }
    }

    /// The state with the cursor of the page list moved to the first page of
    /// the given identifier; unchanged if there is no such page.
    pub open spec fn with_page_selected(self, id: NoteId) -> StateView {
        match first_position(page_ids(self.pages), id) {
            Some(i) => StateView { page_cursor: Some(i), ..self },
            None => self,
        }
    }
}

/// The state of the dashboard that all panes read and change.
#[derive(Debug, PartialEq, Eq, Hash)]
pub struct State {
    pub mode: Mode,
    pub books: StatefulList<DnoteBook>,
    pub pages: StatefulList<DnotePage>,
    pub page_content: Option<String>,
    pub status_line: String,
}

impl View for State {
    type V = StateView;

    open spec fn view(&self) -> StateView {
        StateView {
            mode: self.mode,
            books: book_names(self.books.items@),
            book_cursor: place(self.books.state.selected),
            pages: page_views(self.pages.items@),
            page_cursor: place(self.pages.state.selected),
            page_content: match self.page_content {
                Some(text) => Some(text@),
                None => None,
            },
            status_line: self.status_line@,
        }
    }
}

impl Clone for State {
    fn clone(&self) -> (state: Self)
        ensures
            state@ == self@,
    {
        let state = State {
            mode: self.mode,
            books: self.books.clone(),
            pages: self.pages.clone(),
            page_content: match &self.page_content {
                Some(text) => Some(text.clone()),
                None => None,
            },
            status_line: self.status_line.clone(),
        };
        assert(state@ =~= self@);
        state
    }
}

impl Default for State {
    fn default() -> (state: State)
        ensures
            state@ == (StateView {
                mode: Mode::Book,
                books: Seq::empty(),
                book_cursor: None,
                pages: Seq::empty(),
                page_cursor: None,
                page_content: None,
                status_line: Seq::empty(),
            }),
            state@.wf(),
    {
        let state = State {
            mode: Mode::Book,
            books: StatefulList { state: ListState { selected: None }, items: Vec::new() },
            pages: StatefulList { state: ListState { selected: None }, items: Vec::new() },
            page_content: None,
            status_line: String::new(),
        };
        assert(state@.books =~= Seq::empty());
        assert(state@.pages =~= Seq::empty());
        state
    }
}

impl StatefulList<DnoteBook> {
    /// Puts the cursor on the first book of the given name; leaves it where
    /// it is if there is no such book.
    pub fn select_by_name(&mut self, name: &String)
        ensures
            final(self).items == old(self).items,
            final(self).position() == match first_position(book_names(old(self).items@), name@) {
                Some(i) => Some(i),
                None => old(self).position(),
            },
            old(self).wf() ==> final(self).wf(),
    {
        let ghost names = book_names(self.items@);
        let mut i: usize = 0;
        while i < self.items.len()
            invariant
                *self == *old(self),
                names == book_names(self.items@),
                i <= self.items@.len(),
                forall|j: int| 0 <= j < i ==> names[j] != name@,
            decreases self.items@.len() - i,
        {
            if self.items[i].name == *name {
                proof {
                    lemma_first_position_found(names, name@, i as int);
                }
                self.state.selected = Some(i);
                return ;
            }
            i += 1;
        }
        proof {
            lemma_first_position_absent(names, name@);
        }
    }
}

impl StatefulList<DnotePage> {
    /// Puts the cursor on the first page of the given identifier; leaves it
    /// where it is if there is no such page.
    pub fn select_by_id(&mut self, id: NoteId)
        ensures
            final(self).items == old(self).items,
            final(self).position() == match first_position(
                page_ids(page_views(old(self).items@)),
                id,
            ) {
                Some(i) => Some(i),
                None => old(self).position(),
            },
            old(self).wf() ==> final(self).wf(),
    {
        let ghost ids = page_ids(page_views(self.items@));
        let mut i: usize = 0;
        while i < self.items.len()
            invariant
                *self == *old(self),
                ids == page_ids(page_views(self.items@)),
                i <= self.items@.len(),
                forall|j: int| 0 <= j < i ==> ids[j] != id,
            decreases self.items@.len() - i,
        {
            if self.items[i].id == id {
                proof {
                    lemma_first_position_found(ids, id, i as int);
                }
                self.state.selected = Some(i);
                return ;
            }
            i += 1;
        }
        proof {
            lemma_first_position_absent(ids, id);
        }
    }
}

impl State {
    /// The state at startup: no books, no pages, no content, the focus on
    /// the books.
    pub fn new() -> (state: State)
        ensures
            state@ == (StateView {
                mode: Mode::Book,
                books: Seq::empty(),
                book_cursor: None,
                pages: Seq::empty(),
                page_cursor: None,
                page_content: None,
                status_line: Seq::empty(),
            }),
            state@.wf(),
    {
        State::default()
    }

    /// The selected book.
    pub fn get_active_book(&self) -> (book: Option<DnoteBook>)
        ensures
            match book {
                Some(b) => self@.active_book() == Some(b@),
                None => self@.active_book() is None,
            },
    {
        match self.books.selected_item() {
            Some(b) => Some(b.clone()),
            None => None,
        }
    }

    /// The selected page.
    pub fn get_active_page(&self) -> (page: Option<DnotePage>)
        ensures
            match page {
                Some(p) => self@.active_page() == Some(p@),
                None => self@.active_page() is None,
            },
    {
        match self.pages.selected_item() {
            Some(p) => Some(p.clone()),
            None => None,
        }
    }

    /// Moves the cursor of the book list one book forward.
    pub fn select_next_book(&mut self)
        ensures
            final(self)@ == (StateView {
                book_cursor: after_next(old(self)@.book_cursor, old(self)@.books.len() as int),
                ..old(self)@
            }),
            old(self)@.wf() ==> final(self)@.wf(),
    {
        self.books.next()
    }

    /// Moves the cursor of the book list one book back.
    pub fn select_prev_book(&mut self)
        ensures
            final(self)@ == (StateView {
                book_cursor: after_previous(old(self)@.book_cursor, old(self)@.books.len() as int),
                ..old(self)@
            }),
            old(self)@.wf() ==> final(self)@.wf(),
    {
        self.books.previous()
    }

    /// Moves the cursor of the page list one page forward.
    pub fn select_next_page(&mut self)
        ensures
            final(self)@ == (StateView {
                page_cursor: after_next(old(self)@.page_cursor, old(self)@.pages.len() as int),
                ..old(self)@
            }),
            old(self)@.wf() ==> final(self)@.wf(),
    {
        self.pages.next()
    }

    /// Moves the cursor of the page list one page back.
    pub fn select_prev_page(&mut self)
        ensures
            final(self)@ == (StateView {
                page_cursor: after_previous(old(self)@.page_cursor, old(self)@.pages.len() as int),
                ..old(self)@
            }),
            old(self)@.wf() ==> final(self)@.wf(),
    {
        self.pages.previous()
    }

    /// Selects the first book with the name of `book`; selects nothing new
    /// if there is no such book.
    pub fn select_book(&mut self, book: DnoteBook)
        ensures
            final(self)@ == old(self)@.with_book_selected(book@),
            old(self)@.wf() ==> final(self)@.wf(),
    {
        self.books.select_by_name(&book.name);
    }

    /// Selects the first page with the identifier of `page`; selects nothing
    /// new if there is no such page.
    pub fn select_page(&mut self, page: DnotePage)
        ensures
            final(self)@ == old(self)@.with_page_selected(page.id),
            old(self)@.wf() ==> final(self)@.wf(),
    {
        self.pages.select_by_id(page.id);
    }

    /// Brings freshly fetched pages into the page list. A page that is in
    /// the list keeps its place and takes the fetched summary; a fetched
    /// page that is not in the list is added at its end; a page that was not
    /// fetched stays as it is. The cursor does not move.
    pub fn update_pages(&mut self, new_pages: Vec<DnotePage>)
        ensures
            final(self)@ == (StateView {
                pages: reconciled(old(self)@.pages, page_views(new_pages@)),
                ..old(self)@
            }),
            old(self)@.wf() ==> final(self)@.wf(),
    {
        let ghost fetched = page_views(new_pages@);
        let mut i: usize = 0;
        assert(fetched.take(0) =~= Seq::empty());
        while i < new_pages.len()
            invariant
                i <= new_pages@.len(),
                fetched == page_views(new_pages@),
                self@ == (StateView {
                    pages: reconciled(old(self)@.pages, fetched.take(i as int)),
                    ..old(self)@
                }),
            decreases new_pages@.len() - i,
        {
            proof {
                assert(fetched.take(i + 1).drop_last() == fetched.take(i as int));
                assert(fetched.take(i + 1).last() == new_pages@[i as int]@);
            }
            upsert(&mut self.pages.items, &new_pages[i]);
            i += 1;
        }
        proof {
            assert(fetched.take(i as int) == fetched);
            lemma_reconciled_keeps_positions(old(self)@.pages, fetched);
        }
    }
}

} // verus!
