//! The controller of the books pane.

use crate::action::{action_views, Action, ActionView};
use crate::components::{content_request, pages_request, tool_run};
use crate::dnote::{texts, CommandOutcome, DnoteClient};
use crate::keys::{status_line, BindingView, KeyBindings};
use crate::list::{after_next, after_previous, StatefulList};
use crate::mode::Mode;
use crate::state::{State, StateView};
use vstd::prelude::*;

verus! {

/// What the books pane makes of an action: the state afterwards and the
/// actions it asks for, in order.
///
/// - At a tick, if the books have the focus, the status line becomes that of
///   the books.
/// - `FocusNext` moves the focus from the books to the pages, if a book is
///   selected, and asks for the first step into the pages.
/// - `LoadBooks` replaces the list of books by the books that the tool
///   listed, with nothing selected; if they could not be had, the list stays
///   and the status line says why.
/// - `SelectNextBook` and `SelectPrevBook` move the cursor and ask for the
///   pages of the book selected then, whether the cursor moved or not.
/// - `AddPageToBook` asks for a run of the tool that adds a page to the
///   selected book, then for the pages to be refreshed and the text of the
///   selected page to be loaded.
/// - `DeleteBook` asks for a run of the tool that removes the selected book,
///   then for the books to be loaded.
pub open spec fn books_step(
    s: StateView,
    action: ActionView,
    outcome: CommandOutcome,
    table: Seq<BindingView>,
) -> (StateView, Seq<ActionView>) {
    match action {
        ActionView::Tick => (
            if s.mode == Mode::Book {
                StateView { status_line: status_line(table, Mode::Book), ..s }
            } else {
                s
            },
            Seq::empty(),
        ),
        ActionView::FocusNext => if s.mode == Mode::Book && s.active_book() is Some {
            (StateView { mode: Mode::Page, ..s }, seq![ActionView::SelectNextPage])
        } else {
            (s, Seq::empty())
        },
        ActionView::LoadBooks => match outcome.books() {
            Ok(names) => (StateView { books: names, book_cursor: None, ..s }, Seq::empty()),
            Err(e) => (StateView { status_line: e.spec_message(), ..s }, Seq::empty()),
        },
        ActionView::SelectNextBook => {
            let t = StateView {
                book_cursor: after_next(s.book_cursor, s.books.len() as int),
                ..s
            };
            (t, pages_request(t))
        },
        ActionView::SelectPrevBook => {
            let t = StateView {
                book_cursor: after_previous(s.book_cursor, s.books.len() as int),
                ..s
            };
            (t, pages_request(t))
        },
        ActionView::AddPageToBook => match s.active_book() {
            Some(name) => (
                s,
                seq![tool_run(seq!["add"@, name]), ActionView::RefreshPagesFor(name)]
                    + content_request(s),
            ),
            None => (s, Seq::empty()),
        },
        ActionView::DeleteBook => match s.active_book() {
            Some(name) => (s, seq![tool_run(seq!["remove"@, name]), ActionView::LoadBooks]),
            None => (s, Seq::empty()),
        },
        _ => (s, Seq::empty()),
    }
}

/// The books pane keeps the cursors within their lists.
pub proof fn lemma_books_step_wf(
    s: StateView,
    action: ActionView,
    outcome: CommandOutcome,
    table: Seq<BindingView>,
)
    requires
        s.wf(),
    ensures
        books_step(s, action, outcome, table).0.wf(),
{
}

/// Stepping to the next or the previous book asks for exactly one thing, the
/// pages of the book selected then, whenever the list has a book; this
/// holds at the ends of the list too, where the cursor does not move.
pub proof fn lemma_select_book_loads_its_pages(
    s: StateView,
    forward: bool,
    outcome: CommandOutcome,
    table: Seq<BindingView>,
)
    requires
        s.wf(),
        s.books.len() > 0,
    ensures
        ({
            let action = if forward {
                ActionView::SelectNextBook
            } else {
                ActionView::SelectPrevBook
            };
            let (t, asked) = books_step(s, action, outcome, table);
            &&& t.book_cursor matches Some(i)
            &&& 0 <= i < s.books.len()
            &&& t.books == s.books
            &&& asked == seq![ActionView::LoadPagesFor(s.books[i])]
            &&& s.book_cursor == Some(s.books.len() - 1) && forward ==> t.book_cursor
                == s.book_cursor
        }),
{
}

/// The controller of the books pane.
#[derive(Debug)]
pub struct BooksPane {
    pub dnote: DnoteClient,
}

impl BooksPane {
    /// A controller for the books pane.
    pub fn new() -> (pane: BooksPane) {
        BooksPane { dnote: DnoteClient::new() }
    }

    /// What the pane asks for when the dashboard starts: the books are to
    /// be loaded.
    pub fn init(&self) -> (asked: Vec<Action>)
        ensures
            action_views(asked@) == seq![ActionView::LoadBooks],
    {
        let mut asked: Vec<Action> = Vec::new();
        asked.push(Action::LoadBooks);
        assert(action_views(asked@) =~= seq![ActionView::LoadBooks]);
        asked
    }

    /// The mode in which this pane has the focus.
    pub fn mode(&self) -> (mode: Mode)
        ensures
            mode == Mode::Book,
    {
        Mode::Book
    }

    /// Whether this pane has the focus.
    pub fn is_focused(&self, state: &State) -> (focused: bool)
        ensures
            focused == (state@.mode == Mode::Book),
    {
        state.mode == self.mode()
    }

    /// The status line shown while this pane has the focus.
    pub fn get_status_line(&self, bindings: &KeyBindings) -> (line: String)
        ensures
            line@ == status_line(bindings@, Mode::Book),
    {
        bindings.status_line(self.mode())
    }

    /// Handles one action: changes the state and gives the actions that are
    /// to follow. `outcome` is how the run of the tool ended that an action
    /// which loads data stands for.
    pub fn update(
        &self,
        action: &Action,
        outcome: &CommandOutcome,
        bindings: &KeyBindings,
        state: &mut State,
    ) -> (asked: Vec<Action>)
        ensures
            (final(state)@, action_views(asked@)) == books_step(
                old(state)@,
                action@,
                *outcome,
                bindings@,
            ),
    {
        let mut asked: Vec<Action> = Vec::new();
        match action {
            Action::Tick => {
                if self.is_focused(state) {
                    state.status_line = self.get_status_line(bindings);
                }
            },
            Action::FocusNext => {
                if self.is_focused(state) {
                    if let Some(_) = state.get_active_book() {
                        state.mode = Mode::Page;
                        asked.push(Action::SelectNextPage);
                    }
                }
            },
            Action::LoadBooks => {
                match self.dnote.get_books(outcome) {
                    Ok(books) => {
                        state.books = StatefulList::with_items(books);
                    },
                    Err(e) => {
                        state.status_line = e.message().to_owned();
                    },
                }
            },
            Action::SelectNextBook => {
                state.select_next_book();
                if let Some(book) = state.get_active_book() {
                    asked.push(Action::LoadPagesFor(book));
                }
            },
            Action::SelectPrevBook => {
                state.select_prev_book();
                if let Some(book) = state.get_active_book() {
                    asked.push(Action::LoadPagesFor(book));
                }
            },
            Action::AddPageToBook => {
                if let Some(book) = state.get_active_book() {
                    let mut args: Vec<String> = Vec::new();
                    args.push("add".to_owned());
                    args.push(book.name.clone());
                    assert(texts(args@) =~= seq!["add"@, book@]);
                    asked.push(Action::RunExternalCommand(self.dnote.program().to_owned(), args));
                    asked.push(Action::RefreshPagesFor(book));
                    if let Some(page) = state.get_active_page() {
                        asked.push(Action::LoadContentFor(page.id));
                    }
                }
            },
            Action::DeleteBook => {
                if let Some(book) = state.get_active_book() {
                    let mut args: Vec<String> = Vec::new();
                    args.push("remove".to_owned());
                    args.push(book.name.clone());
                    assert(texts(args@) =~= seq!["remove"@, book@]);
                    asked.push(Action::RunExternalCommand(self.dnote.program().to_owned(), args));
                    asked.push(Action::LoadBooks);
                }
            },
            _ => {},
        }
        proof {
            let expected = books_step(old(state)@, action@, *outcome, bindings@);
            assert(state@ =~= expected.0);
            assert(action_views(asked@) =~= expected.1);
        }
        asked
    }
}

} // verus!
