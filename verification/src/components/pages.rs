//! The controller of the pages pane.

use crate::action::{action_views, Action, ActionView};
use crate::components::{content_request, pages_request, refresh_request, tool_run};
use crate::dnote::{texts, CommandOutcome, DnoteClient};
use crate::keys::{status_line, BindingView, KeyBindings};
use crate::list::{after_next, after_previous, StatefulList};
use crate::mode::Mode;
use crate::state::{lemma_reconciled_keeps_positions, reconciled, State, StateView};
use crate::text::{decimal_digits, u32_to_string};
use vstd::prelude::*;

verus! {

/// What the pages pane makes of an action: the state afterwards and the
/// actions it asks for, in order.
///
/// - At a tick, if the pages have the focus, the status line becomes that of
///   the pages.
/// - `FocusPrev` gives the focus back to the books and drops the content.
/// - `LoadPagesFor` replaces the list of pages by the pages that the tool
///   listed, with nothing selected; `RefreshPagesFor` brings them into the
///   list instead, and the cursor stays. If they could not be had, the list
///   stays and the status line says why.
/// - `SelectNextPage` and `SelectPrevPage` move the cursor and ask for the
///   text of the page selected then.
/// - `EditPage` asks for a run of the tool that edits the selected page,
///   then for the pages to be refreshed and the text of the page to be
///   loaded.
/// - `DeletePage` asks for a run of the tool that removes the selected page,
///   then for the focus to go back to the books and the pages to be loaded.
pub open spec fn pages_step(
    s: StateView,
    action: ActionView,
    outcome: CommandOutcome,
    table: Seq<BindingView>,
) -> (StateView, Seq<ActionView>) {
    match action {
        ActionView::Tick => (
            if s.mode == Mode::Page {
                StateView { status_line: status_line(table, Mode::Page), ..s }
            } else {
                s
            },
            Seq::empty(),
        ),
        ActionView::FocusPrev => (
            StateView { mode: Mode::Book, page_content: None, ..s },
            Seq::empty(),
        ),
        ActionView::LoadPagesFor(_) => match outcome.pages() {
            Ok(pages) => (StateView { pages, page_cursor: None, ..s }, Seq::empty()),
            Err(e) => (StateView { status_line: e.spec_message(), ..s }, Seq::empty()),
        },
        ActionView::RefreshPagesFor(_) => match outcome.pages() {
            Ok(pages) => (StateView { pages: reconciled(s.pages, pages), ..s }, Seq::empty()),
            Err(e) => (StateView { status_line: e.spec_message(), ..s }, Seq::empty()),
        },
        ActionView::SelectNextPage => {
            let t = StateView {
                page_cursor: after_next(s.page_cursor, s.pages.len() as int),
                ..s
            };
            (t, content_request(t))
        },
        ActionView::SelectPrevPage => {
            let t = StateView {
                page_cursor: after_previous(s.page_cursor, s.pages.len() as int),
                ..s
            };
            (t, content_request(t))
        },
        ActionView::EditPage => match s.active_page() {
            Some(page) => (
                s,
                seq![tool_run(seq!["edit"@, decimal_digits(page.id as nat)])] + refresh_request(s)
                    + seq![ActionView::LoadContentFor(page.id)],
            ),
            None => (s, Seq::empty()),
        },
        ActionView::DeletePage => match s.active_page() {
            Some(page) => (
                s,
                seq![
                    tool_run(seq!["remove"@, decimal_digits(page.id as nat)]),
                    ActionView::FocusPrev,
                ] + pages_request(s),
            ),
            None => (s, Seq::empty()),
        },
        _ => (s, Seq::empty()),
    }
}

/// The pages pane keeps the cursors within their lists.
pub proof fn lemma_pages_step_wf(
    s: StateView,
    action: ActionView,
    outcome: CommandOutcome,
    table: Seq<BindingView>,
)
    requires
        s.wf(),
    ensures
        pages_step(s, action, outcome, table).0.wf(),
{
    match action {
        ActionView::RefreshPagesFor(_) => {
            match outcome.pages() {
                Ok(pages) => {
                    lemma_reconciled_keeps_positions(s.pages, pages);
                },
                Err(_) => {},
            }
        },
        _ => {},
    }
}

/// The controller of the pages pane.
#[derive(Debug)]
pub struct PagesPane {
    pub dnote: DnoteClient,
}

impl PagesPane {
    /// A controller for the pages pane.
    pub fn new() -> (pane: PagesPane) {
        PagesPane { dnote: DnoteClient::new() }
    }

    /// The mode in which this pane has the focus.
    pub fn mode(&self) -> (mode: Mode)
        ensures
            mode == Mode::Page,
    {
        Mode::Page
    }

    /// Whether this pane has the focus.
    pub fn is_focused(&self, state: &State) -> (focused: bool)
        ensures
            focused == (state@.mode == Mode::Page),
    {
        state.mode == self.mode()
    }

    /// The status line shown while this pane has the focus.
    pub fn get_status_line(&self, bindings: &KeyBindings) -> (line: String)
        ensures
            line@ == status_line(bindings@, Mode::Page),
    {
        bindings.status_line(self.mode())
    }

    /// Handles one action: changes the state and gives the actions that are
    /// to follow. `outcome` is how the run of the tool ended that an action
    /// which loads data stands for.
    pub fn update(
        &self,
        action: &Action,
        outcome: &CommandOutcome,
        bindings: &KeyBindings,
        state: &mut State,
    ) -> (asked: Vec<Action>)
        ensures
            (final(state)@, action_views(asked@)) == pages_step(
                old(state)@,
                action@,
                *outcome,
                bindings@,
            ),
    {
        let mut asked: Vec<Action> = Vec::new();
        match action {
            Action::Tick => {
                if self.is_focused(state) {
                    state.status_line = self.get_status_line(bindings);
                }
            },
            Action::FocusPrev => {
                state.mode = Mode::Book;
                state.page_content = None;
            },
            Action::LoadPagesFor(_) => {
                match self.dnote.get_pages(outcome) {
                    Ok(pages) => {
                        state.pages = StatefulList::with_items(pages);
                    },
                    Err(e) => {
                        state.status_line = e.message().to_owned();
                    },
                }
            },
            Action::RefreshPagesFor(_) => {
                match self.dnote.get_pages(outcome) {
                    Ok(pages) => {
                        state.update_pages(pages);
                    },
                    Err(e) => {
                        state.status_line = e.message().to_owned();
                    },
                }
            },
            Action::SelectNextPage => {
                state.select_next_page();
                if let Some(page) = state.get_active_page() {
                    asked.push(Action::LoadContentFor(page.id));
                }
            },
            Action::SelectPrevPage => {
                state.select_prev_page();
                if let Some(page) = state.get_active_page() {
                    asked.push(Action::LoadContentFor(page.id));
                }
            },
            Action::EditPage => {
                if let Some(page) = state.get_active_page() {
                    let mut args: Vec<String> = Vec::new();
                    args.push("edit".to_owned());
                    args.push(u32_to_string(page.id));
                    assert(texts(args@) =~= seq!["edit"@, decimal_digits(page.id as nat)]);
                    asked.push(Action::RunExternalCommand(self.dnote.program().to_owned(), args));
                    if let Some(book) = state.get_active_book() {
                        asked.push(Action::RefreshPagesFor(book));
                    }
                    asked.push(Action::LoadContentFor(page.id));
                }
            },
            Action::DeletePage => {
                if let Some(page) = state.get_active_page() {
                    let mut args: Vec<String> = Vec::new();
                    args.push("remove".to_owned());
                    args.push(u32_to_string(page.id));
                    assert(texts(args@) =~= seq!["remove"@, decimal_digits(page.id as nat)]);
                    asked.push(Action::RunExternalCommand(self.dnote.program().to_owned(), args));
                    asked.push(Action::FocusPrev);
                    if let Some(book) = state.get_active_book() {
                        asked.push(Action::LoadPagesFor(book));
                    }
                }
            },
            _ => {},
        }
        proof {
            let expected = pages_step(old(state)@, action@, *outcome, bindings@);
            assert(state@ =~= expected.0);
            assert(action_views(asked@) =~= expected.1);
        }
        asked
    }
}

} // verus!
