//! The pane controllers. Each reacts to actions by changing the shared state
//! and by asking for further actions.
//!
//! The panes are handed every action in a fixed order: books, then pages,
//! then content. The order matters: what the books pane did to the state is
//! what the pages pane sees when it handles the same action.

pub mod books;
pub mod content;
pub mod pages;

use crate::action::ActionView;
use crate::state::StateView;
use vstd::prelude::*;

verus! {

/// The request to load the pages of the selected book, if a book is
/// selected.
pub open spec fn pages_request(s: StateView) -> Seq<ActionView> {
    match s.active_book() {
        Some(name) => seq![ActionView::LoadPagesFor(name)],
        None => Seq::empty(),
    }
}

/// The request to refresh the pages of the selected book, if a book is
/// selected.
pub open spec fn refresh_request(s: StateView) -> Seq<ActionView> {
    match s.active_book() {
        Some(name) => seq![ActionView::RefreshPagesFor(name)],
        None => Seq::empty(),
    }
}

/// The request to load the text of the selected page, if a page is
/// selected.
pub open spec fn content_request(s: StateView) -> Seq<ActionView> {
    match s.active_page() {
        Some(page) => seq![ActionView::LoadContentFor(page.id)],
        None => Seq::empty(),
    }
}

/// The request to hand the terminal to the note tool, run with `args`.
pub open spec fn tool_run(args: Seq<Seq<char>>) -> ActionView {
    ActionView::RunExternalCommand("dnote"@, args)
}

} // verus!
