//! The events that drive the dashboard.

use crate::dnote::{texts, DnoteBook, NoteId};
use vstd::prelude::*;

verus! {

/// One event on the action bus. Actions are values: once made they do not
/// change, and two actions are equal when they are the same kind of action
/// with the same data.
#[derive(Debug, PartialEq, Eq, Hash)]
pub enum Action {
    Tick,
    Render,
    Resize(u16, u16),
    Suspend,
    Resume,
    Quit,
    Refresh,
    Error(String),
    Help,
    FocusNext,
    FocusPrev,
    LoadBooks,
    LoadPagesFor(DnoteBook),
    LoadContentFor(NoteId),
    RefreshPagesFor(DnoteBook),
    SelectNextBook,
    SelectPrevBook,
    SelectNextPage,
    SelectPrevPage,
    AddPageToBook,
    EditPage,
    DeletePage,
    DeleteBook,
    RunExternalCommand(String, Vec<String>),
}

/// An action as plain values.
#[verifier::ext_equal]
pub ghost enum ActionView {
    Tick,
    Render,
    Resize(u16, u16),
    Suspend,
    Resume,
    Quit,
    Refresh,
    Error(Seq<char>),
    Help,
    FocusNext,
    FocusPrev,
    LoadBooks,
    LoadPagesFor(Seq<char>),
    LoadContentFor(NoteId),
    RefreshPagesFor(Seq<char>),
    SelectNextBook,
    SelectPrevBook,
    SelectNextPage,
    SelectPrevPage,
    AddPageToBook,
    EditPage,
    DeletePage,
    DeleteBook,
    RunExternalCommand(Seq<char>, Seq<Seq<char>>),
}

impl View for Action {
    type V = ActionView;

    open spec fn view(&self) -> ActionView {
        match self {
            Action::Tick => ActionView::Tick,
            Action::Render => ActionView::Render,
            Action::Resize(w, h) => ActionView::Resize(*w, *h),
            Action::Suspend => ActionView::Suspend,
            Action::Resume => ActionView::Resume,
            Action::Quit => ActionView::Quit,
            Action::Refresh => ActionView::Refresh,
            Action::Error(message) => ActionView::Error(message@),
            Action::Help => ActionView::Help,
            Action::FocusNext => ActionView::FocusNext,
            Action::FocusPrev => ActionView::FocusPrev,
            Action::LoadBooks => ActionView::LoadBooks,
            Action::LoadPagesFor(book) => ActionView::LoadPagesFor(book@),
            Action::LoadContentFor(id) => ActionView::LoadContentFor(*id),
            Action::RefreshPagesFor(book) => ActionView::RefreshPagesFor(book@),
            Action::SelectNextBook => ActionView::SelectNextBook,
            Action::SelectPrevBook => ActionView::SelectPrevBook,
            Action::SelectNextPage => ActionView::SelectNextPage,
            Action::SelectPrevPage => ActionView::SelectPrevPage,
            Action::AddPageToBook => ActionView::AddPageToBook,
            Action::EditPage => ActionView::EditPage,
            Action::DeletePage => ActionView::DeletePage,
            Action::DeleteBook => ActionView::DeleteBook,
            Action::RunExternalCommand(program, args) => ActionView::RunExternalCommand(
                program@,
                texts(args@),
            ),
        }
    }
}

/// What a list of actions holds.
pub open spec fn action_views(actions: Seq<Action>) -> Seq<ActionView> {
    Seq::new(actions.len(), |i: int| actions[i]@)
}

/// A copy of a list of strings.
pub fn clone_strings(strings: &Vec<String>) -> (copy: Vec<String>)
    ensures
        texts(copy@) == texts(strings@),
{
    let mut copy: Vec<String> = Vec::new();
    let mut i: usize = 0;
    while i < strings.len()
        invariant
            i <= strings@.len(),
            copy@.len() == i,
            forall|k: int| 0 <= k < i ==> copy@[k]@ == strings@[k]@,
        decreases strings@.len() - i,
    {
        copy.push(strings[i].clone());
        i += 1;
    }
    assert(texts(copy@) =~= texts(strings@));
    copy
}

impl Clone for Action {
    fn clone(&self) -> (r: Self)
        ensures
            r@ == self@,
    {
        match self {
            Action::Tick => Action::Tick,
            Action::Render => Action::Render,
            Action::Resize(w, h) => Action::Resize(*w, *h),
            Action::Suspend => Action::Suspend,
            Action::Resume => Action::Resume,
            Action::Quit => Action::Quit,
            Action::Refresh => Action::Refresh,
            Action::Error(message) => Action::Error(message.clone()),
            Action::Help => Action::Help,
            Action::FocusNext => Action::FocusNext,
            Action::FocusPrev => Action::FocusPrev,
            Action::LoadBooks => Action::LoadBooks,
            Action::LoadPagesFor(book) => Action::LoadPagesFor(book.clone()),
            Action::LoadContentFor(id) => Action::LoadContentFor(*id),
            Action::RefreshPagesFor(book) => Action::RefreshPagesFor(book.clone()),
            Action::SelectNextBook => Action::SelectNextBook,
            Action::SelectPrevBook => Action::SelectPrevBook,
            Action::SelectNextPage => Action::SelectNextPage,
            Action::SelectPrevPage => Action::SelectPrevPage,
            Action::AddPageToBook => Action::AddPageToBook,
            Action::EditPage => Action::EditPage,
            Action::DeletePage => Action::DeletePage,
            Action::DeleteBook => Action::DeleteBook,
            Action::RunExternalCommand(program, args) => Action::RunExternalCommand(
                program.clone(),
                clone_strings(args),
            ),
        }
    }
}

impl ActionView {
    /// The words that describe the action to the user; empty for an action
    /// that the user does not trigger by a key.
    pub open spec fn label(self) -> Seq<char> {
        match self {
            ActionView::Quit => "Quit"@,
            ActionView::Help => "Show Help"@,
            ActionView::FocusNext => "Next Pane"@,
            ActionView::FocusPrev => "Prev Pane"@,
            ActionView::LoadBooks => "Load all books"@,
            ActionView::LoadPagesFor(_) => "Load pages for the active book"@,
            ActionView::RefreshPagesFor(_) => "Update pages for the active book"@,
            ActionView::LoadContentFor(_) => "Load content for the active page"@,
            ActionView::SelectNextBook => "Down"@,
            ActionView::SelectPrevBook => "Up"@,
            ActionView::SelectNextPage => "Down"@,
            ActionView::SelectPrevPage => "Up"@,
            ActionView::AddPageToBook => "Add"@,
            ActionView::EditPage => "Edit"@,
            ActionView::DeletePage => "Delete"@,
            ActionView::DeleteBook => "Delete"@,
            _ => ""@,
        }
    }

    /// The name of the kind of action.
    pub open spec fn name(self) -> Seq<char> {
        match self {
            ActionView::Tick => "Tick"@,
            ActionView::Render => "Render"@,
            ActionView::Resize(_, _) => "Resize"@,
            ActionView::Suspend => "Suspend"@,
            ActionView::Resume => "Resume"@,
            ActionView::Quit => "Quit"@,
            ActionView::Refresh => "Refresh"@,
            ActionView::Error(_) => "Error"@,
            ActionView::Help => "Help"@,
            ActionView::FocusNext => "FocusNext"@,
            ActionView::FocusPrev => "FocusPrev"@,
            ActionView::LoadBooks => "LoadBooks"@,
            ActionView::LoadPagesFor(_) => "LoadPagesFor"@,
            ActionView::LoadContentFor(_) => "LoadContentFor"@,
            ActionView::RefreshPagesFor(_) => "RefreshPagesFor"@,
            ActionView::SelectNextBook => "SelectNextBook"@,
            ActionView::SelectPrevBook => "SelectPrevBook"@,
            ActionView::SelectNextPage => "SelectNextPage"@,
            ActionView::SelectPrevPage => "SelectPrevPage"@,
            ActionView::AddPageToBook => "AddPageToBook"@,
            ActionView::EditPage => "EditPage"@,
            ActionView::DeletePage => "DeletePage"@,
            ActionView::DeleteBook => "DeleteBook"@,
            ActionView::RunExternalCommand(_, _) => "RunExternalCommand"@,
        }
    }

    /// The rank of the action among the hints shown to the user: hints with
    /// a smaller rank come first.
    pub open spec fn order(self) -> nat {
        match self {
            ActionView::Quit => 80,
            ActionView::Help => 80,
            ActionView::FocusNext => 30,
            ActionView::FocusPrev => 30,
            ActionView::SelectNextBook => 10,
            ActionView::SelectPrevBook => 20,
            ActionView::SelectNextPage => 10,
            ActionView::SelectPrevPage => 20,
            ActionView::AddPageToBook => 40,
            ActionView::EditPage => 50,
            ActionView::DeletePage => 60,
            ActionView::DeleteBook => 60,
            _ => 100,
        }
    }
}

impl Action {
    /// The name of the kind of action, as text.
    pub fn name(&self) -> (text: &'static str)
        ensures
            text@ == self@.name(),
    {
        match self {
            Action::Tick => "Tick",
            Action::Render => "Render",
            Action::Resize(_, _) => "Resize",
            Action::Suspend => "Suspend",
            Action::Resume => "Resume",
            Action::Quit => "Quit",
            Action::Refresh => "Refresh",
            Action::Error(_) => "Error",
            Action::Help => "Help",
            Action::FocusNext => "FocusNext",
            Action::FocusPrev => "FocusPrev",
            Action::LoadBooks => "LoadBooks",
            Action::LoadPagesFor(_) => "LoadPagesFor",
            Action::LoadContentFor(_) => "LoadContentFor",
            Action::RefreshPagesFor(_) => "RefreshPagesFor",
            Action::SelectNextBook => "SelectNextBook",
            Action::SelectPrevBook => "SelectPrevBook",
            Action::SelectNextPage => "SelectNextPage",
            Action::SelectPrevPage => "SelectPrevPage",
            Action::AddPageToBook => "AddPageToBook",
            Action::EditPage => "EditPage",
            Action::DeletePage => "DeletePage",
            Action::DeleteBook => "DeleteBook",
            Action::RunExternalCommand(_, _) => "RunExternalCommand",
        }
    }

    /// The words that describe the action to the user.
    pub fn label(&self) -> (text: &'static str)
        ensures
            text@ == self@.label(),
    {
        match self {
            Action::Quit => "Quit",
            Action::Help => "Show Help",
            Action::FocusNext => "Next Pane",
            Action::FocusPrev => "Prev Pane",
            Action::LoadBooks => "Load all books",
            Action::LoadPagesFor(_) => "Load pages for the active book",
            Action::RefreshPagesFor(_) => "Update pages for the active book",
            Action::LoadContentFor(_) => "Load content for the active page",
            Action::SelectNextBook => "Down",
            Action::SelectPrevBook => "Up",
            Action::SelectNextPage => "Down",
            Action::SelectPrevPage => "Up",
            Action::AddPageToBook => "Add",
            Action::EditPage => "Edit",
            Action::DeletePage => "Delete",
            Action::DeleteBook => "Delete",
            _ => "",
        }
    }

    /// The rank of the action among the hints shown to the user.
    pub fn order(&self) -> (rank: usize)
        ensures
            rank == self@.order(),
            rank <= 100,
    {
        match self {
            Action::Quit => 80,
            Action::Help => 80,
            Action::FocusNext => 30,
            Action::FocusPrev => 30,
            Action::SelectNextBook => 10,
            Action::SelectPrevBook => 20,
            Action::SelectNextPage => 10,
            Action::SelectPrevPage => 20,
            Action::AddPageToBook => 40,
            Action::EditPage => 50,
            Action::DeletePage => 60,
            Action::DeleteBook => 60,
            _ => 100,
        }
    }
}

} // verus!
