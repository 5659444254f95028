//! The controller of the content pane.

use crate::action::{action_views, Action, ActionView};
use crate::dnote::{CommandOutcome, DnoteClient};
use crate::state::{State, StateView};
use vstd::prelude::*;

verus! {

/// What the content pane makes of an action. It only reacts to
/// `LoadContentFor`: the text that the tool printed becomes the content; if
/// it could not be had, the content stays and the status line says why. It
/// asks for no further action.
pub open spec fn content_step(s: StateView, action: ActionView, outcome: CommandOutcome) -> (
    StateView,
    Seq<ActionView>,
) {
    match action {
        ActionView::LoadContentFor(_) => match outcome.content() {
            Ok(text) => (StateView { page_content: Some(text), ..s }, Seq::empty()),
            Err(e) => (StateView { status_line: e.spec_message(), ..s }, Seq::empty()),
        },
        _ => (s, Seq::empty()),
    }
}

/// The controller of the content pane.
#[derive(Debug)]
pub struct ContentPane {
    pub dnote: DnoteClient,
}

impl ContentPane {
    /// A controller for the content pane.
    pub fn new() -> (pane: ContentPane) {
        ContentPane { dnote: DnoteClient::new() }
    }

    /// Handles one action: changes the state and gives the actions that are
    /// to follow. `outcome` is how the run of the tool ended that an action
    /// which loads data stands for.
    pub fn update(&self, action: &Action, outcome: &CommandOutcome, state: &mut State) -> (asked:
        Vec<Action>)
        ensures
            (final(state)@, action_views(asked@)) == content_step(old(state)@, action@, *outcome),
    {
        let asked: Vec<Action> = Vec::new();
        match action {
            Action::LoadContentFor(_) => {
                match self.dnote.get_page_content(outcome) {
                    Ok(info) => {
                        state.page_content = Some(info.content);
                    },
                    Err(e) => {
                        state.status_line = e.message().to_owned();
                    },
                }
            },
            _ => {},
        }
        proof {
            let expected = content_step(old(state)@, action@, *outcome);
            assert(state@ =~= expected.0);
            assert(action_views(asked@) =~= expected.1);
        }
        asked
    }
}

} // verus!
