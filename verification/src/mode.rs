//! Which pane has the focus.

use vstd::prelude::*;

verus! {

/// The pane that currently receives navigation input. Panes are nested:
/// books contain pages, pages have content. The modes are ordered by this
/// nesting, the outermost first.
#[derive(Clone, Copy, Debug, PartialEq, Eq, PartialOrd, Ord, Hash, Structural)]
pub enum Mode {
    Book,
    Page,
    Content,
}

impl Mode {
    /// Nesting depth of the pane as a number: 0 for books, 1 for pages,
    /// 2 for content.
    pub open spec fn spec_depth(self) -> u8 {
        match self {
            Mode::Book => 0,
            Mode::Page => 1,
            Mode::Content => 2,
        }
    }

    /// Nesting depth of the pane; panes are totally ordered by it.
    #[verifier::when_used_as_spec(spec_depth)]
    pub fn depth(self) -> (d: u8)
        ensures
            d == self.spec_depth(),
    {
        match self {
            Mode::Book => 0,
            Mode::Page => 1,
            Mode::Content => 2,
        }
    }
}

impl Default for Mode {
    fn default() -> (m: Mode)
        ensures
            m == Mode::Book,
    {
        Mode::Book
    }
}

} // verus!
