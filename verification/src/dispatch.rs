//! The action bus and the dispatch of actions to the panes.
//!
//! Events from the terminal become actions on a queue. The queue is worked
//! off from its front: each action is first handled by the dispatcher
//! itself, then handed to the panes in their fixed order, and what the panes
//! ask for joins the queue at its end, to be handled in the same pass. A
//! pass hands out a limited number of actions, so that an action which keeps
//! asking for itself cannot hold up the dashboard.

use crate::action::{action_views, Action, ActionView};
use crate::components::books::{books_step, lemma_books_step_wf, BooksPane};
use crate::components::content::{content_step, ContentPane};
use crate::components::pages::{lemma_pages_step_wf, pages_step, PagesPane};
use crate::dnote::{texts, CommandOutcome, DnoteCommand};
use crate::keys::{resolve, BindingView, InputResolver, KeyBindings, KeyPress};
use crate::mode::Mode;
use crate::state::{State, StateView};
use crate::text::decimal_digits;
use vstd::prelude::*;

verus! {

/// The number of actions that one pass hands out unless told otherwise.
pub const DEFAULT_PASS_LIMIT: usize = 1024;

/// What the terminal reports.
#[derive(Debug)]
pub enum Event {
    Quit,
    Tick,
    Render,
    Resize(u16, u16),
    Key(KeyPress),
    Other,
}

/// Work on the terminal that follows from an action and that the caller has
/// to do.
#[derive(Debug, PartialEq, Eq)]
pub enum Effect {
    /// Nothing to do.
    Nothing,
    /// Draw a frame.
    Draw,
    /// Take the new size of the terminal, then draw a frame.
    Resize(u16, u16),
    /// Clear the screen.
    ClearScreen,
    /// Give up the terminal, run the program to its end, show that it failed
    /// if it did, wait for the user to acknowledge, and take the terminal
    /// back.
    RunExternal(String, Vec<String>),
}

/// An effect as plain values.
#[verifier::ext_equal]
pub ghost enum EffectView {
    Nothing,
    Draw,
    Resize(u16, u16),
    ClearScreen,
    RunExternal(Seq<char>, Seq<Seq<char>>),
}

impl View for Effect {
    type V = EffectView;

    open spec fn view(&self) -> EffectView {
        match self {
            Effect::Nothing => EffectView::Nothing,
            Effect::Draw => EffectView::Draw,
            Effect::Resize(w, h) => EffectView::Resize(*w, *h),
            Effect::ClearScreen => EffectView::ClearScreen,
            Effect::RunExternal(program, args) => EffectView::RunExternal(program@, texts(args@)),
        }
    }
}

/// How the loop goes on after a pass.
#[derive(Clone, Copy, Debug, PartialEq, Eq, Structural)]
pub enum Control {
    /// Wait for the next event.
    Continue,
    /// Suspend the dashboard, and enter it again when it is resumed.
    Suspend,
    /// Leave the loop.
    Quit,
}

/// The work on the terminal that follows from an action.
pub open spec fn effect_of(action: ActionView) -> EffectView {
    match action {
        ActionView::Render => EffectView::Draw,
        ActionView::Resize(w, h) => EffectView::Resize(w, h),
        ActionView::Refresh => EffectView::ClearScreen,
        ActionView::RunExternalCommand(program, args) => EffectView::RunExternal(program, args),
        _ => EffectView::Nothing,
    }
}

/// The arguments of the run of the note tool that an action which loads data
/// stands for.
pub open spec fn query_args(action: ActionView) -> Option<Seq<Seq<char>>> {
    match action {
        ActionView::LoadBooks => Some(seq!["view"@, "--name-only"@]),
        ActionView::LoadPagesFor(name) => Some(seq!["view"@, name]),
        ActionView::RefreshPagesFor(name) => Some(seq!["view"@, name]),
        ActionView::LoadContentFor(id) => Some(
            seq!["view"@, decimal_digits(id as nat), "--content-only"@],
        ),
        _ => None,
    }
}

/// The request to the note tool that an action which loads data stands for.
/// The caller runs it and hands its outcome to `dispatch` with the action.
pub fn query_for(action: &Action) -> (query: Option<DnoteCommand>)
    ensures
        match query {
            Some(command) => query_args(action@) == Some(command.spec_args()),
            None => query_args(action@) is None,
        },
{
    match action {
        Action::LoadBooks => Some(DnoteCommand::ViewBooks),
        Action::LoadPagesFor(book) => Some(DnoteCommand::ViewByBook { book_name: book.name.clone() }),
        Action::RefreshPagesFor(book) => Some(
            DnoteCommand::ViewByBook { book_name: book.name.clone() },
        ),
        Action::LoadContentFor(id) => Some(DnoteCommand::ViewByNoteId { note_id: *id }),
        _ => None,
    }
}

/// What the dispatcher holds, as plain values.
#[verifier::ext_equal]
pub ghost struct DispatcherView {
    pub state: StateView,
    pub table: Seq<BindingView>,
    pub history: Seq<Seq<char>>,
    pub queue: Seq<ActionView>,
    pub should_quit: bool,
    pub should_suspend: bool,
    pub handled: nat,
    pub limit: nat,
}

impl DispatcherView {
    /// Whether the cursors are within their lists and the pass is within its
    /// limit.
    pub open spec fn wf(self) -> bool {
        self.state.wf() && self.handled <= self.limit
    }

    /// The dispatcher after an event: the actions that the event stands for
    /// have joined the queue. A key press goes, under its descriptor,
    /// through the key bindings of the mode that has the focus; events of
    /// other kinds than those named stand for no action.
    pub open spec fn after_event(self, event: Event) -> DispatcherView {
        match event {
            Event::Quit => DispatcherView { queue: self.queue.push(ActionView::Quit), ..self },
            Event::Tick => DispatcherView { queue: self.queue.push(ActionView::Tick), ..self },
            Event::Render => DispatcherView { queue: self.queue.push(ActionView::Render), ..self },
            Event::Resize(w, h) => DispatcherView {
                queue: self.queue.push(ActionView::Resize(w, h)),
                ..self
            },
            Event::Key(press) => {
                let (action, history) = resolve(
                    self.table,
                    self.state.mode,
                    self.history,
                    press.descriptor(),
                );
                DispatcherView {
                    queue: match action {
                        Some(a) => self.queue.push(a),
                        None => self.queue,
                    },
                    history,
                    ..self
                }
            },
            Event::Other => self,
        }
    }

    /// What the dispatcher itself makes of an action, before the panes see
    /// it: a tick makes the pressed keys forgotten, `Quit`, `Suspend` and
    /// `Resume` set and clear the marks that end or interrupt the loop, and
    /// an error shows on the status line.
    pub open spec fn own_step(self, action: ActionView) -> DispatcherView {
        match action {
            ActionView::Tick => DispatcherView { history: Seq::empty(), ..self },
            ActionView::Quit => DispatcherView { should_quit: true, ..self },
            ActionView::Suspend => DispatcherView { should_suspend: true, ..self },
            ActionView::Resume => DispatcherView { should_suspend: false, ..self },
            ActionView::Error(message) => DispatcherView {
                state: StateView { status_line: message, ..self.state },
                ..self
            },
            _ => self,
        }
    }

    /// The dispatcher after an action was dispatched: after its own step the
    /// panes have handled the action, first books, then pages, then content,
    /// each on the state that the one before it left, and what they asked
    /// for has joined the queue in that order.
    pub open spec fn after_dispatch(self, action: ActionView, outcome: CommandOutcome) -> DispatcherView {
        let own = self.own_step(action);
        let (s1, q1) = books_step(own.state, action, outcome, self.table);
        let (s2, q2) = pages_step(s1, action, outcome, self.table);
        let (s3, q3) = content_step(s2, action, outcome);
        DispatcherView { state: s3, queue: own.queue + q1 + q2 + q3, ..own }
    }

    /// The dispatcher after a pass has ended: if it is to suspend, `Resume`
    /// and `Refresh` have joined the queue for the time after.
    pub open spec fn after_pass(self) -> DispatcherView {
        if self.should_suspend {
            DispatcherView {
                queue: self.queue.push(ActionView::Resume).push(ActionView::Refresh),
                ..self
            }
        } else {
            self
        }
    }

    /// How the loop goes on after a pass: suspending comes before quitting.
    pub open spec fn control(self) -> Control {
        if self.should_suspend {
            Control::Suspend
        } else if self.should_quit {
            Control::Quit
        } else {
            Control::Continue
        }
    }
}

/// Dispatching an action keeps the cursors within their lists and does not
/// count against the limit of the pass.
pub proof fn lemma_dispatch_keeps_wf(d: DispatcherView, action: ActionView, outcome: CommandOutcome)
    requires
        d.wf(),
    ensures
        d.after_dispatch(action, outcome).wf(),
        d.after_dispatch(action, outcome).handled == d.handled,
        d.after_dispatch(action, outcome).limit == d.limit,
        d.after_dispatch(action, outcome).table == d.table,
{
    let own = d.own_step(action);
    lemma_books_step_wf(own.state, action, outcome, d.table);
    let s1 = books_step(own.state, action, outcome, d.table).0;
    lemma_pages_step_wf(s1, action, outcome, d.table);
}

/// The pages pane handles an action on the state that the books pane left:
/// when the books pane moves the focus into the pages, the step into the
/// pages that it asks for is at the end of the queue afterwards.
pub proof fn lemma_focus_next_enters_pages(d: DispatcherView, outcome: CommandOutcome)
    requires
        d.state.mode == Mode::Book,
        d.state.active_book() is Some,
    ensures
        d.after_dispatch(ActionView::FocusNext, outcome).state == (StateView {
            mode: Mode::Page,
            ..d.state
        }),
        d.after_dispatch(ActionView::FocusNext, outcome).queue == d.queue.push(
            ActionView::SelectNextPage,
        ),
{
    let after = d.after_dispatch(ActionView::FocusNext, outcome);
    assert(after.queue =~= d.queue.push(ActionView::SelectNextPage));
}

/// The action bus with the state it works on.
#[derive(Debug)]
pub struct Dispatcher {
    pub state: State,
    pub bindings: KeyBindings,
    pub resolver: InputResolver,
    pub queue: Vec<Action>,
    pub books: BooksPane,
    pub pages: PagesPane,
    pub content: ContentPane,
    pub should_quit: bool,
    pub should_suspend: bool,
    pub handled: usize,
    pub limit: usize,
}

impl View for Dispatcher {
    type V = DispatcherView;

    open spec fn view(&self) -> DispatcherView {
        DispatcherView {
            state: self.state@,
            table: self.bindings@,
            history: self.resolver@,
            queue: action_views(self.queue@),
            should_quit: self.should_quit,
            should_suspend: self.should_suspend,
            handled: self.handled as nat,
            limit: self.limit as nat,
        }
    }
}

/// Appends actions to a queue.
fn enqueue_all(queue: &mut Vec<Action>, mut asked: Vec<Action>)
    ensures
        action_views(final(queue)@) == action_views(old(queue)@) + action_views(asked@),
{
    let ghost views = action_views(asked@);
    queue.append(&mut asked);
    assert(action_views(queue@) =~= action_views(old(queue)@) + views);
}

impl Dispatcher {
    /// A dispatcher at startup: the state is empty with the focus on the
    /// books, and the queue holds what the panes ask for at their start,
    /// which is that the books be loaded. A pass hands out `limit` actions
    /// at most.
    pub fn new(bindings: KeyBindings, limit: usize) -> (dispatcher: Dispatcher)
        ensures
            dispatcher@ == (DispatcherView {
                state: StateView {
                    mode: Mode::Book,
                    books: Seq::empty(),
                    book_cursor: None,
                    pages: Seq::empty(),
                    page_cursor: None,
                    page_content: None,
                    status_line: Seq::empty(),
                },
                table: bindings@,
                history: Seq::empty(),
                queue: seq![ActionView::LoadBooks],
                should_quit: false,
                should_suspend: false,
                handled: 0,
                limit: limit as nat,
            }),
            dispatcher@.wf(),
    {
        let books = BooksPane::new();
        let queue = books.init();
        Dispatcher {
            state: State::new(),
            bindings,
            resolver: InputResolver::new(),
            queue,
            books,
            pages: PagesPane::new(),
            content: ContentPane::new(),
            should_quit: false,
            should_suspend: false,
            handled: 0,
            limit,
        }
    }

    /// Puts an action at the end of the queue.
    pub fn send(&mut self, action: Action)
        ensures
            final(self)@ == (DispatcherView {
                queue: old(self)@.queue.push(action@),
                ..old(self)@
            }),
    {
        self.queue.push(action);
        assert(action_views(self.queue@) =~= action_views(old(self).queue@).push(action@));
    }

    /// Takes an event from the terminal: the actions it stands for join the
    /// queue.
    pub fn handle_event(&mut self, event: Event)
        ensures
            final(self)@ == old(self)@.after_event(event),
    {
        match event {
            Event::Quit => self.send(Action::Quit),
            Event::Tick => self.send(Action::Tick),
            Event::Render => self.send(Action::Render),
            Event::Resize(w, h) => self.send(Action::Resize(w, h)),
            Event::Key(press) => {
                let mode = self.state.mode;
                match self.resolver.press(&self.bindings, mode, press.key()) {
                    Some(action) => {
                        self.send(action);
                    },
                    None => {},
                }
            },
            Event::Other => {},
        }
    }

    /// Starts a pass: the count of actions handed out begins anew.
    pub fn begin_pass(&mut self)
        ensures
            final(self)@ == (DispatcherView { handled: 0, ..old(self)@ }),
    {
        self.handled = 0;
    }

    /// Hands out the action at the front of the queue, unless the queue is
    /// empty or the pass has reached its limit; what is left on the queue
    /// then waits for the next pass.
    pub fn next_action(&mut self) -> (action: Option<Action>)
        ensures
            match action {
                Some(a) => {
                    &&& old(self)@.queue.len() > 0
                    &&& old(self)@.handled < old(self)@.limit
                    &&& a@ == old(self)@.queue.first()
                    &&& final(self)@ == (DispatcherView {
                        queue: old(self)@.queue.drop_first(),
                        handled: old(self)@.handled + 1,
                        ..old(self)@
                    })
                },
                None => {
                    &&& old(self)@.queue.len() == 0 || old(self)@.handled >= old(self)@.limit
                    &&& final(self)@ == old(self)@
                },
            },
    {
        if self.queue.len() == 0 || self.handled >= self.limit {
            return None;
        }
        let action = self.queue.remove(0);
        self.handled = self.handled + 1;
        assert(action_views(self.queue@) =~= action_views(old(self).queue@).drop_first());
        Some(action)
    }

    /// Dispatches one action: the dispatcher's own step, then the panes in
    /// their order. `outcome` is how the run of `query_for(action)` ended;
    /// for an action that loads no data it is not looked at. Gives the work
    /// on the terminal that the caller has to do for the action.
    pub fn dispatch(&mut self, action: Action, outcome: &CommandOutcome) -> (effect: Effect)
        ensures
            final(self)@ == old(self)@.after_dispatch(action@, *outcome),
            effect@ == effect_of(action@),
    {
        match &action {
            Action::Tick => {
                self.resolver.clear();
            },
            Action::Quit => {
                self.should_quit = true;
            },
            Action::Suspend => {
                self.should_suspend = true;
            },
            Action::Resume => {
                self.should_suspend = false;
            },
            Action::Error(message) => {
                self.state.status_line = message.clone();
            },
            _ => {},
        }
        assert(self@ =~= old(self)@.own_step(action@));
        let q1 = self.books.update(&action, outcome, &self.bindings, &mut self.state);
        enqueue_all(&mut self.queue, q1);
        let q2 = self.pages.update(&action, outcome, &self.bindings, &mut self.state);
        enqueue_all(&mut self.queue, q2);
        let q3 = self.content.update(&action, outcome, &mut self.state);
        enqueue_all(&mut self.queue, q3);
        assert(self@ =~= old(self)@.after_dispatch(action@, *outcome));
        match action {
            Action::Render => Effect::Draw,
            Action::Resize(w, h) => Effect::Resize(w, h),
            Action::Refresh => Effect::ClearScreen,
            Action::RunExternalCommand(program, args) => Effect::RunExternal(program, args),
            _ => Effect::Nothing,
        }
    }

    /// Ends a pass and says how the loop goes on.
    pub fn end_pass(&mut self) -> (control: Control)
        ensures
            control == old(self)@.control(),
            final(self)@ == old(self)@.after_pass(),
    {
        if self.should_suspend {
            self.queue.push(Action::Resume);
            self.queue.push(Action::Refresh);
            assert(action_views(self.queue@) =~= action_views(old(self).queue@).push(
                ActionView::Resume,
            ).push(ActionView::Refresh));
            Control::Suspend
        } else if self.should_quit {
            Control::Quit
        } else {
            Control::Continue
        }
    }
}

} // verus!
