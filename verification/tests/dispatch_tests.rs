use dnote_tui::action::Action;
use dnote_tui::dispatch::{query_for, Control, Dispatcher, Effect, Event, DEFAULT_PASS_LIMIT};
use dnote_tui::dnote::{CommandOutcome, DnoteBook, DnotePage};
use dnote_tui::keys::{Key, KeyBindings, KeyCode, KeyPress};
use dnote_tui::mode::Mode;

fn book(name: &str) -> DnoteBook {
    DnoteBook { name: String::from(name) }
}

fn bindings() -> KeyBindings {
    let mut table = KeyBindings::new();
    table.bind(Mode::Book, vec![Key::new("q")], Action::Quit);
    table.bind(Mode::Book, vec![Key::new("j")], Action::SelectNextBook);
    table.bind(Mode::Book, vec![Key::new("l")], Action::FocusNext);
    table.bind(Mode::Book, vec![Key::new("g"), Key::new("g")], Action::SelectPrevBook);
    table.bind(Mode::Page, vec![Key::new("j")], Action::SelectNextPage);
    table.bind(Mode::Page, vec![Key::new("h")], Action::FocusPrev);
    table
}

/// Stands for the note tool: books A and B, with the pages and texts below.
fn tool(args: &[String]) -> CommandOutcome {
    let args: Vec<&str> = args.iter().map(|a| a.as_str()).collect();
    let stdout = match args.as_slice() {
        ["view", "--name-only"] => "A\nB\n",
        ["view", "A"] => "  • on book A\n  (1) first of A [---More---]\n",
        ["view", "B"] => "  • on book B\n  (21) # Issues [---More---]\n  (27) # Missed [---More---]\n",
        ["view", "1", "--content-only"] => "text of A's page\n",
        ["view", "21", "--content-only"] => "# Issues\n\n- one\n- two\n",
        ["view", "27", "--content-only"] => "# Missed\n",
        _ => return CommandOutcome::Exited { success: false, stdout: Vec::new() },
    };
    CommandOutcome::Exited { success: true, stdout: stdout.as_bytes().to_vec() }
}

/// One pass over the queue; gives the effects that came out.
fn pass(dispatcher: &mut Dispatcher) -> (Vec<Effect>, Control) {
    let mut effects = Vec::new();
    dispatcher.begin_pass();
    while let Some(action) = dispatcher.next_action() {
        let outcome = match query_for(&action) {
            Some(command) => tool(&command.args()),
            None => CommandOutcome::NotRun,
        };
        let effect = dispatcher.dispatch(action, &outcome);
        if effect != Effect::Nothing {
            effects.push(effect);
        }
    }
    let control = dispatcher.end_pass();
    (effects, control)
}

fn press(dispatcher: &mut Dispatcher, key: char) {
    let press = KeyPress { code: KeyCode::Char(key), ctrl: false, alt: false };
    dispatcher.handle_event(Event::Key(press));
}

#[test]
fn a_new_dispatcher_asks_for_the_books() {
    let mut dispatcher = Dispatcher::new(bindings(), DEFAULT_PASS_LIMIT);
    assert_eq!(dispatcher.queue, vec![Action::LoadBooks]);
    assert_eq!(dispatcher.state.mode, Mode::Book);
    assert!(!dispatcher.should_quit);
    assert!(!dispatcher.should_suspend);
    assert_eq!(dispatcher.limit, 1024);
    let (effects, control) = pass(&mut dispatcher);
    assert_eq!(effects, Vec::new());
    assert_eq!(control, Control::Continue);
    assert_eq!(dispatcher.state.books.items, vec![book("A"), book("B")]);
    assert_eq!(dispatcher.state.books.selected(), None);
    assert!(dispatcher.queue.is_empty());
}

#[test]
fn selecting_b_and_entering_its_pages_shows_the_text_of_its_page() {
    let mut dispatcher = Dispatcher::new(bindings(), DEFAULT_PASS_LIMIT);
    pass(&mut dispatcher);
    press(&mut dispatcher, 'j');
    press(&mut dispatcher, 'j');
    pass(&mut dispatcher);
    assert_eq!(dispatcher.state.get_active_book(), Some(book("B")));
    assert_eq!(
        dispatcher.state.pages.items,
        vec![
            DnotePage { id: 21, summary: String::from("# Issues") },
            DnotePage { id: 27, summary: String::from("# Missed") },
        ]
    );
    assert_eq!(dispatcher.state.page_content, None);
    press(&mut dispatcher, 'l');
    pass(&mut dispatcher);
    assert_eq!(dispatcher.state.mode, Mode::Page);
    assert_eq!(dispatcher.state.pages.selected(), Some(0));
    assert_eq!(dispatcher.state.page_content, Some(String::from("# Issues\n\n- one\n- two")));
    press(&mut dispatcher, 'j');
    pass(&mut dispatcher);
    assert_eq!(dispatcher.state.pages.selected(), Some(1));
    assert_eq!(dispatcher.state.page_content, Some(String::from("# Missed")));
    press(&mut dispatcher, 'h');
    pass(&mut dispatcher);
    assert_eq!(dispatcher.state.mode, Mode::Book);
    assert_eq!(dispatcher.state.page_content, None);
    assert!(dispatcher.queue.is_empty());
}

#[test]
fn what_the_panes_ask_for_is_handled_in_the_same_pass() {
    let mut dispatcher = Dispatcher::new(bindings(), DEFAULT_PASS_LIMIT);
    pass(&mut dispatcher);
    dispatcher.send(Action::SelectNextBook);
    dispatcher.send(Action::FocusNext);
    dispatcher.send(Action::Render);
    let (effects, _) = pass(&mut dispatcher);
    assert_eq!(effects, vec![Effect::Draw]);
    assert_eq!(dispatcher.state.get_active_book(), Some(book("A")));
    assert_eq!(dispatcher.state.pages.items.len(), 1);
    assert_eq!(dispatcher.state.pages.selected(), Some(0));
    assert_eq!(dispatcher.state.page_content, Some(String::from("text of A's page")));
    assert_eq!(dispatcher.state.mode, Mode::Page);
    assert!(dispatcher.queue.is_empty());
    assert_eq!(dispatcher.handled, 6);
}

#[test]
fn follow_ups_join_the_queue_behind_what_waits_there() {
    let mut dispatcher = Dispatcher::new(bindings(), DEFAULT_PASS_LIMIT);
    pass(&mut dispatcher);
    dispatcher.send(Action::SelectNextBook);
    dispatcher.send(Action::Render);
    dispatcher.begin_pass();
    let first = dispatcher.next_action().unwrap();
    assert_eq!(first, Action::SelectNextBook);
    assert_eq!(dispatcher.dispatch(first, &CommandOutcome::NotRun), Effect::Nothing);
    assert_eq!(dispatcher.queue, vec![Action::Render, Action::LoadPagesFor(book("A"))]);
}

#[test]
fn events_become_actions() {
    let mut dispatcher = Dispatcher::new(KeyBindings::new(), 10);
    dispatcher.queue.clear();
    dispatcher.handle_event(Event::Tick);
    dispatcher.handle_event(Event::Render);
    dispatcher.handle_event(Event::Resize(120, 40));
    dispatcher.handle_event(Event::Other);
    press(&mut dispatcher, 'q');
    dispatcher.handle_event(Event::Quit);
    assert_eq!(
        dispatcher.queue,
        vec![Action::Tick, Action::Render, Action::Resize(120, 40), Action::Quit]
    );
    let (effects, control) = pass(&mut dispatcher);
    assert_eq!(effects, vec![Effect::Draw, Effect::Resize(120, 40)]);
    assert_eq!(control, Control::Quit);
}

#[test]
fn keys_are_resolved_in_the_mode_that_has_the_focus() {
    let mut dispatcher = Dispatcher::new(bindings(), 10);
    dispatcher.queue.clear();
    press(&mut dispatcher, 'j');
    dispatcher.state.mode = Mode::Page;
    press(&mut dispatcher, 'j');
    press(&mut dispatcher, 'q');
    dispatcher.state.mode = Mode::Content;
    press(&mut dispatcher, 'j');
    assert_eq!(dispatcher.queue, vec![Action::SelectNextBook, Action::SelectNextPage]);
}

#[test]
fn a_tick_forgets_a_chord_that_was_begun() {
    let mut dispatcher = Dispatcher::new(bindings(), 10);
    dispatcher.queue.clear();
    press(&mut dispatcher, 'g');
    assert_eq!(dispatcher.resolver.history, vec![Key::new("g")]);
    press(&mut dispatcher, 'g');
    assert_eq!(dispatcher.queue, vec![Action::SelectPrevBook]);
    dispatcher.queue.clear();
    press(&mut dispatcher, 'g');
    dispatcher.handle_event(Event::Tick);
    assert_eq!(dispatcher.resolver.history, vec![Key::new("g")]);
    pass(&mut dispatcher);
    assert!(dispatcher.resolver.history.is_empty());
    press(&mut dispatcher, 'g');
    assert!(dispatcher.queue.is_empty());
    assert_eq!(dispatcher.resolver.history, vec![Key::new("g")]);
}

#[test]
fn a_pass_hands_out_no_more_actions_than_its_limit() {
    let mut dispatcher = Dispatcher::new(bindings(), 3);
    dispatcher.queue.clear();
    for _ in 0..5 {
        dispatcher.send(Action::Render);
    }
    let (effects, control) = pass(&mut dispatcher);
    assert_eq!(effects.len(), 3);
    assert_eq!(control, Control::Continue);
    assert_eq!(dispatcher.queue.len(), 2);
    assert_eq!(dispatcher.next_action(), None);
    let (effects, _) = pass(&mut dispatcher);
    assert_eq!(effects.len(), 2);
    assert!(dispatcher.queue.is_empty());
    assert_eq!(dispatcher.next_action(), None);
    let mut never = Dispatcher::new(bindings(), 0);
    assert_eq!(never.next_action(), None);
    assert_eq!(never.queue, vec![Action::LoadBooks]);
}

#[test]
fn suspending_comes_before_quitting_and_resumes_with_a_refresh() {
    let mut dispatcher = Dispatcher::new(bindings(), 10);
    dispatcher.queue.clear();
    dispatcher.send(Action::Suspend);
    dispatcher.send(Action::Quit);
    let (effects, control) = pass(&mut dispatcher);
    assert_eq!(effects, Vec::new());
    assert_eq!(control, Control::Suspend);
    assert!(dispatcher.should_suspend);
    assert!(dispatcher.should_quit);
    assert_eq!(dispatcher.queue, vec![Action::Resume, Action::Refresh]);
    let (effects, control) = pass(&mut dispatcher);
    assert_eq!(effects, vec![Effect::ClearScreen]);
    assert_eq!(control, Control::Quit);
    assert!(!dispatcher.should_suspend);
}

#[test]
fn an_error_shows_on_the_status_line() {
    let mut dispatcher = Dispatcher::new(bindings(), 10);
    dispatcher.queue.clear();
    dispatcher.send(Action::Error(String::from("Failed to draw header")));
    let (effects, control) = pass(&mut dispatcher);
    assert_eq!(effects, Vec::new());
    assert_eq!(control, Control::Continue);
    assert_eq!(dispatcher.state.status_line, "Failed to draw header");
}

#[test]
fn an_external_command_comes_out_as_an_effect() {
    let mut dispatcher = Dispatcher::new(bindings(), 10);
    pass(&mut dispatcher);
    dispatcher.send(Action::SelectNextBook);
    dispatcher.send(Action::AddPageToBook);
    let (effects, _) = pass(&mut dispatcher);
    assert_eq!(
        effects,
        vec![Effect::RunExternal(
            String::from("dnote"),
            vec![String::from("add"), String::from("A")]
        )]
    );
    assert_eq!(dispatcher.state.pages.items.len(), 1);
    assert!(dispatcher.queue.is_empty());
}

#[test]
fn a_failing_tool_never_stops_the_loop() {
    let mut dispatcher = Dispatcher::new(bindings(), 10);
    pass(&mut dispatcher);
    dispatcher.send(Action::LoadPagesFor(book("missing")));
    dispatcher.send(Action::LoadContentFor(999));
    dispatcher.send(Action::Render);
    let (effects, control) = pass(&mut dispatcher);
    assert_eq!(effects, vec![Effect::Draw]);
    assert_eq!(control, Control::Continue);
    assert_eq!(dispatcher.state.status_line, "dnote command failed");
    assert_eq!(dispatcher.state.books.items.len(), 2);
    assert!(dispatcher.state.pages.items.is_empty());
    assert_eq!(dispatcher.state.page_content, None);
}

#[test]
fn actions_that_load_data_name_their_query() {
    let args = |action: Action| query_for(&action).map(|c| c.args());
    assert_eq!(args(Action::LoadBooks), Some(vec![String::from("view"), String::from("--name-only")]));
    assert_eq!(
        args(Action::LoadPagesFor(book("ccu"))),
        Some(vec![String::from("view"), String::from("ccu")])
    );
    assert_eq!(
        args(Action::RefreshPagesFor(book("ccu"))),
        Some(vec![String::from("view"), String::from("ccu")])
    );
    assert_eq!(
        args(Action::LoadContentFor(21)),
        Some(vec![String::from("view"), String::from("21"), String::from("--content-only")])
    );
    assert_eq!(args(Action::Tick), None);
    assert_eq!(args(Action::SelectNextBook), None);
    assert_eq!(args(Action::RunExternalCommand(String::from("dnote"), Vec::new())), None);
}
