use dnote_tui::action::{clone_strings, Action};
use dnote_tui::dnote::DnoteBook;

fn all_actions() -> Vec<Action> {
    let book = DnoteBook { name: String::from("b") };
    vec![
        Action::Tick,
        Action::Render,
        Action::Resize(80, 24),
        Action::Suspend,
        Action::Resume,
        Action::Quit,
        Action::Refresh,
        Action::Error(String::from("e")),
        Action::Help,
        Action::FocusNext,
        Action::FocusPrev,
        Action::LoadBooks,
        Action::LoadPagesFor(book.clone()),
        Action::LoadContentFor(1),
        Action::RefreshPagesFor(book),
        Action::SelectNextBook,
        Action::SelectPrevBook,
        Action::SelectNextPage,
        Action::SelectPrevPage,
        Action::AddPageToBook,
        Action::EditPage,
        Action::DeletePage,
        Action::DeleteBook,
        Action::RunExternalCommand(String::from("dnote"), vec![String::from("add")]),
    ]
}

#[test]
fn actions_have_labels() {
    let labels: Vec<&str> = all_actions().iter().map(|a| a.label()).collect();
    assert_eq!(
        labels,
        vec![
            "",
            "",
            "",
            "",
            "",
            "Quit",
            "",
            "",
            "Show Help",
            "Next Pane",
            "Prev Pane",
            "Load all books",
            "Load pages for the active book",
            "Load content for the active page",
            "Update pages for the active book",
            "Down",
            "Up",
            "Down",
            "Up",
            "Add",
            "Edit",
            "Delete",
            "Delete",
            "",
        ]
    );
}

#[test]
fn actions_have_ranks() {
    let ranks: Vec<usize> = all_actions().iter().map(|a| a.order()).collect();
    assert_eq!(
        ranks,
        vec![
            100, 100, 100, 100, 100, 80, 100, 100, 80, 30, 30, 100, 100, 100, 100, 10, 20, 10, 20,
            40, 50, 60, 60, 100
        ]
    );
}

#[test]
fn a_copy_of_an_action_equals_it() {
    for action in all_actions() {
        assert_eq!(action.clone(), action);
    }
    assert_ne!(Action::Resize(1, 2), Action::Resize(2, 1));
    assert_ne!(Action::LoadContentFor(1), Action::LoadContentFor(2));
    assert_ne!(
        Action::LoadPagesFor(DnoteBook { name: String::from("a") }),
        Action::RefreshPagesFor(DnoteBook { name: String::from("a") })
    );
    let strings = vec![String::from("x"), String::new(), String::from("y z")];
    assert_eq!(clone_strings(&strings), strings);
}

#[test]
fn actions_have_names() {
    let names: Vec<&str> = all_actions().iter().map(|a| a.name()).collect();
    assert_eq!(
        names,
        vec![
            "Tick",
            "Render",
            "Resize",
            "Suspend",
            "Resume",
            "Quit",
            "Refresh",
            "Error",
            "Help",
            "FocusNext",
            "FocusPrev",
            "LoadBooks",
            "LoadPagesFor",
            "LoadContentFor",
            "RefreshPagesFor",
            "SelectNextBook",
            "SelectPrevBook",
            "SelectNextPage",
            "SelectPrevPage",
            "AddPageToBook",
            "EditPage",
            "DeletePage",
            "DeleteBook",
            "RunExternalCommand",
        ]
    );
}
