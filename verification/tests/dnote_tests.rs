use dnote_tui::dnote::{
    parse_books, parse_pages, CommandOutcome, DnoteBook, DnoteClient, DnoteClientError, DnoteCommand,
    DnotePage, DnotePageInfo,
};

#[test]
fn dnote_should_parse_dnotebook_from_string() {
    let s = String::from("my notebook");
    let book: DnoteBook = s.parse().unwrap();
    assert_eq!(book.name, "my notebook")
}

#[test]
fn dnote_should_parse_dnotepage_from_string() {
    let input1 = "(21) # Issues [---More---]";
    let input2 = "  (27) # Missed [---More---]";
    let page1: DnotePage = input1.parse().unwrap();
    let page2: DnotePage = input2.parse().unwrap();
    assert_eq!(page1.id, 21);
    assert_eq!(page1.summary, "# Issues");
    assert_eq!(page2.id, 27);
    assert_eq!(page2.summary, "# Missed");
}

#[test]
fn dnote_should_parse_dnotepageinfo_from_string() {
    let input1 = "# E2E\n\n- Grab a list of all data test ids on a page\n- Make sure all those data test ids exist";
    let input2 = "   # E2E   \n\n   - Grab a list of all data test ids on a page   \n   - Make sure all those data test ids exist   ";
    let input3 = "";
    let page_info1: DnotePageInfo = input1.parse().unwrap();
    let page_info2: DnotePageInfo = input2.parse().unwrap();
    let page_info3: DnotePageInfo = input3.parse().unwrap();
    assert_eq!(page_info1.content, input1);
    assert_eq!(page_info2.content, input2.trim());
    assert_eq!(page_info3.content, input3);
}

#[test]
fn dnote_lib_should_parse_dnotebook_from_string() {
    let s = String::from("my notebook");
    let book: DnoteBook = s.parse().unwrap();
    assert_eq!(book.name, "my notebook")
}

#[test]
fn dnote_lib_should_parse_dnotepage_from_string() {
    let input1 = "(21) # Issues [---More---]";
    let input2 = "  (27) # Missed [---More---]";
    let page1: DnotePage = input1.parse().unwrap();
    let page2: DnotePage = input2.parse().unwrap();
    assert_eq!(page1.id, 21);
    assert_eq!(page1.summary, "# Issues");
    assert_eq!(page2.id, 27);
    assert_eq!(page2.summary, "# Missed");
}

#[test]
fn dnote_lib_should_parse_dnotepageinfo_from_string() {
    let input1 = "# E2E\n\n- Grab a list of all data test ids on a page\n- Make sure all those data test ids exist";
    let input2 = "   # E2E   \n\n   - Grab a list of all data test ids on a page   \n   - Make sure all those data test ids exist   ";
    let input3 = "";
    let page_info1: DnotePageInfo = input1.parse().unwrap();
    let page_info2: DnotePageInfo = input2.parse().unwrap();
    let page_info3: DnotePageInfo = input3.parse().unwrap();
    assert_eq!(page_info1.content, input1);
    assert_eq!(page_info2.content, input2.trim());
    assert_eq!(page_info3.content, input3);
}

#[test]
fn page_line_without_marker_is_a_page() {
    let page: DnotePage = "(3) short note".parse().unwrap();
    assert_eq!(page.id, 3);
    assert_eq!(page.summary, "short note");
}

#[test]
fn page_line_summary_is_all_that_follows_the_first_closing_bracket() {
    let page = DnotePage::parse("  (12) see (a) and (b) [---More---]  ").unwrap();
    assert_eq!(page.id, 12);
    assert_eq!(page.summary, "see (a) and (b)");
    let page = DnotePage::parse("(5)").unwrap();
    assert_eq!(page, DnotePage { id: 5, summary: String::new() });
    let page = DnotePage::parse("(5)[---More---]").unwrap();
    assert_eq!(page.summary, "");
    let page = DnotePage::parse("(5) x [---More---] [---More---]").unwrap();
    assert_eq!(page.summary, "x [---More---]");
    let page = DnotePage::parse("(5) x [---More---][---More---]").unwrap();
    assert_eq!(page.summary, "x");
    let page = DnotePage::parse("(5) [---More---] x").unwrap();
    assert_eq!(page.summary, "[---More---] x");
}

#[test]
fn page_line_identifier_is_an_unsigned_number() {
    assert_eq!(DnotePage::parse("(4294967295) max").unwrap().id, u32::MAX);
    assert_eq!(DnotePage::parse("((7) twice").unwrap().id, 7);
    assert_eq!(DnotePage::parse("7) none").unwrap().id, 7);
    assert_eq!(DnotePage::parse("\t( 7) x"), Err(DnoteClientError::ParseFailure));
    assert_eq!(DnotePage::parse("(4294967296) too large"), Err(DnoteClientError::ParseFailure));
    assert_eq!(DnotePage::parse("(-1) negative"), Err(DnoteClientError::ParseFailure));
    assert_eq!(DnotePage::parse("(x) no number"), Err(DnoteClientError::ParseFailure));
    assert_eq!(DnotePage::parse("() empty"), Err(DnoteClientError::ParseFailure));
    assert_eq!(DnotePage::parse("(12 no bracket"), Err(DnoteClientError::ParseFailure));
    assert_eq!(DnotePage::parse(""), Err(DnoteClientError::ParseFailure));
    assert_eq!(DnotePage::parse("  • on book ccu"), Err(DnoteClientError::ParseFailure));
}

#[test]
fn book_line_is_trimmed_and_must_not_be_blank() {
    assert_eq!(DnoteBook::parse("  ccu \r").unwrap().name, "ccu");
    assert_eq!(DnoteBook::parse(""), Err(DnoteClientError::ParseFailure));
    assert_eq!(DnoteBook::parse(" \t "), Err(DnoteClientError::ParseFailure));
    assert_eq!("".parse::<DnoteBook>(), Err(DnoteClientError::ParseFailure));
}

#[test]
fn page_content_is_the_trimmed_output() {
    assert_eq!(DnotePageInfo::parse("\n  # Title\n\nbody\n\n").unwrap().content, "# Title\n\nbody");
    assert_eq!(DnotePageInfo::parse("").unwrap().content, "");
    assert_eq!(DnotePageInfo::parse(" \n ").unwrap().content, "");
}

#[test]
fn book_listing_has_one_book_per_line() {
    let books = parse_books("js\n  linux  \nrust\n").unwrap();
    let names: Vec<&str> = books.iter().map(|b| b.name.as_str()).collect();
    assert_eq!(names, vec!["js", "linux", "rust"]);
    assert_eq!(parse_books("").unwrap(), Vec::new());
    assert_eq!(parse_books("only"), Ok(vec![DnoteBook { name: String::from("only") }]));
    assert_eq!(parse_books("js\n\nrust\n"), Err(DnoteClientError::ParseFailure));
    assert_eq!(parse_books("\n"), Err(DnoteClientError::ParseFailure));
    assert_eq!(parse_books("js\n   "), Err(DnoteClientError::ParseFailure));
}

#[test]
fn page_listing_skips_its_header_and_fails_on_the_first_bad_line() {
    let output = "  • on book ccu\n  (21) # Issues [---More---]\n  (27) # Missed [---More---]\n";
    assert_eq!(
        parse_pages(output),
        Ok(vec![
            DnotePage { id: 21, summary: String::from("# Issues") },
            DnotePage { id: 27, summary: String::from("# Missed") },
        ])
    );
    assert_eq!(parse_pages(""), Ok(Vec::new()));
    assert_eq!(parse_pages("(1) the first line is a header"), Ok(Vec::new()));
    assert_eq!(parse_pages("header\n"), Ok(Vec::new()));
    assert_eq!(parse_pages("header\n(1) a\nnot a page\n(2) b\n"), Err(DnoteClientError::ParseFailure));
    assert_eq!(parse_pages("header\n(1) a\n\n"), Err(DnoteClientError::ParseFailure));
    assert_eq!(parse_pages("header\n\n"), Err(DnoteClientError::ParseFailure));
}

fn ran(stdout: &str) -> CommandOutcome {
    CommandOutcome::Exited { success: true, stdout: stdout.as_bytes().to_vec() }
}

#[test]
fn output_of_a_run_is_its_text() {
    let client = DnoteClient::new();
    assert_eq!(client.output(&ran("héllo\n")), Ok(String::from("héllo\n")));
    assert_eq!(client.output(&ran("")), Ok(String::new()));
    assert_eq!(client.program(), "dnote");
}

#[test]
fn a_run_that_failed_is_a_command_failure() {
    let client = DnoteClient::new();
    let failed = CommandOutcome::Exited { success: false, stdout: b"js\n".to_vec() };
    let not_text = CommandOutcome::Exited { success: true, stdout: vec![b'j', 0xff, b's'] };
    let cut_short = CommandOutcome::Exited { success: true, stdout: vec![0xe2, 0x80] };
    for outcome in [&CommandOutcome::NotRun, &failed, &not_text, &cut_short] {
        assert_eq!(client.output(outcome), Err(DnoteClientError::CommandFailure));
        assert_eq!(client.get_books(outcome), Err(DnoteClientError::CommandFailure));
        assert_eq!(client.get_pages(outcome), Err(DnoteClientError::CommandFailure));
        assert_eq!(
            client.get_page_content(outcome).map(|info| info.content),
            Err(DnoteClientError::CommandFailure)
        );
        assert_eq!(client.rename_book(outcome), Err(DnoteClientError::CommandFailure));
    }
}

#[test]
fn the_client_reads_what_a_run_printed() {
    let client = DnoteClient::new();
    assert_eq!(
        client.get_books(&ran("A\nB\n")),
        Ok(vec![DnoteBook { name: String::from("A") }, DnoteBook { name: String::from("B") }])
    );
    assert_eq!(client.get_books(&ran("A\n\n")), Err(DnoteClientError::ParseFailure));
    assert_eq!(
        client.get_pages(&ran("  • on book B\n  (3) three [---More---]\n")),
        Ok(vec![DnotePage { id: 3, summary: String::from("three") }])
    );
    assert_eq!(client.get_pages(&ran("header\nthree\n")), Err(DnoteClientError::ParseFailure));
    assert_eq!(client.get_page_content(&ran("  text\n")).unwrap().content, "text");
    assert_eq!(client.get_page_content(&ran("")).unwrap().content, "");
    assert_eq!(client.rename_book(&ran("")), Ok(()));
    assert_eq!(client.mutate(&ran("done\n")), Ok(()));
    assert_eq!(client.mutate(&CommandOutcome::NotRun), Err(DnoteClientError::CommandFailure));
}

#[test]
fn errors_have_messages() {
    assert_eq!(DnoteClientError::CommandFailure.message(), "dnote command failed");
    assert_eq!(DnoteClientError::ParseFailure.message(), "could not read the output of dnote");
}

fn args_of(command: DnoteCommand) -> Vec<String> {
    command.args()
}

#[test]
fn commands_have_the_arguments_of_the_tool() {
    let s = String::from;
    assert_eq!(args_of(DnoteCommand::ViewBooks), vec!["view", "--name-only"]);
    assert_eq!(args_of(DnoteCommand::ViewByBook { book_name: s("ccu") }), vec!["view", "ccu"]);
    assert_eq!(
        args_of(DnoteCommand::ViewByNoteId { note_id: 21 }),
        vec!["view", "21", "--content-only"]
    );
    assert_eq!(
        args_of(DnoteCommand::Add { book_name: s("ccu"), note: s("a note") }),
        vec!["add", "ccu", "-c", "a note"]
    );
    assert_eq!(
        args_of(DnoteCommand::EditNoteById { note_id: s("21"), new_content: None, new_book: None }),
        vec!["edit", "21"]
    );
    assert_eq!(
        args_of(DnoteCommand::EditNoteById {
            note_id: s("21"),
            new_content: Some(s("text")),
            new_book: None
        }),
        vec!["edit", "21", "-c", "text"]
    );
    assert_eq!(
        args_of(DnoteCommand::EditNoteById {
            note_id: s("21"),
            new_content: None,
            new_book: Some(s("js"))
        }),
        vec!["edit", "21", "-b", "js"]
    );
    assert_eq!(
        args_of(DnoteCommand::EditNoteById {
            note_id: s("21"),
            new_content: Some(s("text")),
            new_book: Some(s("js"))
        }),
        vec!["edit", "21", "-c", "text", "-b", "js"]
    );
    assert_eq!(
        args_of(DnoteCommand::EditBook { book_name: s("stm"), new_name: Some(s("t3")) }),
        vec!["edit", "stm", "-n", "t3"]
    );
    assert_eq!(
        args_of(DnoteCommand::EditBook { book_name: s("stm"), new_name: None }),
        vec!["edit", "stm"]
    );
    assert_eq!(args_of(DnoteCommand::RemoveBook { book_name: s("stm") }), vec!["rm", "stm"]);
    assert_eq!(args_of(DnoteCommand::RemoveNoteById { note_id: 4294967295 }), vec!["rm", "4294967295"]);
}

#[test]
fn records_can_be_copied_and_have_defaults() {
    let page = DnotePage { id: 9, summary: String::from("nine") };
    assert_eq!(page.clone(), page);
    let book = DnoteBook { name: String::from("b") };
    assert_eq!(book.clone(), book);
    assert_eq!(DnoteBook::default().name, "");
    assert_eq!(DnotePage::default(), DnotePage { id: 0, summary: String::new() });
    let info = DnotePageInfo { content: String::from("c") };
    assert_eq!(info.clone().content, "c");
}
