use rink::fb2_parser::{BookMeta, FootnoteInfo};
use rink::i18n::Language;
use rink::library::{
    add_bookmark, cycle_sort, filter_books, position_of, remove_bookmark, sort_books, BookEntry,
    BorderStyle, SortMode, ThemeColor,
};
use rink::reader::{
    close_footnote, download_failed, expand_home, handle_bookmarks_key, handle_config_key,
    handle_input_key, handle_key_event, handle_library_key, handle_reader_key, line_refs,
    open_book_at, path_rejected, screen_footnotes, Action, AppState, Key, ReaderState, Settings,
};
use rink::view::{
    book_label, bookmark_text, calculate_list_offset, clamp_selection, display_line,
    highlight_search, note_lines, process_text_segment, progress, progress_cells, SegmentStyle,
};

fn entry(title: &str, author: &str, series: &str, num: i32) -> Option<BookEntry> {
    Some(BookEntry {
        title: title.to_string(),
        author: author.to_string(),
        series: series.to_string(),
        series_num: num,
        last_read_line: 0,
        bookmarks: Vec::new(),
    })
}

fn settings() -> Settings {
    Settings {
        language: Language::En,
        theme_color: ThemeColor::Cyan,
        popup_border_color: ThemeColor::White,
        main_border: BorderStyle::Rounded,
        popup_border: BorderStyle::Double,
    }
}

fn lines(n: usize) -> Vec<String> {
    (0..n).map(|i| format!("line {}", i)).collect()
}

#[test]
fn border_and_theme_cycles() {
    assert_eq!(BorderStyle::default(), BorderStyle::Rounded);
    assert_eq!(BorderStyle::Rounded.next(), BorderStyle::Plain);
    assert_eq!(BorderStyle::Plain.next(), BorderStyle::Double);
    assert_eq!(ThemeColor::Red.next(), ThemeColor::White);
    assert_eq!(ThemeColor::White.next(), ThemeColor::Cyan);
    assert_eq!(ThemeColor::from_name("Magenta"), ThemeColor::Magenta);
    assert_eq!(ThemeColor::from_name("Blue"), ThemeColor::Cyan);
    assert_eq!(ThemeColor::from_name(ThemeColor::Yellow.name()), ThemeColor::Yellow);
    assert_eq!(SortMode::Series.next(), SortMode::Title);
}

#[test]
fn entry_from_meta() {
    let meta = BookMeta {
        title: "T".to_string(),
        author: "A".to_string(),
        series: "S".to_string(),
        sequence_number: 4,
        annotation: String::new(),
    };
    let e = BookEntry::from_meta(&meta);
    assert_eq!(e.title, "T");
    assert_eq!(e.series_num, 4);
    assert_eq!(e.last_read_line, 0);
    let mut d = BookEntry::default();
    d.last_read_line = 7;
    d.refresh(&meta);
    assert_eq!(d.author, "A");
    assert_eq!(d.last_read_line, 7);
}

#[test]
fn sorting_by_title_is_stable_and_ignores_case() {
    let es = vec![entry("beta", "x", "", 0), entry("Alpha", "y", "", 0), None, entry("alpha", "z", "", 0)];
    assert_eq!(sort_books(&es, SortMode::Title), vec![2, 1, 3, 0]);
}

#[test]
fn sorting_by_series_puts_books_without_series_last() {
    let es = vec![
        entry("a", "x", "", 5),
        entry("b", "x", "Saga", 2),
        entry("c", "x", "Saga", 1),
        entry("d", "x", "Epic", 9),
    ];
    assert_eq!(sort_books(&es, SortMode::Series), vec![3, 2, 1, 0]);
    let (order, mode) = cycle_sort(&es, SortMode::Author);
    assert_eq!(mode, SortMode::Series);
    assert_eq!(order, vec![3, 2, 1, 0]);
}

#[test]
fn sorting_by_author() {
    let es = vec![entry("a", "Zed", "", 0), entry("b", "amy", "", 0)];
    let (order, mode) = cycle_sort(&es, SortMode::Title);
    assert_eq!(mode, SortMode::Author);
    assert_eq!(order, vec![1, 0]);
    assert_eq!(position_of(&order, 0), Some(1));
    assert_eq!(position_of(&order, 5), None);
}

#[test]
fn library_search_filters_by_sort_field() {
    let es = vec![entry("War and Peace", "Tolstoy", "", 0), entry("Anna", "TOLSTOY", "", 0), None];
    assert_eq!(filter_books(&es, SortMode::Title, "war"), vec![0]);
    assert_eq!(filter_books(&es, SortMode::Author, "tol"), vec![0, 1]);
    assert_eq!(filter_books(&es, SortMode::Author, ""), vec![0, 1, 2]);
}

#[test]
fn bookmarks_stay_sorted_and_unique() {
    let mut marks = vec![30, 10];
    assert!(add_bookmark(&mut marks, 20));
    assert_eq!(marks, vec![10, 20, 30]);
    assert!(!add_bookmark(&mut marks, 20));
    assert_eq!(marks, vec![10, 20, 30]);
    assert_eq!(remove_bookmark(&mut marks, 2), 1);
    assert_eq!(marks, vec![10, 20]);
    assert_eq!(remove_bookmark(&mut marks, 5), 5);
    assert_eq!(remove_bookmark(&mut marks, 0), 0);
    assert_eq!(marks, vec![20]);
}

#[test]
fn reader_scrolls_within_text() {
    let mut st = ReaderState::new(AppState::Reader, 0, settings());
    let ls = lines(30);
    let toc = vec![];
    let notes = vec![];
    assert_eq!(handle_reader_key(&mut st, Key::Down, &ls, &toc, &notes, 10), Action::Nothing);
    assert_eq!(st.view.scroll, 1);
    handle_reader_key(&mut st, Key::PageDown, &ls, &toc, &notes, 10);
    assert_eq!(st.view.scroll, 11);
    handle_reader_key(&mut st, Key::PageDown, &ls, &toc, &notes, 10);
    assert_eq!(st.view.scroll, 20);
    handle_reader_key(&mut st, Key::Char('j'), &ls, &toc, &notes, 10);
    assert_eq!(st.view.scroll, 21);
    handle_reader_key(&mut st, Key::End, &ls, &toc, &notes, 10);
    assert_eq!(st.view.scroll, 20);
    handle_reader_key(&mut st, Key::PageUp, &ls, &toc, &notes, 15);
    assert_eq!(st.view.scroll, 5);
    handle_reader_key(&mut st, Key::Home, &ls, &toc, &notes, 10);
    assert_eq!(st.view.scroll, 0);
    handle_reader_key(&mut st, Key::Up, &ls, &toc, &notes, 10);
    assert_eq!(st.view.scroll, 0);
}

#[test]
fn reader_search_jumps_to_results() {
    let mut st = ReaderState::new(AppState::Reader, 5, settings());
    let ls = vec!["Alpha".to_string(), "beta".to_string(), "alpha".to_string(), "x".to_string(), "x".to_string(), "x".to_string(), "ALPHA".to_string()];
    let toc = vec![];
    let notes = vec![];
    handle_reader_key(&mut st, Key::Char('/'), &ls, &toc, &notes, 3);
    assert!(st.search.is_searching);
    handle_reader_key(&mut st, Key::Char('a'), &ls, &toc, &notes, 3);
    handle_reader_key(&mut st, Key::Char('l'), &ls, &toc, &notes, 3);
    assert_eq!(st.search.results, vec![0, 2, 6]);
    assert_eq!(st.search.current, 2);
    assert_eq!(st.view.scroll, 6);
    handle_reader_key(&mut st, Key::Enter, &ls, &toc, &notes, 3);
    assert!(!st.search.is_searching);
    handle_reader_key(&mut st, Key::Char('n'), &ls, &toc, &notes, 3);
    assert_eq!(st.view.scroll, 0);
    handle_reader_key(&mut st, Key::Char('N'), &ls, &toc, &notes, 3);
    assert_eq!(st.view.scroll, 6);
    handle_reader_key(&mut st, Key::Esc, &ls, &toc, &notes, 3);
    assert_eq!(st.search.query, "");
    assert!(st.search.results.is_empty());
}

#[test]
fn reader_quit_and_screens() {
    let ls = lines(3);
    let toc = vec![("One".to_string(), 0), ("Two".to_string(), 2)];
    let notes = vec![];
    let mut st = ReaderState::new(AppState::Reader, 0, settings());
    assert_eq!(handle_reader_key(&mut st, Key::Char('t'), &ls, &toc, &notes, 10), Action::Nothing);
    assert!(st.popups.show_toc);
    handle_reader_key(&mut st, Key::Down, &ls, &toc, &notes, 10);
    handle_reader_key(&mut st, Key::Down, &ls, &toc, &notes, 10);
    assert_eq!(st.popups.toc_index, 1);
    handle_reader_key(&mut st, Key::Enter, &ls, &toc, &notes, 10);
    assert_eq!(st.view.scroll, 2);
    assert!(!st.popups.show_toc);
    assert_eq!(handle_reader_key(&mut st, Key::Char('L'), &ls, &toc, &notes, 10), Action::ShowLibrary);
    assert_eq!(st.view.state, AppState::Library);
    let mut st = ReaderState::new(AppState::Reader, 1, settings());
    assert_eq!(handle_reader_key(&mut st, Key::Char('m'), &ls, &toc, &notes, 10), Action::AddBookmark(1));
    assert_eq!(handle_reader_key(&mut st, Key::Char('q'), &ls, &toc, &notes, 10), Action::Quit);
    assert!(st.view.should_quit);
}

#[test]
fn reader_width_and_theme() {
    let ls = lines(3);
    let mut st = ReaderState::new(AppState::Reader, 0, settings());
    for _ in 0..20 {
        handle_reader_key(&mut st, Key::Char('+'), &ls, &vec![], &vec![], 10);
    }
    assert_eq!(st.view.width, 100);
    for _ in 0..20 {
        handle_reader_key(&mut st, Key::Char('-'), &ls, &vec![], &vec![], 10);
    }
    assert_eq!(st.view.width, 30);
    assert_eq!(handle_reader_key(&mut st, Key::Char('c'), &ls, &vec![], &vec![], 10), Action::SaveLibrary);
    assert_eq!(st.settings.theme_color, ThemeColor::Green);
    assert_eq!(st.settings.popup_border_color, ThemeColor::White);
}

#[test]
fn footnote_key_cycles_through_notes_on_screen() {
    let ls = vec!["a [2] b [1]".to_string(), "c [x] [1] [3]".to_string(), "[2]".to_string()];
    let notes = vec![
        FootnoteInfo { text: "one".to_string(), number: 1 },
        FootnoteInfo { text: "two".to_string(), number: 2 },
    ];
    assert_eq!(screen_footnotes(&ls, 0, 2, &notes), vec![1, 2]);
    let mut st = ReaderState::new(AppState::Reader, 0, settings());
    handle_reader_key(&mut st, Key::Char('f'), &ls, &vec![], &notes, 2);
    assert!(st.footnote.show);
    assert_eq!(st.footnote.number, Some(1));
    assert_eq!(st.footnote.text, "1. one");
    close_footnote(&mut st);
    handle_reader_key(&mut st, Key::Char('f'), &ls, &vec![], &notes, 2);
    assert_eq!(st.footnote.number, Some(2));
    assert_eq!(st.footnote.text, "2. two");
    let mut marks = vec![];
    handle_key_event(&mut st, Key::Char('x'), &ls, &vec![], &notes, 2, 0, &mut marks, false);
    assert!(!st.footnote.show);
}

#[test]
fn bracket_references_of_a_line() {
    let t: Vec<char> = "x [12] [a] [3 [4] [99999999999999999999999]".chars().collect();
    assert_eq!(line_refs(&t), vec![12]);
}

#[test]
fn library_keys() {
    let mut st = ReaderState::new(AppState::Library, 0, settings());
    handle_library_key(&mut st, Key::PageDown, 25);
    assert_eq!(st.popups.library_index, 10);
    handle_library_key(&mut st, Key::End, 25);
    assert_eq!(st.popups.library_index, 24);
    handle_library_key(&mut st, Key::Down, 25);
    assert_eq!(st.popups.library_index, 24);
    assert_eq!(handle_library_key(&mut st, Key::Char('s'), 25), Action::SortLibrary);
    assert_eq!(st.popups.sort_mode, SortMode::Author);
    handle_library_key(&mut st, Key::Char('/'), 25);
    handle_library_key(&mut st, Key::Char('s'), 25);
    assert_eq!(st.input.library_query, "s");
    assert_eq!(st.popups.library_index, 0);
    handle_library_key(&mut st, Key::Enter, 25);
    assert_eq!(handle_library_key(&mut st, Key::Enter, 25), Action::OpenSelected);
    open_book_at(&mut st, 42);
    assert_eq!(st.view.state, AppState::Reader);
    assert_eq!(st.view.scroll, 42);
}

#[test]
fn settings_keys() {
    let mut st = ReaderState::new(AppState::Config, 0, settings());
    for _ in 0..5 {
        handle_config_key(&mut st, Key::Down);
    }
    assert_eq!(handle_config_key(&mut st, Key::Enter), Action::ReloadBook);
    assert_eq!(st.settings.language, Language::Ru);
    handle_config_key(&mut st, Key::Down);
    assert_eq!(handle_config_key(&mut st, Key::Enter), Action::SaveLibrary);
    assert_eq!(st.settings.popup_border_color, ThemeColor::Cyan);
    st.popups.config_index = 1;
    assert_eq!(handle_config_key(&mut st, Key::Enter), Action::Scan);
    assert_eq!(st.view.state, AppState::Scanning);
}

#[test]
fn bookmark_screen_keys() {
    let mut st = ReaderState::new(AppState::Bookmarks, 0, settings());
    let mut marks = vec![5, 9, 12];
    handle_bookmarks_key(&mut st, Key::Down, &mut marks, true);
    handle_bookmarks_key(&mut st, Key::Down, &mut marks, true);
    assert_eq!(handle_bookmarks_key(&mut st, Key::Delete, &mut marks, true), Action::SaveLibrary);
    assert_eq!(marks, vec![5, 9]);
    assert_eq!(st.popups.library_index, 1);
    handle_bookmarks_key(&mut st, Key::Enter, &mut marks, true);
    assert_eq!(st.view.scroll, 9);
    assert_eq!(st.view.state, AppState::Reader);
}

#[test]
fn prompt_keys() {
    let mut st = ReaderState::new(AppState::InputPath, 0, settings());
    path_rejected(&mut st);
    assert_eq!(st.input.buffer, "ERROR: Path not found!");
    handle_input_key(&mut st, Key::Char('/'));
    assert_eq!(st.input.buffer, "/");
    handle_input_key(&mut st, Key::Char('b'));
    handle_input_key(&mut st, Key::Backspace);
    assert_eq!(st.input.buffer, "/");
    st.input.buffer = "  ~/books ".to_string();
    assert_eq!(handle_input_key(&mut st, Key::Enter), Action::SetScanPath("~/books".to_string()));
    assert_eq!(expand_home("~/books", Some("/home/u".to_string())), "/home/u/books");
    assert_eq!(expand_home("/books", Some("/home/u".to_string())), "/books");
    let mut st = ReaderState::new(AppState::InputUrl, 0, settings());
    st.input.buffer = "http://x/y.fb2".to_string();
    assert_eq!(handle_input_key(&mut st, Key::Enter), Action::Download("http://x/y.fb2".to_string()));
    download_failed(&mut st, "timeout");
    assert_eq!(st.input.buffer, "Ошибка: timeout");
    handle_input_key(&mut st, Key::Char('z'));
    assert_eq!(st.input.buffer, "z");
    handle_input_key(&mut st, Key::Esc);
    assert_eq!(st.view.state, AppState::Config);
}

#[test]
fn list_offset_keeps_selection_visible() {
    assert_eq!(calculate_list_offset(5, 3, 10), 0);
    assert_eq!(calculate_list_offset(100, 50, 10), 45);
    assert_eq!(calculate_list_offset(100, 99, 10), 90);
    assert_eq!(calculate_list_offset(100, 2, 10), 0);
}

#[test]
fn progress_values() {
    assert_eq!(progress(10, 0, 20), 100);
    assert_eq!(progress(110, 50, 10), 50);
    assert_eq!(progress(110, 100, 10), 100);
    assert_eq!(progress(110, 500, 10), 100);
    assert_eq!(progress_cells(55), 5);
}

#[test]
fn pieces_mark_footnotes_and_matches() {
    let notes = vec![FootnoteInfo { text: "n".to_string(), number: 1 }];
    let segs = process_text_segment("see [1] and [2] end", &notes);
    let v: Vec<(SegmentStyle, String)> = segs.into_iter().map(|s| (s.style, s.text)).collect();
    assert_eq!(v, vec![
        (SegmentStyle::Plain, "see ".to_string()),
        (SegmentStyle::Footnote, "[1]".to_string()),
        (SegmentStyle::Plain, " and ".to_string()),
        (SegmentStyle::Plain, "[2]".to_string()),
        (SegmentStyle::Plain, " end".to_string()),
    ]);
    let segs = highlight_search("Cat and cat", "CAT", &notes);
    let v: Vec<(SegmentStyle, String)> = segs.into_iter().map(|s| (s.style, s.text)).collect();
    assert_eq!(v, vec![
        (SegmentStyle::Match, "Cat".to_string()),
        (SegmentStyle::Plain, " and ".to_string()),
        (SegmentStyle::Match, "cat".to_string()),
    ]);
    let segs = highlight_search("", "x", &notes);
    assert_eq!(segs.len(), 1);
    assert_eq!(segs[0].text, "");
}

#[test]
fn display_of_title_and_reference_lines() {
    let notes = vec![FootnoteInfo { text: "n".to_string(), number: 1 }];
    let (header, segs) = display_line("^:  TITLE", "", &notes);
    assert!(header);
    assert_eq!(segs[0].text, "  TITLE");
    let (header, segs) = display_line("word ^f:[1]", "", &notes);
    assert!(!header);
    assert_eq!(segs[1].text, "[1]");
    assert_eq!(segs[1].style, SegmentStyle::Footnote);
}

#[test]
fn theme_cycle_returns_after_six_steps() {
    let mut c = ThemeColor::Magenta;
    for _ in 0..6 {
        c = c.next();
    }
    assert_eq!(c, ThemeColor::Magenta);
}

#[test]
fn language_toggles_back() {
    assert_eq!(Language::En.toggle().toggle(), Language::En);
}

#[test]
fn toc_selection_stays_in_table() {
    let ls = lines(3);
    let toc = vec![("a".to_string(), 0), ("b".to_string(), 1), ("c".to_string(), 2)];
    let mut st = ReaderState::new(AppState::Reader, 0, settings());
    handle_reader_key(&mut st, Key::Char('t'), &ls, &toc, &vec![], 10);
    handle_reader_key(&mut st, Key::PageDown, &ls, &toc, &vec![], 10);
    assert_eq!(st.popups.toc_index, 2);
    handle_reader_key(&mut st, Key::Down, &ls, &toc, &vec![], 10);
    assert_eq!(st.popups.toc_index, 2);
    handle_reader_key(&mut st, Key::PageUp, &ls, &toc, &vec![], 10);
    assert_eq!(st.popups.toc_index, 0);
}

#[test]
fn library_labels() {
    let e = entry("War", "Leo", "Saga", -2);
    assert_eq!(book_label(&e, SortMode::Title), " War — Leo");
    assert_eq!(book_label(&e, SortMode::Author), " Leo — War");
    assert_eq!(book_label(&e, SortMode::Series), " (Saga, #-2) War");
    assert_eq!(book_label(&entry("War", "Leo", "", 0), SortMode::Series), " War");
    assert_eq!(book_label(&None, SortMode::Title), " Без названия — Неизвестен");
}

#[test]
fn selections_and_previews() {
    assert_eq!(clamp_selection(5, 3), 2);
    assert_eq!(clamp_selection(1, 3), 1);
    assert_eq!(clamp_selection(4, 0), 0);
    let ls = vec!["^:^:  Title  ".to_string(), "x".repeat(60)];
    assert_eq!(bookmark_text(&ls, 0), "Title");
    assert_eq!(bookmark_text(&ls, 1), "x".repeat(50));
    assert_eq!(bookmark_text(&ls, 7), "...");
    assert_eq!(note_lines("one two three\n\nfour", 8), vec!["one two", "three", "", "four"]);
}
