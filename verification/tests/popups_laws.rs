use rink::book::perform_search;
use rink::fb2_parser::{FootnoteInfo, Paragraph};
use rink::view::{try_display_line, try_highlight_search, SegmentStyle};
use rink::i18n::Language;
use rink::layout::{justify_line, prepare_layout, relayout};
use rink::library::{
    add_bookmark, entry_at_position, leave_book, open_book_index, resort_keeping, BookEntry, BorderStyle,
    SortMode, ThemeColor,
};
use rink::popups::{annotation_lines, bookmark_rows, info_fields, settings_menu, toc_label};
use rink::reader::Settings;

fn en_settings() -> Settings {
    Settings {
        language: Language::En,
        theme_color: ThemeColor::Cyan,
        popup_border_color: ThemeColor::White,
        main_border: BorderStyle::Rounded,
        popup_border: BorderStyle::Double,
    }
}

#[test]
fn settings_menu_fills_in_values() {
    let rows = settings_menu(en_settings(), "/books, /more", 42);
    assert_eq!(rows.len(), 10);
    assert_eq!(rows[0], " 1. Path: /books, /more");
    assert_eq!(rows[1], " 2. Scan (Books: 42)");
    assert_eq!(rows[2], " 3. Clear library");
    assert_eq!(rows[3], " 4. Save settings");
    assert_eq!(rows[4], " 5. Download from URL");
    assert_eq!(rows[5], " 6. Language: English");
    assert_eq!(rows[6], " 7. Border color: border_color_white");
    assert_eq!(rows[7], " 8. Book border: border_style_rounded");
    assert_eq!(rows[8], " 9. Window borders: border_style_double");
    assert_eq!(rows[9], " 10. Back to reading (Esc)");
}

#[test]
fn settings_menu_in_russian() {
    let mut s = en_settings();
    s.language = Language::Ru;
    s.popup_border_color = ThemeColor::Green;
    let rows = settings_menu(s, "", 0);
    assert_eq!(rows[1], " 2. Сканировать (Книг: 0)");
    assert_eq!(rows[5], " 6. Язык: Русский");
    assert_eq!(rows[6], " 7. Цвет рамок: border_color_theme");
}

#[test]
fn info_fields_without_series() {
    let rows = info_fields(Language::En, "Leo Tolstoy", "War and Peace", "");
    assert_eq!(rows.len(), 2);
    assert_eq!(rows[0], (" AUTHOR: ".to_string(), "Leo Tolstoy".to_string()));
    assert_eq!(rows[1], (" TITLE: ".to_string(), "War and Peace".to_string()));
}

#[test]
fn info_fields_with_series() {
    let rows = info_fields(Language::Ru, "Автор", "Книга", "Цикл");
    assert_eq!(rows.len(), 3);
    assert_eq!(rows[2], (" ЦИКЛ:  ".to_string(), "Цикл".to_string()));
}

#[test]
fn annotation_missing_says_so() {
    assert_eq!(annotation_lines("", Language::En, 30), vec!["  (no description)".to_string()]);
    assert_eq!(annotation_lines("", Language::Ru, 30), vec!["  (нет описания)".to_string()]);
}

#[test]
fn annotation_justified_but_last_line() {
    let rows = annotation_lines("ab cd efgh", Language::En, 6);
    assert_eq!(rows, vec!["  ab  cd".to_string(), "  efgh".to_string()]);
}

#[test]
fn annotation_single_line_kept() {
    let rows = annotation_lines("short text", Language::En, 40);
    assert_eq!(rows, vec!["  short text".to_string()]);
}

#[test]
fn toc_label_short_title_trimmed() {
    assert_eq!(toc_label("  Chapter One  ", 20), " Chapter One ");
}

#[test]
fn toc_label_long_title_cut() {
    assert_eq!(toc_label("A very long chapter title", 10), " A very... ");
}

#[test]
fn toc_label_tiny_width() {
    assert_eq!(toc_label("Title", 2), " ... ");
}

#[test]
fn entry_at_position_new_book() {
    let e = entry_at_position(None, 12);
    assert_eq!(e.last_read_line, 12);
    assert!(e.title.is_empty());
    assert!(e.bookmarks.is_empty());
}

#[test]
fn entry_at_position_keeps_fields() {
    let old = BookEntry {
        title: "T".to_string(),
        author: "A".to_string(),
        series: "S".to_string(),
        series_num: 3,
        last_read_line: 1,
        bookmarks: vec![2, 9],
    };
    let e = entry_at_position(Some(old), 40);
    assert_eq!(e.last_read_line, 40);
    assert_eq!(e.title, "T");
    assert_eq!(e.author, "A");
    assert_eq!(e.series, "S");
    assert_eq!(e.series_num, 3);
    assert_eq!(e.bookmarks, vec![2, 9]);
}

#[test]
fn bookmarks_stay_strictly_increasing() {
    let mut marks = vec![3, 7];
    assert!(add_bookmark(&mut marks, 5));
    assert_eq!(marks, vec![3, 5, 7]);
    assert!(!add_bookmark(&mut marks, 5));
    assert_eq!(marks, vec![3, 5, 7]);
    assert!(add_bookmark(&mut marks, 1));
    assert_eq!(marks, vec![1, 3, 5, 7]);
}

#[test]
fn refined_query_narrows_results() {
    let lines = vec!["Hello World".to_string(), "hello there".to_string(), "bye".to_string()];
    let wide = perform_search(&lines, "hello");
    let narrow = perform_search(&lines, "Hello W");
    assert_eq!(wide, vec![0, 1]);
    assert_eq!(narrow, vec![0]);
    assert!(narrow.iter().all(|i| wide.contains(i)));
}

#[test]
fn blank_body_paragraph_adds_nothing() {
    let with_blank = vec![
        Paragraph::Title("T".to_string()),
        Paragraph::Body("   ".to_string()),
        Paragraph::Body("text".to_string()),
    ];
    let without = vec![Paragraph::Title("T".to_string()), Paragraph::Body("text".to_string())];
    assert_eq!(prepare_layout(&with_blank, 30), prepare_layout(&without, 30));
}

#[test]
fn untitled_layout_composes() {
    let a = vec![Paragraph::Title("Head".to_string()), Paragraph::Body("one".to_string())];
    let b = vec![Paragraph::Body("two".to_string()), Paragraph::Cite("three".to_string())];
    let mut ab = a.clone();
    ab.extend(b.clone());
    let (la, ta) = prepare_layout(&a, 30);
    let (lb, tb) = prepare_layout(&b, 30);
    assert!(tb.is_empty());
    let mut joined = la.clone();
    joined.extend(lb);
    assert_eq!(prepare_layout(&ab, 30), (joined, ta));
}

#[test]
fn justify_twice_is_justify_once() {
    let once = justify_line("  a bb ccc", 16);
    assert_eq!(once, "  a    bb    ccc");
    assert_eq!(justify_line(&once, 16), once);
    let long = justify_line("word another more", 5);
    assert_eq!(justify_line(&long, 5), long);
}

#[test]
fn justify_keeps_the_words() {
    let out = justify_line("  ab\tcd  ef", 15);
    let words: Vec<&str> = out.split_whitespace().collect();
    assert_eq!(words, vec!["ab", "cd", "ef"]);
}

fn titled(title: &str) -> Option<BookEntry> {
    Some(BookEntry {
        title: title.to_string(),
        author: String::new(),
        series: String::new(),
        series_num: 0,
        last_read_line: 0,
        bookmarks: Vec::new(),
    })
}

#[test]
fn resort_keeps_the_selected_book() {
    let entries = vec![titled("Charlie"), titled("alpha"), titled("Bravo")];
    let (order, selected) = resort_keeping(&entries, SortMode::Title, 0);
    assert_eq!(order, vec![1, 2, 0]);
    assert_eq!(selected, 2);
    let (_, past) = resort_keeping(&entries, SortMode::Title, 7);
    assert_eq!(past, 7);
}

#[test]
fn open_book_index_finds_first_or_zero() {
    assert_eq!(open_book_index(&vec![false, true, true]), 1);
    assert_eq!(open_book_index(&vec![false, false]), 0);
    assert_eq!(open_book_index(&vec![]), 0);
}

#[test]
fn leaving_a_book_records_it() {
    let (entry, last) = leave_book(titled("Book"), 33, "book.fb2");
    assert_eq!(entry.last_read_line, 33);
    assert_eq!(entry.title, "Book");
    assert_eq!(last, Some("book.fb2"));
}

#[test]
fn relayout_only_when_needed() {
    let ps = vec![Paragraph::Body("some text".to_string())];
    assert!(relayout(&ps, true, 40, 40).is_none());
    assert_eq!(relayout(&ps, false, 40, 40), Some(prepare_layout(&ps, 40)));
    assert_eq!(relayout(&ps, true, 40, 30), Some(prepare_layout(&ps, 30)));
}

#[test]
fn bookmark_rows_fill_the_template() {
    let lines = vec!["first line".to_string(), "^:Chapter".to_string()];
    let rows = bookmark_rows(Language::En, &lines, &vec![1, 5]);
    assert_eq!(rows, vec![" Line 1 | Chapter...".to_string(), " Line 5 | ......".to_string()]);
}

#[test]
fn search_matches_cut_at_byte_positions() {
    let notes: Vec<FootnoteInfo> = Vec::new();
    // The Kelvin sign lowercases to a one-byte `k`, so the match found in
    // the lowercased text lies two bytes earlier in the text itself.
    let segs = try_highlight_search("\u{212A}abcd", "cd", &notes).unwrap();
    let v: Vec<(SegmentStyle, String)> = segs.into_iter().map(|s| (s.style, s.text)).collect();
    assert_eq!(v, vec![
        (SegmentStyle::Plain, "\u{212A}".to_string()),
        (SegmentStyle::Match, "ab".to_string()),
        (SegmentStyle::Plain, "cd".to_string()),
    ]);
}

#[test]
fn search_match_inside_a_character_cannot_be_cut() {
    let notes: Vec<FootnoteInfo> = Vec::new();
    assert!(try_highlight_search("\u{212A}a", "a", &notes).is_none());
    assert!(try_display_line("\u{212A}a", "a", &notes).is_none());
    assert!(try_display_line("^:\u{212A}a", "a", &notes).is_some());
}

#[test]
fn search_on_plain_text_is_unchanged() {
    let notes: Vec<FootnoteInfo> = Vec::new();
    let segs = try_highlight_search("Кот и кот", "КОТ", &notes).unwrap();
    let v: Vec<(SegmentStyle, String)> = segs.into_iter().map(|s| (s.style, s.text)).collect();
    assert_eq!(v, vec![
        (SegmentStyle::Match, "Кот".to_string()),
        (SegmentStyle::Plain, " и ".to_string()),
        (SegmentStyle::Match, "кот".to_string()),
    ]);
}
