use rink::book::perform_search;
use rink::fb2_parser::Paragraph;
use rink::i18n::{I18n, Language};
use rink::layout::{justify_line, prepare_layout};

#[test]
fn justify_spreads_spaces_evenly() {
    assert_eq!(justify_line("a b c", 9), "a   b   c");
}

#[test]
fn justify_gives_extra_spaces_to_first_gaps() {
    assert_eq!(justify_line("a b c", 8), "a   b  c");
}

#[test]
fn justify_keeps_indent() {
    assert_eq!(justify_line("  ab cd", 10), "  ab    cd");
}

#[test]
fn justify_single_word_unchanged() {
    assert_eq!(justify_line("  word", 20), "  word");
}

#[test]
fn justify_too_long_line_joined_with_single_spaces() {
    assert_eq!(justify_line("ab   cd", 4), "ab cd");
}

#[test]
fn justified_width_law_example() {
    let out = justify_line("  one two three", 30);
    assert_eq!(out.chars().count(), 30);
    assert!(out.starts_with("  one"));
    assert!(out.ends_with("three"));
}

#[test]
fn layout_title_is_centered_uppercase_and_listed() {
    let ps = vec![Paragraph::Title("Глава".to_string())];
    let (lines, toc) = prepare_layout(&ps, 21);
    assert_eq!(lines, vec!["^:       ГЛАВА".to_string(), "".to_string()]);
    assert_eq!(toc, vec![("Глава".to_string(), 0)]);
}

#[test]
fn layout_body_indented_and_wrapped() {
    let ps = vec![Paragraph::Body("one two three four".to_string())];
    let (lines, toc) = prepare_layout(&ps, 14);
    assert!(toc.is_empty());
    assert_eq!(lines[0], "    one    two");
    assert_eq!(lines[1], "three four");
}

#[test]
fn layout_blank_line_before_second_title() {
    let ps = vec![
        Paragraph::Body("text".to_string()),
        Paragraph::Title("Next".to_string()),
    ];
    let (lines, toc) = prepare_layout(&ps, 20);
    assert_eq!(lines[0], "    text");
    assert_eq!(lines[1], "");
    assert_eq!(toc, vec![("Next".to_string(), 2)]);
}

#[test]
fn layout_epigraph_and_author() {
    let ps = vec![
        Paragraph::Epigraph("quote".to_string()),
        Paragraph::Author("someone".to_string()),
    ];
    let (lines, _) = prepare_layout(&ps, 40);
    assert_eq!(lines, vec!["  quote".to_string(), "    someone".to_string()]);
}

#[test]
fn search_is_case_insensitive() {
    let lines = vec!["Hello World".to_string(), "nothing".to_string(), "world again".to_string()];
    assert_eq!(perform_search(&lines, "WORLD"), vec![0, 2]);
}

#[test]
fn search_with_empty_query_finds_nothing() {
    let lines = vec!["a".to_string()];
    assert!(perform_search(&lines, "").is_empty());
}

#[test]
fn interface_text_in_both_languages() {
    assert_eq!(I18n::t(Language::Ru, "unknown_title"), "Неизвестно");
    assert_eq!(I18n::t(Language::En, "unknown_title"), "Unknown");
    assert_eq!(I18n::t(Language::En, "input_path_error"), "ERROR: Path not found!");
}

#[test]
fn unknown_key_reads_as_itself() {
    assert_eq!(I18n::t(Language::Ru, "no_such_key"), "no_such_key");
}

#[test]
fn language_names() {
    assert_eq!(Language::from_str("en"), Language::En);
    assert_eq!(Language::from_str("En"), Language::En);
    assert_eq!(Language::from_str("de"), Language::Ru);
    assert_eq!(Language::En.as_str(), "En");
    assert_eq!(Language::from_str(Language::Ru.as_str()), Language::Ru);
    assert_eq!(Language::default(), Language::Ru);
    assert_eq!(Language::Ru.toggle(), Language::En);
}
