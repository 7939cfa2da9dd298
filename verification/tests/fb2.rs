use rink::book::{download_file_name, file_name_for, load_book_data};
use rink::fb2_parser::{FB2Parser, Paragraph, XmlEvent};
use rink::fb2_source::{decode_text, detect_encoding, pick_fb2_entry};
use std::io::Write;
use std::path::{Path, PathBuf};

const SAMPLE: &str = r##"<?xml version="1.0" encoding="utf-8"?>
<FictionBook xmlns="http://www.gribuser.ru/xml/fictionbook/2.0" xmlns:l="http://www.w3.org/1999/xlink">
<description><title-info><author><first-name>Лев</first-name><last-name>Толстой</last-name></author>
<book-title>Война и мир</book-title><annotation><p>Роман.</p></annotation>
<sequence name="Классика" number="3"/></title-info></description>
<body><section><title><p>Глава 1</p></title><p>Текст<a l:href="#n1">1</a> главы.</p></section></body>
<body name="notes"><section id="n1"><p>Примечание.</p></section></body>
</FictionBook>"##;

fn body_text(p: &Paragraph) -> Option<&str> {
    match p {
        Paragraph::Body(t) => Some(t.as_str()),
        _ => None,
    }
}

fn title_text(p: &Paragraph) -> Option<&str> {
    match p {
        Paragraph::Title(t) => Some(t.as_str()),
        _ => None,
    }
}

#[test]
fn parses_description() {
    let p = FB2Parser::new(Path::new("war.fb2"), Some(SAMPLE.as_bytes().to_vec()));
    assert_eq!(p.meta.title, "Война и мир");
    assert_eq!(p.meta.author, "Лев Толстой");
    assert_eq!(p.meta.series, "Классика");
    assert_eq!(p.meta.sequence_number, 3);
    assert_eq!(p.meta.annotation, "Роман.");
    assert_eq!(p.encoding, "utf-8");
}

#[test]
fn parses_text_with_footnote_reference() {
    let p = FB2Parser::new(Path::new("war.fb2"), Some(SAMPLE.as_bytes().to_vec()));
    assert_eq!(title_text(&p.paragraphs[0]), Some("Глава 1"));
    assert_eq!(body_text(&p.paragraphs[1]), Some("Текст ^f:[1] главы."));
}

#[test]
fn footnotes_follow_as_a_chapter() {
    let p = FB2Parser::new(Path::new("war.fb2"), Some(SAMPLE.as_bytes().to_vec()));
    // The id is listed once when the link is met and once more when its
    // section closes, so the note is numbered twice.
    assert_eq!(p.footnotes.len(), 2);
    assert_eq!(p.footnotes[0].number, 1);
    assert_eq!(p.footnotes[0].text, "Примечание.");
    assert_eq!(p.footnotes[1].number, 2);
    assert_eq!(title_text(&p.paragraphs[2]), Some("Сноски"));
    assert_eq!(body_text(&p.paragraphs[3]), Some("1. Примечание."));
    assert_eq!(body_text(&p.paragraphs[4]), Some("2. Примечание."));
    assert_eq!(p.paragraphs.len(), 5);
    for para in &p.paragraphs {
        let t = match para {
            Paragraph::Title(t) | Paragraph::Body(t) | Paragraph::Poem(t) | Paragraph::Cite(t) => t,
            Paragraph::Subtitle(t) | Paragraph::Epigraph(t) | Paragraph::Author(t) | Paragraph::EmphasisBlock(t) => t,
        };
        assert!(!t.is_empty());
    }
    assert!(p.toc.iter().all(|(_, i)| *i <= p.paragraphs.len()));
    assert_eq!(p.toc, vec![("Глава 1".to_string(), 2), ("Сноски".to_string(), 2)]);
}

#[test]
fn unreadable_file_gives_empty_book() {
    let p = FB2Parser::new(Path::new("missing.fb2"), None);
    assert!(p.paragraphs.is_empty());
    assert_eq!(p.meta.title, "");
    assert_eq!(p.encoding, "utf-8");
}

#[test]
fn missing_title_comes_from_file_name() {
    let doc = "<FictionBook><body><section><p>x</p></section></body></FictionBook>";
    let p = FB2Parser::new(Path::new("dir/My.Book.FB2.zip"), None);
    assert_eq!(p.meta.title, "");
    let p = FB2Parser::new(Path::new("dir/My.Book.fb2"), Some(doc.as_bytes().to_vec()));
    assert_eq!(p.meta.title, "My.Book");
    assert_eq!(p.meta.author, "Неизвестный Автор");
    assert_eq!(body_text(&p.paragraphs[0]), Some("x"));
}

#[test]
fn broken_zip_gives_empty_book() {
    let p = FB2Parser::new(Path::new("book.zip"), Some(b"not a zip".to_vec()));
    assert!(p.paragraphs.is_empty());
    assert_eq!(p.meta.author, "");
}

#[test]
fn events_build_the_book() {
    let events = vec![
        XmlEvent::Start("body".to_string(), vec![]),
        XmlEvent::Start("p".to_string(), vec![]),
        XmlEvent::Text("Hello  &amp;\n world".to_string()),
        XmlEvent::End("p".to_string()),
        XmlEvent::Eof,
        XmlEvent::Start("p".to_string(), vec![]),
    ];
    let p = FB2Parser::from_events(PathBuf::from("x.fb2"), Some("x".to_string()), "utf-8".to_string(), &events);
    assert_eq!(p.paragraphs.len(), 1);
    assert_eq!(body_text(&p.paragraphs[0]), Some("Hello & world"));
    assert_eq!(p.meta.title, "x");
}

#[test]
fn poem_and_cite_paragraphs() {
    let doc = "<FictionBook><body><section><poem><stanza><v>Line one</v></stanza></poem><cite><p>Said</p><text-author>Him</text-author></cite></section></body></FictionBook>";
    let p = FB2Parser::new(Path::new("p.fb2"), Some(doc.as_bytes().to_vec()));
    assert!(matches!(&p.paragraphs[0], Paragraph::Poem(t) if t == "Line one"));
    assert!(matches!(&p.paragraphs[1], Paragraph::Cite(t) if t == "Said"));
}

#[test]
fn encoding_is_read_from_declaration() {
    let raw = br#"<?xml version="1.0" encoding="Windows-1251"?><FictionBook/>"#;
    assert_eq!(detect_encoding(raw), "windows-1251");
    assert_eq!(detect_encoding(b"<FictionBook/>"), "utf-8");
    assert_eq!(detect_encoding(b"<?xml encoding=' koi8-r ' ?>"), "koi8-r");
}

#[test]
fn cp1251_text_is_decoded() {
    let (bytes, _, _) = encoding_rs::WINDOWS_1251.encode("<?xml version=\"1.0\" encoding=\"windows-1251\"?><FictionBook><description><title-info><book-title>Мир</book-title></title-info></description></FictionBook>");
    let raw = bytes.into_owned();
    let enc = detect_encoding(&raw);
    assert_eq!(enc, "windows-1251");
    let text = decode_text(&enc, &raw);
    assert!(text.contains("<book-title>Мир</book-title>"));
    let p = FB2Parser::new(Path::new("m.fb2"), Some(raw));
    assert_eq!(p.meta.title, "Мир");
    assert_eq!(p.encoding, "windows-1251");
}

#[test]
fn utf8_decoding_replaces_invalid_bytes() {
    assert_eq!(decode_text("utf-8", b"ab\xffc"), "ab\u{FFFD}c");
}

#[test]
fn archive_entry_choice() {
    let names = vec![Some("readme.txt".to_string()), None, Some("Book.FB2".to_string()), Some("b.fb2".to_string())];
    assert_eq!(pick_fb2_entry(&names), 2);
    let names = vec![Some("readme.txt".to_string())];
    assert_eq!(pick_fb2_entry(&names), 0);
}

#[test]
fn zipped_book_is_read() {
    let mut buf = std::io::Cursor::new(Vec::new());
    {
        let mut w = zip::ZipWriter::new(&mut buf);
        let opts = zip::write::SimpleFileOptions::default();
        w.start_file("notes.txt", opts).unwrap();
        w.write_all(b"hello").unwrap();
        w.start_file("inner.fb2", opts).unwrap();
        w.write_all(SAMPLE.as_bytes()).unwrap();
        w.finish().unwrap();
    }
    let p = FB2Parser::new(Path::new("war.fb2.zip"), Some(buf.into_inner()));
    assert_eq!(p.meta.title, "Война и мир");
}

#[test]
fn loading_lays_the_book_out() {
    let (p, lines, toc) = load_book_data(&PathBuf::from("war.fb2"), Some(SAMPLE.as_bytes().to_vec()), 40);
    assert_eq!(p.meta.title, "Война и мир");
    assert!(lines[0].starts_with("^:"));
    assert_eq!(toc[0], ("Глава 1".to_string(), 0));
}

#[test]
fn download_file_names() {
    assert_eq!(download_file_name("https://example.org/books/war.fb2"), "war.fb2");
    assert_eq!(download_file_name("https://example.org/books/war.zip"), "war.zip");
    assert_eq!(download_file_name("https://example.org/get?id=5"), "get.fb2");
    assert_eq!(download_file_name("not a url"), "book.fb2");
    assert_eq!(file_name_for(None), "book.fb2");
    assert_eq!(file_name_for(Some("x".to_string())), "x.fb2");
}
