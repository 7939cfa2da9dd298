//! The text of the pop-up windows: the settings menu, the book information
//! and the table of contents entries.
use vstd::prelude::*;
use crate::i18n::{t_spec, I18n, Language};
use crate::layout::{justify_line, justify_spec, sat_sub, textwrap_fill, wrap_lines};
use crate::library::{BorderStyle, ThemeColor};
use crate::reader::Settings;
use crate::view::{bookmark_preview, bookmark_text};
use crate::text::{
    chars_to_string, decimal, push_all, replace_all, replace_chars, split_lines, str_chars,
    string_views, trim, trim_chars, trim_end, trim_end_chars, usize_to_chars,
};

verus! {

/// `template` with every `{}` replaced by `value`.
pub open spec fn filled(template: Seq<char>, value: Seq<char>) -> Seq<char> {
    replace_all(template, seq!['{', '}'], value)
}

fn fill(template: String, value: &[char]) -> (res: String)
    ensures
        res@ == filled(template@, value@),
{
    let t = str_chars(template.as_str());
    let pat = vec!['{', '}'];
    let r = replace_chars(&t, &pat, value);
    chars_to_string(&r)
}

/// The key of the name of a border style.
pub open spec fn border_style_key(b: BorderStyle) -> Seq<char> {
    match b {
        BorderStyle::Plain => "border_style_plain"@,
        BorderStyle::Double => "border_style_double"@,
        BorderStyle::Rounded => "border_style_rounded"@,
    }
}

fn border_style_name(lang: Language, b: BorderStyle) -> (res: String)
    ensures
        res@ == t_spec(lang, border_style_key(b)),
{
    match b {
        BorderStyle::Plain => I18n::t(lang, "border_style_plain"),
        BorderStyle::Double => I18n::t(lang, "border_style_double"),
        BorderStyle::Rounded => I18n::t(lang, "border_style_rounded"),
    }
}

/// The rows of the settings menu: the library folders (`paths`, already
/// joined), the number of books, the actions, and the current language,
/// pop-up border colour and border styles.
pub open spec fn settings_rows(s: Settings, paths: Seq<char>, n_books: nat) -> Seq<Seq<char>> {
    let lang = s.language;
    let lang_label = if lang == Language::Ru {
        t_spec(lang, "settings_lang_ru"@)
    } else {
        t_spec(lang, "settings_lang_en"@)
    };
    let color_label = if s.popup_border_color == ThemeColor::White {
        t_spec(lang, "border_color_white"@)
    } else {
        t_spec(lang, "border_color_theme"@)
    };
    seq![
        filled(t_spec(lang, "settings_path"@), paths),
        filled(t_spec(lang, "settings_scan"@), decimal(n_books)),
        t_spec(lang, "settings_clear"@),
        t_spec(lang, "settings_save"@),
        t_spec(lang, "settings_download"@),
        filled(t_spec(lang, "settings_lang"@), lang_label),
        filled(t_spec(lang, "settings_border_color"@), color_label),
        filled(t_spec(lang, "settings_main_border"@), t_spec(lang, border_style_key(s.main_border))),
        filled(t_spec(lang, "settings_popup_border"@), t_spec(lang, border_style_key(s.popup_border))),
        t_spec(lang, "settings_back"@),
    ]
}

/// The settings menu for `settings`, the joined library folders `paths` and
/// `n_books` books in the library.
pub fn settings_menu(settings: Settings, paths: &str, n_books: usize) -> (res: Vec<String>)
    ensures
        string_views(res@) == settings_rows(settings, paths@, n_books as nat),
{
    let lang = settings.language;
    let lang_label = if lang == Language::Ru {
        I18n::t(lang, "settings_lang_ru")
    } else {
        I18n::t(lang, "settings_lang_en")
    };
    let color_label = if settings.popup_border_color == ThemeColor::White {
        I18n::t(lang, "border_color_white")
    } else {
        I18n::t(lang, "border_color_theme")
    };
    let main_label = border_style_name(lang, settings.main_border);
    let popup_label = border_style_name(lang, settings.popup_border);
    let path_chars = str_chars(paths);
    let count = usize_to_chars(n_books);
    let lang_chars = str_chars(lang_label.as_str());
    let color_chars = str_chars(color_label.as_str());
    let main_chars = str_chars(main_label.as_str());
    let popup_chars = str_chars(popup_label.as_str());
    let mut res: Vec<String> = Vec::new();
    res.push(fill(I18n::t(lang, "settings_path"), &path_chars));
    res.push(fill(I18n::t(lang, "settings_scan"), &count));
    res.push(I18n::t(lang, "settings_clear"));
    res.push(I18n::t(lang, "settings_save"));
    res.push(I18n::t(lang, "settings_download"));
    res.push(fill(I18n::t(lang, "settings_lang"), &lang_chars));
    res.push(fill(I18n::t(lang, "settings_border_color"), &color_chars));
    res.push(fill(I18n::t(lang, "settings_main_border"), &main_chars));
    res.push(fill(I18n::t(lang, "settings_popup_border"), &popup_chars));
    res.push(I18n::t(lang, "settings_back"));
    assert(string_views(res@) =~= settings_rows(settings, paths@, n_books as nat));
    res
}


/// The labelled rows at the top of the book information: author and title,
/// and the series when the book has one.
pub open spec fn info_field_rows(lang: Language, author: Seq<char>, title: Seq<char>, series: Seq<char>) -> Seq<
    (Seq<char>, Seq<char>),
> {
    let base = seq![
        (t_spec(lang, "book_info_author"@), author),
        (t_spec(lang, "book_info_title"@), title),
    ];
    if series.len() == 0 {
        base
    } else {
        base.push((t_spec(lang, "book_info_series"@), series))
    }
}

pub open spec fn pair_views(v: Seq<(String, String)>) -> Seq<(Seq<char>, Seq<char>)> {
    Seq::new(v.len(), |i: int| (v[i].0@, v[i].1@))
}

/// The labels and values of the book information rows for a book with
/// `author`, `title` and `series`.
pub fn info_fields(lang: Language, author: &str, title: &str, series: &str) -> (res: Vec<(String, String)>)
    ensures
        pair_views(res@) == info_field_rows(lang, author@, title@, series@),
{
    let mut res: Vec<(String, String)> = Vec::new();
    res.push((I18n::t(lang, "book_info_author"), author.to_string()));
    res.push((I18n::t(lang, "book_info_title"), title.to_string()));
    let sc = str_chars(series);
    if sc.len() > 0 {
        res.push((I18n::t(lang, "book_info_series"), series.to_string()));
    }
    assert(pair_views(res@) =~= info_field_rows(lang, author@, title@, series@));
    res
}

/// The two-space indent of the annotation rows.
pub open spec fn indent2() -> Seq<char> {
    seq![' ', ' ']
}

/// The annotation rows of the book information: a "no description" row
/// when the annotation is empty; else the annotation wrapped at `width`
/// columns, every row but the last justified to `width`, each indented by
/// two spaces.
pub open spec fn annotation_rows(annotation: Seq<char>, lang: Language, width: nat) -> Seq<Seq<char>> {
    if annotation.len() == 0 {
        seq![indent2() + t_spec(lang, "no_description"@)]
    } else {
        let ls = wrap_lines(annotation, width);
        Seq::new(
            ls.len(),
            |i: int|
                indent2() + if i < ls.len() - 1 {
                    justify_spec(ls[i], width)
                } else {
                    ls[i]
                },
        )
    }
}

fn indented(text: &[char]) -> (res: String)
    ensures
        res@ == indent2() + text@,
{
    let mut v: Vec<char> = vec![' ', ' '];
    push_all(&mut v, text);
    chars_to_string(&v)
}

/// The annotation rows of the book information at `width` columns.
pub fn annotation_lines(annotation: &str, lang: Language, width: usize) -> (res: Vec<String>)
    ensures
        string_views(res@) == annotation_rows(annotation@, lang, width as nat),
{
    let ac = str_chars(annotation);
    let mut res: Vec<String> = Vec::new();
    if ac.len() == 0 {
        let t = I18n::t(lang, "no_description");
        let tc = str_chars(t.as_str());
        res.push(indented(&tc));
        assert(string_views(res@) =~= annotation_rows(annotation@, lang, width as nat));
        return res;
    }
    let f = textwrap_fill(annotation, width);
    let fc = str_chars(f.as_str());
    let ls = split_lines(&fc);
    let ghost lv = crate::text::views(ls@);
    assert(lv == wrap_lines(annotation@, width as nat));
    let n = ls.len();
    let mut i: usize = 0;
    while i < n
        invariant
            n == ls.len(),
            i <= n,
            lv == crate::text::views(ls@),
            lv == wrap_lines(annotation@, width as nat),
            annotation@.len() > 0,
            res@.len() == i,
            forall|k: int| 0 <= k < i ==> #[trigger] res@[k]@ == annotation_rows(annotation@, lang, width as nat)[k],
        decreases n - i,
    {
        let row = if i + 1 < n {
            let line = chars_to_string(&ls[i]);
            let j = justify_line(line.as_str(), width);
            let jc = str_chars(j.as_str());
            indented(&jc)
        } else {
            indented(&ls[i])
        };
        assert(lv[i as int] == ls@[i as int]@);
        res.push(row);
        i = i + 1;
    }
    assert(string_views(res@) =~= annotation_rows(annotation@, lang, width as nat));
    res
}

/// A table of contents entry shown in `max_w` columns: the title trimmed,
/// cut to `max_w - 3` characters and ended with `...` when it is longer
/// than `max_w`, with a space on either side.
pub open spec fn toc_entry(title: Seq<char>, max_w: nat) -> Seq<char> {
    let clean = trim(title);
    let shown = if clean.len() > max_w {
        trim_end(clean.take(sat_sub(max_w, 3) as int)) + seq!['.', '.', '.']
    } else {
        clean
    };
    seq![' '] + shown + seq![' ']
}

/// The table of contents entry for `title` in `max_w` columns.
pub fn toc_label(title: &str, max_w: usize) -> (res: String)
    ensures
        res@ == toc_entry(title@, max_w as nat),
{
    let tc = str_chars(title);
    let clean = trim_chars(&tc);
    let mut out: Vec<char> = vec![' '];
    if clean.len() > max_w {
        let keep = if max_w >= 3 { max_w - 3 } else { 0 };
        let mut cut: Vec<char> = Vec::new();
        let mut i: usize = 0;
        while i < keep
            invariant
                i <= keep,
                keep <= clean.len(),
                cut@ == clean@.take(i as int),
            decreases keep - i,
        {
            cut.push(clean[i]);
            assert(clean@.take(i + 1) =~= clean@.take(i as int).push(clean@[i as int]));
            i = i + 1;
        }
        let t = trim_end_chars(&cut);
        push_all(&mut out, &t);
        let dots = vec!['.', '.', '.'];
        push_all(&mut out, &dots);
    } else {
        push_all(&mut out, &clean);
    }
    out.push(' ');
    assert(out@ =~= toc_entry(title@, max_w as nat));
    chars_to_string(&out)
}


/// The row of the bookmark list for a bookmark at `line` of the laid-out
/// `lines`: the line number and the start of the line put into the
/// template of the language.
pub open spec fn bookmark_row_of(lang: Language, lines: Seq<Seq<char>>, line: int) -> Seq<char> {
    replace_all(
        replace_all(t_spec(lang, "bookmarks_item"@), seq!['{', ':', '>', '4', '}'], decimal(line as nat)),
        seq!['{', '}'],
        bookmark_preview(lines, line),
    )
}

/// The rows of the bookmark list for the bookmarks `marks`.
pub fn bookmark_rows(lang: Language, lines: &Vec<String>, marks: &Vec<usize>) -> (res: Vec<String>)
    ensures
        res.len() == marks.len(),
        forall|i: int|
            0 <= i < marks.len() ==> (#[trigger] res@[i])@ == bookmark_row_of(
                lang,
                string_views(lines@),
                marks@[i] as int,
            ),
{
    let template = str_chars(I18n::t(lang, "bookmarks_item").as_str());
    let number_pat = vec!['{', ':', '>', '4', '}'];
    let text_pat = vec!['{', '}'];
    let mut res: Vec<String> = Vec::new();
    let mut i: usize = 0;
    while i < marks.len()
        invariant
            i <= marks.len(),
            res.len() == i,
            template@ == t_spec(lang, "bookmarks_item"@),
            number_pat@ == seq!['{', ':', '>', '4', '}'],
            text_pat@ == seq!['{', '}'],
            forall|q: int|
                0 <= q < i ==> (#[trigger] res@[q])@ == bookmark_row_of(
                    lang,
                    string_views(lines@),
                    marks@[q] as int,
                ),
        decreases marks.len() - i,
    {
        let line = marks[i];
        let number = usize_to_chars(line);
        let with_number = replace_chars(&template, &number_pat, &number);
        let preview = str_chars(bookmark_text(lines, line).as_str());
        let row = replace_chars(&with_number, &text_pat, &preview);
        res.push(chars_to_string(&row));
        i = i + 1;
    }
    res
}

} // verus!
