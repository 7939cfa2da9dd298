//! Interface strings in the two supported languages.
use vstd::prelude::*;
use crate::text::{str_chars, str_eq};

verus! {

/// The interface language.
#[derive(Debug, Clone, Copy, PartialEq, Eq, Structural)]
pub enum Language {
    Ru,
    En,
}

impl Default for Language {
    fn default() -> (res: Self)
        ensures
            res == Language::Ru,
    {
        Language::Ru
    }
}

impl Language {
    /// `"En"` and `"en"` name English; every other name means Russian.
    pub open spec fn from_name(s: Seq<char>) -> Language {
        if s == "En"@ || s == "en"@ {
            Language::En
        } else {
            Language::Ru
        }
    }

    pub open spec fn name(self) -> Seq<char> {
        match self {
            Language::Ru => "Ru"@,
            Language::En => "En"@,
        }
    }

    pub fn from_str(s: &str) -> (res: Self)
        ensures
            res == Language::from_name(s@),
    {
        let cs = str_chars(s);
        if str_eq("En", &cs) || str_eq("en", &cs) {
            Language::En
        } else {
            Language::Ru
        }
    }

    /// The other language.
    pub open spec fn toggled(self) -> Language {
        match self {
            Language::Ru => Language::En,
            Language::En => Language::Ru,
        }
    }

    /// Switches to the other language.
    pub fn toggle(self) -> (res: Language)
        ensures
            res == self.toggled(),
    {
        match self {
            Language::Ru => Language::En,
            Language::En => Language::Ru,
        }
    }

    pub fn as_str(&self) -> (res: &'static str)
        ensures
            res@ == self.name(),
    {
        match self {
            Language::Ru => "Ru",
            Language::En => "En",
        }
    }
}

/// A language's name reads back as the same language.
pub proof fn law_language_name_roundtrip(l: Language)
    ensures
        Language::from_name(l.name()) == l,
{
    reveal_strlit("Ru");
    reveal_strlit("En");
    reveal_strlit("en");
    assert("Ru"@[0] != "En"@[0]);
    assert("Ru"@[0] != "en"@[0]);
}

/// Switching the language twice gives back the language.
pub proof fn law_toggle_twice(l: Language)
    ensures
        l.toggled().toggled() == l,
{
}

/// The interface strings: for each key its Russian and its English text.
pub open spec fn interface_text(key: Seq<char>) -> Option<(Seq<char>, Seq<char>)> {
    if false {
        None
    } else if key == "app_title"@ {
        Some(("rink v{}"@, "rink v{}"@))
    } else if key == "loading"@ {
        Some(("Загрузка..."@, "Loading..."@))
    } else if key == "unknown_title"@ {
        Some(("Неизвестно"@, "Unknown"@))
    } else if key == "unknown_author"@ {
        Some(("Неизвестный автор"@, "Unknown author"@))
    } else if key == "no_description"@ {
        Some(("(нет описания)"@, "(no description)"@))
    } else if key == "status_width"@ {
        Some(("W:{:<3}"@, "W:{:<3}"@))
    } else if key == "status_bookmark"@ {
        Some((" [M]"@, " [M]"@))
    } else if key == "status_encoding"@ {
        Some(("[{}]"@, "[{}]"@))
    } else if key == "status_progress"@ {
        Some(("{} {:>3}% "@, "{} {:>3}% "@))
    } else if key == "book_info_author"@ {
        Some((" АВТОР: "@, " AUTHOR: "@))
    } else if key == "book_info_title"@ {
        Some((" КНИГА: "@, " TITLE: "@))
    } else if key == "book_info_series"@ {
        Some((" ЦИКЛ:  "@, " SERIES: "@))
    } else if key == "book_info_annotation"@ {
        Some(("  АННОТАЦИЯ:"@, "  ANNOTATION:"@))
    } else if key == "book_info_title_text"@ {
        Some((" ИНФОРМАЦИЯ О КНИГЕ "@, " BOOK INFORMATION "@))
    } else if key == "toc_title"@ {
        Some((" ОГЛАВЛЕНИЕ "@, " TABLE OF CONTENTS "@))
    } else if key == "help_title"@ {
        Some((" КЛАВИШИ УПРАВЛЕНИЯ "@, " KEYBOARD SHORTCUTS "@))
    } else if key == "help_controls"@ {
        Some(("          УПРАВЛЕНИЕ"@, "          CONTROLS"@))
    } else if key == "help_quit"@ {
        Some(("      q       : Выход / Назад"@, "      q       : Quit / Back"@))
    } else if key == "help_settings"@ {
        Some(("      o       : Настройки / Пути"@, "      o       : Settings / Paths"@))
    } else if key == "help_library"@ {
        Some(("      L       : Моя Библиотека"@, "      L       : My Library"@))
    } else if key == "help_search_text"@ {
        Some(("      /       : Поиск в тексте"@, "      /       : Search in text"@))
    } else if key == "help_search_next"@ {
        Some(("      n / N   : Поиск Вперед / Назад"@, "      n / N   : Search Next / Previous"@))
    } else if key == "help_info"@ {
        Some(("      i       : Инфо о книге"@, "      i       : Book info"@))
    } else if key == "help_toc"@ {
        Some(("      t       : Оглавление"@, "      t       : Table of Contents"@))
    } else if key == "help_theme"@ {
        Some(("      c       : Сменить Тему"@, "      c       : Change Theme"@))
    } else if key == "help_footnote"@ {
        Some(("      f       : Открыть сноску"@, "      f       : Open footnote"@))
    } else if key == "help_library_title"@ {
        Some(("          БИБЛИОТЕКА"@, "          LIBRARY"@))
    } else if key == "help_sort"@ {
        Some(("      s       : Сортировка (Автор/Цикл/Имя)"@, "      s       : Sort (Author/Series/Title)"@))
    } else if key == "help_search_lib"@ {
        Some(("      /       : Поиск в библиотеке"@, "      /       : Search in library"@))
    } else if key == "help_open"@ {
        Some(("      Enter   : Открыть выбранную книгу"@, "      Enter   : Open selected book"@))
    } else if key == "help_bookmarks_title"@ {
        Some(("          ЗАКЛАДКИ"@, "          BOOKMARKS"@))
    } else if key == "help_bookmark_set"@ {
        Some(("      m       : Поставить метку"@, "      m       : Set bookmark"@))
    } else if key == "help_bookmark_list"@ {
        Some(("      M       : Список закладок"@, "      M       : Bookmarks list"@))
    } else if key == "help_bookmark_del"@ {
        Some(("      d / Del : Удалить (в списке)"@, "      d / Del : Delete (in list)"@))
    } else if key == "help_nav_title"@ {
        Some(("          НАВИГАЦИЯ"@, "          NAVIGATION"@))
    } else if key == "help_down"@ {
        Some(("      j / k   : Вниз / Вверх"@, "      j / k   : Down / Up"@))
    } else if key == "help_page"@ {
        Some(("      Space   : Стр. вперед"@, "      Space   : Page forward"@))
    } else if key == "help_width"@ {
        Some(("      +/-     : Ширина текста"@, "      +/-     : Text width"@))
    } else if key == "help_home_end"@ {
        Some(("      Home/End: В начало / конец"@, "      Home/End: Beginning / End"@))
    } else if key == "search_title"@ {
        Some((" ПОИСК "@, " SEARCH "@))
    } else if key == "library_title"@ {
        Some((" МОЯ БИБЛИОТЕКА "@, " MY LIBRARY "@))
    } else if key == "library_search"@ {
        Some((" ПОИСК ({}): {}_ "@, " SEARCH ({}): {}_ "@))
    } else if key == "library_results"@ {
        Some((" РЕЗУЛЬТАТЫ ({}): {} [Esc - сброс] "@, " RESULTS ({}): {} [Esc - reset] "@))
    } else if key == "library_sort"@ {
        Some((" [Сортировка по: {}] "@, " [Sorted by: {}] "@))
    } else if key == "library_sort_title"@ {
        Some(("Названию"@, "Title"@))
    } else if key == "library_sort_author"@ {
        Some(("Автору"@, "Author"@))
    } else if key == "library_sort_series"@ {
        Some(("Циклу"@, "Series"@))
    } else if key == "library_no_results"@ {
        Some(("Без названия"@, "No title"@))
    } else if key == "library_unknown_author"@ {
        Some(("Неизвестен"@, "Unknown"@))
    } else if key == "settings_title"@ {
        Some((" НАСТРОЙКИ "@, " SETTINGS "@))
    } else if key == "settings_path"@ {
        Some((" 1. Путь: {}"@, " 1. Path: {}"@))
    } else if key == "settings_scan"@ {
        Some((" 2. Сканировать (Книг: {})"@, " 2. Scan (Books: {})"@))
    } else if key == "settings_clear"@ {
        Some((" 3. Очистить библиотеку"@, " 3. Clear library"@))
    } else if key == "settings_save"@ {
        Some((" 4. Сохранить настройки"@, " 4. Save settings"@))
    } else if key == "settings_back"@ {
        Some((" 10. Назад к чтению (Esc)"@, " 10. Back to reading (Esc)"@))
    } else if key == "settings_lang"@ {
        Some((" 6. Язык: {}"@, " 6. Language: {}"@))
    } else if key == "settings_download"@ {
        Some((" 5. Загрузить по ссылке"@, " 5. Download from URL"@))
    } else if key == "settings_main_border"@ {
        Some((" 8. Рамка книги: {}"@, " 8. Book border: {}"@))
    } else if key == "settings_popup_border"@ {
        Some((" 9. Рамки окон: {}"@, " 9. Window borders: {}"@))
    } else if key == "settings_border_color"@ {
        Some((" 7. Цвет рамок: {}"@, " 7. Border color: {}"@))
    } else if key == "settings_lang_ru"@ {
        Some(("Русский"@, "Русский"@))
    } else if key == "settings_lang_en"@ {
        Some(("English"@, "English"@))
    } else if key == "input_url_title"@ {
        Some((" ВВЕДИТЕ ССЫЛКУ НА FB2/ZIP "@, " ENTER URL FOR FB2/ZIP "@))
    } else if key == "input_path_title"@ {
        Some((" Введите путь для сканирования "@, " Enter path to scan "@))
    } else if key == "input_path_error"@ {
        Some(("ОШИБКА: Путь не найден!"@, "ERROR: Path not found!"@))
    } else if key == "input_path_prompt"@ {
        Some((" > {}_"@, " > {}_"@))
    } else if key == "scanning_title"@ {
        Some((" СКАНИРОВАНИЕ "@, " SCANNING "@))
    } else if key == "scanning_msg"@ {
        Some(("\n  [ ⎧≣⎨ ] Сканирую библиотеку...\n  Найдено книг: {}"@, "\n  [ ⎧≣⎨ ] Scanning library...\n  Books found: {}"@))
    } else if key == "bookmarks_title"@ {
        Some((" ЗАКЛАДКИ "@, " BOOKMARKS "@))
    } else if key == "bookmarks_item"@ {
        Some((" Стр. {:>4} | {}..."@, " Line {:>4} | {}..."@))
    } else if key == "footnote_title"@ {
        Some((" СНОСКА "@, " FOOTNOTE "@))
    } else if key == "footnotes_chapter"@ {
        Some(("Сноски"@, "Footnotes"@))
    } else if key == "version"@ {
        Some(("rink {}"@, "rink {}"@))
    } else if key == "help_version"@ {
        Some(("? - помощь\no - настройки"@, "? - help\no - settings"@))
    } else {
        None
    }
}

/// What `I18n::t` returns: the text of `key` in `lang`, or the key itself
/// when the table has no such key.
pub open spec fn t_spec(lang: Language, key: Seq<char>) -> Seq<char> {
    match interface_text(key) {
        Some((ru, en)) => match lang {
            Language::Ru => ru,
            Language::En => en,
        },
        None => key,
    }
}

fn lookup(key: &[char]) -> (res: Option<(&'static str, &'static str)>)
    ensures
        match res {
            Some((ru, en)) => interface_text(key@) == Some((ru@, en@)),
            None => interface_text(key@) is None,
        },
{
    if str_eq("app_title", key) {
        return Some(("rink v{}", "rink v{}"));
    }
    if str_eq("loading", key) {
        return Some(("Загрузка...", "Loading..."));
    }
    if str_eq("unknown_title", key) {
        return Some(("Неизвестно", "Unknown"));
    }
    if str_eq("unknown_author", key) {
        return Some(("Неизвестный автор", "Unknown author"));
    }
    if str_eq("no_description", key) {
        return Some(("(нет описания)", "(no description)"));
    }
    if str_eq("status_width", key) {
        return Some(("W:{:<3}", "W:{:<3}"));
    }
    if str_eq("status_bookmark", key) {
        return Some((" [M]", " [M]"));
    }
    if str_eq("status_encoding", key) {
        return Some(("[{}]", "[{}]"));
    }
    if str_eq("status_progress", key) {
        return Some(("{} {:>3}% ", "{} {:>3}% "));
    }
    if str_eq("book_info_author", key) {
        return Some((" АВТОР: ", " AUTHOR: "));
    }
    if str_eq("book_info_title", key) {
        return Some((" КНИГА: ", " TITLE: "));
    }
    if str_eq("book_info_series", key) {
        return Some((" ЦИКЛ:  ", " SERIES: "));
    }
    if str_eq("book_info_annotation", key) {
        return Some(("  АННОТАЦИЯ:", "  ANNOTATION:"));
    }
    if str_eq("book_info_title_text", key) {
        return Some((" ИНФОРМАЦИЯ О КНИГЕ ", " BOOK INFORMATION "));
    }
    if str_eq("toc_title", key) {
        return Some((" ОГЛАВЛЕНИЕ ", " TABLE OF CONTENTS "));
    }
    if str_eq("help_title", key) {
        return Some((" КЛАВИШИ УПРАВЛЕНИЯ ", " KEYBOARD SHORTCUTS "));
    }
    if str_eq("help_controls", key) {
        return Some(("          УПРАВЛЕНИЕ", "          CONTROLS"));
    }
    if str_eq("help_quit", key) {
        return Some(("      q       : Выход / Назад", "      q       : Quit / Back"));
    }
    if str_eq("help_settings", key) {
        return Some(("      o       : Настройки / Пути", "      o       : Settings / Paths"));
    }
    if str_eq("help_library", key) {
        return Some(("      L       : Моя Библиотека", "      L       : My Library"));
    }
    if str_eq("help_search_text", key) {
        return Some(("      /       : Поиск в тексте", "      /       : Search in text"));
    }
    if str_eq("help_search_next", key) {
        return Some(("      n / N   : Поиск Вперед / Назад", "      n / N   : Search Next / Previous"));
    }
    if str_eq("help_info", key) {
        return Some(("      i       : Инфо о книге", "      i       : Book info"));
    }
    if str_eq("help_toc", key) {
        return Some(("      t       : Оглавление", "      t       : Table of Contents"));
    }
    if str_eq("help_theme", key) {
        return Some(("      c       : Сменить Тему", "      c       : Change Theme"));
    }
    if str_eq("help_footnote", key) {
        return Some(("      f       : Открыть сноску", "      f       : Open footnote"));
    }
    if str_eq("help_library_title", key) {
        return Some(("          БИБЛИОТЕКА", "          LIBRARY"));
    }
    if str_eq("help_sort", key) {
        return Some(("      s       : Сортировка (Автор/Цикл/Имя)", "      s       : Sort (Author/Series/Title)"));
    }
    if str_eq("help_search_lib", key) {
        return Some(("      /       : Поиск в библиотеке", "      /       : Search in library"));
    }
    if str_eq("help_open", key) {
        return Some(("      Enter   : Открыть выбранную книгу", "      Enter   : Open selected book"));
    }
    if str_eq("help_bookmarks_title", key) {
        return Some(("          ЗАКЛАДКИ", "          BOOKMARKS"));
    }
    if str_eq("help_bookmark_set", key) {
        return Some(("      m       : Поставить метку", "      m       : Set bookmark"));
    }
    if str_eq("help_bookmark_list", key) {
        return Some(("      M       : Список закладок", "      M       : Bookmarks list"));
    }
    if str_eq("help_bookmark_del", key) {
        return Some(("      d / Del : Удалить (в списке)", "      d / Del : Delete (in list)"));
    }
    if str_eq("help_nav_title", key) {
        return Some(("          НАВИГАЦИЯ", "          NAVIGATION"));
    }
    if str_eq("help_down", key) {
        return Some(("      j / k   : Вниз / Вверх", "      j / k   : Down / Up"));
    }
    if str_eq("help_page", key) {
        return Some(("      Space   : Стр. вперед", "      Space   : Page forward"));
    }
    if str_eq("help_width", key) {
        return Some(("      +/-     : Ширина текста", "      +/-     : Text width"));
    }
    if str_eq("help_home_end", key) {
        return Some(("      Home/End: В начало / конец", "      Home/End: Beginning / End"));
    }
    if str_eq("search_title", key) {
        return Some((" ПОИСК ", " SEARCH "));
    }
    if str_eq("library_title", key) {
        return Some((" МОЯ БИБЛИОТЕКА ", " MY LIBRARY "));
    }
    if str_eq("library_search", key) {
        return Some((" ПОИСК ({}): {}_ ", " SEARCH ({}): {}_ "));
    }
    if str_eq("library_results", key) {
        return Some((" РЕЗУЛЬТАТЫ ({}): {} [Esc - сброс] ", " RESULTS ({}): {} [Esc - reset] "));
    }
    if str_eq("library_sort", key) {
        return Some((" [Сортировка по: {}] ", " [Sorted by: {}] "));
    }
    if str_eq("library_sort_title", key) {
        return Some(("Названию", "Title"));
    }
    if str_eq("library_sort_author", key) {
        return Some(("Автору", "Author"));
    }
    if str_eq("library_sort_series", key) {
        return Some(("Циклу", "Series"));
    }
    if str_eq("library_no_results", key) {
        return Some(("Без названия", "No title"));
    }
    if str_eq("library_unknown_author", key) {
        return Some(("Неизвестен", "Unknown"));
    }
    if str_eq("settings_title", key) {
        return Some((" НАСТРОЙКИ ", " SETTINGS "));
    }
    if str_eq("settings_path", key) {
        return Some((" 1. Путь: {}", " 1. Path: {}"));
    }
    if str_eq("settings_scan", key) {
        return Some((" 2. Сканировать (Книг: {})", " 2. Scan (Books: {})"));
    }
    if str_eq("settings_clear", key) {
        return Some((" 3. Очистить библиотеку", " 3. Clear library"));
    }
    if str_eq("settings_save", key) {
        return Some((" 4. Сохранить настройки", " 4. Save settings"));
    }
    if str_eq("settings_back", key) {
        return Some((" 10. Назад к чтению (Esc)", " 10. Back to reading (Esc)"));
    }
    if str_eq("settings_lang", key) {
        return Some((" 6. Язык: {}", " 6. Language: {}"));
    }
    if str_eq("settings_download", key) {
        return Some((" 5. Загрузить по ссылке", " 5. Download from URL"));
    }
    if str_eq("settings_main_border", key) {
        return Some((" 8. Рамка книги: {}", " 8. Book border: {}"));
    }
    if str_eq("settings_popup_border", key) {
        return Some((" 9. Рамки окон: {}", " 9. Window borders: {}"));
    }
    if str_eq("settings_border_color", key) {
        return Some((" 7. Цвет рамок: {}", " 7. Border color: {}"));
    }
    if str_eq("settings_lang_ru", key) {
        return Some(("Русский", "Русский"));
    }
    if str_eq("settings_lang_en", key) {
        return Some(("English", "English"));
    }
    if str_eq("input_url_title", key) {
        return Some((" ВВЕДИТЕ ССЫЛКУ НА FB2/ZIP ", " ENTER URL FOR FB2/ZIP "));
    }
    if str_eq("input_path_title", key) {
        return Some((" Введите путь для сканирования ", " Enter path to scan "));
    }
    if str_eq("input_path_error", key) {
        return Some(("ОШИБКА: Путь не найден!", "ERROR: Path not found!"));
    }
    if str_eq("input_path_prompt", key) {
        return Some((" > {}_", " > {}_"));
    }
    if str_eq("scanning_title", key) {
        return Some((" СКАНИРОВАНИЕ ", " SCANNING "));
    }
    if str_eq("scanning_msg", key) {
        return Some(("\n  [ ⎧≣⎨ ] Сканирую библиотеку...\n  Найдено книг: {}", "\n  [ ⎧≣⎨ ] Scanning library...\n  Books found: {}"));
    }
    if str_eq("bookmarks_title", key) {
        return Some((" ЗАКЛАДКИ ", " BOOKMARKS "));
    }
    if str_eq("bookmarks_item", key) {
        return Some((" Стр. {:>4} | {}...", " Line {:>4} | {}..."));
    }
    if str_eq("footnote_title", key) {
        return Some((" СНОСКА ", " FOOTNOTE "));
    }
    if str_eq("footnotes_chapter", key) {
        return Some(("Сноски", "Footnotes"));
    }
    if str_eq("version", key) {
        return Some(("rink {}", "rink {}"));
    }
    if str_eq("help_version", key) {
        return Some(("? - помощь\no - настройки", "? - help\no - settings"));
    }
    None
}

/// The interface strings in the chosen language.
pub struct I18n;

impl I18n {
    pub fn t(lang: Language, key: &str) -> (res: String)
        ensures
            res@ == t_spec(lang, key@),
    {
        let cs = str_chars(key);
        match lookup(&cs) {
            Some((ru, en)) => match lang {
                Language::Ru => ru.to_owned(),
                Language::En => en.to_owned(),
            },
            None => key.to_owned(),
        }
    }
}

} // verus!
