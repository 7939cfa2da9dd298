//! The reader's interface state and its response to key presses.  Each
//! handler decides the next state from the current one and the key, and
//! returns the outside work (saving the library, loading a book, ...) as an
//! action for the program to carry out.
use vstd::prelude::*;
use crate::book::{perform_search, search_spec};
use crate::fb2_parser::FootnoteInfo;
use crate::i18n::{t_spec, I18n, Language};
use crate::library::{
    popup_after_theme, popup_toggled, remove_bookmark, BorderStyle, SortMode, ThemeColor,
};
use crate::layout::toc_view;
use crate::library::position_of;
use crate::text::{
    all_digits, chars_to_string, decimal, is_digit, parse_usize, parse_usize_spec,
    push_all, starts_with, starts_with_chars, str_chars, string_views, sub_chars, trim,
    trim_chars, usize_to_chars,
};

verus! {

/// The screen the program shows.
#[derive(Debug, Clone, Copy, PartialEq, Eq, Structural)]
pub enum AppState {
    Library,
    Reader,
    Config,
    InputPath,
    InputUrl,
    Scanning,
    Bookmarks,
}

/// A key press, as far as the reader tells keys apart.
#[derive(Debug, Clone, Copy, PartialEq, Eq, Structural)]
pub enum Key {
    Char(char),
    Up,
    Down,
    Left,
    Right,
    PageUp,
    PageDown,
    Home,
    End,
    Enter,
    Esc,
    Backspace,
    Delete,
    Other,
}

/// The outside work that a key press asks for.
#[derive(Debug, Clone, PartialEq, Eq)]
pub enum Action {
    /// Nothing beyond the new state.
    Nothing,
    /// Store the reading position of the open book, save the library and
    /// quit.
    Quit,
    /// List the library's books ordered by title, the open book selected.
    ShowLibrary,
    /// Save the library.
    SaveLibrary,
    /// Add a bookmark at this line of the open book.
    AddBookmark(usize),
    /// Reorder the book list by the (new) sort key.
    SortLibrary,
    /// Open the selected book of the filtered book list.
    OpenSelected,
    /// Rescan the library folders.
    Scan,
    /// Forget every book of the library and save it.
    ClearLibrary,
    /// Save the library and lay the open book out again.
    ReloadBook,
    /// Check that this path names a folder and make it the library folder.
    SetScanPath(String),
    /// Download the book at this URL.
    Download(String),
}

/// The interface settings stored in the library.
#[derive(Debug, Clone, Copy, PartialEq, Eq, Structural)]
pub struct Settings {
    pub language: Language,
    pub theme_color: ThemeColor,
    pub popup_border_color: ThemeColor,
    pub main_border: BorderStyle,
    pub popup_border: BorderStyle,
}

/// Position and layout of the text.
#[derive(Debug, Clone, Copy, PartialEq, Eq, Structural)]
pub struct Position {
    pub state: AppState,
    pub scroll: usize,
    pub should_quit: bool,
    pub width: u16,
    pub width_cache: u16,
}

/// The pop-ups over the text and the selections in the lists.
#[derive(Debug, Clone, Copy, PartialEq, Eq, Structural)]
pub struct Popups {
    pub show_help: bool,
    pub show_info: bool,
    pub show_toc: bool,
    pub toc_index: usize,
    pub library_index: usize,
    pub config_index: usize,
    pub sort_mode: SortMode,
}

/// The text search in the book.
pub struct Search {
    pub is_searching: bool,
    pub query: String,
    pub results: Vec<usize>,
    pub current: usize,
}

/// The footnote pop-up.
pub struct Footnote {
    pub show: bool,
    pub scroll: usize,
    pub text: String,
    pub number: Option<usize>,
    pub list: Vec<usize>,
    pub visible_height: usize,
    pub line_count: usize,
}

/// The text typed into the prompts and into the library search.
pub struct Input {
    pub buffer: String,
    pub library_query: String,
}

/// The reader's interface state.
pub struct ReaderState {
    pub view: Position,
    pub popups: Popups,
    pub search: Search,
    pub footnote: Footnote,
    pub input: Input,
    pub settings: Settings,
}

// ---------------------------------------------------------------------------
// The state as plain values
// ---------------------------------------------------------------------------

pub struct SearchModel {
    pub is_searching: bool,
    pub query: Seq<char>,
    pub results: Seq<usize>,
    pub current: usize,
}

pub struct FootnoteModel {
    pub show: bool,
    pub scroll: usize,
    pub text: Seq<char>,
    pub number: Option<usize>,
    pub list: Seq<usize>,
    pub visible_height: usize,
    pub line_count: usize,
}

pub struct InputModel {
    pub buffer: Seq<char>,
    pub library_query: Seq<char>,
}

pub struct ReaderModel {
    pub view: Position,
    pub popups: Popups,
    pub search: SearchModel,
    pub footnote: FootnoteModel,
    pub input: InputModel,
    pub settings: Settings,
}

impl Search {
    pub open spec fn model(&self) -> SearchModel {
        SearchModel {
            is_searching: self.is_searching,
            query: self.query@,
            results: self.results@,
            current: self.current,
        }
    }
}

impl Footnote {
    pub open spec fn model(&self) -> FootnoteModel {
        FootnoteModel {
            show: self.show,
            scroll: self.scroll,
            text: self.text@,
            number: self.number,
            list: self.list@,
            visible_height: self.visible_height,
            line_count: self.line_count,
        }
    }
}

impl Input {
    pub open spec fn model(&self) -> InputModel {
        InputModel { buffer: self.buffer@, library_query: self.library_query@ }
    }
}

impl ReaderState {
    pub open spec fn model(&self) -> ReaderModel {
        ReaderModel {
            view: self.view,
            popups: self.popups,
            search: self.search.model(),
            footnote: self.footnote.model(),
            input: self.input.model(),
            settings: self.settings,
        }
    }
}

pub open spec fn sat_sub(a: int, b: int) -> int {
    if a >= b {
        a - b
    } else {
        0
    }
}

pub open spec fn min(a: int, b: int) -> int {
    if a <= b {
        a
    } else {
        b
    }
}

// ---------------------------------------------------------------------------
// Small edits of the text fields
// ---------------------------------------------------------------------------

fn empty_string() -> (res: String)
    ensures
        res@ == Seq::<char>::empty(),
{
    String::new()
}

/// The string with its last character removed (unchanged when empty).
pub open spec fn popped(s: Seq<char>) -> Seq<char> {
    if s.len() > 0 {
        s.drop_last()
    } else {
        s
    }
}

fn pop_char(s: &String) -> (res: String)
    ensures
        res@ == popped(s@),
{
    let c = str_chars(s.as_str());
    if c.len() > 0 {
        let d = sub_chars(&c, 0, c.len() - 1);
        assert(d@ =~= c@.drop_last());
        chars_to_string(&d)
    } else {
        chars_to_string(&c)
    }
}

fn push_char(s: &String, ch: char) -> (res: String)
    ensures
        res@ == s@.push(ch),
{
    let mut c = str_chars(s.as_str());
    c.push(ch);
    chars_to_string(&c)
}

// ---------------------------------------------------------------------------
// Footnote references in the text
// ---------------------------------------------------------------------------

/// The first position at or after `k` that holds `c`.
pub open spec fn char_pos(t: Seq<char>, c: char, k: int) -> Option<int>
    decreases t.len() - k,
{
    if k < 0 || k >= t.len() {
        None
    } else if t[k] == c {
        Some(k)
    } else {
        char_pos(t, c, k + 1)
    }
}

pub proof fn lemma_char_pos(t: Seq<char>, c: char, k: int)
    requires
        0 <= k,
    ensures
        match char_pos(t, c, k) {
            Some(i) => k <= i < t.len() && t[i] == c && forall|j: int| k <= j < i ==> t[j] != c,
            None => forall|j: int| k <= j < t.len() ==> t[j] != c,
        },
    decreases t.len() - k,
{
    if k < t.len() && t[k] != c {
        lemma_char_pos(t, c, k + 1);
    }
}

pub(crate) fn find_char(t: &Vec<char>, c: char, k: usize) -> (res: Option<usize>)
    requires
        k <= t.len(),
    ensures
        match res {
            Some(i) => char_pos(t@, c, k as int) == Some(i as int) && k <= i < t.len(),
            None => char_pos(t@, c, k as int) is None,
        },
    decreases t.len() - k,
{
    if k == t.len() {
        None
    } else if t[k] == c {
        Some(k)
    } else {
        find_char(t, c, k + 1)
    }
}

/// The number written between brackets: a non-empty string of ASCII
/// digits whose value fits in a `usize`.
pub open spec fn ref_number(inner: Seq<char>) -> Option<usize> {
    if all_digits(inner) {
        parse_usize_spec(inner)
    } else {
        None
    }
}

/// The bracketed numbers of a text from position `k` on: each `[` is
/// paired with the next `]`, and the scan goes on after that `]`.
pub open spec fn refs_from(t: Seq<char>, k: int) -> Seq<usize>
    decreases t.len() - k,
{
    if k < 0 {
        seq![]
    } else {
        match char_pos(t, '[', k) {
            None => seq![],
            Some(a) => match char_pos(t, ']', a) {
                None => seq![],
                Some(b) => {
                    proof {
                        lemma_char_pos(t, '[', k);
                        lemma_char_pos(t, ']', a);
                    }
                    let rest = refs_from(t, b + 1);
                    match ref_number(t.subrange(a + 1, b)) {
                        Some(n) => seq![n] + rest,
                        None => rest,
                    }
                },
            },
        }
    }
}

fn digits_only(s: &Vec<char>) -> (res: bool)
    ensures
        res == all_digits(s@),
{
    let mut i: usize = 0;
    while i < s.len()
        invariant
            i <= s.len(),
            forall|j: int| 0 <= j < i ==> is_digit(#[trigger] s@[j]),
        decreases s.len() - i,
    {
        if !('0' <= s[i] && s[i] <= '9') {
            assert(!is_digit(s@[i as int]));
            return false;
        }
        i = i + 1;
    }
    true
}

/// The bracketed numbers of a line of text.
pub fn line_refs(t: &Vec<char>) -> (res: Vec<usize>)
    ensures
        res@ == refs_from(t@, 0),
{
    let mut res: Vec<usize> = Vec::new();
    let mut pos: usize = 0;
    while pos <= t.len()
        invariant
            pos <= t.len() + 1,
            refs_from(t@, 0) == res@ + refs_from(t@, pos as int),
        decreases t.len() + 1 - pos,
    {
        let a = match find_char(t, '[', pos) {
            Some(a) => a,
            None => {
                assert(res@ + refs_from(t@, pos as int) =~= res@);
                return res;
            },
        };
        let b = match find_char(t, ']', a) {
            Some(b) => b,
            None => {
                assert(res@ + refs_from(t@, pos as int) =~= res@);
                return res;
            },
        };
        proof {
            lemma_char_pos(t@, '[', pos as int);
            lemma_char_pos(t@, ']', a as int);
        }
        let inner = sub_chars(t, a + 1, b);
        let ghost rest = refs_from(t@, b + 1);
        if digits_only(&inner) {
            match parse_usize(&inner) {
                Some(n) => {
                    let ghost before = res@;
                    res.push(n);
                    assert(before + (seq![n] + rest) =~= res@ + rest);
                },
                None => {},
            }
        }
        pos = b + 1;
    }
    assert(refs_from(t@, pos as int) =~= Seq::<usize>::empty());
    assert(res@ + refs_from(t@, pos as int) =~= res@);
    res
}

/// The bracketed numbers of the lines `from` up to (not including) `to`.
pub open spec fn window_refs(lines: Seq<Seq<char>>, from: int, to: int) -> Seq<usize>
    decreases to - from,
{
    if to <= from {
        seq![]
    } else {
        window_refs(lines, from, to - 1) + refs_from(lines[to - 1], 0)
    }
}

pub open spec fn note_numbers(notes: Seq<FootnoteInfo>) -> Seq<usize> {
    Seq::new(notes.len(), |i: int| notes[i].number)
}

pub open spec fn strictly_sorted(s: Seq<usize>) -> bool {
    forall|i: int, j: int| 0 <= i < j < s.len() ==> s[i] < s[j]
}

/// The footnotes that the lines `from..to` refer to, as a strictly
/// increasing list: the bracketed numbers there that number a footnote.
pub open spec fn is_screen_list(
    l: Seq<usize>,
    lines: Seq<Seq<char>>,
    from: int,
    to: int,
    numbers: Seq<usize>,
) -> bool {
    &&& strictly_sorted(l)
    &&& forall|n: usize| #[trigger] l.contains(n) <==> (window_refs(lines, from, to).contains(n) && numbers.contains(n))
}

/// Inserts `x` into a strictly increasing vector unless it is there.
fn insert_unique(v: &mut Vec<usize>, x: usize)
    requires
        strictly_sorted(old(v)@),
    ensures
        strictly_sorted(final(v)@),
        forall|n: usize| #[trigger] final(v)@.contains(n) <==> (old(v)@.contains(n) || n == x),
{
    let mut p: usize = 0;
    while p < v.len() && v[p] < x
        invariant
            p <= v.len(),
            v@ == old(v)@,
            forall|q: int| 0 <= q < p ==> v@[q] < x,
        decreases v.len() - p,
    {
        p = p + 1;
    }
    if p < v.len() && v[p] == x {
        assert(v@[p as int] == x);
        return;
    }
    let ghost before = v@;
    v.insert(p, x);
    assert forall|i: int, j: int| 0 <= i < j < v@.len() implies v@[i] < v@[j] by {
        if j < p {
            assert(v@[i] == before[i] && v@[j] == before[j]);
        } else if j == p {
            assert(v@[i] == before[i]);
        } else if i < p {
            assert(v@[i] == before[i] && v@[j] == before[j - 1]);
            assert(before[p as int] > x);
            assert(before[p as int] <= before[j - 1]);
        } else if i == p {
            assert(v@[j] == before[j - 1]);
            assert(before[p as int] > x);
            assert(before[p as int] <= before[j - 1]);
        } else {
            assert(v@[i] == before[i - 1] && v@[j] == before[j - 1]);
        }
    }
    assert forall|n: usize| #[trigger] v@.contains(n) <==> (before.contains(n) || n == x) by {
        if v@.contains(n) {
            let i = choose|i: int| 0 <= i < v@.len() && v@[i] == n;
            if i < p {
                assert(before[i] == n);
            } else if i > p {
                assert(before[i - 1] == n);
            }
        }
        if before.contains(n) {
            let i = choose|i: int| 0 <= i < before.len() && before[i] == n;
            if i < p {
                assert(v@[i] == n);
            } else {
                assert(v@[i + 1] == n);
            }
        }
        if n == x {
            assert(v@[p as int] == x);
        }
    }
}

fn is_note_number(notes: &Vec<FootnoteInfo>, n: usize) -> (res: bool)
    ensures
        res == note_numbers(notes@).contains(n),
{
    let mut i: usize = 0;
    while i < notes.len()
        invariant
            i <= notes.len(),
            forall|q: int| 0 <= q < i ==> notes@[q].number != n,
        decreases notes.len() - i,
    {
        if notes[i].number == n {
            assert(note_numbers(notes@)[i as int] == n);
            return true;
        }
        i = i + 1;
    }
    assert forall|q: int| 0 <= q < note_numbers(notes@).len() implies note_numbers(notes@)[q] != n by {
        assert(note_numbers(notes@)[q] == notes@[q].number);
    }
    false
}

/// The footnotes referred to on the lines `from..to`, in increasing order.
pub fn screen_footnotes(lines: &Vec<String>, from: usize, to: usize, notes: &Vec<FootnoteInfo>) -> (res:
    Vec<usize>)
    requires
        from <= to <= lines.len(),
    ensures
        is_screen_list(res@, string_views(lines@), from as int, to as int, note_numbers(notes@)),
{
    let ghost lv = string_views(lines@);
    let ghost nums = note_numbers(notes@);
    let mut screen: Vec<usize> = Vec::new();
    let mut i: usize = from;
    while i < to
        invariant
            from <= i <= to <= lines.len(),
            lv == string_views(lines@),
            nums == note_numbers(notes@),
            strictly_sorted(screen@),
            forall|n: usize|
                #[trigger] screen@.contains(n) <==> (window_refs(lv, from as int, i as int).contains(n)
                    && nums.contains(n)),
        decreases to - i,
    {
        let t = str_chars(lines[i].as_str());
        assert(t@ == lv[i as int]);
        let r = line_refs(&t);
        let ghost w = window_refs(lv, from as int, i as int);
        let mut j: usize = 0;
        assert(r@.take(0) =~= Seq::<usize>::empty());
        assert(w + r@.take(0) =~= w);
        assert forall|m: usize|
            #[trigger] screen@.contains(m) <==> ((w + r@.take(0)).contains(m) && nums.contains(m)) by {
            assert(screen@.contains(m) <==> (w.contains(m) && nums.contains(m)));
        }
        while j < r.len()
            invariant
                j <= r.len(),
                strictly_sorted(screen@),
                forall|n: usize|
                    #[trigger] screen@.contains(n) <==> ((w + r@.take(j as int)).contains(n) && nums.contains(n)),
                nums == note_numbers(notes@),
            decreases r.len() - j,
        {
            let n = r[j];
            let ghost prev = w + r@.take(j as int);
            let ghost old_screen = screen@;
            assert(w + r@.take(j + 1) =~= prev.push(n));
            assert forall|m: usize| #[trigger] prev.push(n).contains(m) <==> (prev.contains(m) || m == n) by {
                if prev.push(n).contains(m) {
                    let k = choose|k: int| 0 <= k < prev.push(n).len() && prev.push(n)[k] == m;
                    if k < prev.len() {
                        assert(prev[k] == m);
                    }
                }
                if prev.contains(m) {
                    let k = choose|k: int| 0 <= k < prev.len() && prev[k] == m;
                    assert(prev.push(n)[k] == m);
                }
                if m == n {
                    assert(prev.push(n)[prev.len() as int] == m);
                }
            }
            let known = is_note_number(notes, n);
            if known {
                insert_unique(&mut screen, n);
            }
            assert forall|m: usize|
                #[trigger] screen@.contains(m) <==> (prev.push(n).contains(m) && nums.contains(m)) by {
                assert(old_screen.contains(m) <==> (prev.contains(m) && nums.contains(m)));
                assert(prev.push(n).contains(m) <==> (prev.contains(m) || m == n));
                if known {
                    assert(screen@.contains(m) <==> (old_screen.contains(m) || m == n));
                } else {
                    assert(screen@ == old_screen);
                }
            }
            j = j + 1;
        }
        assert(r@.take(r.len() as int) =~= r@);
        assert(window_refs(lv, from as int, i + 1) == w + r@);
        assert forall|m: usize|
            #[trigger] screen@.contains(m) <==> (window_refs(lv, from as int, i + 1).contains(m) && nums.contains(m)) by {
            assert(screen@.contains(m) <==> ((w + r@.take(r.len() as int)).contains(m) && nums.contains(m)));
        }
        i = i + 1;
    }
    assert(i == to);
    assert forall|m: usize|
        #[trigger] screen@.contains(m) <==> (window_refs(lv, from as int, to as int).contains(m) && nums.contains(m)) by {
        assert(screen@.contains(m) <==> (window_refs(lv, from as int, i as int).contains(m) && nums.contains(m)));
    }
    screen
}

/// The footnote shown after `current` among those on screen: the next one
/// in order (wrapping around), or the first when `current` is not there.
pub open spec fn next_note(screen: Seq<usize>, current: Option<usize>) -> usize {
    match current {
        Some(c) => if screen.contains(c) {
            let p = choose|p: int| 0 <= p < screen.len() && screen[p] == c;
            screen[(p + 1) % (screen.len() as int)]
        } else {
            screen[0]
        },
        None => screen[0],
    }
}

fn next_note_exec(screen: &Vec<usize>, current: Option<usize>) -> (res: usize)
    requires
        screen.len() > 0,
        strictly_sorted(screen@),
    ensures
        res == next_note(screen@, current),
{
    match current {
        Some(c) => match position_of(screen, c) {
            Some(p) => {
                proof {
                    let q = choose|q: int| 0 <= q < screen@.len() && screen@[q] == c;
                    if q < p {
                        assert(screen@[q] < screen@[p as int]);
                    } else if q > p {
                        assert(screen@[p as int] < screen@[q]);
                    }
                }
                screen[(p + 1) % screen.len()]
            },
            None => screen[0],
        },
        None => screen[0],
    }
}

/// The position in `notes` of the first footnote numbered `n`.
pub open spec fn first_note_with(notes: Seq<FootnoteInfo>, n: usize, k: int) -> int
    decreases notes.len() - k,
{
    if k < 0 || k >= notes.len() {
        0
    } else if notes[k].number == n {
        k
    } else {
        first_note_with(notes, n, k + 1)
    }
}

fn find_note(notes: &Vec<FootnoteInfo>, n: usize, k: usize) -> (res: usize)
    requires
        k <= notes.len(),
    ensures
        res == first_note_with(notes@, n, k as int),
        notes.len() > 0 ==> res < notes.len(),
    decreases notes.len() - k,
{
    if k == notes.len() {
        0
    } else if notes[k].number == n {
        k
    } else {
        find_note(notes, n, k + 1)
    }
}

/// The text of the footnote pop-up: `n. text`.
pub open spec fn note_text(f: FootnoteInfo) -> Seq<char> {
    decimal(f.number as nat) + seq!['.', ' '] + f.text@
}

fn note_text_exec(f: &FootnoteInfo) -> (res: String)
    ensures
        res@ == note_text(*f),
{
    let mut c = usize_to_chars(f.number);
    c.push('.');
    c.push(' ');
    let t = str_chars(f.text.as_str());
    push_all(&mut c, &t);
    chars_to_string(&c)
}

} // verus!

verus! {

// ---------------------------------------------------------------------------
// The reader screen
// ---------------------------------------------------------------------------

/// Whether a key is this character.
pub open spec fn is_char(k: Key, c: char) -> bool {
    k == Key::Char(c)
}

pub open spec fn is_down(k: Key) -> bool {
    k == Key::Down || k == Key::Char('j')
}

pub open spec fn is_up(k: Key) -> bool {
    k == Key::Up || k == Key::Char('k')
}

/// The position of the first result at or after line `s` (0 when none).
pub open spec fn first_ge(r: Seq<usize>, s: usize, k: int) -> int
    decreases r.len() - k,
{
    if k < 0 || k >= r.len() {
        0
    } else if r[k] >= s {
        k
    } else {
        first_ge(r, s, k + 1)
    }
}

/// Typing a character into the book search: the results follow the query
/// and the view jumps to the first result at or after the current line (or
/// the first result).
pub open spec fn search_typed(m: ReaderModel, c: char, lines: Seq<Seq<char>>) -> ReaderModel {
    let q = m.search.query.push(c);
    let r = search_spec(lines, q);
    if r.len() > 0 {
        let p = first_ge(r, m.view.scroll, 0);
        ReaderModel {
            search: SearchModel { query: q, results: r, current: p as usize, ..m.search },
            view: Position { scroll: r[p], ..m.view },
            ..m
        }
    } else {
        ReaderModel { search: SearchModel { query: q, results: r, ..m.search }, ..m }
    }
}

/// Deleting the last character of the book search.
pub open spec fn search_erased(m: ReaderModel, lines: Seq<Seq<char>>) -> ReaderModel {
    let q = popped(m.search.query);
    ReaderModel { search: SearchModel { query: q, results: search_spec(lines, q), ..m.search }, ..m }
}

pub open spec fn with_search(m: ReaderModel, s: SearchModel) -> ReaderModel {
    ReaderModel { search: s, ..m }
}

pub open spec fn with_popups(m: ReaderModel, p: Popups) -> ReaderModel {
    ReaderModel { popups: p, ..m }
}

pub open spec fn with_view(m: ReaderModel, v: Position) -> ReaderModel {
    ReaderModel { view: v, ..m }
}

pub open spec fn no_popup(m: ReaderModel) -> bool {
    !m.popups.show_toc && !m.popups.show_help && !m.popups.show_info
}

/// The table of contents pop-up and its keys.
pub open spec fn toc_key(m: ReaderModel, key: Key, toc_len: int) -> Option<ReaderModel> {
    let p = m.popups;
    let last = sat_sub(toc_len, 1);
    if is_char(key, 'q') {
        Some(with_popups(m, Popups { show_toc: false, ..p }))
    } else if is_down(key) {
        if toc_len > 0 {
            Some(with_popups(m, Popups { toc_index: min(p.toc_index + 1, toc_len - 1) as usize, ..p }))
        } else {
            Some(m)
        }
    } else if is_up(key) {
        Some(with_popups(m, Popups { toc_index: sat_sub(p.toc_index as int, 1) as usize, ..p }))
    } else if key == Key::Home {
        Some(with_popups(m, Popups { toc_index: 0, ..p }))
    } else if key == Key::End {
        Some(with_popups(m, Popups { toc_index: last as usize, ..p }))
    } else if key == Key::PageUp || key == Key::Left {
        Some(with_popups(m, Popups { toc_index: sat_sub(p.toc_index as int, 10) as usize, ..p }))
    } else if key == Key::PageDown || key == Key::Right {
        Some(with_popups(m, Popups { toc_index: min(p.toc_index + 10, last) as usize, ..p }))
    } else {
        None
    }
}

/// Moving through the text with no pop-up open; `vh` is the number of
/// lines on screen.
pub open spec fn scroll_key(m: ReaderModel, key: Key, n_lines: int, vh: int) -> Option<ReaderModel> {
    let v = m.view;
    if is_down(key) {
        Some(
            if v.scroll < sat_sub(n_lines, 1) {
                with_view(m, Position { scroll: (v.scroll + 1) as usize, ..v })
            } else {
                m
            },
        )
    } else if is_up(key) {
        Some(
            if v.scroll > 0 {
                with_view(m, Position { scroll: (v.scroll - 1) as usize, ..v })
            } else {
                m
            },
        )
    } else if key == Key::Left || key == Key::PageUp {
        Some(with_view(m, Position { scroll: sat_sub(v.scroll as int, vh) as usize, ..v }))
    } else if key == Key::Right || key == Key::PageDown || is_char(key, ' ') {
        Some(
            with_view(
                m,
                Position { scroll: min(v.scroll + vh, sat_sub(n_lines, vh)) as usize, ..v },
            ),
        )
    } else if key == Key::Home {
        Some(with_view(m, Position { scroll: 0, ..v }))
    } else if key == Key::End {
        Some(with_view(m, Position { scroll: sat_sub(n_lines, vh) as usize, ..v }))
    } else {
        None
    }
}

/// The next and previous search result.
pub open spec fn result_step(m: ReaderModel, forward: bool) -> ReaderModel {
    let r = m.search.results;
    let len = r.len() as int;
    let i = m.search.current as int;
    let j = if forward {
        (i + 1) % len
    } else if i == 0 || i > len {
        len - 1
    } else {
        i - 1
    };
    ReaderModel {
        search: SearchModel { current: j as usize, ..m.search },
        view: Position { scroll: r[j], ..m.view },
        ..m
    }
}

/// Changing the text width by five columns, kept between 30 and 100.
pub open spec fn width_changed(m: ReaderModel, narrower: bool) -> ReaderModel {
    let w = m.view.width as int;
    let nw = if narrower {
        if sat_sub(w, 5) < 30 {
            30
        } else {
            sat_sub(w, 5)
        }
    } else {
        min(w + 5, 100)
    };
    with_view(m, Position { width: nw as u16, width_cache: 0, ..m.view })
}

/// The next theme colour; the pop-up frame follows unless it is white.
pub open spec fn theme_changed(m: ReaderModel) -> ReaderModel {
    let t = m.settings.theme_color.next_spec();
    ReaderModel {
        settings: Settings {
            theme_color: t,
            popup_border_color: popup_after_theme(t, m.settings.popup_border_color),
            ..m.settings
        },
        ..m
    }
}

/// Showing a footnote: among the footnotes referred to on screen (listed in
/// `screen`), the one after the footnote shown last.
pub open spec fn footnote_shown(m: ReaderModel, notes: Seq<FootnoteInfo>, screen: Seq<usize>) -> ReaderModel {
    let target = next_note(screen, m.footnote.number);
    let f = notes[first_note_with(notes, target, 0)];
    ReaderModel {
        footnote: FootnoteModel {
            show: true,
            scroll: 0,
            text: note_text(f),
            number: Some(target),
            list: screen,
            line_count: 0,
            ..m.footnote
        },
        ..m
    }
}

/// The lines on screen: from the current line, `vh` lines, within the text.
pub open spec fn screen_end(scroll: int, vh: int, n_lines: int) -> int {
    min(scroll + vh, n_lines)
}

/// The footnotes referred to on the lines `from..to`, in increasing order.
pub open spec fn screen_list(lines: Seq<Seq<char>>, from: int, to: int, numbers: Seq<usize>) -> Seq<usize> {
    choose|l: Seq<usize>| is_screen_list(l, lines, from, to, numbers)
}

/// The keys that close the reader, cancel the search or switch screens.
pub open spec fn reader_keys_a(m: ReaderModel, key: Key) -> Option<(ReaderModel, Action)> {
    let p = m.popups;
    let s = m.search;
    let searching = s.is_searching;
    if is_char(key, 'q') && no_popup(m) && !searching {
        Some((with_view(m, Position { should_quit: true, ..m.view }), Action::Quit))
    } else if (key == Key::Esc || is_char(key, 'q')) && searching {
        Some((with_search(m, SearchModel { is_searching: false, query: seq![], results: seq![], ..s }), Action::Nothing))
    } else if key == Key::Esc && !searching && s.query.len() > 0 && no_popup(m) {
        Some((with_search(m, SearchModel { query: seq![], results: seq![], current: 0, ..s }), Action::Nothing))
    } else if is_char(key, 'L') && !searching {
        Some(
            (
                ReaderModel {
                    view: Position { state: AppState::Library, ..m.view },
                    popups: Popups { sort_mode: SortMode::Title, ..p },
                    ..m
                },
                Action::ShowLibrary,
            ),
        )
    } else if is_char(key, 'o') {
        Some(
            (
                ReaderModel {
                    view: Position { state: AppState::Config, ..m.view },
                    popups: Popups { config_index: 0, ..p },
                    ..m
                },
                Action::Nothing,
            ),
        )
    } else if is_char(key, '/') && !searching {
        Some((with_search(m, SearchModel { is_searching: true, query: seq![], ..s }), Action::Nothing))
    } else {
        None
    }
}

/// The keys of the help, information and contents pop-ups.
pub open spec fn reader_keys_b(m: ReaderModel, key: Key, toc: Seq<(Seq<char>, int)>) -> Option<ReaderModel> {
    let p = m.popups;
    if is_char(key, '?') {
        Some(
            with_popups(
                m,
                Popups { show_help: !p.show_help, library_index: 0, show_info: false, show_toc: false, ..p },
            ),
        )
    } else if is_down(key) && p.show_help {
        Some(
            if p.library_index < 15 {
                with_popups(m, Popups { library_index: (p.library_index + 1) as usize, ..p })
            } else {
                m
            },
        )
    } else if is_up(key) && p.show_help {
        Some(with_popups(m, Popups { library_index: sat_sub(p.library_index as int, 1) as usize, ..p }))
    } else if is_char(key, 'i') {
        Some(with_popups(m, Popups { show_info: !p.show_info, show_toc: false, ..p }))
    } else if is_char(key, 't') {
        Some(with_popups(m, Popups { show_toc: !p.show_toc, show_info: false, ..p }))
    } else if key == Key::Enter && p.show_toc {
        Some(
            if p.toc_index < toc.len() {
                ReaderModel {
                    view: Position { scroll: toc[p.toc_index as int].1 as usize, ..m.view },
                    popups: Popups { show_toc: false, ..p },
                    ..m
                }
            } else {
                m
            },
        )
    } else if p.show_toc && toc_key(m, key, toc.len() as int) is Some {
        toc_key(m, key, toc.len() as int)
    } else {
        None
    }
}

/// The other keys of the reader: search results, moving, the theme, the
/// footnotes, bookmarks and the text width.
pub open spec fn reader_keys_c(
    m: ReaderModel,
    key: Key,
    lines: Seq<Seq<char>>,
    notes: Seq<FootnoteInfo>,
    vh: int,
) -> (ReaderModel, Action) {
    let screen = screen_list(
        lines,
        m.view.scroll as int,
        screen_end(m.view.scroll as int, vh, lines.len() as int),
        note_numbers(notes),
    );
    let p = m.popups;
    if is_char(key, 'n') && m.search.results.len() > 0 {
        (result_step(m, true), Action::Nothing)
    } else if is_char(key, 'N') && m.search.results.len() > 0 {
        (result_step(m, false), Action::Nothing)
    } else if no_popup(m) && scroll_key(m, key, lines.len() as int, vh) is Some {
        (scroll_key(m, key, lines.len() as int, vh)->0, Action::Nothing)
    } else if is_char(key, 'c') {
        (theme_changed(m), Action::SaveLibrary)
    } else if is_char(key, 'f') || is_char(key, 'а') {
        (
            if notes.len() > 0 && screen.len() > 0 {
                footnote_shown(m, notes, screen)
            } else {
                m
            },
            Action::Nothing,
        )
    } else if is_char(key, 'm') {
        (m, Action::AddBookmark(m.view.scroll))
    } else if is_char(key, 'M') {
        (with_view(m, Position { state: AppState::Bookmarks, ..m.view }), Action::Nothing)
    } else if is_char(key, '+') || is_char(key, '=') || is_char(key, '-') {
        (width_changed(m, is_char(key, '-')), Action::Nothing)
    } else if (key == Key::Esc || is_char(key, 'q')) && (p.show_help || p.show_info || p.show_toc) {
        (with_popups(m, Popups { show_help: false, show_info: false, show_toc: false, ..p }), Action::Nothing)
    } else {
        (m, Action::Nothing)
    }
}

/// A key in the reader after the search prompt had its say; the first arm
/// that applies decides.
pub open spec fn reader_main_key(
    m: ReaderModel,
    key: Key,
    lines: Seq<Seq<char>>,
    toc: Seq<(Seq<char>, int)>,
    notes: Seq<FootnoteInfo>,
    vh: int,
) -> (ReaderModel, Action) {
    match reader_keys_a(m, key) {
        Some(r) => r,
        None => match reader_keys_b(m, key, toc) {
            Some(r) => (r, Action::Nothing),
            None => reader_keys_c(m, key, lines, notes, vh),
        },
    }
}

/// A key on the reader screen: while the search prompt is open, characters,
/// Backspace and Enter edit the query; other keys are handled as usual.
pub open spec fn reader_key(
    m: ReaderModel,
    key: Key,
    lines: Seq<Seq<char>>,
    toc: Seq<(Seq<char>, int)>,
    notes: Seq<FootnoteInfo>,
    vh: int,
) -> (ReaderModel, Action) {
    if m.search.is_searching && m.view.state == AppState::Reader {
        match key {
            Key::Char(c) => (search_typed(m, c, lines), Action::Nothing),
            Key::Backspace => (search_erased(m, lines), Action::Nothing),
            Key::Enter => (with_search(m, SearchModel { is_searching: false, ..m.search }), Action::Nothing),
            _ => reader_main_key(m, key, lines, toc, notes, vh),
        }
    } else {
        reader_main_key(m, key, lines, toc, notes, vh)
    }
}

} // verus!

verus! {

/// Moving in the open table of contents: Up/`k` selects the previous entry
/// (staying at the first), Down/`j` the next (staying at the last), Home the
/// first, End the last, PageUp/Left ten entries back and PageDown/Right ten
/// on (within the entries).  The pop-up stays open and the text stays where
/// it is.
pub proof fn law_toc_navigation(
    m: ReaderModel,
    key: Key,
    lines: Seq<Seq<char>>,
    toc: Seq<(Seq<char>, int)>,
    notes: Seq<FootnoteInfo>,
    vh: int,
)
    requires
        m.popups.show_toc,
        !m.popups.show_help,
        !m.search.is_searching,
        0 < toc.len() <= usize::MAX,
        key == Key::Up || key == Key::Char('k') || key == Key::Down || key == Key::Char('j') || key
            == Key::Home || key == Key::End || key == Key::PageUp || key == Key::Left || key
            == Key::PageDown || key == Key::Right,
    ensures
        ({
            let (r, a) = reader_key(m, key, lines, toc, notes, vh);
            let i = m.popups.toc_index as int;
            let last = toc.len() - 1;
            &&& a == Action::Nothing
            &&& r.popups.show_toc
            &&& r.view == m.view
            &&& r.search == m.search
            &&& (key == Key::Up || key == Key::Char('k')) ==> r.popups.toc_index == (if i > 0 {
                i - 1
            } else {
                0
            })
            &&& (key == Key::Down || key == Key::Char('j')) ==> r.popups.toc_index == (if i < last {
                i + 1
            } else {
                last
            })
            &&& key == Key::Home ==> r.popups.toc_index == 0
            &&& key == Key::End ==> r.popups.toc_index == last
            &&& (key == Key::PageUp || key == Key::Left) ==> r.popups.toc_index == (if i >= 10 {
                i - 10
            } else {
                0
            })
            &&& (key == Key::PageDown || key == Key::Right) ==> r.popups.toc_index == (if i + 10
                <= last {
                i + 10
            } else {
                last
            })
        }),
{
    assert(reader_keys_a(m, key) is None);
    assert(toc_key(m, key, toc.len() as int) is Some);
    assert(reader_keys_b(m, key, toc) == toc_key(m, key, toc.len() as int));
    assert(reader_key(m, key, lines, toc, notes, vh) == (toc_key(m, key, toc.len() as int)->0, Action::Nothing));
}

/// While the search prompt is open, typing a character adds it to the
/// query, Backspace takes the last character off, and either way the
/// results are the lines that the new query finds.
pub proof fn law_search_follows_query(
    m: ReaderModel,
    key: Key,
    lines: Seq<Seq<char>>,
    toc: Seq<(Seq<char>, int)>,
    notes: Seq<FootnoteInfo>,
    vh: int,
)
    requires
        m.search.is_searching,
        m.view.state == AppState::Reader,
        key is Char || key == Key::Backspace,
    ensures
        ({
            let r = reader_key(m, key, lines, toc, notes, vh).0;
            &&& r.search.is_searching
            &&& r.search.results == search_spec(lines, r.search.query)
            &&& (key matches Key::Char(c) ==> r.search.query == m.search.query.push(c))
            &&& key == Key::Backspace ==> r.search.query == (if m.search.query.len() > 0 {
                m.search.query.take(m.search.query.len() - 1)
            } else {
                m.search.query
            })
        }),
{
    if key == Key::Backspace && m.search.query.len() > 0 {
        assert(m.search.query.drop_last() =~= m.search.query.take(m.search.query.len() - 1));
    }
}

/// Moving through the text with no pop-up open: Down/`j` one line on
/// (not past the last line), Up/`k` one line back (not before the first),
/// PageDown/Right/space a screen on (not past the last full screen),
/// PageUp/Left a screen back (not before the first line), Home to the
/// first line, End to the last full screen.  Nothing else changes.
pub proof fn law_scrolling(
    m: ReaderModel,
    key: Key,
    lines: Seq<Seq<char>>,
    toc: Seq<(Seq<char>, int)>,
    notes: Seq<FootnoteInfo>,
    vh: int,
)
    requires
        !m.popups.show_toc && !m.popups.show_help && !m.popups.show_info,
        !m.search.is_searching,
        lines.len() <= usize::MAX,
        0 <= vh,
        key == Key::Up || key == Key::Char('k') || key == Key::Down || key == Key::Char('j') || key
            == Key::Home || key == Key::End || key == Key::PageUp || key == Key::Left || key
            == Key::PageDown || key == Key::Right || key == Key::Char(' '),
    ensures
        ({
            let (r, a) = reader_key(m, key, lines, toc, notes, vh);
            let s = m.view.scroll as int;
            let n = lines.len() as int;
            let last_screen = if n > vh {
                n - vh
            } else {
                0
            };
            &&& a == Action::Nothing
            &&& r == ReaderModel { view: Position { scroll: r.view.scroll, ..m.view }, ..m }
            &&& (key == Key::Down || key == Key::Char('j')) ==> r.view.scroll == (if s + 1 < n {
                s + 1
            } else {
                s
            })
            &&& (key == Key::Up || key == Key::Char('k')) ==> r.view.scroll == (if s > 0 {
                s - 1
            } else {
                s
            })
            &&& (key == Key::PageDown || key == Key::Right || key == Key::Char(' ')) ==> r.view.scroll
                == (if s + vh < last_screen {
                s + vh
            } else {
                last_screen
            })
            &&& (key == Key::PageUp || key == Key::Left) ==> r.view.scroll == (if s > vh {
                s - vh
            } else {
                0
            })
            &&& key == Key::Home ==> r.view.scroll == 0
            &&& key == Key::End ==> r.view.scroll == last_screen
        }),
{
    assert(reader_keys_a(m, key) is None);
    assert(reader_keys_b(m, key, toc) is None);
    assert(scroll_key(m, key, lines.len() as int, vh) is Some);
}

/// Stepping through the search results with no prompt open: `n` goes to
/// the next result (after the last, the first), `N` to the previous one
/// (before the first, the last); the view jumps to the line of the result.
pub proof fn law_result_stepping(
    m: ReaderModel,
    key: Key,
    lines: Seq<Seq<char>>,
    toc: Seq<(Seq<char>, int)>,
    notes: Seq<FootnoteInfo>,
    vh: int,
)
    requires
        !m.search.is_searching,
        m.search.results.len() > 0,
        m.search.current < m.search.results.len(),
        m.search.results.len() <= usize::MAX,
        key == Key::Char('n') || key == Key::Char('N'),
    ensures
        ({
            let r = reader_key(m, key, lines, toc, notes, vh).0;
            let i = m.search.current as int;
            let len = m.search.results.len() as int;
            let j = if key == Key::Char('n') {
                if i + 1 < len {
                    i + 1
                } else {
                    0
                }
            } else if i > 0 {
                i - 1
            } else {
                len - 1
            };
            &&& r.search.current == j
            &&& r.view.scroll == m.search.results[j]
            &&& r.search.results == m.search.results
            &&& r.search.query == m.search.query
        }),
{
    assert(reader_keys_a(m, key) is None);
    assert(reader_keys_b(m, key, toc) is None);
    let len = m.search.results.len() as int;
    let i = m.search.current as int;
    if i + 1 < len {
        assert((i + 1) % len == i + 1) by (nonlinear_arith)
            requires
                0 <= i + 1 < len,
        ;
    } else {
        assert((i + 1) % len == 0) by (nonlinear_arith)
            requires
                i + 1 == len,
                len > 0,
        ;
    }
}

/// Typing into the search prompt jumps to a match: when the new query finds
/// lines, the view moves to the first of them at or after the current line
/// (to the first of all when none lies there), and the current result is
/// that one.
pub proof fn law_search_jumps_to_match(
    m: ReaderModel,
    c: char,
    lines: Seq<Seq<char>>,
    toc: Seq<(Seq<char>, int)>,
    notes: Seq<FootnoteInfo>,
    vh: int,
)
    requires
        m.search.is_searching,
        m.view.state == AppState::Reader,
        lines.len() <= usize::MAX,
    ensures
        ({
            let r = reader_key(m, Key::Char(c), lines, toc, notes, vh).0;
            let res = r.search.results;
            let s = m.view.scroll;
            res.len() > 0 ==> {
                &&& 0 <= r.search.current < res.len()
                &&& r.view.scroll == res[r.search.current as int]
                &&& (exists|k: int| 0 <= k < res.len() && res[k] >= s) ==> (res[r.search.current as int]
                    >= s && forall|k: int| 0 <= k < r.search.current ==> #[trigger] res[k] < s)
                &&& !(exists|k: int| 0 <= k < res.len() && res[k] >= s) ==> r.search.current == 0
            }
        }),
{
    let q = m.search.query.push(c);
    let res = search_spec(lines, q);
    if res.len() > 0 {
        crate::book::law_search_exact(lines, q);
        lemma_increasing_at(res, res.len() - 1);
        lemma_first_ge(res, m.view.scroll, 0);
    }
}

proof fn lemma_increasing_at(r: Seq<usize>, k: int)
    requires
        0 <= k < r.len(),
        forall|a: int, b: int| 0 <= a < b < r.len() ==> r[a] < r[b],
    ensures
        r[k] >= k,
    decreases k,
{
    if k > 0 {
        lemma_increasing_at(r, k - 1);
    }
}

proof fn lemma_first_ge(r: Seq<usize>, s: usize, k: int)
    requires
        0 <= k <= r.len(),
        forall|q: int| 0 <= q < k ==> r[q] < s,
    ensures
        0 <= first_ge(r, s, k) < r.len() || (r.len() == 0 && first_ge(r, s, k) == 0) || (k == r.len()
            && first_ge(r, s, k) == 0),
        (exists|q: int| k <= q < r.len() && r[q] >= s) ==> (k <= first_ge(r, s, k) < r.len() && r[first_ge(r, s, k)]
            >= s && forall|q: int| 0 <= q < first_ge(r, s, k) ==> #[trigger] r[q] < s),
        !(exists|q: int| k <= q < r.len() && r[q] >= s) ==> first_ge(r, s, k) == 0,
    decreases r.len() - k,
{
    if k < r.len() && r[k] < s {
        lemma_first_ge(r, s, k + 1);
        if exists|q: int| k <= q < r.len() && r[q] >= s {
            let q = choose|q: int| k <= q < r.len() && r[q] >= s;
            assert(q != k);
            assert(k + 1 <= q < r.len() && r[q] >= s);
        }
    }
}

/// Changing the text width: `+` or `=` widens it by five columns up to 100,
/// `-` narrows it by five columns down to 30; the text is laid out again.
pub proof fn law_width_keys(
    m: ReaderModel,
    key: Key,
    lines: Seq<Seq<char>>,
    toc: Seq<(Seq<char>, int)>,
    notes: Seq<FootnoteInfo>,
    vh: int,
)
    requires
        !m.search.is_searching,
        key == Key::Char('+') || key == Key::Char('=') || key == Key::Char('-'),
    ensures
        ({
            let (r, a) = reader_key(m, key, lines, toc, notes, vh);
            let w = m.view.width as int;
            &&& a == Action::Nothing
            &&& key == Key::Char('-') ==> r.view.width == (if w >= 35 {
                w - 5
            } else {
                30
            })
            &&& key != Key::Char('-') ==> r.view.width == (if w + 5 <= 100 {
                w + 5
            } else {
                100
            })
            &&& r.view.width_cache == 0
            &&& r.view.scroll == m.view.scroll
        }),
{
    assert(reader_keys_a(m, key) is None);
    assert(reader_keys_b(m, key, toc) is None);
    assert(scroll_key(m, key, lines.len() as int, vh) is None);
}

/// The open footnote pop-up: Down/`j` scrolls it one line on while lines
/// remain below the window, Up/`k` one line back (not before the first),
/// any other key closes it.
pub proof fn law_footnote_popup_keys(m: ReaderModel, key: Key)
    ensures
        ({
            let r = footnote_key(m, key);
            let f = m.footnote;
            let max = if f.line_count > f.visible_height {
                f.line_count - f.visible_height
            } else {
                0
            };
            &&& (key == Key::Down || key == Key::Char('j')) ==> r.footnote.show == f.show && r.footnote.scroll
                == (if f.scroll < max {
                f.scroll + 1
            } else {
                f.scroll as int
            })
            &&& (key == Key::Up || key == Key::Char('k')) ==> r.footnote.show == f.show && r.footnote.scroll
                == (if f.scroll > 0 {
                f.scroll - 1
            } else {
                0
            })
            &&& !(key == Key::Down || key == Key::Char('j') || key == Key::Up || key == Key::Char('k'))
                ==> !r.footnote.show && r.footnote.scroll == 0
            &&& r.view == m.view
        }),
{
}

/// The bookmark list of a book that has an entry: Enter jumps to the
/// selected bookmark and goes back to reading, Delete (or `d`) removes the
/// selected bookmark and keeps the selection within the list, Up/Down move
/// the selection within the list, and Esc, `q` or `M` go back to reading.
pub proof fn law_bookmark_keys(m: ReaderModel, key: Key, marks: Seq<usize>)
    requires
        m.popups.library_index < marks.len(),
        marks.len() <= usize::MAX,
    ensures
        ({
            let (r, rest, a) = bookmarks_key(m, key, marks, true);
            let i = m.popups.library_index as int;
            &&& key == Key::Enter ==> r.view.scroll == marks[i] && r.view.state == AppState::Reader
                && rest == marks
            &&& (key == Key::Delete || key == Key::Char('d')) ==> {
                &&& rest.len() == marks.len() - 1
                &&& forall|k: int| 0 <= k < i ==> rest[k] == marks[k]
                &&& forall|k: int| i <= k < rest.len() ==> rest[k] == marks[k + 1]
                &&& (rest.len() > 0 ==> r.popups.library_index < rest.len())
                &&& a == Action::SaveLibrary
            }
            &&& (key == Key::Up || key == Key::Char('k')) ==> r.popups.library_index == (if i > 0 {
                i - 1
            } else {
                0
            }) && rest == marks
            &&& (key == Key::Down || key == Key::Char('j')) ==> r.popups.library_index == (if i + 1
                < marks.len() {
                i + 1
            } else {
                i
            }) && rest == marks
            &&& (key == Key::Esc || key == Key::Char('q') || key == Key::Char('M')) ==> r.view.state
                == AppState::Reader && rest == marks
        }),
{
}

/// The library screen: while its search prompt is open, characters extend
/// the query (selecting the first book) and Backspace takes the last one
/// off; otherwise the selection moves within the `n` listed books (Up/Down
/// by one, PageUp/PageDown by ten, Home and End to the ends), `s` re-sorts
/// by the next key, Enter opens the selected book and `q` goes back to
/// reading with the query cleared.
pub proof fn law_library_keys(m: ReaderModel, key: Key, n: int)
    requires
        0 < n <= usize::MAX,
    ensures
        ({
            let (r, a) = library_key(m, key, n);
            let i = m.popups.library_index as int;
            let last = n - 1;
            let searching = m.search.is_searching;
            &&& (searching && key is Char) ==> r.input.library_query == m.input.library_query.push(
                key->Char_0,
            ) && r.popups.library_index == 0
            &&& (searching && key == Key::Backspace) ==> r.input.library_query == (if m.input.library_query.len()
                > 0 {
                m.input.library_query.take(m.input.library_query.len() - 1)
            } else {
                m.input.library_query
            })
            &&& (!searching && (key == Key::Up || key == Key::Char('k'))) ==> r.popups.library_index == (if i
                > 0 {
                i - 1
            } else {
                0
            })
            &&& (!searching && (key == Key::Down || key == Key::Char('j'))) ==> r.popups.library_index == (
            if i < last {
                i + 1
            } else {
                last
            })
            &&& key == Key::Home ==> r.popups.library_index == 0
            &&& key == Key::End ==> r.popups.library_index == last
            &&& (key == Key::PageUp || key == Key::Left) ==> r.popups.library_index == (if i >= 10 {
                i - 10
            } else {
                0
            })
            &&& (key == Key::PageDown || key == Key::Right) ==> r.popups.library_index == (if i + 10
                <= last {
                i + 10
            } else {
                last
            })
            &&& (!searching && key == Key::Char('s')) ==> r.popups.sort_mode == m.popups.sort_mode.next_spec()
                && a == Action::SortLibrary
            &&& (!searching && key == Key::Enter) ==> a == Action::OpenSelected && r == m
            &&& (!searching && key == Key::Char('q')) ==> r.view.state == AppState::Reader
                && r.input.library_query.len() == 0
        }),
{
    if m.search.is_searching && key == Key::Backspace && m.input.library_query.len() > 0 {
        assert(m.input.library_query.drop_last() =~= m.input.library_query.take(
            m.input.library_query.len() - 1,
        ));
    }
}

/// The settings menu: Up/Down move between its ten rows; Enter on a row
/// does what the row says: asks for a library folder (row 0), scans the
/// library (1), clears it (2), saves the settings (3), asks for a download
/// address (4), switches the language and reloads the book (5), switches
/// the pop-up frames between white and the theme colour (6), turns the book
/// frame (7) or the pop-up frames (8) to the next style (plain, double,
/// rounded, then plain again), or goes back to reading (9); Esc and `q` go
/// back to reading.
pub proof fn law_settings_keys(m: ReaderModel, key: Key)
    ensures
        ({
            let (r, a) = config_key(m, key);
            let i = m.popups.config_index as int;
            let st = m.settings;
            &&& (key == Key::Up || key == Key::Char('k')) ==> r.popups.config_index == (if i > 0 {
                i - 1
            } else {
                0
            })
            &&& (key == Key::Down || key == Key::Char('j')) ==> r.popups.config_index == (if i < 9 {
                i + 1
            } else {
                i
            })
            &&& (key == Key::Esc || key == Key::Char('q')) ==> r.view.state == AppState::Reader
            &&& key == Key::Enter ==> {
                &&& i == 0 ==> r.view.state == AppState::InputPath && r.input.buffer.len() == 0
                &&& i == 1 ==> r.view.state == AppState::Scanning && a == Action::Scan
                &&& i == 2 ==> a == Action::ClearLibrary && r == m
                &&& i == 3 ==> a == Action::SaveLibrary && r == m
                &&& i == 4 ==> r.view.state == AppState::InputUrl && r.input.buffer.len() == 0
                &&& i == 5 ==> a == Action::ReloadBook && r.settings.language == (if st.language
                    == Language::Ru {
                    Language::En
                } else {
                    Language::Ru
                })
                &&& i == 6 ==> a == Action::SaveLibrary && r.settings.popup_border_color == (
                if st.popup_border_color == ThemeColor::White {
                    st.theme_color
                } else {
                    ThemeColor::White
                })
                &&& i == 7 ==> a == Action::SaveLibrary && r.settings.main_border == (match st.main_border {
                    BorderStyle::Plain => BorderStyle::Double,
                    BorderStyle::Double => BorderStyle::Rounded,
                    BorderStyle::Rounded => BorderStyle::Plain,
                }) && r.settings.popup_border == st.popup_border
                &&& i == 8 ==> a == Action::SaveLibrary && r.settings.popup_border == (match st.popup_border {
                    BorderStyle::Plain => BorderStyle::Double,
                    BorderStyle::Double => BorderStyle::Rounded,
                    BorderStyle::Rounded => BorderStyle::Plain,
                }) && r.settings.main_border == st.main_border
                &&& i == 9 ==> r.view.state == AppState::Reader
            }
        }),
{
}

/// The folder or URL prompt: a typed character is added to the entry (a
/// shown error message is replaced by it), Backspace takes the last one
/// off, Enter asks for the entry without its surrounding whitespace when
/// that is not empty, and Esc or `q` leave the prompt for the settings with
/// the entry cleared.
pub proof fn law_input_prompt(m: ReaderModel, key: Key)
    requires
        m.view.state == AppState::InputPath || m.view.state == AppState::InputUrl,
    ensures
        ({
            let (r, ask) = input_key(m, key);
            let b = m.input.buffer;
            &&& (key is Char && key != Key::Char('q') && !shows_error(b)) ==> r.input.buffer == b.push(key->Char_0)
                && ask is None
            &&& (key is Char && key != Key::Char('q') && shows_error(b)) ==> r.input.buffer == seq![key->Char_0]
            &&& key == Key::Backspace ==> r.input.buffer == (if b.len() > 0 {
                b.take(b.len() - 1)
            } else {
                b
            })
            &&& key == Key::Enter ==> (ask == (if trim(b).len() > 0 {
                Some(trim(b))
            } else {
                None
            }) && r == m)
            &&& (key == Key::Esc || key == Key::Char('q')) ==> r.view.state == AppState::Config
                && r.input.buffer.len() == 0 && ask is None
        }),
{
    if key == Key::Backspace && m.input.buffer.len() > 0 {
        assert(m.input.buffer.drop_last() =~= m.input.buffer.take(m.input.buffer.len() - 1));
    }
    if key is Char && shows_error(m.input.buffer) {
        assert(Seq::<char>::empty().push(key->Char_0) =~= seq![key->Char_0]);
    }
}

/// Two strictly increasing lists with the same elements are equal, so
/// `screen_list` is the one list that `is_screen_list` describes.
pub proof fn lemma_sorted_unique(a: Seq<usize>, b: Seq<usize>)
    requires
        strictly_sorted(a),
        strictly_sorted(b),
        forall|n: usize| #[trigger] a.contains(n) <==> b.contains(n),
    ensures
        a == b,
    decreases a.len(),
{
    if a.len() == 0 {
        if b.len() > 0 {
            assert(b.contains(b[0]));
            assert(a.contains(b[0]));
        }
        assert(a =~= b);
    } else {
        assert(a.contains(a[0]));
        assert(b.contains(a[0]));
        assert(b.len() > 0);
        assert(b.contains(b[0]));
        assert(a.contains(b[0]));
        let j = choose|j: int| 0 <= j < a.len() && a[j] == b[0];
        let k = choose|k: int| 0 <= k < b.len() && b[k] == a[0];
        if j > 0 {
            assert(a[0] < a[j]);
        }
        if k > 0 {
            assert(b[0] < b[k]);
        }
        assert(a[0] == b[0]);
        let a1 = a.drop_first();
        let b1 = b.drop_first();
        assert forall|n: usize| #[trigger] a1.contains(n) <==> b1.contains(n) by {
            if a1.contains(n) {
                let i = choose|i: int| 0 <= i < a1.len() && a1[i] == n;
                assert(a[i + 1] == n && a[0] < a[i + 1]);
                assert(a.contains(n));
                let q = choose|q: int| 0 <= q < b.len() && b[q] == n;
                assert(q != 0);
                assert(b1[q - 1] == n);
            }
            if b1.contains(n) {
                let i = choose|i: int| 0 <= i < b1.len() && b1[i] == n;
                assert(b[i + 1] == n && b[0] < b[i + 1]);
                assert(b.contains(n));
                assert(a.contains(n));
                let q = choose|q: int| 0 <= q < a.len() && a[q] == n;
                assert(q != 0);
                assert(a1[q - 1] == n);
            }
        }
        lemma_sorted_unique(a1, b1);
        assert(a =~= seq![a[0]] + a1);
        assert(b =~= seq![b[0]] + b1);
    }
}

fn first_ge_exec(r: &Vec<usize>, s: usize) -> (p: usize)
    ensures
        p == first_ge(r@, s, 0),
        r.len() > 0 ==> p < r.len(),
{
    let mut k: usize = 0;
    while k < r.len()
        invariant
            k <= r.len(),
            first_ge(r@, s, 0) == first_ge(r@, s, k as int),
        decreases r.len() - k,
    {
        if r[k] >= s {
            return k;
        }
        k = k + 1;
    }
    0
}

fn screen_end_exec(scroll: usize, vh: usize, n: usize) -> (res: usize)
    ensures
        res == screen_end(scroll as int, vh as int, n as int),
{
    if vh >= n || scroll >= n - vh {
        n
    } else {
        scroll + vh
    }
}

impl ReaderState {
    fn search_typed_exec(&mut self, c: char, lines: &Vec<String>)
        ensures
            final(self).model() == search_typed(old(self).model(), c, string_views(lines@)),
    {
        let q = push_char(&self.search.query, c);
        let r = perform_search(lines.as_slice(), q.as_str());
        self.search.query = q;
        if r.len() > 0 {
            let p = first_ge_exec(&r, self.view.scroll);
            self.search.current = p;
            self.view.scroll = r[p];
        }
        self.search.results = r;
    }

    fn search_erased_exec(&mut self, lines: &Vec<String>)
        ensures
            final(self).model() == search_erased(old(self).model(), string_views(lines@)),
    {
        let q = pop_char(&self.search.query);
        let r = perform_search(lines.as_slice(), q.as_str());
        self.search.query = q;
        self.search.results = r;
    }

    fn toc_key_exec(&mut self, key: Key, toc_len: usize) -> (handled: bool)
        ensures
            handled == toc_key(old(self).model(), key, toc_len as int) is Some,
            handled ==> final(self).model() == toc_key(old(self).model(), key, toc_len as int)->0,
            !handled ==> final(self).model() == old(self).model(),
    {
        let last = if toc_len > 0 {
            toc_len - 1
        } else {
            0
        };
        let i = self.popups.toc_index;
        if key == Key::Char('q') {
            self.popups.show_toc = false;
        } else if key == Key::Down || key == Key::Char('j') {
            if toc_len > 0 {
                self.popups.toc_index = if i < toc_len - 1 {
                    i + 1
                } else {
                    toc_len - 1
                };
            }
        } else if key == Key::Up || key == Key::Char('k') {
            self.popups.toc_index = if i > 0 {
                i - 1
            } else {
                0
            };
        } else if key == Key::Home {
            self.popups.toc_index = 0;
        } else if key == Key::End {
            self.popups.toc_index = last;
        } else if key == Key::PageUp || key == Key::Left {
            self.popups.toc_index = if i >= 10 {
                i - 10
            } else {
                0
            };
        } else if key == Key::PageDown || key == Key::Right {
            self.popups.toc_index = if i < last && last - i >= 10 {
                i + 10
            } else {
                last
            };
        } else {
            return false;
        }
        true
    }

    fn scroll_key_exec(&mut self, key: Key, n_lines: usize, vh: usize) -> (handled: bool)
        ensures
            handled == scroll_key(old(self).model(), key, n_lines as int, vh as int) is Some,
            handled ==> final(self).model() == scroll_key(old(self).model(), key, n_lines as int, vh as int)->0,
            !handled ==> final(self).model() == old(self).model(),
    {
        let s = self.view.scroll;
        let bottom = if n_lines >= vh {
            n_lines - vh
        } else {
            0
        };
        if key == Key::Down || key == Key::Char('j') {
            if n_lines > 0 && s < n_lines - 1 {
                self.view.scroll = s + 1;
            }
        } else if key == Key::Up || key == Key::Char('k') {
            if s > 0 {
                self.view.scroll = s - 1;
            }
        } else if key == Key::Left || key == Key::PageUp {
            self.view.scroll = if s >= vh {
                s - vh
            } else {
                0
            };
        } else if key == Key::Right || key == Key::PageDown || key == Key::Char(' ') {
            self.view.scroll = if s < bottom && bottom - s >= vh {
                s + vh
            } else {
                bottom
            };
        } else if key == Key::Home {
            self.view.scroll = 0;
        } else if key == Key::End {
            self.view.scroll = bottom;
        } else {
            return false;
        }
        true
    }

    fn result_step_exec(&mut self, forward: bool)
        requires
            old(self).search.results.len() > 0,
        ensures
            final(self).model() == result_step(old(self).model(), forward),
    {
        let len = self.search.results.len();
        let i = self.search.current;
        let j = if forward {
            (i % len + 1) % len
        } else if i == 0 || i > len {
            len - 1
        } else {
            i - 1
        };
        proof {
            if forward {
                let li = len as int;
                let ii = i as int;
                assert((ii % li + 1) % li == (ii + 1) % li) by (nonlinear_arith)
                    requires
                        li > 0,
                        ii >= 0,
                ;
            }
        }
        self.search.current = j;
        self.view.scroll = self.search.results[j];
    }

    fn width_exec(&mut self, narrower: bool)
        ensures
            final(self).model() == width_changed(old(self).model(), narrower),
    {
        let w = self.view.width;
        self.view.width = if narrower {
            let d = if w >= 5 {
                w - 5
            } else {
                0
            };
            if d < 30 {
                30
            } else {
                d
            }
        } else {
            if w <= 95 {
                w + 5
            } else {
                100
            }
        };
        self.view.width_cache = 0;
    }

    fn footnote_exec(&mut self, lines: &Vec<String>, notes: &Vec<FootnoteInfo>, vh: usize)
        ensures
            ({
                let m = old(self).model();
                let screen = screen_list(
                    string_views(lines@),
                    m.view.scroll as int,
                    screen_end(m.view.scroll as int, vh as int, lines.len() as int),
                    note_numbers(notes@),
                );
                final(self).model() == if notes.len() > 0 && screen.len() > 0 {
                    footnote_shown(m, notes@, screen)
                } else {
                    m
                }
            }),
    {
        let ghost m = self.model();
        if notes.len() == 0 {
            return;
        }
        let from = self.view.scroll;
        let to = screen_end_exec(from, vh, lines.len());
        let ghost lv = string_views(lines@);
        let ghost nums = note_numbers(notes@);
        let screen = if from <= to {
            screen_footnotes(lines, from, to, notes)
        } else {
            assert(window_refs(lv, from as int, to as int) =~= Seq::<usize>::empty());
            Vec::new()
        };
        proof {
            let c = screen_list(lv, from as int, to as int, nums);
            assert(is_screen_list(screen@, lv, from as int, to as int, nums));
            assert(is_screen_list(c, lv, from as int, to as int, nums));
            assert forall|n: usize| #[trigger] screen@.contains(n) <==> c.contains(n) by {
                assert(screen@.contains(n) <==> (window_refs(lv, from as int, to as int).contains(n)
                    && nums.contains(n)));
                assert(c.contains(n) <==> (window_refs(lv, from as int, to as int).contains(n)
                    && nums.contains(n)));
            }
            lemma_sorted_unique(screen@, c);
        }
        if screen.len() == 0 {
            return;
        }
        let target = next_note_exec(&screen, self.footnote.number);
        let idx = find_note(notes, target, 0);
        let text = note_text_exec(&notes[idx]);
        self.footnote.text = text;
        self.footnote.scroll = 0;
        self.footnote.line_count = 0;
        self.footnote.number = Some(target);
        self.footnote.list = screen;
        self.footnote.show = true;
    }
}

} // verus!

verus! {

impl ReaderState {
    fn theme_exec(&mut self)
        ensures
            final(self).model() == theme_changed(old(self).model()),
    {
        let t = self.settings.theme_color.next();
        self.settings.theme_color = t;
        if self.settings.popup_border_color != ThemeColor::White {
            self.settings.popup_border_color = t;
        }
    }

    fn keys_a_exec(&mut self, key: Key) -> (res: Option<Action>)
        ensures
            match reader_keys_a(old(self).model(), key) {
                Some(r) => res == Some(r.1) && final(self).model() == r.0,
                None => res is None && final(self).model() == old(self).model(),
            },
    {
        let searching = self.search.is_searching;
        let no_popup = !self.popups.show_toc && !self.popups.show_help && !self.popups.show_info;
        if key == Key::Char('q') && no_popup && !searching {
            self.view.should_quit = true;
            return Some(Action::Quit);
        }
        if (key == Key::Esc || key == Key::Char('q')) && searching {
            self.search.is_searching = false;
            self.search.query = empty_string();
            self.search.results = Vec::new();
            return Some(Action::Nothing);
        }
        if key == Key::Esc && !searching && !self.search.query.as_str().is_empty() && no_popup {
            self.search.query = empty_string();
            self.search.results = Vec::new();
            self.search.current = 0;
            return Some(Action::Nothing);
        }
        if key == Key::Char('L') && !searching {
            self.view.state = AppState::Library;
            self.popups.sort_mode = SortMode::Title;
            return Some(Action::ShowLibrary);
        }
        if key == Key::Char('o') {
            self.view.state = AppState::Config;
            self.popups.config_index = 0;
            return Some(Action::Nothing);
        }
        if key == Key::Char('/') && !searching {
            self.search.is_searching = true;
            self.search.query = empty_string();
            return Some(Action::Nothing);
        }
        None
    }

    fn keys_b_exec(&mut self, key: Key, toc: &Vec<(String, usize)>) -> (handled: bool)
        ensures
            match reader_keys_b(old(self).model(), key, toc_view(toc@)) {
                Some(r) => handled && final(self).model() == r,
                None => !handled && final(self).model() == old(self).model(),
            },
    {
        if key == Key::Char('?') {
            self.popups.show_help = !self.popups.show_help;
            self.popups.library_index = 0;
            self.popups.show_info = false;
            self.popups.show_toc = false;
            return true;
        }
        if (key == Key::Down || key == Key::Char('j')) && self.popups.show_help {
            if self.popups.library_index < 15 {
                self.popups.library_index = self.popups.library_index + 1;
            }
            return true;
        }
        if (key == Key::Up || key == Key::Char('k')) && self.popups.show_help {
            if self.popups.library_index > 0 {
                self.popups.library_index = self.popups.library_index - 1;
            }
            return true;
        }
        if key == Key::Char('i') {
            self.popups.show_info = !self.popups.show_info;
            self.popups.show_toc = false;
            return true;
        }
        if key == Key::Char('t') {
            self.popups.show_toc = !self.popups.show_toc;
            self.popups.show_info = false;
            return true;
        }
        if key == Key::Enter && self.popups.show_toc {
            let i = self.popups.toc_index;
            if i < toc.len() {
                self.view.scroll = toc[i].1;
                self.popups.show_toc = false;
            }
            return true;
        }
        if self.popups.show_toc {
            return self.toc_key_exec(key, toc.len());
        }
        false
    }

    fn keys_c_exec(&mut self, key: Key, lines: &Vec<String>, notes: &Vec<FootnoteInfo>, vh: usize) -> (res:
        Action)
        ensures
            (final(self).model(), res) == reader_keys_c(
                old(self).model(),
                key,
                string_views(lines@),
                notes@,
                vh as int,
            ),
    {
        let no_popup = !self.popups.show_toc && !self.popups.show_help && !self.popups.show_info;
        if key == Key::Char('n') && self.search.results.len() > 0 {
            self.result_step_exec(true);
            return Action::Nothing;
        }
        if key == Key::Char('N') && self.search.results.len() > 0 {
            self.result_step_exec(false);
            return Action::Nothing;
        }
        if no_popup {
            if self.scroll_key_exec(key, lines.len(), vh) {
                return Action::Nothing;
            }
        }
        if key == Key::Char('c') {
            self.theme_exec();
            return Action::SaveLibrary;
        }
        if key == Key::Char('f') || key == Key::Char('а') {
            self.footnote_exec(lines, notes, vh);
            return Action::Nothing;
        }
        if key == Key::Char('m') {
            return Action::AddBookmark(self.view.scroll);
        }
        if key == Key::Char('M') {
            self.view.state = AppState::Bookmarks;
            return Action::Nothing;
        }
        if key == Key::Char('+') || key == Key::Char('=') || key == Key::Char('-') {
            self.width_exec(key == Key::Char('-'));
            return Action::Nothing;
        }
        if (key == Key::Esc || key == Key::Char('q')) && (self.popups.show_help
            || self.popups.show_info || self.popups.show_toc) {
            self.popups.show_help = false;
            self.popups.show_info = false;
            self.popups.show_toc = false;
        }
        Action::Nothing
    }

    fn reader_main_key_exec(
        &mut self,
        key: Key,
        lines: &Vec<String>,
        toc: &Vec<(String, usize)>,
        notes: &Vec<FootnoteInfo>,
        vh: usize,
    ) -> (res: Action)
        ensures
            (final(self).model(), res) == reader_main_key(
                old(self).model(),
                key,
                string_views(lines@),
                toc_view(toc@),
                notes@,
                vh as int,
            ),
    {
        if let Some(a) = self.keys_a_exec(key) {
            return a;
        }
        if self.keys_b_exec(key, toc) {
            return Action::Nothing;
        }
        self.keys_c_exec(key, lines, notes, vh)
    }
}

/// Handles a key on the reader screen.  `lines` and `toc` are the laid-out
/// book, `notes` its footnotes and `view_height` the number of text lines
/// on screen.
pub fn handle_reader_key(
    st: &mut ReaderState,
    key: Key,
    lines: &Vec<String>,
    toc: &Vec<(String, usize)>,
    notes: &Vec<FootnoteInfo>,
    view_height: usize,
) -> (res: Action)
    ensures
        (final(st).model(), res) == reader_key(
            old(st).model(),
            key,
            string_views(lines@),
            toc_view(toc@),
            notes@,
            view_height as int,
        ),
{
    if st.search.is_searching && st.view.state == AppState::Reader {
        match key {
            Key::Char(c) => {
                st.search_typed_exec(c, lines);
                return Action::Nothing;
            },
            Key::Backspace => {
                st.search_erased_exec(lines);
                return Action::Nothing;
            },
            Key::Enter => {
                st.search.is_searching = false;
                return Action::Nothing;
            },
            _ => {},
        }
    }
    st.reader_main_key_exec(key, lines, toc, notes, view_height)
}

} // verus!

verus! {

// ---------------------------------------------------------------------------
// The footnote pop-up
// ---------------------------------------------------------------------------

/// Closing the footnote pop-up.
pub open spec fn footnote_closed(m: ReaderModel) -> ReaderModel {
    ReaderModel {
        footnote: FootnoteModel { show: false, text: seq![], line_count: 0, scroll: 0, ..m.footnote },
        ..m
    }
}

/// A key while the footnote pop-up is open: `j` and `k` scroll it within
/// its lines, every other key closes it.
pub open spec fn footnote_key(m: ReaderModel, key: Key) -> ReaderModel {
    let f = m.footnote;
    if is_down(key) {
        if f.scroll < sat_sub(f.line_count as int, f.visible_height as int) {
            ReaderModel { footnote: FootnoteModel { scroll: (f.scroll + 1) as usize, ..f }, ..m }
        } else {
            m
        }
    } else if is_up(key) {
        ReaderModel { footnote: FootnoteModel { scroll: sat_sub(f.scroll as int, 1) as usize, ..f }, ..m }
    } else {
        footnote_closed(m)
    }
}

/// Closes the footnote pop-up.
pub fn close_footnote(st: &mut ReaderState)
    ensures
        final(st).model() == footnote_closed(old(st).model()),
{
    st.footnote.show = false;
    st.footnote.text = empty_string();
    st.footnote.line_count = 0;
    st.footnote.scroll = 0;
}

fn footnote_key_exec(st: &mut ReaderState, key: Key)
    ensures
        final(st).model() == footnote_key(old(st).model(), key),
{
    if key == Key::Down || key == Key::Char('j') {
        let f = &st.footnote;
        let max = if f.line_count >= f.visible_height {
            f.line_count - f.visible_height
        } else {
            0
        };
        if st.footnote.scroll < max {
            st.footnote.scroll = st.footnote.scroll + 1;
        }
    } else if key == Key::Up || key == Key::Char('k') {
        if st.footnote.scroll > 0 {
            st.footnote.scroll = st.footnote.scroll - 1;
        }
    } else {
        close_footnote(st);
    }
}

// ---------------------------------------------------------------------------
// The library screen
// ---------------------------------------------------------------------------

/// A key on the library screen; `n_results` is the number of books listed.
pub open spec fn library_key(m: ReaderModel, key: Key, n_results: int) -> (ReaderModel, Action) {
    let p = m.popups;
    let inp = m.input;
    let searching = m.search.is_searching;
    let last = sat_sub(n_results, 1);
    if is_char(key, 'q') && !searching {
        (
            ReaderModel {
                input: InputModel { library_query: seq![], ..inp },
                view: Position { state: AppState::Reader, ..m.view },
                ..m
            },
            Action::Nothing,
        )
    } else if key == Key::Esc && searching {
        (
            ReaderModel {
                search: SearchModel { is_searching: false, ..m.search },
                input: InputModel { library_query: seq![], ..inp },
                ..m
            },
            Action::Nothing,
        )
    } else if is_char(key, '/') && !searching {
        (
            ReaderModel {
                search: SearchModel { is_searching: true, ..m.search },
                input: InputModel { library_query: seq![], ..inp },
                ..m
            },
            Action::Nothing,
        )
    } else if key is Char && searching {
        (
            ReaderModel {
                input: InputModel { library_query: inp.library_query.push(key->Char_0), ..inp },
                popups: Popups { library_index: 0, ..p },
                ..m
            },
            Action::Nothing,
        )
    } else if key == Key::Backspace && searching {
        (
            ReaderModel { input: InputModel { library_query: popped(inp.library_query), ..inp }, ..m },
            Action::Nothing,
        )
    } else if key == Key::Enter && searching {
        (ReaderModel { search: SearchModel { is_searching: false, ..m.search }, ..m }, Action::Nothing)
    } else if is_char(key, 's') {
        (with_popups(m, Popups { sort_mode: p.sort_mode.next_spec(), ..p }), Action::SortLibrary)
    } else if key == Key::Home {
        (with_popups(m, Popups { library_index: 0, ..p }), Action::Nothing)
    } else if key == Key::End {
        (with_popups(m, Popups { library_index: last as usize, ..p }), Action::Nothing)
    } else if key == Key::PageUp || key == Key::Left {
        (with_popups(m, Popups { library_index: sat_sub(p.library_index as int, 10) as usize, ..p }), Action::Nothing)
    } else if key == Key::PageDown || key == Key::Right {
        (with_popups(m, Popups { library_index: min(p.library_index + 10, last) as usize, ..p }), Action::Nothing)
    } else if is_up(key) {
        (with_popups(m, Popups { library_index: sat_sub(p.library_index as int, 1) as usize, ..p }), Action::Nothing)
    } else if is_down(key) {
        (
            if n_results > 0 {
                with_popups(m, Popups { library_index: min(p.library_index + 1, last) as usize, ..p })
            } else {
                m
            },
            Action::Nothing,
        )
    } else if key == Key::Enter && !searching {
        (m, Action::OpenSelected)
    } else {
        (m, Action::Nothing)
    }
}

fn library_move(st: &mut ReaderState, key: Key, n: usize) -> (handled: bool)
    requires
        !(old(st).search.is_searching && key is Char),
    ensures
        handled == (key == Key::Home || key == Key::End || key == Key::PageUp || key == Key::Left
            || key == Key::PageDown || key == Key::Right || is_up(key) || is_down(key)),
        handled ==> (final(st).model(), Action::Nothing) == library_key(old(st).model(), key, n as int),
        !handled ==> final(st).model() == old(st).model(),
{
    let last = if n > 0 {
        n - 1
    } else {
        0
    };
    let i = st.popups.library_index;
    if key == Key::Home {
        st.popups.library_index = 0;
    } else if key == Key::End {
        st.popups.library_index = last;
    } else if key == Key::PageUp || key == Key::Left {
        st.popups.library_index = if i >= 10 {
            i - 10
        } else {
            0
        };
    } else if key == Key::PageDown || key == Key::Right {
        st.popups.library_index = if i < last && last - i >= 10 {
            i + 10
        } else {
            last
        };
    } else if key == Key::Up || key == Key::Char('k') {
        st.popups.library_index = if i > 0 {
            i - 1
        } else {
            0
        };
    } else if key == Key::Down || key == Key::Char('j') {
        if n > 0 {
            st.popups.library_index = if i < last {
                i + 1
            } else {
                last
            };
        }
    } else {
        return false;
    }
    true
}

/// Handles a key on the library screen; `n_results` is the number of books
/// listed.
pub fn handle_library_key(st: &mut ReaderState, key: Key, n_results: usize) -> (res: Action)
    ensures
        (final(st).model(), res) == library_key(old(st).model(), key, n_results as int),
{
    let searching = st.search.is_searching;
    if key == Key::Char('q') && !searching {
        st.input.library_query = empty_string();
        st.view.state = AppState::Reader;
        return Action::Nothing;
    }
    if key == Key::Esc && searching {
        st.search.is_searching = false;
        st.input.library_query = empty_string();
        return Action::Nothing;
    }
    if key == Key::Char('/') && !searching {
        st.search.is_searching = true;
        st.input.library_query = empty_string();
        return Action::Nothing;
    }
    if searching {
        if let Key::Char(c) = key {
            st.input.library_query = push_char(&st.input.library_query, c);
            st.popups.library_index = 0;
            return Action::Nothing;
        }
    }
    if key == Key::Backspace && searching {
        st.input.library_query = pop_char(&st.input.library_query);
        return Action::Nothing;
    }
    if key == Key::Enter && searching {
        st.search.is_searching = false;
        return Action::Nothing;
    }
    if key == Key::Char('s') {
        st.popups.sort_mode = st.popups.sort_mode.next();
        return Action::SortLibrary;
    }
    if library_move(st, key, n_results) {
        return Action::Nothing;
    }
    if key == Key::Enter && !searching {
        return Action::OpenSelected;
    }
    Action::Nothing
}

/// The reader after a book was opened from the library at `position` (its
/// stored reading position): pop-ups, search and footnote closed.
pub open spec fn book_opened(m: ReaderModel, position: usize) -> ReaderModel {
    let c = footnote_closed(m);
    ReaderModel {
        search: SearchModel { query: seq![], results: seq![], is_searching: false, ..c.search },
        popups: Popups { show_info: false, show_toc: false, show_help: false, ..c.popups },
        view: Position { scroll: position, state: AppState::Reader, ..c.view },
        ..c
    }
}

/// Resets the reader for a book opened from the library.
pub fn open_book_at(st: &mut ReaderState, position: usize)
    ensures
        final(st).model() == book_opened(old(st).model(), position),
{
    close_footnote(st);
    st.search.query = empty_string();
    st.search.results = Vec::new();
    st.search.is_searching = false;
    st.popups.show_info = false;
    st.popups.show_toc = false;
    st.popups.show_help = false;
    st.view.scroll = position;
    st.view.state = AppState::Reader;
}

} // verus!

verus! {

// ---------------------------------------------------------------------------
// The settings screen
// ---------------------------------------------------------------------------

/// Choosing the settings entry `config_index`.
pub open spec fn settings_enter(m: ReaderModel) -> (ReaderModel, Action) {
    let st = m.settings;
    let inp = m.input;
    let i = m.popups.config_index;
    if i == 0 {
        (
            ReaderModel {
                view: Position { state: AppState::InputPath, ..m.view },
                input: InputModel { buffer: seq![], ..inp },
                ..m
            },
            Action::Nothing,
        )
    } else if i == 1 {
        (
            ReaderModel {
                search: SearchModel { is_searching: false, ..m.search },
                view: Position { state: AppState::Scanning, ..m.view },
                ..m
            },
            Action::Scan,
        )
    } else if i == 2 {
        (m, Action::ClearLibrary)
    } else if i == 3 {
        (m, Action::SaveLibrary)
    } else if i == 4 {
        (
            ReaderModel {
                view: Position { state: AppState::InputUrl, ..m.view },
                input: InputModel { buffer: seq![], ..inp },
                ..m
            },
            Action::Nothing,
        )
    } else if i == 5 {
        (ReaderModel { settings: Settings { language: st.language.toggled(), ..st }, ..m }, Action::ReloadBook)
    } else if i == 6 {
        (
            ReaderModel {
                settings: Settings {
                    popup_border_color: popup_toggled(st.theme_color, st.popup_border_color),
                    ..st
                },
                ..m
            },
            Action::SaveLibrary,
        )
    } else if i == 7 {
        (ReaderModel { settings: Settings { main_border: st.main_border.next_spec(), ..st }, ..m }, Action::SaveLibrary)
    } else if i == 8 {
        (ReaderModel { settings: Settings { popup_border: st.popup_border.next_spec(), ..st }, ..m }, Action::SaveLibrary)
    } else if i == 9 {
        (with_view(m, Position { state: AppState::Reader, ..m.view }), Action::Nothing)
    } else {
        (m, Action::Nothing)
    }
}

/// A key on the settings screen.
pub open spec fn config_key(m: ReaderModel, key: Key) -> (ReaderModel, Action) {
    let p = m.popups;
    if key == Key::Esc || is_char(key, 'q') {
        (with_view(m, Position { state: AppState::Reader, ..m.view }), Action::Nothing)
    } else if is_up(key) {
        (with_popups(m, Popups { config_index: sat_sub(p.config_index as int, 1) as usize, ..p }), Action::Nothing)
    } else if is_down(key) {
        (
            if p.config_index < 9 {
                with_popups(m, Popups { config_index: (p.config_index + 1) as usize, ..p })
            } else {
                m
            },
            Action::Nothing,
        )
    } else if key == Key::Enter {
        settings_enter(m)
    } else {
        (m, Action::Nothing)
    }
}

fn settings_enter_exec(st: &mut ReaderState) -> (res: Action)
    ensures
        (final(st).model(), res) == settings_enter(old(st).model()),
{
    let i = st.popups.config_index;
    if i == 0 {
        st.view.state = AppState::InputPath;
        st.input.buffer = empty_string();
        Action::Nothing
    } else if i == 1 {
        st.search.is_searching = false;
        st.view.state = AppState::Scanning;
        Action::Scan
    } else if i == 2 {
        Action::ClearLibrary
    } else if i == 3 {
        Action::SaveLibrary
    } else if i == 4 {
        st.view.state = AppState::InputUrl;
        st.input.buffer = empty_string();
        Action::Nothing
    } else if i == 5 {
        st.settings.language = st.settings.language.toggle();
        Action::ReloadBook
    } else if i == 6 {
        st.settings.popup_border_color = if st.settings.popup_border_color == ThemeColor::White {
            st.settings.theme_color
        } else {
            ThemeColor::White
        };
        Action::SaveLibrary
    } else if i == 7 {
        st.settings.main_border = st.settings.main_border.next();
        Action::SaveLibrary
    } else if i == 8 {
        st.settings.popup_border = st.settings.popup_border.next();
        Action::SaveLibrary
    } else if i == 9 {
        st.view.state = AppState::Reader;
        Action::Nothing
    } else {
        Action::Nothing
    }
}

/// Handles a key on the settings screen.
pub fn handle_config_key(st: &mut ReaderState, key: Key) -> (res: Action)
    ensures
        (final(st).model(), res) == config_key(old(st).model(), key),
{
    if key == Key::Esc || key == Key::Char('q') {
        st.view.state = AppState::Reader;
        Action::Nothing
    } else if key == Key::Up || key == Key::Char('k') {
        if st.popups.config_index > 0 {
            st.popups.config_index = st.popups.config_index - 1;
        }
        Action::Nothing
    } else if key == Key::Down || key == Key::Char('j') {
        if st.popups.config_index < 9 {
            st.popups.config_index = st.popups.config_index + 1;
        }
        Action::Nothing
    } else if key == Key::Enter {
        settings_enter_exec(st)
    } else {
        Action::Nothing
    }
}

/// The settings screen once the library folders were scanned.
pub fn scan_finished(st: &mut ReaderState)
    ensures
        final(st).model() == with_view(old(st).model(), Position { state: AppState::Config, ..old(st).view }),
{
    st.view.state = AppState::Config;
}

// ---------------------------------------------------------------------------
// The bookmarks screen
// ---------------------------------------------------------------------------

/// A key on the bookmarks screen of a book with the bookmarks `marks`
/// (`has_book` is false when the library has no entry for the book).
/// Returns the new state, the new bookmarks and the action.
pub open spec fn bookmarks_key(m: ReaderModel, key: Key, marks: Seq<usize>, has_book: bool) -> (
    ReaderModel,
    Seq<usize>,
    Action,
) {
    let p = m.popups;
    let i = p.library_index as int;
    if key == Key::Esc || is_char(key, 'q') || is_char(key, 'M') {
        (with_view(m, Position { state: AppState::Reader, ..m.view }), marks, Action::Nothing)
    } else if is_up(key) {
        (with_popups(m, Popups { library_index: sat_sub(i, 1) as usize, ..p }), marks, Action::Nothing)
    } else if is_down(key) {
        (
            if has_book && marks.len() > 0 {
                with_popups(m, Popups { library_index: min(i + 1, marks.len() - 1) as usize, ..p })
            } else {
                m
            },
            marks,
            Action::Nothing,
        )
    } else if key == Key::Enter {
        (
            if has_book && i < marks.len() {
                with_view(m, Position { scroll: marks[i], state: AppState::Reader, ..m.view })
            } else {
                m
            },
            marks,
            Action::Nothing,
        )
    } else if is_char(key, 'd') || key == Key::Delete {
        if has_book && marks.len() > 0 && i < marks.len() {
            let rest = marks.remove(i);
            (
                with_popups(m, Popups { library_index: min(i, sat_sub(rest.len() as int, 1)) as usize, ..p }),
                rest,
                Action::SaveLibrary,
            )
        } else {
            (m, marks, Action::Nothing)
        }
    } else {
        (m, marks, Action::Nothing)
    }
}

/// Handles a key on the bookmarks screen; `marks` are the bookmarks of the
/// open book (empty, with `has_book` false, when the library has no entry
/// for it).
pub fn handle_bookmarks_key(st: &mut ReaderState, key: Key, marks: &mut Vec<usize>, has_book: bool) -> (res:
    Action)
    ensures
        (final(st).model(), final(marks)@, res) == bookmarks_key(old(st).model(), key, old(marks)@, has_book),
{
    let i = st.popups.library_index;
    if key == Key::Esc || key == Key::Char('q') || key == Key::Char('M') {
        st.view.state = AppState::Reader;
        Action::Nothing
    } else if key == Key::Up || key == Key::Char('k') {
        st.popups.library_index = if i > 0 {
            i - 1
        } else {
            0
        };
        Action::Nothing
    } else if key == Key::Down || key == Key::Char('j') {
        if has_book && marks.len() > 0 {
            let last = marks.len() - 1;
            st.popups.library_index = if i < last {
                i + 1
            } else {
                last
            };
        }
        Action::Nothing
    } else if key == Key::Enter {
        if has_book && i < marks.len() {
            st.view.scroll = marks[i];
            st.view.state = AppState::Reader;
        }
        Action::Nothing
    } else if key == Key::Char('d') || key == Key::Delete {
        if has_book && marks.len() > 0 && i < marks.len() {
            let sel = remove_bookmark(marks, i);
            st.popups.library_index = sel;
            Action::SaveLibrary
        } else {
            Action::Nothing
        }
    } else {
        Action::Nothing
    }
}

} // verus!

verus! {

// ---------------------------------------------------------------------------
// The prompts
// ---------------------------------------------------------------------------

/// Whether the prompt holds an error message, which the next typed
/// character replaces.
pub open spec fn shows_error(s: Seq<char>) -> bool {
    starts_with(s, "ОШИБКА"@) || starts_with(s, "ERROR"@) || starts_with(s, "Ошибка"@) || starts_with(
        s,
        "Error"@,
    )
}

/// A key in the folder or URL prompt.  Enter asks to check the folder or
/// to download the URL that was typed (leading and trailing whitespace
/// removed), when it is not empty.
pub open spec fn input_key(m: ReaderModel, key: Key) -> (ReaderModel, Option<Seq<char>>) {
    let inp = m.input;
    if key == Key::Enter {
        (m, if trim(inp.buffer).len() > 0 && (m.view.state == AppState::InputPath || m.view.state
            == AppState::InputUrl) {
            Some(trim(inp.buffer))
        } else {
            None
        })
    } else if key == Key::Esc || is_char(key, 'q') {
        (
            ReaderModel {
                view: Position { state: AppState::Config, ..m.view },
                input: InputModel { buffer: seq![], ..inp },
                ..m
            },
            None,
        )
    } else if key == Key::Backspace {
        (ReaderModel { input: InputModel { buffer: popped(inp.buffer), ..inp }, ..m }, None)
    } else if key is Char {
        let base = if shows_error(inp.buffer) {
            seq![]
        } else {
            inp.buffer
        };
        (ReaderModel { input: InputModel { buffer: base.push(key->Char_0), ..inp }, ..m }, None)
    } else {
        (m, None)
    }
}

fn shows_error_exec(s: &String) -> (res: bool)
    ensures
        res == shows_error(s@),
{
    let c = str_chars(s.as_str());
    starts_with_chars(&c, &str_chars("ОШИБКА")) || starts_with_chars(&c, &str_chars("ERROR"))
        || starts_with_chars(&c, &str_chars("Ошибка")) || starts_with_chars(&c, &str_chars("Error"))
}

/// Handles a key in the folder or URL prompt.  On Enter with a non-empty
/// entry the action asks to check the folder (`SetScanPath`) or to download
/// the URL (`Download`).
pub fn handle_input_key(st: &mut ReaderState, key: Key) -> (res: Action)
    ensures
        ({
            let (m2, req) = input_key(old(st).model(), key);
            &&& final(st).model() == m2
            &&& match req {
                Some(t) => if old(st).view.state == AppState::InputPath {
                    res matches Action::SetScanPath(p) && p@ == t
                } else {
                    res matches Action::Download(u) && u@ == t
                },
                None => res == Action::Nothing,
            }
        }),
{
    if key == Key::Enter {
        let c = str_chars(st.input.buffer.as_str());
        let t = trim_chars(&c);
        if t.len() > 0 {
            if st.view.state == AppState::InputPath {
                return Action::SetScanPath(chars_to_string(&t));
            } else if st.view.state == AppState::InputUrl {
                return Action::Download(chars_to_string(&t));
            }
        }
        return Action::Nothing;
    }
    if key == Key::Esc || key == Key::Char('q') {
        st.view.state = AppState::Config;
        st.input.buffer = empty_string();
        return Action::Nothing;
    }
    if key == Key::Backspace {
        st.input.buffer = pop_char(&st.input.buffer);
        return Action::Nothing;
    }
    if let Key::Char(ch) = key {
        if shows_error_exec(&st.input.buffer) {
            st.input.buffer = empty_string();
        }
        st.input.buffer = push_char(&st.input.buffer, ch);
    }
    Action::Nothing
}

/// A folder path with a leading `~` replaced by the home folder, when it is
/// known.
pub open spec fn home_expanded(path: Seq<char>, home: Option<Seq<char>>) -> Seq<char> {
    if path.len() > 0 && path[0] == '~' && home is Some {
        home->0 + path.drop_first()
    } else {
        path
    }
}

/// Replaces a leading `~` of a folder path by the home folder.
pub fn expand_home(path: &str, home: Option<String>) -> (res: String)
    ensures
        res@ == home_expanded(path@, crate::fb2_builder::opt_view(home)),
{
    let c = str_chars(path);
    if c.len() > 0 && c[0] == '~' {
        match home {
            Some(h) => {
                let mut r = str_chars(h.as_str());
                let rest = sub_chars(&c, 1, c.len());
                push_all(&mut r, &rest);
                assert(rest@ =~= c@.drop_first());
                return chars_to_string(&r);
            },
            None => {},
        }
    }
    chars_to_string(&c)
}

/// The settings screen after the folder typed in the prompt became the
/// library folder.
pub fn path_accepted(st: &mut ReaderState)
    ensures
        final(st).model() == (ReaderModel {
            view: Position { state: AppState::Config, ..old(st).view },
            input: InputModel { buffer: seq![], ..old(st).model().input },
            ..old(st).model()
        }),
{
    st.view.state = AppState::Config;
    st.input.buffer = empty_string();
}

/// The prompt after the typed folder turned out not to be one: it shows
/// the error message of the interface language.
pub fn path_rejected(st: &mut ReaderState)
    ensures
        final(st).model() == (ReaderModel {
            input: InputModel {
                buffer: t_spec(old(st).settings.language, "input_path_error"@),
                ..old(st).model().input
            },
            ..old(st).model()
        }),
{
    st.input.buffer = I18n::t(st.settings.language, "input_path_error");
}

/// The reader after a downloaded book was opened: at its start, with the
/// footnote pop-up closed.
pub fn download_succeeded(st: &mut ReaderState)
    ensures
        final(st).model() == ({
            let c = footnote_closed(old(st).model());
            ReaderModel {
                view: Position { scroll: 0, state: AppState::Reader, ..c.view },
                input: InputModel { buffer: seq![], ..c.input },
                ..c
            }
        }),
{
    st.view.scroll = 0;
    close_footnote(st);
    st.view.state = AppState::Reader;
    st.input.buffer = empty_string();
}

/// The prompt after a failed download: `Ошибка: ` and the reason.
pub fn download_failed(st: &mut ReaderState, reason: &str)
    ensures
        final(st).model() == (ReaderModel {
            input: InputModel { buffer: "Ошибка: "@ + reason@, ..old(st).model().input },
            ..old(st).model()
        }),
{
    let mut c = str_chars("Ошибка: ");
    let r = str_chars(reason);
    push_all(&mut c, &r);
    st.input.buffer = chars_to_string(&c);
}

// ---------------------------------------------------------------------------
// Any key
// ---------------------------------------------------------------------------

/// A key press: the footnote pop-up, when open, takes it; otherwise the
/// screen shown does.  Returns the new state, the new bookmarks of the open
/// book and the action; a prompt's request comes back as the action
/// `SetScanPath` or `Download`.
pub open spec fn key_event(
    m: ReaderModel,
    key: Key,
    lines: Seq<Seq<char>>,
    toc: Seq<(Seq<char>, int)>,
    notes: Seq<FootnoteInfo>,
    vh: int,
    n_results: int,
    marks: Seq<usize>,
    has_book: bool,
) -> (ReaderModel, Seq<usize>, Action) {
    if m.footnote.show {
        (footnote_key(m, key), marks, Action::Nothing)
    } else {
        match m.view.state {
            AppState::Library => {
                let r = library_key(m, key, n_results);
                (r.0, marks, r.1)
            },
            AppState::Reader => {
                let r = reader_key(m, key, lines, toc, notes, vh);
                (r.0, marks, r.1)
            },
            AppState::Config => {
                let r = config_key(m, key);
                (r.0, marks, r.1)
            },
            AppState::Bookmarks => bookmarks_key(m, key, marks, has_book),
            AppState::Scanning => (m, marks, Action::Nothing),
            _ => (input_key(m, key).0, marks, Action::Nothing),
        }
    }
}

/// Handles a key press.  The arguments are what the screens need: the
/// laid-out book (`lines`, `toc`), its footnotes, the number of text lines
/// on screen, the number of books listed in the library, and the bookmarks
/// of the open book.  For the prompts, the action carries the request made
/// by Enter (see `handle_input_key`).
pub fn handle_key_event(
    st: &mut ReaderState,
    key: Key,
    lines: &Vec<String>,
    toc: &Vec<(String, usize)>,
    notes: &Vec<FootnoteInfo>,
    view_height: usize,
    n_results: usize,
    marks: &mut Vec<usize>,
    has_book: bool,
) -> (res: Action)
    ensures
        ({
            let r = key_event(
                old(st).model(),
                key,
                string_views(lines@),
                toc_view(toc@),
                notes@,
                view_height as int,
                n_results as int,
                old(marks)@,
                has_book,
            );
            &&& final(st).model() == r.0
            &&& final(marks)@ == r.1
            &&& (!(old(st).view.state == AppState::InputPath || old(st).view.state == AppState::InputUrl)
                || old(st).footnote.show) ==> res == r.2
            &&& (old(st).view.state == AppState::InputPath || old(st).view.state == AppState::InputUrl)
                && !old(st).footnote.show ==> match input_key(old(st).model(), key).1 {
                Some(t) => if old(st).view.state == AppState::InputPath {
                    res matches Action::SetScanPath(p) && p@ == t
                } else {
                    res matches Action::Download(u) && u@ == t
                },
                None => res == Action::Nothing,
            }
        }),
{
    if st.footnote.show {
        footnote_key_exec(st, key);
        return Action::Nothing;
    }
    match st.view.state {
        AppState::Library => handle_library_key(st, key, n_results),
        AppState::Reader => handle_reader_key(st, key, lines, toc, notes, view_height),
        AppState::Config => handle_config_key(st, key),
        AppState::Bookmarks => handle_bookmarks_key(st, key, marks, has_book),
        AppState::Scanning => Action::Nothing,
        _ => handle_input_key(st, key),
    }
}

} // verus!

verus! {

impl ReaderState {
    /// The state when the program starts on `state` at line `scroll`: a
    /// text width of 70%, no pop-up, no search, no prompt text.
    pub fn new(state: AppState, scroll: usize, settings: Settings) -> (res: ReaderState)
        ensures
            res.view == (Position { state, scroll, should_quit: false, width: 70, width_cache: 0 }),
            res.popups == (Popups {
                show_help: false,
                show_info: false,
                show_toc: false,
                toc_index: 0,
                library_index: 0,
                config_index: 0,
                sort_mode: SortMode::Title,
            }),
            res.settings == settings,
            !res.search.is_searching && res.search.query@.len() == 0 && res.search.results@.len() == 0
                && res.search.current == 0,
            !res.footnote.show && res.footnote.scroll == 0 && res.footnote.text@.len() == 0
                && res.footnote.number is None && res.footnote.list@.len() == 0
                && res.footnote.line_count == 0,
            res.input.buffer@.len() == 0 && res.input.library_query@.len() == 0,
    {
        ReaderState {
            view: Position { state, scroll, should_quit: false, width: 70, width_cache: 0 },
            popups: Popups {
                show_help: false,
                show_info: false,
                show_toc: false,
                toc_index: 0,
                library_index: 0,
                config_index: 0,
                sort_mode: SortMode::Title,
            },
            search: Search { is_searching: false, query: empty_string(), results: Vec::new(), current: 0 },
            footnote: Footnote {
                show: false,
                scroll: 0,
                text: empty_string(),
                number: None,
                list: Vec::new(),
                visible_height: 0,
                line_count: 0,
            },
            input: Input { buffer: empty_string(), library_query: empty_string() },
            settings,
        }
    }
}

// ---------------------------------------------------------------------------
// Laws of the reader
// ---------------------------------------------------------------------------

/// Moving through the text keeps the view on a line of the text (or at the
/// top of an empty text), when at least one line fits on screen.
pub proof fn law_scroll_stays_in_text(m: ReaderModel, key: Key, n_lines: int, vh: int)
    requires
        vh >= 1,
        n_lines >= 0,
        m.view.scroll < n_lines || m.view.scroll == 0,
        scroll_key(m, key, n_lines, vh) is Some,
    ensures
        ({
            let s = (scroll_key(m, key, n_lines, vh)->0).view.scroll;
            s < n_lines || s == 0
        }),
{
}

/// Changing the width keeps it between 30 and 100 columns.
pub proof fn law_width_bounds(m: ReaderModel, narrower: bool)
    requires
        30 <= m.view.width <= 100,
    ensures
        30 <= width_changed(m, narrower).view.width <= 100,
{
}

/// Moving in the table of contents keeps the selection on an entry.
pub proof fn law_toc_selection_in_table(m: ReaderModel, key: Key, toc_len: int)
    requires
        toc_len > 0,
        m.popups.toc_index < toc_len,
        toc_key(m, key, toc_len) is Some,
    ensures
        (toc_key(m, key, toc_len)->0).popups.toc_index < toc_len,
{
}

/// `N` undoes `n`: going to the next search result and back returns to the
/// result shown.
pub proof fn law_result_back_and_forth(m: ReaderModel)
    requires
        0 < m.search.results.len() <= usize::MAX,
        m.search.current < m.search.results.len(),
    ensures
        result_step(result_step(m, true), false).search.current == m.search.current,
        result_step(result_step(m, true), false).view.scroll == m.search.results[m.search.current as int],
{
    let len = m.search.results.len() as int;
    let i = m.search.current as int;
    let m1 = result_step(m, true);
    if i + 1 < len {
        assert((i + 1) % len == i + 1) by (nonlinear_arith)
            requires
                0 <= i + 1 < len,
        ;
        assert(m1.search.current == i + 1);
    } else {
        assert((i + 1) % len == 0) by (nonlinear_arith)
            requires
                i + 1 == len,
                len > 0,
        ;
        assert(m1.search.current == 0);
    }
    assert(m1.search.results == m.search.results);
}

/// The search results always point at lines of the text.
pub proof fn law_search_results_in_text(m: ReaderModel, c: char, lines: Seq<Seq<char>>)
    requires
        lines.len() <= usize::MAX,
    ensures
        forall|k: int|
            0 <= k < search_typed(m, c, lines).search.results.len() ==> #[trigger] search_typed(
                m,
                c,
                lines,
            ).search.results[k] < lines.len(),
{
    let q = m.search.query.push(c);
    if q.len() > 0 {
        crate::book::law_search_exact(lines, q);
    }
}

/// The footnote pop-up cycles through the footnotes on screen: after the
/// last it shows the first again, and each is followed by the next.
pub proof fn law_footnote_cycle(screen: Seq<usize>, p: int)
    requires
        strictly_sorted(screen),
        0 <= p < screen.len(),
    ensures
        next_note(screen, Some(screen[p])) == screen[(p + 1) % (screen.len() as int)],
        next_note(screen, None) == screen[0],
{
    assert(screen.contains(screen[p]));
    let q = choose|q: int| 0 <= q < screen.len() && screen[q] == screen[p];
    if q < p {
        assert(screen[q] < screen[p]);
    } else if q > p {
        assert(screen[p] < screen[q]);
    }
}

} // verus!
