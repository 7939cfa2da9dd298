//! The library: the entry kept for each book, the interface settings that
//! are stored with it, and the ordering and filtering of the book list.
use vstd::prelude::*;
use crate::fb2_parser::BookMeta;
use crate::text::{
    chars_to_string, contains, contains_chars, lowercase, str_chars, str_eq, to_lowercase,
};

verus! {

broadcast use {vstd::seq_lib::to_multiset_insert, vstd::seq_lib::to_multiset_build};

// ---------------------------------------------------------------------------
// Settings
// ---------------------------------------------------------------------------

/// The field by which the book list is ordered.
#[derive(Debug, Clone, Copy, PartialEq, Eq, Structural)]
pub enum SortMode {
    Title,
    Author,
    Series,
}

impl SortMode {
    pub open spec fn next_spec(self) -> SortMode {
        match self {
            SortMode::Title => SortMode::Author,
            SortMode::Author => SortMode::Series,
            SortMode::Series => SortMode::Title,
        }
    }

    /// The order that the sort key switches to: title, author, series, and
    /// back to title.
    pub fn next(self) -> (res: SortMode)
        ensures
            res == self.next_spec(),
    {
        match self {
            SortMode::Title => SortMode::Author,
            SortMode::Author => SortMode::Series,
            SortMode::Series => SortMode::Title,
        }
    }
}

/// The frame drawn around the text and around pop-ups.
#[derive(Debug, Clone, Copy, PartialEq, Eq, Structural)]
pub enum BorderStyle {
    Plain,
    Double,
    Rounded,
}

impl Default for BorderStyle {
    fn default() -> (res: Self)
        ensures
            res == BorderStyle::Rounded,
    {
        BorderStyle::Rounded
    }
}

impl BorderStyle {
    pub open spec fn next_spec(self) -> BorderStyle {
        match self {
            BorderStyle::Plain => BorderStyle::Double,
            BorderStyle::Double => BorderStyle::Rounded,
            BorderStyle::Rounded => BorderStyle::Plain,
        }
    }

    /// The next frame in the settings cycle: plain, double, rounded.
    pub fn next(self) -> (res: BorderStyle)
        ensures
            res == self.next_spec(),
    {
        match self {
            BorderStyle::Plain => BorderStyle::Double,
            BorderStyle::Double => BorderStyle::Rounded,
            BorderStyle::Rounded => BorderStyle::Plain,
        }
    }
}

/// The colours the interface can be drawn in.
#[derive(Debug, Clone, Copy, PartialEq, Eq, Structural)]
pub enum ThemeColor {
    Cyan,
    Green,
    Magenta,
    Yellow,
    Red,
    White,
}

impl ThemeColor {
    pub open spec fn next_spec(self) -> ThemeColor {
        match self {
            ThemeColor::Cyan => ThemeColor::Green,
            ThemeColor::Green => ThemeColor::Magenta,
            ThemeColor::Magenta => ThemeColor::Yellow,
            ThemeColor::Yellow => ThemeColor::Red,
            ThemeColor::Red => ThemeColor::White,
            ThemeColor::White => ThemeColor::Cyan,
        }
    }

    /// The next theme colour: cyan, green, magenta, yellow, red, white, and
    /// back to cyan.
    pub fn next(self) -> (res: ThemeColor)
        ensures
            res == self.next_spec(),
    {
        match self {
            ThemeColor::Cyan => ThemeColor::Green,
            ThemeColor::Green => ThemeColor::Magenta,
            ThemeColor::Magenta => ThemeColor::Yellow,
            ThemeColor::Yellow => ThemeColor::Red,
            ThemeColor::Red => ThemeColor::White,
            ThemeColor::White => ThemeColor::Cyan,
        }
    }

    pub open spec fn name_spec(self) -> Seq<char> {
        match self {
            ThemeColor::Cyan => "Cyan"@,
            ThemeColor::Green => "Green"@,
            ThemeColor::Magenta => "Magenta"@,
            ThemeColor::Yellow => "Yellow"@,
            ThemeColor::Red => "Red"@,
            ThemeColor::White => "White"@,
        }
    }

    /// The name under which the colour is stored.
    pub fn name(self) -> (res: &'static str)
        ensures
            res@ == self.name_spec(),
    {
        match self {
            ThemeColor::Cyan => "Cyan",
            ThemeColor::Green => "Green",
            ThemeColor::Magenta => "Magenta",
            ThemeColor::Yellow => "Yellow",
            ThemeColor::Red => "Red",
            ThemeColor::White => "White",
        }
    }

    pub open spec fn from_name_spec(s: Seq<char>) -> ThemeColor {
        if s == "Green"@ {
            ThemeColor::Green
        } else if s == "Magenta"@ {
            ThemeColor::Magenta
        } else if s == "Yellow"@ {
            ThemeColor::Yellow
        } else if s == "Red"@ {
            ThemeColor::Red
        } else if s == "White"@ {
            ThemeColor::White
        } else {
            ThemeColor::Cyan
        }
    }

    /// The colour stored under a name; an unknown name means cyan.
    pub fn from_name(s: &str) -> (res: ThemeColor)
        ensures
            res == ThemeColor::from_name_spec(s@),
    {
        let c = str_chars(s);
        if str_eq("Green", &c) {
            ThemeColor::Green
        } else if str_eq("Magenta", &c) {
            ThemeColor::Magenta
        } else if str_eq("Yellow", &c) {
            ThemeColor::Yellow
        } else if str_eq("Red", &c) {
            ThemeColor::Red
        } else if str_eq("White", &c) {
            ThemeColor::White
        } else {
            ThemeColor::Cyan
        }
    }
}

/// A stored colour name reads back as the same colour.
pub proof fn law_theme_color_roundtrip(c: ThemeColor)
    ensures
        ThemeColor::from_name_spec(c.name_spec()) == c,
{
    reveal_strlit("Cyan");
    reveal_strlit("Green");
    reveal_strlit("Magenta");
    reveal_strlit("Yellow");
    reveal_strlit("Red");
    reveal_strlit("White");
    assert("Cyan"@[0] != "Green"@[0] && "Cyan"@[0] != "Magenta"@[0] && "Cyan"@[0] != "Yellow"@[0]
        && "Cyan"@[0] != "Red"@[0] && "Cyan"@[0] != "White"@[0]);
    assert("Green"@[0] != "Magenta"@[0] && "Green"@[0] != "Yellow"@[0] && "Green"@[0] != "Red"@[0]
        && "Green"@[0] != "White"@[0]);
    assert("Magenta"@[0] != "Yellow"@[0] && "Magenta"@[0] != "Red"@[0] && "Magenta"@[0]
        != "White"@[0]);
    assert("Yellow"@[0] != "Red"@[0] && "Yellow"@[0] != "White"@[0]);
    assert("Red"@[0] != "White"@[0]);
}

/// Six steps of the theme cycle come back to the starting colour.
pub proof fn law_theme_cycle(c: ThemeColor)
    ensures
        c.next_spec().next_spec().next_spec().next_spec().next_spec().next_spec() == c,
{
}

/// The pop-up frame colour after the theme colour changes: it follows the
/// theme unless it is white.
pub open spec fn popup_after_theme(theme: ThemeColor, popup: ThemeColor) -> ThemeColor {
    if popup != ThemeColor::White {
        theme
    } else {
        popup
    }
}

/// The pop-up frame colour toggled in the settings: white becomes the
/// theme colour, anything else white.
pub open spec fn popup_toggled(theme: ThemeColor, popup: ThemeColor) -> ThemeColor {
    if popup == ThemeColor::White {
        theme
    } else {
        ThemeColor::White
    }
}

// ---------------------------------------------------------------------------
// Book entries
// ---------------------------------------------------------------------------

/// What the library keeps for a book.
#[derive(Debug, Clone)]
pub struct BookEntry {
    pub title: String,
    pub author: String,
    pub series: String,
    pub series_num: i32,
    pub last_read_line: usize,
    pub bookmarks: Vec<usize>,
}

impl Default for BookEntry {
    fn default() -> (res: Self)
        ensures
            res.title@.len() == 0,
            res.author@.len() == 0,
            res.series@.len() == 0,
            res.series_num == 0,
            res.last_read_line == 0,
            res.bookmarks@.len() == 0,
    {
        BookEntry {
            title: String::new(),
            author: String::new(),
            series: String::new(),
            series_num: 0,
            last_read_line: 0,
            bookmarks: Vec::new(),
        }
    }
}

fn copy_string(s: &String) -> (res: String)
    ensures
        res@ == s@,
{
    let c = str_chars(s.as_str());
    chars_to_string(&c)
}

impl BookEntry {
    /// A new entry for a parsed book: its description, read from the start,
    /// without bookmarks.
    pub fn from_meta(meta: &BookMeta) -> (res: BookEntry)
        ensures
            res.title@ == meta.title@,
            res.author@ == meta.author@,
            res.series@ == meta.series@,
            res.series_num == meta.sequence_number,
            res.last_read_line == 0,
            res.bookmarks@.len() == 0,
    {
        BookEntry {
            title: copy_string(&meta.title),
            author: copy_string(&meta.author),
            series: copy_string(&meta.series),
            series_num: meta.sequence_number,
            last_read_line: 0,
            bookmarks: Vec::new(),
        }
    }

    /// Takes over the description of a book that was parsed again, keeping
    /// the reading position and the bookmarks.
    pub fn refresh(&mut self, meta: &BookMeta)
        ensures
            final(self).title@ == meta.title@,
            final(self).author@ == meta.author@,
            final(self).series@ == meta.series@,
            final(self).series_num == meta.sequence_number,
            final(self).last_read_line == old(self).last_read_line,
            final(self).bookmarks@ == old(self).bookmarks@,
    {
        self.title = copy_string(&meta.title);
        self.author = copy_string(&meta.author);
        self.series = copy_string(&meta.series);
        self.series_num = meta.sequence_number;
    }
}

/// The entry of the open book when the reader leaves it at `line`: the
/// book's entry (a new, empty one when it had none) with `line` as its
/// reading position and everything else kept.
pub fn entry_at_position(entry: Option<BookEntry>, line: usize) -> (res: BookEntry)
    ensures
        res.last_read_line == line,
        match entry {
            Some(e) => res.title@ == e.title@ && res.author@ == e.author@ && res.series@ == e.series@
                && res.series_num == e.series_num && res.bookmarks@ == e.bookmarks@,
            None => res.title@.len() == 0 && res.author@.len() == 0 && res.series@.len() == 0
                && res.series_num == 0 && res.bookmarks@.len() == 0,
        },
{
    let mut e = match entry {
        Some(e) => e,
        None => BookEntry::default(),
    };
    e.last_read_line = line;
    e
}

/// What leaving the open book records: its entry with the reading position
/// at `line` and everything else kept (a new, empty entry when it had
/// none), and the book as the last one opened.
pub fn leave_book<P>(entry: Option<BookEntry>, line: usize, book: P) -> (res: (BookEntry, Option<P>))
    ensures
        res.0.last_read_line == line,
        match entry {
            Some(e) => res.0.title@ == e.title@ && res.0.author@ == e.author@ && res.0.series@
                == e.series@ && res.0.series_num == e.series_num && res.0.bookmarks@ == e.bookmarks@,
            None => res.0.title@.len() == 0 && res.0.author@.len() == 0 && res.0.series@.len() == 0
                && res.0.series_num == 0 && res.0.bookmarks@.len() == 0,
        },
        res.1 == Some(book),
{
    (entry_at_position(entry, line), Some(book))
}

// ---------------------------------------------------------------------------
// Bookmarks
// ---------------------------------------------------------------------------

pub open spec fn sorted_usizes(s: Seq<usize>) -> bool {
    forall|i: int, j: int| 0 <= i < j < s.len() ==> s[i] <= s[j]
}

/// Inserts `x` into a sorted vector after every element not above it.
fn insert_sorted(v: &mut Vec<usize>, x: usize)
    requires
        sorted_usizes(old(v)@),
    ensures
        sorted_usizes(final(v)@),
        final(v)@.to_multiset() == old(v)@.to_multiset().insert(x),
{
    let mut p: usize = 0;
    while p < v.len() && v[p] <= x
        invariant
            p <= v.len(),
            forall|q: int| 0 <= q < p ==> v@[q] <= x,
        decreases v.len() - p,
    {
        p = p + 1;
    }
    let ghost before = v@;
    v.insert(p, x);
    assert forall|i: int, j: int| 0 <= i < j < v@.len() implies v@[i] <= v@[j] by {
        if j < p {
            assert(v@[i] == before[i] && v@[j] == before[j]);
        } else if j == p {
            assert(v@[i] == before[i]);
        } else if i < p {
            assert(v@[i] == before[i] && v@[j] == before[j - 1]);
            assert(before[i] <= x);
            assert(before[p as int] > x);
            assert(before[p as int] <= before[j - 1]);
        } else if i == p {
            assert(v@[j] == before[j - 1]);
            assert(before[p as int] > x);
            assert(before[p as int] <= before[j - 1]);
        } else {
            assert(v@[i] == before[i - 1] && v@[j] == before[j - 1]);
        }
    }
}

/// The values of `v` in ascending order.
fn sorted_copy(v: &Vec<usize>) -> (res: Vec<usize>)
    ensures
        sorted_usizes(res@),
        res@.to_multiset() == v@.to_multiset(),
{
    let mut out: Vec<usize> = Vec::new();
    let mut i: usize = 0;
    assert(v@.take(0) =~= Seq::<usize>::empty());
    while i < v.len()
        invariant
            i <= v.len(),
            sorted_usizes(out@),
            out@.to_multiset() == v@.take(i as int).to_multiset(),
        decreases v.len() - i,
    {
        insert_sorted(&mut out, v[i]);
        assert(v@.take(i + 1) =~= v@.take(i as int).push(v@[i as int]));
        i = i + 1;
    }
    assert(v@.take(v.len() as int) =~= v@);
    out
}

/// Whether `x` occurs in `v`.
fn holds(v: &Vec<usize>, x: usize) -> (res: bool)
    ensures
        res == v@.contains(x),
{
    let mut i: usize = 0;
    while i < v.len()
        invariant
            i <= v.len(),
            forall|q: int| 0 <= q < i ==> v@[q] != x,
        decreases v.len() - i,
    {
        if v[i] == x {
            assert(v@[i as int] == x);
            return true;
        }
        i = i + 1;
    }
    false
}

pub open spec fn strictly_increasing(s: Seq<usize>) -> bool {
    forall|i: int, j: int| 0 <= i < j < s.len() ==> s[i] < s[j]
}

/// A sorted list that gains one value it lacked, in a list without
/// repeated values, is strictly increasing and holds the value.
proof fn lemma_strict_after_insert(old: Seq<usize>, new: Seq<usize>, line: usize)
    requires
        strictly_increasing(old),
        !old.contains(line),
        sorted_usizes(new),
        new.to_multiset() == old.to_multiset().insert(line),
    ensures
        strictly_increasing(new),
        new.contains(line),
{
    broadcast use vstd::multiset::group_multiset_axioms, vstd::seq_lib::to_multiset_contains;

    assert(old.no_duplicates()) by {
        assert forall|i: int, j: int| 0 <= i < old.len() && 0 <= j < old.len() && i != j implies old[i]
            != old[j] by {
            if i < j {
                assert(old[i] < old[j]);
            } else {
                assert(old[j] < old[i]);
            }
        }
    }
    old.lemma_multiset_has_no_duplicates();
    assert forall|x: usize| new.to_multiset().contains(x) implies new.to_multiset().count(x) == 1 by {
        if x == line {
            assert(old.to_multiset().count(line) == 0);
        } else {
            assert(old.to_multiset().count(x) == new.to_multiset().count(x));
            assert(old.to_multiset().contains(x));
        }
    }
    new.lemma_multiset_has_no_duplicates_conv();
    assert forall|i: int, j: int| 0 <= i < j < new.len() implies new[i] < new[j] by {
        assert(new[i] <= new[j]);
        assert(new[i] != new[j]);
    }
    assert(new.to_multiset().count(line) > 0);
}

/// Adds a bookmark at `line` unless there is one; the bookmarks are then
/// in ascending order.  Returns whether one was added.  Bookmarks without
/// repetitions stay without repetitions.
pub fn add_bookmark(marks: &mut Vec<usize>, line: usize) -> (added: bool)
    ensures
        added == !old(marks)@.contains(line),
        !added ==> final(marks)@ == old(marks)@,
        added ==> sorted_usizes(final(marks)@) && final(marks)@.to_multiset() == old(
            marks,
        )@.to_multiset().insert(line),
        strictly_increasing(old(marks)@) ==> strictly_increasing(final(marks)@)
            && final(marks)@.contains(line),
{
    if holds(marks, line) {
        return false;
    }
    let ghost before = marks@;
    marks.push(line);
    let s = sorted_copy(marks);
    *marks = s;
    assert(before.push(line).to_multiset() == before.to_multiset().insert(line));
    proof {
        if strictly_increasing(before) {
            lemma_strict_after_insert(before, marks@, line);
        }
    }
    true
}

/// Removes the bookmark at position `index` of the list, if there is one,
/// and returns the position selected afterwards (kept in the list when it
/// is not empty).
pub fn remove_bookmark(marks: &mut Vec<usize>, index: usize) -> (sel: usize)
    ensures
        index < old(marks)@.len() ==> final(marks)@ == old(marks)@.remove(index as int) && sel == (
        if index < final(marks)@.len() {
            index as int
        } else if final(marks)@.len() > 0 {
            final(marks)@.len() - 1
        } else {
            0
        }),
        index >= old(marks)@.len() ==> final(marks)@ == old(marks)@ && sel == index,
{
    if index < marks.len() {
        marks.remove(index);
        let last = if marks.len() > 0 {
            marks.len() - 1
        } else {
            0
        };
        if index < last {
            index
        } else {
            last
        }
    } else {
        index
    }
}

// ---------------------------------------------------------------------------
// Ordering the book list
// ---------------------------------------------------------------------------

/// Strict lexicographic order of character sequences by code point, which
/// is the order of `String`s.
pub open spec fn chars_lt(a: Seq<char>, b: Seq<char>) -> bool
    decreases a.len(),
{
    if a.len() == 0 {
        b.len() > 0
    } else if b.len() == 0 {
        false
    } else if a[0] != b[0] {
        a[0] < b[0]
    } else {
        chars_lt(a.drop_first(), b.drop_first())
    }
}

proof fn lemma_chars_lt_total(a: Seq<char>, b: Seq<char>)
    ensures
        a != b ==> chars_lt(a, b) || chars_lt(b, a),
        !(chars_lt(a, b) && chars_lt(b, a)),
        !chars_lt(a, a),
    decreases a.len(),
{
    if a.len() > 0 && b.len() > 0 && a[0] == b[0] {
        lemma_chars_lt_total(a.drop_first(), b.drop_first());
        if a != b {
            assert(a.drop_first() != b.drop_first()) by {
                if a.drop_first() == b.drop_first() {
                    assert(a =~= seq![a[0]] + a.drop_first());
                    assert(b =~= seq![b[0]] + b.drop_first());
                }
            }
        }
    }
    if a.len() > 0 {
        lemma_chars_lt_total(a.drop_first(), a.drop_first());
    }
    if a.len() == 0 && b.len() == 0 {
        assert(a =~= b);
    }
}

proof fn lemma_chars_lt_trans(a: Seq<char>, b: Seq<char>, c: Seq<char>)
    requires
        chars_lt(a, b),
        chars_lt(b, c),
    ensures
        chars_lt(a, c),
    decreases a.len(),
{
    if a.len() > 0 && b.len() > 0 && c.len() > 0 && a[0] == b[0] && b[0] == c[0] {
        lemma_chars_lt_trans(a.drop_first(), b.drop_first(), c.drop_first());
    }
}

/// The sort key of a book: a flag that sorts `false` first, a text and a
/// number.
pub type SortKey = (bool, Seq<char>, int);

/// Strict lexicographic order of sort keys.
pub open spec fn key_lt(a: SortKey, b: SortKey) -> bool {
    (!a.0 && b.0) || (a.0 == b.0 && (chars_lt(a.1, b.1) || (a.1 == b.1 && a.2 < b.2)))
}

proof fn lemma_key_order(a: SortKey, b: SortKey, c: SortKey)
    ensures
        !key_lt(a, a),
        a != b ==> key_lt(a, b) || key_lt(b, a),
        key_lt(a, b) ==> !key_lt(b, a),
        key_lt(a, b) && !key_lt(c, b) ==> key_lt(a, c),
{
    lemma_chars_lt_total(a.1, b.1);
    lemma_chars_lt_total(b.1, c.1);
    lemma_chars_lt_total(a.1, c.1);
    lemma_chars_lt_total(a.1, a.1);
    if chars_lt(a.1, b.1) && chars_lt(b.1, c.1) {
        lemma_chars_lt_trans(a.1, b.1, c.1);
    }
    if a != b && a.0 == b.0 && a.1 == b.1 {
        assert(a.2 != b.2);
    }
}

/// The key by which a book is ordered: its lowercased title or author
/// (a missing entry first), or its lowercased series followed by its number
/// in the series, books without a series last.
pub open spec fn sort_key(e: Option<BookEntry>, mode: SortMode) -> SortKey {
    match mode {
        SortMode::Title => match e {
            Some(b) => (true, lowercase(b.title@), 0),
            None => (false, seq![], 0),
        },
        SortMode::Author => match e {
            Some(b) => (true, lowercase(b.author@), 0),
            None => (false, seq![], 0),
        },
        SortMode::Series => match e {
            Some(b) => (lowercase(b.series@).len() == 0, lowercase(b.series@), b.series_num as int),
            None => (true, seq![], 0),
        },
    }
}

pub open spec fn keys_of(es: Seq<Option<BookEntry>>, mode: SortMode) -> Seq<SortKey> {
    Seq::new(es.len(), |i: int| sort_key(es[i], mode))
}

/// `order` lists each index below `n` exactly once.
pub open spec fn is_permutation(order: Seq<usize>, n: nat) -> bool {
    &&& order.len() == n
    &&& forall|i: int| 0 <= i < order.len() ==> order[i] < n
    &&& forall|i: int, j: int| 0 <= i < j < order.len() ==> order[i] != order[j]
}

/// `order` lists the keys in ascending order, equal keys in their given
/// order: what a stable sort by key gives.
pub open spec fn stably_sorted(order: Seq<usize>, keys: Seq<SortKey>) -> bool {
    &&& forall|i: int, j: int|
        0 <= i < j < order.len() ==> !key_lt(keys[order[j] as int], keys[order[i] as int])
    &&& forall|i: int, j: int|
        0 <= i < j < order.len() && keys[order[i] as int] == keys[order[j] as int] ==> order[i]
            < order[j]
}

fn chars_less(a: &Vec<char>, b: &Vec<char>) -> (res: bool)
    ensures
        res == chars_lt(a@, b@),
{
    let mut i: usize = 0;
    assert(a@.skip(0) =~= a@);
    assert(b@.skip(0) =~= b@);
    while i < a.len() && i < b.len() && a[i] == b[i]
        invariant
            i <= a.len(),
            i <= b.len(),
            chars_lt(a@, b@) == chars_lt(a@.skip(i as int), b@.skip(i as int)),
        decreases a.len() - i,
    {
        assert(a@.skip(i as int).drop_first() =~= a@.skip(i + 1));
        assert(b@.skip(i as int).drop_first() =~= b@.skip(i + 1));
        i = i + 1;
    }
    if i == a.len() {
        i < b.len()
    } else if i == b.len() {
        false
    } else {
        assert(a@.skip(i as int)[0] == a@[i as int]);
        assert(b@.skip(i as int)[0] == b@[i as int]);
        a[i] < b[i]
    }
}

/// The executable form of a sort key.
struct ExecKey {
    flag: bool,
    text: Vec<char>,
    num: i32,
}

impl ExecKey {
    spec fn view_key(&self) -> SortKey {
        (self.flag, self.text@, self.num as int)
    }
}

fn key_less(a: &ExecKey, b: &ExecKey) -> (res: bool)
    ensures
        res == key_lt(a.view_key(), b.view_key()),
{
    if !a.flag && b.flag {
        return true;
    }
    if a.flag != b.flag {
        return false;
    }
    if chars_less(&a.text, &b.text) {
        return true;
    }
    if chars_less(&b.text, &a.text) {
        proof {
            lemma_chars_lt_total(a.text@, b.text@);
        }
        return false;
    }
    proof {
        lemma_chars_lt_total(a.text@, b.text@);
    }
    a.num < b.num
}

fn lower_of(s: &String) -> (res: Vec<char>)
    ensures
        res@ == lowercase(s@),
{
    let l = to_lowercase(s.as_str());
    str_chars(l.as_str())
}

fn key_of(e: &Option<BookEntry>, mode: SortMode) -> (res: ExecKey)
    ensures
        res.view_key() == sort_key(*e, mode),
{
    match mode {
        SortMode::Title => match e {
            Some(b) => ExecKey { flag: true, text: lower_of(&b.title), num: 0 },
            None => ExecKey { flag: false, text: Vec::new(), num: 0 },
        },
        SortMode::Author => match e {
            Some(b) => ExecKey { flag: true, text: lower_of(&b.author), num: 0 },
            None => ExecKey { flag: false, text: Vec::new(), num: 0 },
        },
        SortMode::Series => match e {
            Some(b) => {
                let t = lower_of(&b.series);
                ExecKey { flag: t.len() == 0, text: t, num: b.series_num }
            },
            None => ExecKey { flag: true, text: Vec::new(), num: 0 },
        },
    }
}

/// The order in which a stable sort by key lists the books.
pub fn sort_books(entries: &Vec<Option<BookEntry>>, mode: SortMode) -> (order: Vec<usize>)
    ensures
        is_permutation(order@, entries.len() as nat),
        stably_sorted(order@, keys_of(entries@, mode)),
{
    let ghost keys = keys_of(entries@, mode);
    let mut ks: Vec<ExecKey> = Vec::new();
    let mut i: usize = 0;
    while i < entries.len()
        invariant
            i <= entries.len(),
            ks.len() == i,
            keys == keys_of(entries@, mode),
            forall|q: int| 0 <= q < i ==> (#[trigger] ks@[q]).view_key() == keys[q],
        decreases entries.len() - i,
    {
        ks.push(key_of(&entries[i], mode));
        i = i + 1;
    }
    let mut order: Vec<usize> = Vec::new();
    let mut k: usize = 0;
    while k < entries.len()
        invariant
            k <= entries.len(),
            ks.len() == entries.len(),
            keys == keys_of(entries@, mode),
            forall|q: int| 0 <= q < ks.len() ==> (#[trigger] ks@[q]).view_key() == keys[q],
            is_permutation(order@, k as nat),
            stably_sorted(order@, keys),
        decreases entries.len() - k,
    {
        let mut p: usize = 0;
        while p < order.len() && !key_less(&ks[k], &ks[order[p]])
            invariant
                p <= order.len(),
                k < ks.len(),
                ks.len() == entries.len(),
                is_permutation(order@, k as nat),
                forall|q: int| 0 <= q < ks.len() ==> (#[trigger] ks@[q]).view_key() == keys[q],
                forall|q: int| 0 <= q < p ==> !key_lt(keys[k as int], keys[order@[q] as int]),
            decreases order.len() - p,
        {
            p = p + 1;
        }
        let ghost before = order@;
        proof {
            if p < before.len() {
                assert(key_lt(keys[k as int], keys[before[p as int] as int]));
                assert forall|q: int| p <= q < before.len() implies key_lt(
                    keys[k as int],
                    #[trigger] keys[before[q] as int],
                ) by {
                    lemma_key_order(
                        keys[k as int],
                        keys[before[p as int] as int],
                        keys[before[q] as int],
                    );
                }
            }
        }
        order.insert(p, k);
        assert forall|i: int, j: int| 0 <= i < j < order@.len() implies !key_lt(
            keys[order@[j] as int],
            keys[order@[i] as int],
        ) && (keys[order@[i] as int] == keys[order@[j] as int] ==> order@[i] < order@[j]) by {
            if j < p {
                assert(order@[i] == before[i] && order@[j] == before[j]);
            } else if j == p {
                assert(order@[i] == before[i]);
                assert(!key_lt(keys[k as int], keys[before[i] as int]));
                lemma_key_order(keys[k as int], keys[before[i] as int], keys[k as int]);
            } else if i < p {
                assert(order@[i] == before[i] && order@[j] == before[j - 1]);
            } else if i == p {
                assert(order@[j] == before[j - 1]);
                lemma_key_order(keys[k as int], keys[before[j - 1] as int], keys[k as int]);
            } else {
                assert(order@[i] == before[i - 1] && order@[j] == before[j - 1]);
            }
        }
        assert forall|i: int, j: int| 0 <= i < j < order@.len() implies order@[i] != order@[j] by {
            if j < p {
                assert(order@[i] == before[i] && order@[j] == before[j]);
            } else if j == p {
                assert(order@[i] == before[i]);
            } else if i < p {
                assert(order@[i] == before[i] && order@[j] == before[j - 1]);
            } else if i == p {
                assert(order@[j] == before[j - 1]);
            } else {
                assert(order@[i] == before[i - 1] && order@[j] == before[j - 1]);
            }
        }
        assert forall|i: int| 0 <= i < order@.len() implies order@[i] < k + 1 by {
            if i < p {
                assert(order@[i] == before[i]);
            } else if i > p {
                assert(order@[i] == before[i - 1]);
            }
        }
        k = k + 1;
    }
    order
}

/// Sorting by title: books without an entry come first, then the books in
/// ascending order of their lowercased titles, books with equal lowercased
/// titles in their list order.
pub proof fn law_sort_by_title(es: Seq<Option<BookEntry>>, order: Seq<usize>)
    requires
        is_permutation(order, es.len()),
        stably_sorted(order, keys_of(es, SortMode::Title)),
    ensures
        forall|i: int, j: int|
            0 <= i < j < order.len() ==> {
                let a = #[trigger] es[order[i] as int];
                let b = #[trigger] es[order[j] as int];
                &&& b is None ==> a is None
                &&& (a is Some && b is Some) ==> !chars_lt(lowercase(b->0.title@), lowercase(a->0.title@))
                &&& (a is Some && b is Some && lowercase(a->0.title@) == lowercase(b->0.title@)) ==> order[i]
                    < order[j]
            },
{
    assert forall|i: int, j: int| 0 <= i < j < order.len() implies {
        let a = #[trigger] es[order[i] as int];
        let b = #[trigger] es[order[j] as int];
        &&& b is None ==> a is None
        &&& (a is Some && b is Some) ==> !chars_lt(lowercase(b->0.title@), lowercase(a->0.title@))
        &&& (a is Some && b is Some && lowercase(a->0.title@) == lowercase(b->0.title@)) ==> order[i] < order[j]
    } by {
        let ks = keys_of(es, SortMode::Title);
        assert(!key_lt(ks[order[j] as int], ks[order[i] as int]));
        assert(ks[order[i] as int] == ks[order[i] as int]);
    }
}

/// Sorting by author: books without an entry come first, then the books in
/// ascending order of their lowercased authors, books with equal lowercased
/// authors in their list order.
pub proof fn law_sort_by_author(es: Seq<Option<BookEntry>>, order: Seq<usize>)
    requires
        is_permutation(order, es.len()),
        stably_sorted(order, keys_of(es, SortMode::Author)),
    ensures
        forall|i: int, j: int|
            0 <= i < j < order.len() ==> {
                let a = #[trigger] es[order[i] as int];
                let b = #[trigger] es[order[j] as int];
                &&& b is None ==> a is None
                &&& (a is Some && b is Some) ==> !chars_lt(lowercase(b->0.author@), lowercase(a->0.author@))
                &&& (a is Some && b is Some && lowercase(a->0.author@) == lowercase(b->0.author@)) ==> order[i]
                    < order[j]
            },
{
    assert forall|i: int, j: int| 0 <= i < j < order.len() implies {
        let a = #[trigger] es[order[i] as int];
        let b = #[trigger] es[order[j] as int];
        &&& b is None ==> a is None
        &&& (a is Some && b is Some) ==> !chars_lt(lowercase(b->0.author@), lowercase(a->0.author@))
        &&& (a is Some && b is Some && lowercase(a->0.author@) == lowercase(b->0.author@)) ==> order[i] < order[j]
    } by {
        let ks = keys_of(es, SortMode::Author);
        assert(!key_lt(ks[order[j] as int], ks[order[i] as int]));
    }
}

/// Sorting by series: books in a series come first, in ascending order of
/// their lowercased series and, within a series, of their number in it;
/// books without a series and books without an entry come after them.
pub proof fn law_sort_by_series(es: Seq<Option<BookEntry>>, order: Seq<usize>)
    requires
        is_permutation(order, es.len()),
        stably_sorted(order, keys_of(es, SortMode::Series)),
    ensures
        forall|i: int, j: int|
            0 <= i < j < order.len() ==> {
                let a = #[trigger] es[order[i] as int];
                let b = #[trigger] es[order[j] as int];
                &&& (b is Some && lowercase(b->0.series@).len() > 0) ==> (a is Some && lowercase(
                    a->0.series@,
                ).len() > 0)
                &&& (a is Some && b is Some && lowercase(a->0.series@).len() > 0 && lowercase(
                    b->0.series@,
                ).len() > 0) ==> !chars_lt(lowercase(b->0.series@), lowercase(a->0.series@))
                &&& (a is Some && b is Some && lowercase(a->0.series@).len() > 0 && lowercase(a->0.series@)
                    == lowercase(b->0.series@)) ==> a->0.series_num <= b->0.series_num
            },
{
    assert forall|i: int, j: int| 0 <= i < j < order.len() implies {
        let a = #[trigger] es[order[i] as int];
        let b = #[trigger] es[order[j] as int];
        &&& (b is Some && lowercase(b->0.series@).len() > 0) ==> (a is Some && lowercase(a->0.series@).len() > 0)
        &&& (a is Some && b is Some && lowercase(a->0.series@).len() > 0 && lowercase(b->0.series@).len() > 0)
            ==> !chars_lt(lowercase(b->0.series@), lowercase(a->0.series@))
        &&& (a is Some && b is Some && lowercase(a->0.series@).len() > 0 && lowercase(a->0.series@) == lowercase(
            b->0.series@,
        )) ==> a->0.series_num <= b->0.series_num
    } by {
        let ks = keys_of(es, SortMode::Series);
        assert(!key_lt(ks[order[j] as int], ks[order[i] as int]));
    }
}

/// Re-sorts the book list by the next key: the new order (as indices into
/// the entries) and the new key.
pub fn cycle_sort(entries: &Vec<Option<BookEntry>>, mode: SortMode) -> (res: (Vec<usize>, SortMode))
    ensures
        res.1 == mode.next_spec(),
        is_permutation(res.0@, entries.len() as nat),
        stably_sorted(res.0@, keys_of(entries@, mode.next_spec())),
{
    let next = mode.next();
    (sort_books(entries, next), next)
}

/// The position in `order` of index `x`, if it occurs.
pub fn position_of(order: &Vec<usize>, x: usize) -> (res: Option<usize>)
    ensures
        match res {
            Some(p) => p < order.len() && order@[p as int] == x && forall|q: int|
                0 <= q < p ==> order@[q] != x,
            None => !order@.contains(x),
        },
{
    let mut i: usize = 0;
    while i < order.len()
        invariant
            i <= order.len(),
            forall|q: int| 0 <= q < i ==> order@[q] != x,
        decreases order.len() - i,
    {
        if order[i] == x {
            return Some(i);
        }
        i = i + 1;
    }
    None
}

/// A permutation of the indices below `n` lists each of them.
proof fn lemma_permutation_covers(order: Seq<usize>, n: nat, x: usize)
    requires
        is_permutation(order, n),
        x < n,
    ensures
        order.contains(x),
{
    let s = order.map_values(|v: usize| v as int);
    assert(s.no_duplicates()) by {
        assert forall|i: int, j: int| 0 <= i < s.len() && 0 <= j < s.len() && i != j implies s[i]
            != s[j] by {
            if i < j {
                assert(order[i] != order[j]);
            } else {
                assert(order[j] != order[i]);
            }
        }
    }
    s.unique_seq_to_set();
    vstd::seq_lib::seq_to_set_is_finite(s);
    vstd::set_lib::lemma_int_range(0, n as int);
    let range = vstd::set_lib::set_int_range(0, n as int);
    assert(s.to_set().subset_of(range)) by {
        assert forall|v: int| s.to_set().contains(v) implies range.contains(v) by {
            let i = choose|i: int| 0 <= i < s.len() && s[i] == v;
            assert(order[i] < n);
        }
    }
    vstd::set_lib::lemma_subset_equality(s.to_set(), range);
    assert(range.contains(x as int));
    assert(s.to_set().contains(x as int));
    let i = choose|i: int| 0 <= i < s.len() && s[i] == x as int;
    assert(order[i] == x);
}

/// The book list sorted by `mode`, with the selection moved to where the
/// selected book went (`selected` unchanged when it is past the list).
pub fn resort_keeping(entries: &Vec<Option<BookEntry>>, mode: SortMode, selected: usize) -> (res: (
    Vec<usize>,
    usize,
))
    ensures
        is_permutation(res.0@, entries.len() as nat),
        stably_sorted(res.0@, keys_of(entries@, mode)),
        selected < entries.len() ==> res.1 < entries.len() && res.0@[res.1 as int] == selected,
        selected >= entries.len() ==> res.1 == selected,
{
    let order = sort_books(entries, mode);
    let mut sel = selected;
    if selected < entries.len() {
        proof {
            lemma_permutation_covers(order@, entries.len() as nat, selected);
        }
        if let Some(p) = position_of(&order, selected) {
            sel = p;
        }
    }
    (order, sel)
}

/// The position of the open book in the book list, given for each listed
/// book whether it is the open one; the first position when it is not
/// listed.
pub open spec fn open_book_position(is_open: Seq<bool>) -> int
    decreases is_open.len(),
{
    if is_open.len() == 0 {
        0
    } else if is_open[0] {
        0
    } else if is_open.drop_first().contains(true) {
        1 + open_book_position(is_open.drop_first())
    } else {
        0
    }
}

/// The position of the open book in the book list (0 when not listed).
pub fn open_book_index(is_open: &Vec<bool>) -> (res: usize)
    ensures
        res == open_book_position(is_open@),
        is_open@.contains(true) ==> res < is_open.len() && is_open@[res as int] && forall|q: int|
            0 <= q < res ==> !is_open@[q],
{
    let mut i: usize = 0;
    while i < is_open.len()
        invariant
            i <= is_open.len(),
            forall|q: int| 0 <= q < i ==> !is_open@[q],
        decreases is_open.len() - i,
    {
        if is_open[i] {
            proof {
                lemma_open_position(is_open@, i as int);
            }
            return i;
        }
        i = i + 1;
    }
    proof {
        lemma_open_position_absent(is_open@);
    }
    0
}

proof fn lemma_open_position(s: Seq<bool>, i: int)
    requires
        0 <= i < s.len(),
        s[i],
        forall|q: int| 0 <= q < i ==> !s[q],
    ensures
        open_book_position(s) == i,
    decreases i,
{
    if i > 0 {
        assert(s.drop_first()[i - 1] == s[i]);
        assert(s.drop_first().contains(true));
        lemma_open_position(s.drop_first(), i - 1);
    }
}

proof fn lemma_open_position_absent(s: Seq<bool>)
    requires
        forall|q: int| 0 <= q < s.len() ==> !s[q],
    ensures
        open_book_position(s) == 0,
        !s.contains(true),
{
    if s.len() > 0 {
        assert(!s.drop_first().contains(true));
    }
}

// ---------------------------------------------------------------------------
// Filtering the book list
// ---------------------------------------------------------------------------

/// The field that the library search looks at under a sort key.
pub open spec fn search_field(b: BookEntry, mode: SortMode) -> Seq<char> {
    match mode {
        SortMode::Title => b.title@,
        SortMode::Author => b.author@,
        SortMode::Series => b.series@,
    }
}

/// Whether a book is listed under a search: every book for an empty query,
/// otherwise a known book whose field, lowercased, contains the lowercased
/// query.
pub open spec fn listed(e: Option<BookEntry>, mode: SortMode, ql: Seq<char>) -> bool {
    ql.len() == 0 || (e matches Some(b) && contains(lowercase(search_field(b, mode)), ql))
}

/// The indices below `n` of the listed books, in order.
pub open spec fn listed_upto(es: Seq<Option<BookEntry>>, mode: SortMode, ql: Seq<char>, n: nat) -> Seq<
    usize,
>
    decreases n,
{
    if n == 0 {
        seq![]
    } else {
        let prev = listed_upto(es, mode, ql, (n - 1) as nat);
        if listed(es[n - 1], mode, ql) {
            prev.push((n - 1) as usize)
        } else {
            prev
        }
    }
}

proof fn lemma_listed_upto_contains(es: Seq<Option<BookEntry>>, mode: SortMode, ql: Seq<char>, n: nat, i: int)
    requires
        n <= es.len() <= usize::MAX,
    ensures
        listed_upto(es, mode, ql, n).contains(i as usize) && 0 <= i <= usize::MAX <==> (0 <= i < n && listed(
            es[i],
            mode,
            ql,
        )),
        forall|k: int| 0 <= k < listed_upto(es, mode, ql, n).len() ==> #[trigger] listed_upto(es, mode, ql, n)[k] < n,
    decreases n,
{
    if n > 0 {
        lemma_listed_upto_contains(es, mode, ql, (n - 1) as nat, i);
        let prev = listed_upto(es, mode, ql, (n - 1) as nat);
        if listed(es[n - 1], mode, ql) {
            let cur = prev.push((n - 1) as usize);
            assert(cur[prev.len() as int] == (n - 1) as usize);
            if 0 <= i <= usize::MAX && cur.contains(i as usize) && i != n - 1 {
                let k = choose|k: int| 0 <= k < cur.len() && #[trigger] cur[k] == i as usize;
                assert(k < prev.len());
                assert(prev[k] == i as usize);
            }
            if 0 <= i < n - 1 && listed(es[i], mode, ql) {
                let k = choose|k: int| 0 <= k < prev.len() && #[trigger] prev[k] == i as usize;
                assert(cur[k] == i as usize);
            }
            assert forall|k: int| 0 <= k < cur.len() implies #[trigger] cur[k] < n by {
                if k < prev.len() {
                    assert(cur[k] == prev[k]);
                }
            }
        }
    }
}

/// The library search under each sort mode: with a non-empty lowercased
/// query, a known book is listed exactly when its title (title mode),
/// author (author mode) or series (series mode), lowercased, contains the
/// lowercased query; a book without an entry is never listed; with an
/// empty lowercased query every book is listed.
pub proof fn law_filter_by_field(es: Seq<Option<BookEntry>>, mode: SortMode, query: Seq<char>, i: int)
    requires
        es.len() <= usize::MAX,
        0 <= i < es.len(),
    ensures
        ({
            let r = listed_upto(es, mode, lowercase(query), es.len());
            let ql = lowercase(query);
            &&& ql.len() == 0 ==> r.contains(i as usize)
            &&& (ql.len() > 0 && es[i] is None) ==> !r.contains(i as usize)
            &&& (ql.len() > 0 && mode == SortMode::Title && es[i] is Some) ==> (r.contains(i as usize)
                <==> contains(lowercase(es[i]->0.title@), ql))
            &&& (ql.len() > 0 && mode == SortMode::Author && es[i] is Some) ==> (r.contains(i as usize)
                <==> contains(lowercase(es[i]->0.author@), ql))
            &&& (ql.len() > 0 && mode == SortMode::Series && es[i] is Some) ==> (r.contains(i as usize)
                <==> contains(lowercase(es[i]->0.series@), ql))
        }),
{
    lemma_listed_upto_contains(es, mode, lowercase(query), es.len(), i);
}

/// The books that the library search shows, as indices in list order.
pub fn filter_books(entries: &Vec<Option<BookEntry>>, mode: SortMode, query: &str) -> (res: Vec<
    usize,
>)
    ensures
        res@ == listed_upto(entries@, mode, lowercase(query@), entries.len() as nat),
{
    let q = to_lowercase(query);
    let qc = str_chars(q.as_str());
    let mut res: Vec<usize> = Vec::new();
    let mut i: usize = 0;
    while i < entries.len()
        invariant
            i <= entries.len(),
            qc@ == lowercase(query@),
            res@ == listed_upto(entries@, mode, qc@, i as nat),
        decreases entries.len() - i,
    {
        let keep = if qc.len() == 0 {
            true
        } else {
            match &entries[i] {
                Some(b) => {
                    let field = match mode {
                        SortMode::Title => &b.title,
                        SortMode::Author => &b.author,
                        SortMode::Series => &b.series,
                    };
                    let fl = lower_of(field);
                    contains_chars(&fl, &qc)
                },
                None => false,
            }
        };
        if keep {
            res.push(i);
        }
        i = i + 1;
    }
    res
}

} // verus!
