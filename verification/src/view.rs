//! What the screens show, computed from the state: the first row of a
//! scrolled list, the reading progress, and the styled pieces of a line of
//! text (search matches and footnote references).
use vstd::prelude::*;
use vstd::utf8::{decode_utf8, encode_utf8, is_char_boundary, valid_utf8};
use crate::fb2_parser::FootnoteInfo;
use crate::layout::wrap_lines;
use crate::library::{BookEntry, SortMode};
use crate::reader::{char_pos, find_char, lemma_char_pos, note_numbers, ref_number};
use crate::text::{
    all_digits, chars_to_string, decimal, is_digit, lowercase,
    parse_usize, push_all, str_chars, string_views, sub_chars, to_lowercase, trim, trim_chars,
    usize_to_chars,
};

verus! {

// ---------------------------------------------------------------------------
// Lists and progress
// ---------------------------------------------------------------------------

/// The first row shown of a list of `total` rows in a window of `height`
/// rows, so that the selected row sits in the middle where it can.
pub open spec fn list_offset(total: int, selected: int, height: int) -> int {
    if total == 0 || total <= height {
        0
    } else {
        let desired = if selected >= height / 2 {
            selected - height / 2
        } else {
            0
        };
        let max_offset = total - height;
        if desired <= max_offset {
            desired
        } else {
            max_offset
        }
    }
}

/// The first row to show of a scrolled list.
pub fn calculate_list_offset(total: usize, selected: usize, height: usize) -> (res: usize)
    ensures
        res == list_offset(total as int, selected as int, height as int),
{
    if total == 0 || total <= height {
        return 0;
    }
    let half = height / 2;
    let desired = if selected >= half {
        selected - half
    } else {
        0
    };
    let max_offset = total - height;
    if desired <= max_offset {
        desired
    } else {
        max_offset
    }
}

/// The window of a list stays within the list and shows the selected row.
pub proof fn law_list_offset_shows_selection(total: int, selected: int, height: int)
    requires
        0 <= selected < total,
        height > 0,
    ensures
        0 <= list_offset(total, selected, height),
        list_offset(total, selected, height) <= selected < list_offset(total, selected, height) + height,
        total > height ==> list_offset(total, selected, height) + height <= total,
{
}

/// The reading progress in percent: the share of the scrolling range
/// passed, 100 when the whole text fits on screen.
pub open spec fn progress_percent(n_lines: int, scroll: int, visible: int) -> int {
    if n_lines <= visible {
        100
    } else {
        let max_scroll = n_lines - visible;
        let p = scroll * 100 / max_scroll;
        if p < 100 {
            p
        } else {
            100
        }
    }
}

/// The reading progress shown in the status bar.
pub fn progress(n_lines: usize, scroll: usize, visible: usize) -> (res: usize)
    ensures
        res == progress_percent(n_lines as int, scroll as int, visible as int),
{
    if n_lines <= visible {
        return 100;
    }
    let max_scroll = (n_lines - visible) as u128;
    let p = (scroll as u128) * 100 / max_scroll;
    if p < 100 {
        p as usize
    } else {
        100
    }
}

/// The filled cells of the ten-cell progress bar.
pub fn progress_cells(percent: usize) -> (res: usize)
    requires
        percent <= 100,
    ensures
        res == percent * 10 / 100,
        res <= 10,
{
    percent * 10 / 100
}

/// The progress is a percentage, and it is full at the end of the text.
pub proof fn law_progress_bounds(n_lines: int, scroll: int, visible: int)
    requires
        n_lines >= 0,
        scroll >= 0,
        visible >= 0,
    ensures
        0 <= progress_percent(n_lines, scroll, visible) <= 100,
        scroll >= n_lines - visible ==> progress_percent(n_lines, scroll, visible) == 100,
{
    if n_lines > visible {
        let m = n_lines - visible;
        assert(scroll * 100 / m >= 0) by (nonlinear_arith)
            requires
                scroll >= 0,
                m > 0,
        ;
        if scroll >= m {
            assert(scroll * 100 / m >= 100) by (nonlinear_arith)
                requires
                    scroll >= m,
                    m > 0,
            ;
        }
    }
}

// ---------------------------------------------------------------------------
// Styled pieces of a line
// ---------------------------------------------------------------------------

/// How a piece of a line is drawn.
#[derive(Debug, Clone, Copy, PartialEq, Eq, Structural)]
pub enum SegmentStyle {
    Plain,
    Footnote,
    Match,
}

/// A piece of a line with its style.
#[derive(Debug, Clone)]
pub struct Segment {
    pub text: String,
    pub style: SegmentStyle,
}

pub open spec fn segment_views(s: Seq<Segment>) -> Seq<(SegmentStyle, Seq<char>)> {
    Seq::new(s.len(), |i: int| (s[i].style, s[i].text@))
}

/// The rest of a text from `k`, as one plain piece (nothing when empty).
pub open spec fn plain_tail(t: Seq<char>, k: int) -> Seq<(SegmentStyle, Seq<char>)> {
    if 0 <= k < t.len() {
        seq![(SegmentStyle::Plain, t.skip(k))]
    } else {
        seq![]
    }
}

/// The pieces of a text from `k`: each `[number]` is a piece of its own,
/// highlighted when it refers to a footnote, the text between them plain.
/// A bracket that holds no number ends the scan, and the rest is plain.
pub open spec fn pieces_from(t: Seq<char>, k: int, numbers: Seq<usize>) -> Seq<(SegmentStyle, Seq<char>)>
    decreases t.len() - k,
{
    if k < 0 {
        seq![]
    } else {
        match char_pos(t, '[', k) {
            None => plain_tail(t, k),
            Some(a) => match char_pos(t, ']', a) {
                None => plain_tail(t, k),
                Some(b) => {
                    proof {
                        lemma_char_pos(t, '[', k);
                        lemma_char_pos(t, ']', a);
                    }
                    match ref_number(t.subrange(a + 1, b)) {
                        None => plain_tail(t, k),
                        Some(n) => {
                            let before = if a > k {
                                seq![(SegmentStyle::Plain, t.subrange(k, a))]
                            } else {
                                seq![]
                            };
                            let style = if numbers.contains(n) {
                                SegmentStyle::Footnote
                            } else {
                                SegmentStyle::Plain
                            };
                            before + seq![(style, t.subrange(a, b + 1))] + pieces_from(t, b + 1, numbers)
                        },
                    }
                },
            },
        }
    }
}

/// The pieces of a text; a text without pieces is one plain piece.
pub open spec fn text_pieces(t: Seq<char>, numbers: Seq<usize>) -> Seq<(SegmentStyle, Seq<char>)> {
    let p = pieces_from(t, 0, numbers);
    if p.len() == 0 {
        seq![(SegmentStyle::Plain, t)]
    } else {
        p
    }
}

fn plain(t: &Vec<char>, from: usize, to: usize) -> (res: Segment)
    requires
        from <= to <= t.len(),
    ensures
        res.style == SegmentStyle::Plain,
        res.text@ == t@.subrange(from as int, to as int),
{
    Segment { text: chars_to_string(&sub_chars(t, from, to)), style: SegmentStyle::Plain }
}

fn push_segment(v: &mut Vec<Segment>, s: Segment)
    ensures
        segment_views(final(v)@) == segment_views(old(v)@).push((s.style, s.text@)),
{
    let ghost before = segment_views(v@);
    let ghost sv = (s.style, s.text@);
    v.push(s);
    assert(segment_views(v@) =~= before.push(sv));
}

fn append_segments(v: &mut Vec<Segment>, w: Vec<Segment>)
    ensures
        segment_views(final(v)@) == segment_views(old(v)@) + segment_views(w@),
{
    let ghost before = segment_views(v@);
    let ghost wv = segment_views(w@);
    let mut w = w;
    let mut rest: Vec<Segment> = Vec::new();
    while w.len() > 0
        invariant
            segment_views(w@) + segment_views(rest@) == wv,
        decreases w.len(),
    {
        let ghost wb = segment_views(w@);
        let ghost rb = segment_views(rest@);
        let s = w.pop().unwrap();
        let ghost sv = (s.style, s.text@);
        rest.insert(0, s);
        assert(segment_views(w@).push(sv) =~= wb);
        assert(segment_views(rest@) =~= seq![sv] + rb);
        assert(segment_views(w@) + segment_views(rest@) =~= wb + rb);
    }
    let mut i: usize = 0;
    let mut r = rest;
    assert(segment_views(w@) =~= Seq::<(SegmentStyle, Seq<char>)>::empty());
    while r.len() > 0
        invariant
            segment_views(v@) + segment_views(r@) == before + wv,
        decreases r.len(),
    {
        let ghost vb = segment_views(v@);
        let ghost rb = segment_views(r@);
        let s = r.remove(0);
        let ghost sv = (s.style, s.text@);
        push_segment(v, s);
        assert(rb =~= seq![sv] + segment_views(r@));
        assert(vb.push(sv) + segment_views(r@) =~= vb + rb);
    }
    assert(segment_views(v@) + segment_views(r@) =~= segment_views(v@));
}

fn is_note_number_in(notes: &Vec<FootnoteInfo>, n: usize) -> (res: bool)
    ensures
        res == note_numbers(notes@).contains(n),
{
    let mut i: usize = 0;
    while i < notes.len()
        invariant
            i <= notes.len(),
            forall|q: int| 0 <= q < i ==> notes@[q].number != n,
        decreases notes.len() - i,
    {
        if notes[i].number == n {
            assert(note_numbers(notes@)[i as int] == n);
            return true;
        }
        i = i + 1;
    }
    assert forall|q: int| 0 <= q < note_numbers(notes@).len() implies note_numbers(notes@)[q] != n by {
        assert(note_numbers(notes@)[q] == notes@[q].number);
    }
    false
}

fn digits_only(s: &Vec<char>) -> (res: bool)
    ensures
        res == all_digits(s@),
{
    let mut i: usize = 0;
    while i < s.len()
        invariant
            i <= s.len(),
            forall|j: int| 0 <= j < i ==> is_digit(#[trigger] s@[j]),
        decreases s.len() - i,
    {
        if !('0' <= s[i] && s[i] <= '9') {
            assert(!is_digit(s@[i as int]));
            return false;
        }
        i = i + 1;
    }
    true
}

fn tail_exec(t: &Vec<char>, k: usize, out: &mut Vec<Segment>)
    requires
        k <= t.len(),
    ensures
        segment_views(final(out)@) == segment_views(old(out)@) + plain_tail(t@, k as int),
{
    if k < t.len() {
        let s = plain(t, k, t.len());
        assert(t@.subrange(k as int, t.len() as int) =~= t@.skip(k as int));
        push_segment(out, s);
    } else {
        assert(segment_views(out@) + plain_tail(t@, k as int) =~= segment_views(out@));
    }
}

/// The styled pieces of a text without search matches.
pub fn process_text_segment(text: &str, notes: &Vec<FootnoteInfo>) -> (res: Vec<Segment>)
    ensures
        segment_views(res@) == text_pieces(text@, note_numbers(notes@)),
{
    let t = str_chars(text);
    let ghost nums = note_numbers(notes@);
    let mut out: Vec<Segment> = Vec::new();
    let mut pos: usize = 0;
    loop
        invariant_except_break
            pos <= t.len(),
            nums == note_numbers(notes@),
            pieces_from(t@, 0, nums) == segment_views(out@) + pieces_from(t@, pos as int, nums),
        ensures
            segment_views(out@) == pieces_from(t@, 0, nums),
        decreases t.len() - pos,
    {
        let a = match find_char(&t, '[', pos) {
            Some(a) => a,
            None => {
                tail_exec(&t, pos, &mut out);
                break;
            },
        };
        let b = match find_char(&t, ']', a) {
            Some(b) => b,
            None => {
                tail_exec(&t, pos, &mut out);
                break;
            },
        };
        proof {
            lemma_char_pos(t@, '[', pos as int);
            lemma_char_pos(t@, ']', a as int);
        }
        let inner = sub_chars(&t, a + 1, b);
        let num = if digits_only(&inner) {
            parse_usize(&inner)
        } else {
            None
        };
        match num {
            None => {
                tail_exec(&t, pos, &mut out);
                break;
            },
            Some(n) => {
                let ghost before_out = segment_views(out@);
                if a > pos {
                    push_segment(&mut out, plain(&t, pos, a));
                }
                let style = if is_note_number_in(notes, n) {
                    SegmentStyle::Footnote
                } else {
                    SegmentStyle::Plain
                };
                let bracket = Segment { text: chars_to_string(&sub_chars(&t, a, b + 1)), style };
                push_segment(&mut out, bracket);
                let ghost before = if a > pos {
                    seq![(SegmentStyle::Plain, t@.subrange(pos as int, a as int))]
                } else {
                    seq![]
                };
                assert(segment_views(out@) =~= before_out + before + seq![
                    (style, t@.subrange(a as int, b + 1)),
                ]);
                pos = b + 1;
            },
        }
    }
    if out.len() == 0 {
        let whole = Segment { text: chars_to_string(&t), style: SegmentStyle::Plain };
        push_segment(&mut out, whole);
    }
    out
}

} // verus!

verus! {

/// `p` stands in `s` at byte `i`.
pub open spec fn bytes_at(s: Seq<u8>, p: Seq<u8>, i: int) -> bool {
    0 <= i && i + p.len() <= s.len() && s.subrange(i, i + p.len()) == p
}

/// The first byte position at or after `k` where `p` stands in `s`: what
/// `str::find` gives on the text from `k`.
pub open spec fn first_bytes_at(s: Seq<u8>, p: Seq<u8>, k: int) -> Option<int>
    decreases s.len() + 1 - k,
{
    if k < 0 || k + p.len() > s.len() {
        None
    } else if bytes_at(s, p, k) {
        Some(k)
    } else {
        first_bytes_at(s, p, k + 1)
    }
}

/// Where the first occurrence at or after `k` lies.
pub proof fn lemma_first_bytes_bounds(s: Seq<u8>, p: Seq<u8>, k: int)
    requires
        0 <= k,
    ensures
        match first_bytes_at(s, p, k) {
            Some(i) => k <= i && bytes_at(s, p, i),
            None => true,
        },
    decreases s.len() + 1 - k,
{
    if k + p.len() <= s.len() && !bytes_at(s, p, k) {
        lemma_first_bytes_bounds(s, p, k + 1);
    }
}

fn bytes_match_at(s: &[u8], p: &[u8], i: usize) -> (res: bool)
    requires
        i <= s.len(),
    ensures
        res == bytes_at(s@, p@, i as int),
{
    if p.len() > s.len() - i {
        return false;
    }
    let mut j: usize = 0;
    while j < p.len()
        invariant
            j <= p.len(),
            i + p.len() <= s.len(),
            forall|q: int| 0 <= q < j ==> s@[i + q] == p@[q],
        decreases p.len() - j,
    {
        if s[i + j] != p[j] {
            assert(s@.subrange(i as int, i + p.len())[j as int] != p@[j as int]);
            return false;
        }
        j = j + 1;
    }
    assert(s@.subrange(i as int, i + p.len()) =~= p@);
    true
}

fn find_bytes(s: &[u8], p: &[u8], from: usize) -> (res: Option<usize>)
    requires
        from <= s.len(),
    ensures
        match res {
            Some(i) => first_bytes_at(s@, p@, from as int) == Some(i as int),
            None => first_bytes_at(s@, p@, from as int) is None,
        },
{
    if p.len() == 0 {
        assert(s@.subrange(from as int, from as int) =~= p@);
        return Some(from);
    }
    let mut k: usize = from;
    while k <= s.len() && p.len() <= s.len() - k
        invariant
            from <= k,
            p.len() > 0,
            first_bytes_at(s@, p@, from as int) == first_bytes_at(s@, p@, k as int),
        decreases s.len() + 1 - k,
    {
        if bytes_match_at(s, p, k) {
            return Some(k);
        }
        k = k + 1;
    }
    None
}

/// The pieces of the text with bytes `tb` from byte `pos` on, the search
/// matches marked: `tlb` and `qlb` are the bytes of the lowercased text and
/// query, each occurrence of `qlb` in `tlb` marks the same byte range of
/// the text, and the text between matches is split as `text_pieces` does.
/// `None` where a range does not start and end at characters of the text
/// (the text cannot be cut there), or when the lowercased query is empty
/// (the search would not end).
pub open spec fn byte_match_pieces(
    tb: Seq<u8>,
    tlb: Seq<u8>,
    qlb: Seq<u8>,
    pos: int,
    numbers: Seq<usize>,
) -> Option<Seq<(SegmentStyle, Seq<char>)>>
    decreases tb.len() - pos,
{
    if qlb.len() == 0 || pos < 0 || pos > tb.len() || !is_char_boundary(tb, pos) {
        None
    } else {
        match first_bytes_at(tlb, qlb, pos) {
            None => Some(
                if pos < tb.len() {
                    text_pieces(decode_utf8(tb.subrange(pos, tb.len() as int)), numbers)
                } else {
                    seq![]
                },
            ),
            Some(s) => {
                let e = s + qlb.len();
                proof {
                    lemma_first_bytes_bounds(tlb, qlb, pos);
                }
                if e <= tb.len() && is_char_boundary(tb, s) && is_char_boundary(tb, e) {
                    match byte_match_pieces(tb, tlb, qlb, e, numbers) {
                        Some(r) => Some(
                            (if s > pos {
                                text_pieces(decode_utf8(tb.subrange(pos, s)), numbers)
                            } else {
                                seq![]
                            }) + seq![(SegmentStyle::Match, decode_utf8(tb.subrange(s, e)))] + r,
                        ),
                        None => None,
                    }
                } else {
                    None
                }
            },
        }
    }
}

/// The pieces of a line of text as drawn: with an empty query only the
/// footnote references stand out; otherwise each case-insensitive match of
/// the query does too, found in the lowercased text and cut from the text
/// at the same byte positions.  `None` where those positions do not fall
/// between characters of the text.
pub open spec fn highlighted(text: Seq<char>, query: Seq<char>, numbers: Seq<usize>) -> Option<
    Seq<(SegmentStyle, Seq<char>)>,
> {
    if query.len() == 0 {
        Some(text_pieces(text, numbers))
    } else {
        match byte_match_pieces(
            encode_utf8(text),
            encode_utf8(lowercase(text)),
            encode_utf8(lowercase(query)),
            0,
            numbers,
        ) {
            Some(r) => Some(
                if r.len() == 0 {
                    seq![(SegmentStyle::Plain, text)]
                } else {
                    r
                },
            ),
            None => None,
        }
    }
}

/// The part of `text` between two byte positions that fall between its
/// characters.
fn byte_slice(text: &str, from: usize, to: usize) -> (res: &str)
    requires
        from <= to <= encode_utf8(text@).len(),
        is_char_boundary(encode_utf8(text@), from as int),
        is_char_boundary(encode_utf8(text@), to as int),
    ensures
        res@ == decode_utf8(encode_utf8(text@).subrange(from as int, to as int)),
{
    broadcast use vstd::utf8::encode_utf8_valid_utf8, vstd::utf8::encode_utf8_decode_utf8;

    let ghost b = encode_utf8(text@);
    let (_, rest) = text.split_at(from);
    let ghost rb = encode_utf8(rest@);
    assert(rb =~= b.subrange(from as int, b.len() as int));
    proof {
        vstd::utf8::encode_utf8_valid_utf8(rest@);
        if to < b.len() {
            vstd::utf8::is_char_boundary_iff_not_is_continuation_byte(b, to as int);
            vstd::utf8::is_char_boundary_iff_not_is_continuation_byte(rb, to - from);
            assert(rb[to - from] == b[to as int]);
        } else {
            vstd::utf8::is_char_boundary_start_end_of_seq(rb);
        }
    }
    let (mid, _) = rest.split_at(to - from);
    assert(encode_utf8(mid@) =~= b.subrange(from as int, to as int));
    proof {
        vstd::utf8::encode_utf8_decode_utf8(mid@);
    }
    mid
}

fn pieces_between(text: &str, from: usize, to: usize, notes: &Vec<FootnoteInfo>, out: &mut Vec<Segment>)
    requires
        from <= to <= encode_utf8(text@).len(),
        is_char_boundary(encode_utf8(text@), from as int),
        is_char_boundary(encode_utf8(text@), to as int),
    ensures
        segment_views(final(out)@) == segment_views(old(out)@) + text_pieces(
            decode_utf8(encode_utf8(text@).subrange(from as int, to as int)),
            note_numbers(notes@),
        ),
{
    let part = byte_slice(text, from, to);
    let segs = process_text_segment(part, notes);
    append_segments(out, segs);
}

/// The styled pieces of a line of text for a search query, or `None` where
/// the matches found in the lowercased text cannot be cut from the text at
/// the same byte positions.
pub fn try_highlight_search(text: &str, query: &str, notes: &Vec<FootnoteInfo>) -> (res: Option<
    Vec<Segment>,
>)
    ensures
        match res {
            Some(v) => highlighted(text@, query@, note_numbers(notes@)) == Some(segment_views(v@)),
            None => highlighted(text@, query@, note_numbers(notes@)) is None,
        },
{
    broadcast use vstd::utf8::encode_utf8_valid_utf8;

    if query.is_empty() {
        return Some(process_text_segment(text, notes));
    }
    assert(query@.len() > 0);
    let ghost nums = note_numbers(notes@);
    let tl = to_lowercase(text);
    let ql = to_lowercase(query);
    let tb = text.as_bytes();
    let tlb = tl.as_str().as_bytes();
    let qlb = ql.as_str().as_bytes();
    let ghost tbv = encode_utf8(text@);
    assert(tb@ == tbv);
    if qlb.len() == 0 {
        return None;
    }
    proof {
        vstd::utf8::encode_utf8_valid_utf8(text@);
        vstd::utf8::is_char_boundary_start_end_of_seq(tbv);
    }
    let mut out: Vec<Segment> = Vec::new();
    let mut pos: usize = 0;
    loop
        invariant_except_break
            pos <= tb.len(),
            tb@ == tbv,
            tbv == encode_utf8(text@),
            encode_utf8(text@) == tbv,
            tlb@ == encode_utf8(lowercase(text@)),
            qlb@ == encode_utf8(lowercase(query@)),
            qlb.len() > 0,
            query@.len() > 0,
            nums == note_numbers(notes@),
            valid_utf8(tbv),
            is_char_boundary(tbv, pos as int),
            is_char_boundary(tbv, tbv.len() as int),
            byte_match_pieces(tbv, tlb@, qlb@, 0, nums) == (match byte_match_pieces(
                tbv,
                tlb@,
                qlb@,
                pos as int,
                nums,
            ) {
                Some(r) => Some(segment_views(out@) + r),
                None => None,
            }),
        ensures
            byte_match_pieces(tbv, tlb@, qlb@, 0, nums) == Some(segment_views(out@)),
        decreases tb.len() - pos,
    {
        let found = if pos <= tlb.len() {
            find_bytes(tlb, qlb, pos)
        } else {
            None
        };
        match found {
            Some(s) => {
                proof {
                    lemma_first_bytes_bounds(tlb@, qlb@, pos as int);
                }
                let e = s + qlb.len();
                if e > tb.len() || !text.is_char_boundary(s) || !text.is_char_boundary(e) {
                    assert(byte_match_pieces(tbv, tlb@, qlb@, pos as int, nums) is None);
                    assert(byte_match_pieces(tbv, tlb@, qlb@, 0, nums) is None);
                    assert(query@.len() > 0);
                    return None;
                }
                let ghost before_out = segment_views(out@);
                if s > pos {
                    pieces_between(text, pos, s, notes, &mut out);
                }
                let m = Segment { text: byte_slice(text, s, e).to_string(), style: SegmentStyle::Match };
                push_segment(&mut out, m);
                let ghost before = if s > pos {
                    text_pieces(decode_utf8(tbv.subrange(pos as int, s as int)), nums)
                } else {
                    seq![]
                };
                assert(segment_views(out@) =~= before_out + before + seq![
                    (SegmentStyle::Match, decode_utf8(tbv.subrange(s as int, e as int))),
                ]);
                proof {
                    match byte_match_pieces(tbv, tlb@, qlb@, e as int, nums) {
                        Some(r) => {
                            assert(before_out + (before + seq![
                                (SegmentStyle::Match, decode_utf8(tbv.subrange(s as int, e as int))),
                            ] + r) =~= segment_views(out@) + r);
                        },
                        None => {},
                    }
                }
                pos = e;
            },
            None => {
                proof {
                    if pos > tlb.len() {
                        assert(first_bytes_at(tlb@, qlb@, pos as int) is None);
                    }
                }
                if pos < tb.len() {
                    pieces_between(text, pos, tb.len(), notes, &mut out);
                } else {
                    assert(segment_views(out@) + Seq::<(SegmentStyle, Seq<char>)>::empty() =~= segment_views(
                        out@,
                    ));
                }
                break;
            },
        }
    }
    if out.len() == 0 {
        let whole = Segment { text: text.to_string(), style: SegmentStyle::Plain };
        push_segment(&mut out, whole);
    }
    Some(out)
}

/// The styled pieces of a line of text for a search query, on the texts
/// where the matches can be cut from the text (see `try_highlight_search`).
pub fn highlight_search(text: &str, query: &str, notes: &Vec<FootnoteInfo>) -> (res: Vec<Segment>)
    requires
        highlighted(text@, query@, note_numbers(notes@)) is Some,
    ensures
        highlighted(text@, query@, note_numbers(notes@)) == Some(segment_views(res@)),
{
    match try_highlight_search(text, query, notes) {
        Some(v) => v,
        None => Vec::new(),
    }
}

} // verus!

verus! {

/// A laid-out line as drawn: a title line (marked `^:`) loses its marker,
/// every line loses its footnote markers (`^f:`).
pub open spec fn shown_text(line: Seq<char>) -> Seq<char> {
    let body = if crate::text::starts_with(line, "^:"@) {
        line.skip(2)
    } else {
        line
    };
    crate::text::replace_all(body, "^f:"@, seq![])
}

/// The pieces of a laid-out line: whether it is a title line, and its
/// pieces (a title line is one piece, drawn as a title).  On a line that is
/// no title, the search matches must be cuttable from the shown text (see
/// `try_display_line`).
pub fn display_line(line: &str, query: &str, notes: &Vec<FootnoteInfo>) -> (res: (bool, Vec<Segment>))
    requires
        !crate::text::starts_with(line@, "^:"@) ==> highlighted(shown_text(line@), query@, note_numbers(notes@))
            is Some,
    ensures
        res.0 == crate::text::starts_with(line@, "^:"@),
        res.0 ==> segment_views(res.1@) == seq![(SegmentStyle::Plain, shown_text(line@))],
        !res.0 ==> highlighted(shown_text(line@), query@, note_numbers(notes@)) == Some(segment_views(res.1@)),
{
    let c = str_chars(line);
    let marker = str_chars("^:");
    let header = crate::text::starts_with_chars(&c, &marker);
    let body = if header {
        proof {
            reveal_strlit("^:");
        }
        sub_chars(&c, 2, c.len())
    } else {
        c
    };
    proof {
        if header {
            assert(body@ =~= line@.skip(2));
        }
    }
    let fm = str_chars("^f:");
    let none: Vec<char> = Vec::new();
    assert(none@ =~= Seq::<char>::empty());
    let text = chars_to_string(&crate::text::replace_chars(&body, &fm, &none));
    if header {
        let mut v: Vec<Segment> = Vec::new();
        push_segment(&mut v, Segment { text, style: SegmentStyle::Plain });
        (true, v)
    } else {
        (false, highlight_search(text.as_str(), query, notes))
    }
}

/// The text of a laid-out line as shown.
fn shown_line(line: &str) -> (res: String)
    ensures
        res@ == shown_text(line@),
{
    let c = str_chars(line);
    let marker = str_chars("^:");
    let header = crate::text::starts_with_chars(&c, &marker);
    let body = if header {
        proof {
            reveal_strlit("^:");
        }
        sub_chars(&c, 2, c.len())
    } else {
        c
    };
    proof {
        if header {
            assert(body@ =~= line@.skip(2));
        }
    }
    let fm = str_chars("^f:");
    let none: Vec<char> = Vec::new();
    assert(none@ =~= Seq::<char>::empty());
    chars_to_string(&crate::text::replace_chars(&body, &fm, &none))
}

/// `display_line` where the search matches can be cut from the shown text,
/// `None` where they cannot.
pub fn try_display_line(line: &str, query: &str, notes: &Vec<FootnoteInfo>) -> (res: Option<
    (bool, Vec<Segment>),
>)
    ensures
        match res {
            Some(r) => {
                &&& crate::text::starts_with(line@, "^:"@) || highlighted(shown_text(line@), query@, note_numbers(notes@)) is Some
                &&& r.0 == crate::text::starts_with(line@, "^:"@)
                &&& r.0 ==> segment_views(r.1@) == seq![(SegmentStyle::Plain, shown_text(line@))]
                &&& !r.0 ==> highlighted(shown_text(line@), query@, note_numbers(notes@)) == Some(segment_views(r.1@))
            },
            None => !crate::text::starts_with(line@, "^:"@) && highlighted(shown_text(line@), query@, note_numbers(notes@)) is None,
        },
{
    let c = str_chars(line);
    let marker = str_chars("^:");
    if !crate::text::starts_with_chars(&c, &marker) {
        let text = shown_line(line);
        if try_highlight_search(text.as_str(), query, notes).is_none() {
            return None;
        }
    }
    Some(display_line(line, query, notes))
}

} // verus!

verus! {

// ---------------------------------------------------------------------------
// List selections and labels
// ---------------------------------------------------------------------------

/// A selection kept within a list of `len` rows (0 for an empty list).
pub open spec fn clamped(index: int, len: int) -> int {
    if len <= 0 {
        0
    } else if index >= len {
        len - 1
    } else {
        index
    }
}

/// Keeps a selection within a list of `len` rows.
pub fn clamp_selection(index: usize, len: usize) -> (res: usize)
    ensures
        res == clamped(index as int, len as int),
{
    if len == 0 {
        0
    } else if index >= len {
        len - 1
    } else {
        index
    }
}

/// A number as written in decimal, with a minus sign when negative.
pub open spec fn int_decimal(n: int) -> Seq<char> {
    if n < 0 {
        seq!['-'] + decimal((-n) as nat)
    } else {
        decimal(n as nat)
    }
}

fn i32_chars(n: i32) -> (res: Vec<char>)
    ensures
        res@ == int_decimal(n as int),
{
    if n < 0 {
        let m = (0i64 - n as i64) as usize;
        let mut r: Vec<char> = vec!['-'];
        let d = usize_to_chars(m);
        push_all(&mut r, &d);
        assert(r@ =~= seq!['-'] + decimal((-(n as int)) as nat));
        r
    } else {
        usize_to_chars(n as usize)
    }
}

/// How a book is listed in the library: title and author (author first
/// when ordered by author), or series, number and title when ordered by
/// series; a book without an entry is listed as untitled and of unknown
/// author.
pub open spec fn entry_label(e: Option<BookEntry>, mode: SortMode) -> Seq<char> {
    let title = match e {
        Some(b) => b.title@,
        None => "Без названия"@,
    };
    let author = match e {
        Some(b) => b.author@,
        None => "Неизвестен"@,
    };
    let series = match e {
        Some(b) => b.series@,
        None => seq![],
    };
    let num = match e {
        Some(b) => b.series_num as int,
        None => 0,
    };
    match mode {
        SortMode::Author => seq![' '] + author + " — "@ + title,
        SortMode::Series => if series.len() == 0 {
            seq![' '] + title
        } else {
            seq![' ', '('] + series + seq![',', ' ', '#'] + int_decimal(num) + seq![')', ' '] + title
        },
        SortMode::Title => seq![' '] + title + " — "@ + author,
    }
}

/// The line that lists a book in the library.
pub fn book_label(e: &Option<BookEntry>, mode: SortMode) -> (res: String)
    ensures
        res@ == entry_label(*e, mode),
{
    let title = match e {
        Some(b) => str_chars(b.title.as_str()),
        None => str_chars("Без названия"),
    };
    let author = match e {
        Some(b) => str_chars(b.author.as_str()),
        None => str_chars("Неизвестен"),
    };
    let series = match e {
        Some(b) => str_chars(b.series.as_str()),
        None => Vec::new(),
    };
    let num: i32 = match e {
        Some(b) => b.series_num,
        None => 0,
    };
    let dash = str_chars(" — ");
    let mut r: Vec<char> = vec![' '];
    match mode {
        SortMode::Author => {
            push_all(&mut r, &author);
            push_all(&mut r, &dash);
            push_all(&mut r, &title);
        },
        SortMode::Series => {
            if series.len() == 0 {
                push_all(&mut r, &title);
            } else {
                r.push('(');
                push_all(&mut r, &series);
                r.push(',');
                r.push(' ');
                r.push('#');
                push_all(&mut r, &i32_chars(num));
                r.push(')');
                r.push(' ');
                push_all(&mut r, &title);
            }
        },
        SortMode::Title => {
            push_all(&mut r, &title);
            push_all(&mut r, &dash);
            push_all(&mut r, &author);
        },
    }
    proof {
        if series.len() == 0 && mode == SortMode::Series {
            assert(series@ =~= Seq::<char>::empty());
        }
    }
    assert(r@ =~= entry_label(*e, mode));
    chars_to_string(&r)
}

/// `s` without every leading repetition of `p`.
pub open spec fn strip_prefixes(s: Seq<char>, p: Seq<char>) -> Seq<char>
    decreases s.len(),
{
    if p.len() > 0 && crate::text::starts_with(s, p) {
        strip_prefixes(s.skip(p.len() as int), p)
    } else {
        s
    }
}

/// The preview of a bookmark: the first 50 characters of its line, without
/// a title marker and surrounding whitespace (`...` when the line is not
/// in the text).
pub open spec fn bookmark_preview(lines: Seq<Seq<char>>, line: int) -> Seq<char> {
    let t = if 0 <= line < lines.len() {
        trim(strip_prefixes(lines[line], "^:"@))
    } else {
        "..."@
    };
    if t.len() > 50 {
        t.take(50)
    } else {
        t
    }
}

/// The text shown for a bookmark at `line`.
pub fn bookmark_text(lines: &Vec<String>, line: usize) -> (res: String)
    ensures
        res@ == bookmark_preview(string_views(lines@), line as int),
{
    let t = if line < lines.len() {
        let mut c = str_chars(lines[line].as_str());
        let marker = str_chars("^:");
        proof {
            reveal_strlit("^:");
        }
        let ghost full = c@;
        while c.len() >= 2 && c[0] == '^' && c[1] == ':'
            invariant
                marker@ == "^:"@,
                strip_prefixes(full, "^:"@) == strip_prefixes(c@, "^:"@),
            decreases c.len(),
        {
            proof {
                reveal_strlit("^:");
            }
            assert(crate::text::starts_with(c@, "^:"@)) by {
                assert(c@.subrange(0, 2) =~= "^:"@);
            }
            let rest = sub_chars(&c, 2, c.len());
            assert(rest@ =~= c@.skip(2));
            c = rest;
        }
        proof {
            reveal_strlit("^:");
            if c@.len() >= 2 {
                assert(!crate::text::starts_with(c@, "^:"@)) by {
                    if crate::text::starts_with(c@, "^:"@) {
                        assert(c@.subrange(0, 2)[0] == '^' && c@.subrange(0, 2)[1] == ':');
                    }
                }
            } else {
                assert(!crate::text::starts_with(c@, "^:"@));
            }
        }
        trim_chars(&c)
    } else {
        str_chars("...")
    };
    if t.len() > 50 {
        chars_to_string(&sub_chars(&t, 0, 50))
    } else {
        chars_to_string(&t)
    }
}

// ---------------------------------------------------------------------------
// The footnote pop-up text
// ---------------------------------------------------------------------------

/// The pieces of `s` between `'\n'` characters (`str::split('\n')`), the
/// current piece being `cur`.
pub open spec fn split_nl_from(s: Seq<char>, cur: Seq<char>) -> Seq<Seq<char>>
    decreases s.len(),
{
    if s.len() == 0 {
        seq![cur]
    } else if s[0] == '\n' {
        seq![cur] + split_nl_from(s.drop_first(), seq![])
    } else {
        split_nl_from(s.drop_first(), cur.push(s[0]))
    }
}

pub open spec fn split_nl(s: Seq<char>) -> Seq<Seq<char>> {
    split_nl_from(s, seq![])
}

/// The lines of the footnote pop-up: each line of the text wrapped to
/// `width` columns, an empty line kept empty.
pub open spec fn note_lines_of(ps: Seq<Seq<char>>, width: nat) -> Seq<Seq<char>>
    decreases ps.len(),
{
    if ps.len() == 0 {
        seq![]
    } else {
        note_lines_of(ps.drop_last(), width) + if ps.last().len() == 0 {
            seq![seq![]]
        } else {
            wrap_lines(ps.last(), width)
        }
    }
}

fn split_newlines(s: &Vec<char>) -> (res: Vec<Vec<char>>)
    ensures
        crate::text::views(res@) == split_nl(s@),
{
    let mut res: Vec<Vec<char>> = Vec::new();
    let mut cur: Vec<char> = Vec::new();
    let mut i: usize = 0;
    assert(s@.skip(0) =~= s@);
    assert(crate::text::views(res@) =~= Seq::<Seq<char>>::empty());
    assert(cur@ =~= Seq::<char>::empty());
    while i < s.len()
        invariant
            i <= s.len(),
            crate::text::views(res@) + split_nl_from(s@.skip(i as int), cur@) == split_nl(s@),
        decreases s.len() - i,
    {
        let ghost rest = s@.skip(i as int);
        assert(rest.drop_first() == s@.skip(i + 1));
        assert(rest[0] == s@[i as int]);
        if s[i] == '\n' {
            let ghost old_res = crate::text::views(res@);
            let ghost cv = cur@;
            res.push(cur);
            assert(crate::text::views(res@) =~= old_res.push(cv));
            cur = Vec::new();
            assert(cur@ =~= Seq::<char>::empty());
            assert(old_res.push(cv) + split_nl_from(s@.skip(i + 1), cur@) =~= old_res + split_nl_from(
                rest,
                cv,
            ));
        } else {
            cur.push(s[i]);
        }
        i = i + 1;
    }
    let ghost old_res = crate::text::views(res@);
    let ghost cv = cur@;
    res.push(cur);
    assert(crate::text::views(res@) =~= old_res.push(cv));
    assert(s@.skip(s.len() as int) =~= Seq::<char>::empty());
    res
}

/// The lines of the footnote pop-up for `text` at `width` columns.
pub fn note_lines(text: &str, width: usize) -> (res: Vec<String>)
    ensures
        string_views(res@) == note_lines_of(split_nl(text@), width as nat),
{
    let c = str_chars(text);
    let ps = split_newlines(&c);
    let ghost pv = crate::text::views(ps@);
    let mut res: Vec<String> = Vec::new();
    let mut i: usize = 0;
    assert(pv.take(0) =~= Seq::<Seq<char>>::empty());
    while i < ps.len()
        invariant
            i <= ps.len(),
            pv == crate::text::views(ps@),
            string_views(res@) == note_lines_of(pv.take(i as int), width as nat),
        decreases ps.len() - i,
    {
        let ghost before = string_views(res@);
        assert(pv.take(i + 1).drop_last() =~= pv.take(i as int));
        assert(pv.take(i + 1).last() == ps@[i as int]@);
        if ps[i].len() == 0 {
            res.push(String::new());
            assert(string_views(res@) =~= before + seq![Seq::<char>::empty()]);
        } else {
            let piece = chars_to_string(&ps[i]);
            let f = crate::layout::textwrap_fill(piece.as_str(), width);
            let fc = str_chars(f.as_str());
            let ls = crate::text::split_lines(&fc);
            let mut j: usize = 0;
            while j < ls.len()
                invariant
                    j <= ls.len(),
                    string_views(res@) == before + crate::text::views(ls@).take(j as int),
                decreases ls.len() - j,
            {
                let ghost b2 = string_views(res@);
                res.push(chars_to_string(&ls[j]));
                assert(string_views(res@) =~= b2.push(ls@[j as int]@));
                assert(crate::text::views(ls@).take(j + 1) =~= crate::text::views(ls@).take(j as int).push(
                    ls@[j as int]@,
                ));
                j = j + 1;
            }
            assert(crate::text::views(ls@).take(ls.len() as int) =~= crate::text::views(ls@));
            assert(crate::text::views(ls@) == wrap_lines(ps@[i as int]@, width as nat));
        }
        i = i + 1;
    }
    assert(pv.take(ps.len() as int) =~= pv);
    res
}

} // verus!

verus! {

// ---------------------------------------------------------------------------
// The pieces of a line give the line back
// ---------------------------------------------------------------------------

/// The texts of the pieces, one after another.
pub open spec fn joined(ps: Seq<(SegmentStyle, Seq<char>)>) -> Seq<char>
    decreases ps.len(),
{
    if ps.len() == 0 {
        seq![]
    } else {
        joined(ps.drop_last()) + ps.last().1
    }
}

proof fn lemma_joined_concat(a: Seq<(SegmentStyle, Seq<char>)>, b: Seq<(SegmentStyle, Seq<char>)>)
    ensures
        joined(a + b) == joined(a) + joined(b),
    decreases b.len(),
{
    if b.len() == 0 {
        assert(a + b =~= a);
        assert(joined(a) + Seq::<char>::empty() =~= joined(a));
    } else {
        lemma_joined_concat(a, b.drop_last());
        assert((a + b).drop_last() =~= a + b.drop_last());
        assert(joined(a) + joined(b.drop_last()) + b.last().1 =~= joined(a) + (joined(b.drop_last())
            + b.last().1));
    }
}

proof fn lemma_joined_one(x: (SegmentStyle, Seq<char>))
    ensures
        joined(seq![x]) == x.1,
{
    let e = Seq::<(SegmentStyle, Seq<char>)>::empty();
    assert(seq![x].drop_last() =~= e);
    assert(joined(e) == Seq::<char>::empty());
    assert(seq![x].last() == x);
    assert(joined(seq![x]) == joined(e) + x.1);
    assert(Seq::<char>::empty() + x.1 =~= x.1);
}

proof fn lemma_pieces_from_joined(t: Seq<char>, k: int, numbers: Seq<usize>)
    requires
        0 <= k <= t.len(),
    ensures
        joined(pieces_from(t, k, numbers)) == t.skip(k),
        forall|i: int|
            0 <= i < pieces_from(t, k, numbers).len() && (#[trigger] pieces_from(t, k, numbers)[i]).0
                == SegmentStyle::Footnote ==> {
                let p = pieces_from(t, k, numbers)[i].1;
                &&& p.len() >= 2 && p[0] == '[' && p[p.len() - 1] == ']'
                &&& ref_number(p.subrange(1, p.len() - 1)) matches Some(n) && numbers.contains(n)
            },
    decreases t.len() - k,
{
    lemma_char_pos(t, '[', k);
    let tail = plain_tail(t, k);
    if k < t.len() {
        lemma_joined_one((SegmentStyle::Plain, t.skip(k)));
    } else {
        assert(t.skip(k) =~= Seq::<char>::empty());
    }
    match char_pos(t, '[', k) {
        None => {},
        Some(a) => {
            lemma_char_pos(t, ']', a);
            match char_pos(t, ']', a) {
                None => {},
                Some(b) => {
                    match ref_number(t.subrange(a + 1, b)) {
                        None => {},
                        Some(n) => {
                            let before: Seq<(SegmentStyle, Seq<char>)> = if a > k {
                                seq![(SegmentStyle::Plain, t.subrange(k, a))]
                            } else {
                                seq![]
                            };
                            let style = if numbers.contains(n) {
                                SegmentStyle::Footnote
                            } else {
                                SegmentStyle::Plain
                            };
                            let mid = seq![(style, t.subrange(a, b + 1))];
                            let rest = pieces_from(t, b + 1, numbers);
                            lemma_pieces_from_joined(t, b + 1, numbers);
                            lemma_joined_concat(before + mid, rest);
                            lemma_joined_concat(before, mid);
                            lemma_joined_one((style, t.subrange(a, b + 1)));
                            if a > k {
                                lemma_joined_one((SegmentStyle::Plain, t.subrange(k, a)));
                                assert(joined(before) == t.subrange(k, a));
                            } else {
                                assert(joined(before) =~= Seq::<char>::empty());
                            }
                            assert(t.subrange(k, a) + t.subrange(a, b + 1) + t.skip(b + 1) =~= t.skip(k));
                            let all = before + mid + rest;
                            assert forall|i: int|
                                0 <= i < all.len() && (#[trigger] all[i]).0 == SegmentStyle::Footnote implies {
                                let p = all[i].1;
                                &&& p.len() >= 2 && p[0] == '[' && p[p.len() - 1] == ']'
                                &&& ref_number(p.subrange(1, p.len() - 1)) matches Some(n) && numbers.contains(n)
                            } by {
                                if i < before.len() {
                                } else if i == before.len() {
                                    let p = t.subrange(a, b + 1);
                                    assert(all[i] == (style, p));
                                    assert(p.subrange(1, p.len() - 1) =~= t.subrange(a + 1, b));
                                } else {
                                    assert(all[i] == rest[i - before.len() - 1]);
                                }
                            }
                        },
                    }
                },
            }
        },
    }
}

/// The pieces of a text, joined, give the text back; a piece drawn as a
/// footnote reference is a bracketed number of a footnote of the book.
pub proof fn law_pieces_give_text(t: Seq<char>, numbers: Seq<usize>)
    ensures
        joined(text_pieces(t, numbers)) == t,
        forall|i: int|
            0 <= i < text_pieces(t, numbers).len() && (#[trigger] text_pieces(t, numbers)[i]).0
                == SegmentStyle::Footnote ==> {
                let p = text_pieces(t, numbers)[i].1;
                &&& p.len() >= 2 && p[0] == '[' && p[p.len() - 1] == ']'
                &&& ref_number(p.subrange(1, p.len() - 1)) matches Some(n) && numbers.contains(n)
            },
{
    lemma_pieces_from_joined(t, 0, numbers);
    assert(t.skip(0) =~= t);
    lemma_joined_one((SegmentStyle::Plain, t));
}

} // verus!

verus! {

proof fn lemma_boundary_in_tail(b: Seq<u8>, i: int, j: int)
    requires
        valid_utf8(b),
        0 <= i <= j <= b.len(),
        is_char_boundary(b, i),
        is_char_boundary(b, j),
    ensures
        valid_utf8(b.subrange(i, b.len() as int)),
        is_char_boundary(b.subrange(i, b.len() as int), j - i),
{
    vstd::utf8::valid_utf8_split(b, i);
    let y = b.subrange(i, b.len() as int);
    if j < b.len() {
        vstd::utf8::is_char_boundary_iff_not_is_continuation_byte(b, j);
        vstd::utf8::is_char_boundary_iff_not_is_continuation_byte(y, j - i);
        assert(y[j - i] == b[j]);
    } else {
        vstd::utf8::is_char_boundary_start_end_of_seq(y);
    }
}

proof fn lemma_decode_cut(b: Seq<u8>, i: int, j: int, k: int)
    requires
        valid_utf8(b),
        0 <= i <= j <= k <= b.len(),
        is_char_boundary(b, i),
        is_char_boundary(b, j),
        is_char_boundary(b, k),
    ensures
        decode_utf8(b.subrange(i, k)) == decode_utf8(b.subrange(i, j)) + decode_utf8(b.subrange(j, k)),
{
    let y = b.subrange(i, b.len() as int);
    lemma_boundary_in_tail(b, i, k);
    lemma_boundary_in_tail(b, i, j);
    vstd::utf8::valid_utf8_split(y, k - i);
    let x = y.subrange(0, k - i);
    assert(x =~= b.subrange(i, k));
    if j < k {
        vstd::utf8::is_char_boundary_iff_not_is_continuation_byte(y, j - i);
        vstd::utf8::is_char_boundary_iff_not_is_continuation_byte(x, j - i);
        assert(x[j - i] == y[j - i]);
    } else {
        vstd::utf8::is_char_boundary_start_end_of_seq(x);
    }
    vstd::utf8::decode_utf8_split(x, j - i);
    assert(x.subrange(0, j - i) =~= b.subrange(i, j));
    assert(x.subrange(j - i, x.len() as int) =~= b.subrange(j, k));
}

proof fn lemma_match_pieces_joined(tb: Seq<u8>, tlb: Seq<u8>, qlb: Seq<u8>, pos: int, numbers: Seq<usize>)
    requires
        valid_utf8(tb),
    ensures
        byte_match_pieces(tb, tlb, qlb, pos, numbers) matches Some(r) ==> joined(r) == decode_utf8(
            tb.subrange(pos, tb.len() as int),
        ),
    decreases tb.len() - pos,
{
    if byte_match_pieces(tb, tlb, qlb, pos, numbers) is Some {
        vstd::utf8::is_char_boundary_start_end_of_seq(tb);
        let len = tb.len() as int;
        match first_bytes_at(tlb, qlb, pos) {
            None => {
                if pos < len {
                    law_pieces_give_text(decode_utf8(tb.subrange(pos, len)), numbers);
                } else {
                    assert(tb.subrange(pos, len) =~= Seq::<u8>::empty());
                    assert(decode_utf8(Seq::<u8>::empty()) =~= Seq::<char>::empty());
                }
            },
            Some(s) => {
                lemma_first_bytes_bounds(tlb, qlb, pos);
                let e = s + qlb.len();
                lemma_match_pieces_joined(tb, tlb, qlb, e, numbers);
                let r = byte_match_pieces(tb, tlb, qlb, e, numbers)->0;
                let before: Seq<(SegmentStyle, Seq<char>)> = if s > pos {
                    text_pieces(decode_utf8(tb.subrange(pos, s)), numbers)
                } else {
                    seq![]
                };
                let mid = seq![(SegmentStyle::Match, decode_utf8(tb.subrange(s, e)))];
                lemma_joined_concat(before + mid, r);
                lemma_joined_concat(before, mid);
                lemma_joined_one((SegmentStyle::Match, decode_utf8(tb.subrange(s, e))));
                if s > pos {
                    law_pieces_give_text(decode_utf8(tb.subrange(pos, s)), numbers);
                } else {
                    assert(joined(before) =~= Seq::<char>::empty());
                    assert(tb.subrange(pos, s) =~= Seq::<u8>::empty());
                    assert(decode_utf8(Seq::<u8>::empty()) =~= Seq::<char>::empty());
                }
                lemma_decode_cut(tb, pos, s, len);
                lemma_decode_cut(tb, s, e, len);
                assert(decode_utf8(tb.subrange(pos, s)) + decode_utf8(tb.subrange(s, e)) + decode_utf8(
                    tb.subrange(e, len),
                ) =~= decode_utf8(tb.subrange(pos, len)));
            },
        }
    }
}

/// A highlighted line, joined, gives the line back: the search matches and
/// the text around them together are the whole line, in order.
pub proof fn law_highlight_gives_text(text: Seq<char>, query: Seq<char>, numbers: Seq<usize>)
    ensures
        highlighted(text, query, numbers) matches Some(r) ==> joined(r) == text,
{
    if query.len() == 0 {
        law_pieces_give_text(text, numbers);
    } else {
        let tb = encode_utf8(text);
        vstd::utf8::encode_utf8_valid_utf8(text);
        vstd::utf8::encode_utf8_decode_utf8(text);
        lemma_match_pieces_joined(tb, encode_utf8(lowercase(text)), encode_utf8(lowercase(query)), 0, numbers);
        assert(tb.subrange(0, tb.len() as int) =~= tb);
        lemma_joined_one((SegmentStyle::Plain, text));
    }
}

} // verus!
