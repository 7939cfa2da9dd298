//! Line layout of a parsed book: wrapping, centring of titles and
//! justification of body text.
use vstd::prelude::*;
use crate::text::{
    chars_to_string, count_lead_spaces, sub_chars, join, join_chars, lead_spaces, lead_ws, lemma_lead_ws,
    lemma_trail_ws, push_all, push_repeat, spaces, split_words, str_chars, trim, trim_chars,
    trim_start, views, words, words_from, is_ws, lines, replace_all, replace_chars, split_lines,
    string_views, to_uppercase, uppercase, trail_ws,
};
use crate::fb2_parser::{Paragraph, ParagraphKind, para_views};

verus! {

/// Sum of the lengths of the words.
pub open spec fn total_len(ws: Seq<Seq<char>>) -> nat
    decreases ws.len(),
{
    if ws.len() == 0 {
        0
    } else {
        total_len(ws.drop_last()) + ws.last().len()
    }
}

/// Width of the gap after word `i` when `sw` spaces go to every gap and one
/// more to each of the first `rem` gaps; a gap is never narrower than one.
pub open spec fn gap_width(i: nat, sw: nat, rem: nat) -> nat {
    let w = if i < rem {
        sw + 1
    } else {
        sw
    };
    if w < 1 {
        1
    } else {
        w
    }
}

/// The words laid out with the gap widths of `gap_width`.
pub open spec fn spread(ws: Seq<Seq<char>>, sw: nat, rem: nat) -> Seq<char>
    decreases ws.len(),
{
    if ws.len() == 0 {
        seq![]
    } else if ws.len() == 1 {
        ws[0]
    } else {
        spread(ws.drop_last(), sw, rem) + spaces(gap_width((ws.len() - 2) as nat, sw, rem))
            + ws.last()
    }
}

/// The justified form of `line` at `width` columns: the leading spaces are
/// kept and the words are spread so that the line fills `width` columns;
/// a line of at most one word is returned unchanged, and a line too long to
/// widen gets single spaces.
pub open spec fn justify_spec(line: Seq<char>, width: nat) -> Seq<char> {
    let indent = lead_spaces(line);
    let ws = words(trim(line));
    if ws.len() <= 1 {
        line
    } else if total_len(ws) + indent >= width {
        spaces(indent) + join(ws, seq![' '])
    } else {
        let total_spaces = (width - total_len(ws) - indent) as nat;
        let gaps = (ws.len() - 1) as nat;
        spaces(indent) + spread(ws, total_spaces / gaps, total_spaces % gaps)
    }
}

proof fn lemma_total_len_single(w: Seq<char>)
    ensures
        total_len(seq![w]) == w.len(),
{
    assert(seq![w].drop_last() =~= Seq::<Seq<char>>::empty());
    assert(total_len(Seq::<Seq<char>>::empty()) == 0);
}

proof fn lemma_total_len_words_from(s: Seq<char>, cur: Seq<char>)
    ensures
        total_len(words_from(s, cur)) <= s.len() + cur.len(),
    decreases s.len(),
{
    if s.len() == 0 {
        lemma_total_len_single(cur);
    } else if is_ws(s[0]) {
        lemma_total_len_words_from(s.drop_first(), seq![]);
        let rest = words_from(s.drop_first(), seq![]);
        if cur.len() > 0 {
            assert(words_from(s, cur) == seq![cur] + rest);
            lemma_total_len_append(seq![cur], rest);
            lemma_total_len_single(cur);
        } else {
            assert(words_from(s, cur) == Seq::<Seq<char>>::empty() + rest);
            assert(Seq::<Seq<char>>::empty() + rest =~= rest);
        }
    } else {
        lemma_total_len_words_from(s.drop_first(), cur.push(s[0]));
    }
}

proof fn lemma_total_len_append(a: Seq<Seq<char>>, b: Seq<Seq<char>>)
    ensures
        total_len(a + b) == total_len(a) + total_len(b),
    decreases b.len(),
{
    if b.len() == 0 {
        assert(a + b =~= a);
    } else {
        lemma_total_len_append(a, b.drop_last());
        assert((a + b).drop_last() =~= a + b.drop_last());
    }
}

proof fn lemma_trim_len(s: Seq<char>)
    ensures
        trim(s).len() + lead_ws(s) <= s.len(),
{
    lemma_lead_ws(s);
    lemma_trail_ws(trim_start(s));
}

proof fn lemma_lead_spaces_le_lead_ws(s: Seq<char>)
    ensures
        lead_spaces(s) <= lead_ws(s),
    decreases s.len(),
{
    if s.len() > 0 && s[0] == ' ' {
        lemma_lead_spaces_le_lead_ws(s.drop_first());
    }
}

/// Sum of the character counts of the words.
fn words_total_len(ws: &Vec<Vec<char>>, bound: Ghost<nat>) -> (n: usize)
    requires
        total_len(views(ws@)) <= bound@ <= usize::MAX,
    ensures
        n == total_len(views(ws@)),
{
    let mut n: usize = 0;
    let mut i: usize = 0;
    while i < ws.len()
        invariant
            i <= ws.len(),
            total_len(views(ws@)) <= bound@ <= usize::MAX,
            n == total_len(views(ws@).take(i as int)),
        decreases ws.len() - i,
    {
        proof {
            assert(views(ws@).take(i + 1).drop_last() =~= views(ws@).take(i as int));
            lemma_total_len_append(views(ws@).take(i + 1), views(ws@).skip(i + 1));
            assert(views(ws@).take(i + 1) + views(ws@).skip(i + 1) =~= views(ws@));
        }
        n = n + ws[i].len();
        i = i + 1;
    }
    assert(views(ws@).take(ws.len() as int) =~= views(ws@));
    n
}

/// Spreads `line` over `width` columns by widening the gaps between its
/// words, the leftmost gaps taking one space more when the spaces do not
/// divide evenly; leading spaces are kept as the indent.
pub fn justify_line(line: &str, width: usize) -> (res: String)
    ensures
        res@ == justify_spec(line@, width as nat),
{
    let chars = str_chars(line);
    let r = justify_chars(&chars, width);
    chars_to_string(&r)
}

/// `justify_line` on a character sequence.
pub fn justify_chars(chars: &[char], width: usize) -> (res: Vec<char>)
    ensures
        res@ == justify_spec(chars@, width as nat),
{
    let indent_count = count_lead_spaces(chars);
    let text_part = trim_chars(chars);
    let word_list = split_words(&text_part);
    if word_list.len() <= 1 {
        return sub_chars(chars, 0, chars.len());
    }
    proof {
        lemma_total_len_words_from(text_part@, Seq::<char>::empty());
        lemma_trim_len(chars@);
        lemma_lead_spaces_le_lead_ws(chars@);
        assert(words(text_part@) == words_from(text_part@, Seq::<char>::empty()));
        assert(total_len(views(word_list@)) <= text_part@.len());
        assert(text_part@.len() <= chars@.len());
        assert(chars@.len() == chars.len());
    }
    let total_chars = words_total_len(&word_list, Ghost(chars@.len()));
    let mut result: Vec<char> = Vec::new();
    push_repeat(&mut result, ' ', indent_count);
    if total_chars + indent_count >= width {
        let sep: Vec<char> = vec![' '];
        assert(sep@ =~= seq![' ']);
        let joined = join_chars(&word_list, &sep);
        push_all(&mut result, &joined);
        return result;
    }
    let total_spaces = width - total_chars - indent_count;
    let gaps = word_list.len() - 1;
    let space_width = total_spaces / gaps;
    let remainder = total_spaces % gaps;
    assert(remainder > 0 ==> space_width < usize::MAX) by (nonlinear_arith)
        requires
            remainder < gaps,
            space_width == total_spaces / gaps,
            gaps >= 1,
    {
        if remainder > 0 {
            assert(gaps >= 2);
            assert(space_width * gaps <= total_spaces);
            assert(space_width * 2 <= space_width * gaps);
        }
    }
    let ghost ws = views(word_list@);
    let mut i: usize = 0;
    while i < word_list.len()
        invariant
            0 < gaps < word_list.len(),
            gaps == word_list.len() - 1,
            ws == views(word_list@),
            i <= word_list.len(),
            space_width == total_spaces / gaps,
            remainder == total_spaces % gaps,
            remainder < gaps,
            space_width <= total_spaces,
            remainder > 0 ==> space_width < usize::MAX,
            result@ == spaces(indent_count as nat) + spread(ws.take(i as int), space_width as nat, remainder as nat),
        decreases word_list.len() - i,
    {
        let ghost before = result@;
        if i > 0 {
            let calc_spaces = if i - 1 < remainder {
                space_width + 1
            } else {
                space_width
            };
            let n = if calc_spaces < 1 {
                1
            } else {
                calc_spaces
            };
            assert(n == gap_width((i - 1) as nat, space_width as nat, remainder as nat));
            push_repeat(&mut result, ' ', n);
        }
        push_all(&mut result, &word_list[i]);
        proof {
            let t = ws.take(i + 1);
            assert(t.drop_last() =~= ws.take(i as int));
            assert(t.last() == ws[i as int]);
            if i == 0 {
                assert(spread(ws.take(0), space_width as nat, remainder as nat) =~= seq![]);
                assert(spread(t, space_width as nat, remainder as nat) == ws[0]);
            }
        }
        assert(result@ =~= spaces(indent_count as nat) + spread(ws.take(i + 1), space_width as nat, remainder as nat));
        i = i + 1;
    }
    assert(ws.take(word_list.len() as int) =~= ws);
    result
}

} // verus!

verus! {

/// Sum of the first `n` gap widths.
pub open spec fn gaps_sum(n: nat, sw: nat, rem: nat) -> nat
    decreases n,
{
    if n == 0 {
        0
    } else {
        gaps_sum((n - 1) as nat, sw, rem) + gap_width((n - 1) as nat, sw, rem)
    }
}

proof fn lemma_spread_len(ws: Seq<Seq<char>>, sw: nat, rem: nat)
    requires
        ws.len() >= 1,
    ensures
        spread(ws, sw, rem).len() == total_len(ws) + gaps_sum((ws.len() - 1) as nat, sw, rem),
    decreases ws.len(),
{
    if ws.len() == 1 {
        assert(ws.drop_last() =~= Seq::<Seq<char>>::empty());
        assert(total_len(Seq::<Seq<char>>::empty()) == 0);
    } else {
        lemma_spread_len(ws.drop_last(), sw, rem);
    }
}

proof fn lemma_gaps_sum(n: nat, sw: nat, rem: nat)
    requires
        sw >= 1,
    ensures
        gaps_sum(n, sw, rem) == n * sw + (if n < rem {
            n
        } else {
            rem
        }),
    decreases n,
{
    if n > 0 {
        let m = (n - 1) as nat;
        lemma_gaps_sum(m, sw, rem);
        assert(m * sw + sw == n * sw) by (nonlinear_arith)
            requires
                m + 1 == n,
        ;
        assert(gap_width(m, sw, rem) == if m < rem {
            sw + 1
        } else {
            sw
        });
    } else {
        assert(0 * sw == 0) by (nonlinear_arith);
    }
}

/// A line of two or more words that leaves at least one column per gap is
/// justified to exactly `width` characters.
pub proof fn law_justified_width(line: Seq<char>, width: nat)
    requires
        words(trim(line)).len() >= 2,
        total_len(words(trim(line))) + lead_spaces(line) + words(trim(line)).len() - 1 <= width,
    ensures
        justify_spec(line, width).len() == width,
{
    let ws = words(trim(line));
    let indent = lead_spaces(line);
    let total_spaces = (width - total_len(ws) - indent) as nat;
    let gaps = (ws.len() - 1) as nat;
    let sw = total_spaces / gaps;
    let rem = total_spaces % gaps;
    assert(sw >= 1 && rem < gaps && gaps * sw + rem == total_spaces) by (nonlinear_arith)
        requires
            total_spaces >= gaps,
            gaps >= 1,
            sw == total_spaces / gaps,
            rem == total_spaces % gaps,
    ;
    lemma_spread_len(ws, sw, rem);
    lemma_gaps_sum(gaps, sw, rem);
    assert(gaps * sw == gaps as int * sw as int);
}

} // verus!

verus! {

/// What `textwrap::fill(text, width)` returns: `text` broken into lines of
/// at most `width` columns, joined by `'\n'`.
pub uninterp spec fn wrapped(text: Seq<char>, width: nat) -> Seq<char>;

/// `textwrap::fill` with the default options for `width` columns; its result
/// is named `wrapped` of the text and the width, and nothing more about the
/// wrapping algorithm is claimed.
#[verifier::external_body]
pub(crate) fn textwrap_fill(text: &str, width: usize) -> (res: String)
    ensures
        res@ == wrapped(text@, width as nat),
{
    textwrap::fill(text, width)
}

pub open spec fn sat_sub(a: nat, b: nat) -> nat {
    if a >= b {
        (a - b) as nat
    } else {
        0
    }
}

/// The lines of `text` wrapped at `width` columns.
pub open spec fn wrap_lines(text: Seq<char>, width: nat) -> Seq<Seq<char>> {
    lines(wrapped(text, width))
}

pub open spec fn prefix_all(ls: Seq<Seq<char>>, prefix: Seq<char>) -> Seq<Seq<char>> {
    Seq::new(ls.len(), |i: int| prefix + ls[i])
}

pub open spec fn title_marker() -> Seq<char> {
    seq!['^', ':']
}

pub open spec fn footnote_marker() -> Seq<char> {
    seq!['^', 'f', ':']
}

/// A title line: marked with `^:` and centred in `w - 1` columns.
pub open spec fn title_line(line: Seq<char>, w: nat) -> Seq<char> {
    title_marker() + spaces(sat_sub(sat_sub(w, 1), line.len()) / 2) + line
}

pub open spec fn title_lines(ls: Seq<Seq<char>>, w: nat) -> Seq<Seq<char>> {
    Seq::new(ls.len(), |i: int| title_line(ls[i], w))
}

/// Line `i` of a body paragraph wrapped into `ls`: the first line gets the
/// indent, every line but the last is justified to `w` columns.
pub open spec fn body_fmt(ls: Seq<Seq<char>>, indent: Seq<char>, w: nat, i: int) -> Seq<char> {
    if i == 0 {
        let first = indent + ls[0];
        if ls.len() == 1 {
            first
        } else {
            justify_spec(first, w)
        }
    } else if i < ls.len() - 1 {
        justify_spec(ls[i], w)
    } else {
        ls[i]
    }
}

/// The first `n` formatted lines of a body paragraph, blank ones dropped.
pub open spec fn body_out(ls: Seq<Seq<char>>, indent: Seq<char>, w: nat, n: nat) -> Seq<Seq<char>>
    decreases n,
{
    if n == 0 {
        seq![]
    } else {
        let f = body_fmt(ls, indent, w, n - 1);
        body_out(ls, indent, w, (n - 1) as nat) + (if trim(f).len() > 0 {
            seq![f]
        } else {
            seq![]
        })
    }
}

/// Each source line trimmed, wrapped at `width` and prefixed.
pub open spec fn block_out(src: Seq<Seq<char>>, width: nat, prefix: Seq<char>) -> Seq<Seq<char>>
    decreases src.len(),
{
    if src.len() == 0 {
        seq![]
    } else {
        block_out(src.drop_last(), width, prefix) + prefix_all(
            wrap_lines(trim(src.last()), width),
            prefix,
        )
    }
}

pub open spec fn indent2() -> Seq<char> {
    seq![' ', ' ']
}

pub open spec fn indent4() -> Seq<char> {
    seq![' ', ' ', ' ', ' ']
}

/// The layout after one more paragraph: the lines so far and the table of
/// contents so far (title text and index of its first line).
pub open spec fn layout_step(
    acc: (Seq<Seq<char>>, Seq<(Seq<char>, int)>),
    p: (ParagraphKind, Seq<char>),
    w: nat,
) -> (Seq<Seq<char>>, Seq<(Seq<char>, int)>) {
    let (ls, toc) = acc;
    let (kind, text) = p;
    match kind {
        ParagraphKind::Title => {
            let clean = replace_all(text, footnote_marker(), seq![]);
            let l1 = if ls.len() > 0 && ls.last() != Seq::<char>::empty() {
                ls.push(seq![])
            } else {
                ls
            };
            let tl = wrap_lines(uppercase(trim(clean)), w);
            ((l1 + title_lines(tl, w)).push(seq![]), toc.push((clean, l1.len() as int)))
        },
        ParagraphKind::Body => {
            let ind = lead_spaces(text);
            let size = if ind > 0 {
                ind
            } else {
                4
            };
            let t = trim(text);
            if t.len() == 0 {
                acc
            } else {
                let wl = wrap_lines(t, sat_sub(w, size));
                (ls + body_out(wl, spaces(size), w, wl.len()), toc)
            }
        },
        ParagraphKind::Epigraph => (ls + block_out(lines(text), sat_sub(w, 4), indent2()), toc),
        ParagraphKind::Cite => (ls + block_out(lines(text), sat_sub(w, 6), indent4()), toc),
        ParagraphKind::Poem => (ls + block_out(lines(text), sat_sub(w, 4), indent2()), toc),
        _ => (ls + prefix_all(wrap_lines(trim(text), sat_sub(w, 8)), indent4()), toc),
    }
}

/// The display lines and the table of contents of a sequence of paragraphs
/// laid out at `w` columns.
pub open spec fn layout_spec(ps: Seq<(ParagraphKind, Seq<char>)>, w: nat) -> (
    Seq<Seq<char>>,
    Seq<(Seq<char>, int)>,
)
    decreases ps.len(),
{
    if ps.len() == 0 {
        (seq![], seq![])
    } else {
        layout_step(layout_spec(ps.drop_last(), w), ps.last(), w)
    }
}

pub open spec fn toc_view(v: Seq<(String, usize)>) -> Seq<(Seq<char>, int)> {
    Seq::new(v.len(), |i: int| (v[i].0@, v[i].1 as int))
}

/// The lines of `text` wrapped at `width` columns.
fn wrap_to_lines(text: &[char], width: usize) -> (res: Vec<Vec<char>>)
    ensures
        views(res@) == wrap_lines(text@, width as nat),
{
    let s = chars_to_string(text);
    let f = textwrap_fill(s.as_str(), width);
    let fc = str_chars(f.as_str());
    split_lines(&fc)
}

fn push_line(out: &mut Vec<String>, line: &[char])
    ensures
        string_views(final(out)@) == string_views(old(out)@).push(line@),
{
    let s = chars_to_string(line);
    out.push(s);
    assert(string_views(out@) =~= string_views(old(out)@).push(line@));
}

/// Pushes `prefix + l` for every line `l`.
fn push_prefixed(out: &mut Vec<String>, ls: &Vec<Vec<char>>, prefix: &[char])
    ensures
        string_views(final(out)@) == string_views(old(out)@) + prefix_all(views(ls@), prefix@),
{
    let mut i: usize = 0;
    while i < ls.len()
        invariant
            i <= ls.len(),
            string_views(out@) == string_views(old(out)@) + prefix_all(views(ls@).take(i as int), prefix@),
        decreases ls.len() - i,
    {
        let mut l: Vec<char> = Vec::new();
        push_all(&mut l, prefix);
        push_all(&mut l, &ls[i]);
        push_line(out, &l);
        assert(prefix_all(views(ls@).take(i + 1), prefix@) =~= prefix_all(views(ls@).take(i as int), prefix@).push(l@));
        i = i + 1;
    }
    assert(views(ls@).take(ls.len() as int) =~= views(ls@));
}

/// Lays out a multi-line block: every line trimmed, wrapped and prefixed.
fn push_block(out: &mut Vec<String>, text: &String, width: usize, prefix: &[char])
    ensures
        string_views(final(out)@) == string_views(old(out)@) + block_out(lines(text@), width as nat, prefix@),
{
    let tc = str_chars(text.as_str());
    let src = split_lines(&tc);
    let ghost sv = views(src@);
    let mut i: usize = 0;
    while i < src.len()
        invariant
            i <= src.len(),
            sv == views(src@),
            sv == lines(text@),
            string_views(out@) == string_views(old(out)@) + block_out(sv.take(i as int), width as nat, prefix@),
        decreases src.len() - i,
    {
        let t = trim_chars(&src[i]);
        let wl = wrap_to_lines(&t, width);
        let ghost before = string_views(out@);
        push_prefixed(out, &wl, prefix);
        assert(sv.take(i + 1).drop_last() =~= sv.take(i as int));
        assert(string_views(out@) =~= string_views(old(out)@) + block_out(sv.take(i + 1), width as nat, prefix@));
        i = i + 1;
    }
    assert(sv.take(src.len() as int) =~= sv);
}

/// Lays out a title and records it in the table of contents.
fn push_title(out: &mut Vec<String>, toc: &mut Vec<(String, usize)>, text: &String, w: usize)
    ensures
        ({
            let r = layout_step((string_views(old(out)@), toc_view(old(toc)@)), (ParagraphKind::Title, text@), w as nat);
            string_views(final(out)@) == r.0 && toc_view(final(toc)@) == r.1
        }),
{
    let tc = str_chars(text.as_str());
    let marker: Vec<char> = vec!['^', 'f', ':'];
    let empty: Vec<char> = Vec::new();
    assert(marker@ =~= footnote_marker());
    assert(empty@ =~= Seq::<char>::empty());
    let clean = replace_chars(&tc, &marker, &empty);
    if out.len() > 0 && !out[out.len() - 1].as_str().is_empty() {
        push_line(out, &empty);
    } else {
        assert(out.len() > 0 ==> string_views(out@).last() =~= Seq::<char>::empty());
    }
    let ghost l1 = string_views(out@);
    let entry = (chars_to_string(&clean), out.len());
    toc.push(entry);
    assert(toc_view(toc@) =~= toc_view(old(toc)@).push((clean@, l1.len() as int)));
    let trimmed = trim_chars(&clean);
    let ts = chars_to_string(&trimmed);
    let upper = to_uppercase(ts.as_str());
    let uc = str_chars(upper.as_str());
    let tl = wrap_to_lines(&uc, w);
    let avail: usize = if w >= 1 {
        w - 1
    } else {
        0
    };
    let mut i: usize = 0;
    while i < tl.len()
        invariant
            i <= tl.len(),
            avail == sat_sub(w as nat, 1),
            string_views(out@) == l1 + title_lines(views(tl@).take(i as int), w as nat),
        decreases tl.len() - i,
    {
        let line = &tl[i];
        let pad: usize = if avail >= line.len() {
            (avail - line.len()) / 2
        } else {
            0
        };
        let mut l: Vec<char> = vec!['^', ':'];
        assert(l@ =~= title_marker());
        push_repeat(&mut l, ' ', pad);
        push_all(&mut l, line);
        assert(l@ == title_line(views(tl@)[i as int], w as nat));
        push_line(out, &l);
        assert(title_lines(views(tl@).take(i + 1), w as nat) =~= title_lines(views(tl@).take(i as int), w as nat).push(l@));
        i = i + 1;
    }
    assert(views(tl@).take(tl.len() as int) =~= views(tl@));
    push_line(out, &empty);
}

/// Lays out a body paragraph.
fn push_body(out: &mut Vec<String>, text: &String, w: usize)
    ensures
        string_views(final(out)@) == layout_step((string_views(old(out)@), seq![]), (ParagraphKind::Body, text@), w as nat).0,
{
    let tc = str_chars(text.as_str());
    let leading_spaces = count_lead_spaces(&tc);
    let size: usize = if leading_spaces > 0 {
        leading_spaces
    } else {
        4
    };
    let mut indent: Vec<char> = Vec::new();
    push_repeat(&mut indent, ' ', size);
    let t = trim_chars(&tc);
    if t.len() == 0 {
        return;
    }
    let inner: usize = if w >= size {
        w - size
    } else {
        0
    };
    let wl = wrap_to_lines(&t, inner);
    let ghost ls = views(wl@);
    let len = wl.len();
    let ghost start = string_views(out@);
    let mut i: usize = 0;
    while i < len
        invariant
            i <= len,
            len == wl.len(),
            ls == views(wl@),
            indent@ == spaces(size as nat),
            string_views(out@) == start + body_out(ls, indent@, w as nat, i as nat),
        decreases len - i,
    {
        let formatted: Vec<char> = if i == 0 {
            let mut first: Vec<char> = Vec::new();
            push_all(&mut first, &indent);
            push_all(&mut first, &wl[0]);
            if len == 1 {
                first
            } else {
                justify_chars(&first, w)
            }
        } else if i < len - 1 {
            justify_chars(&wl[i], w)
        } else {
            sub_chars(&wl[i], 0, wl[i].len())
        };
        assert(formatted@ == body_fmt(ls, indent@, w as nat, i as int));
        let tr = trim_chars(&formatted);
        if tr.len() > 0 {
            push_line(out, &formatted);
        }
        assert(string_views(out@) =~= start + body_out(ls, indent@, w as nat, (i + 1) as nat));
        i = i + 1;
    }
}

/// Lays out the paragraphs at `width` columns: the display lines (titles
/// marked with `^:` and centred, body text indented and justified, the other
/// blocks indented) and the table of contents, each entry a title and the
/// index of its first line.
pub fn prepare_layout(paragraphs: &[Paragraph], width: u16) -> (res: (Vec<String>, Vec<(String, usize)>))
    ensures
        ({
            let l = layout_spec(para_views(paragraphs@), width as nat);
            string_views(res.0@) == l.0 && toc_view(res.1@) == l.1
        }),
{
    let w = width as usize;
    let mut new_lines: Vec<String> = Vec::new();
    let mut new_toc: Vec<(String, usize)> = Vec::new();
    let two: Vec<char> = vec![' ', ' '];
    let four: Vec<char> = vec![' ', ' ', ' ', ' '];
    assert(two@ =~= indent2());
    assert(four@ =~= indent4());
    assert(string_views(new_lines@) =~= Seq::<Seq<char>>::empty());
    assert(toc_view(new_toc@) =~= Seq::<(Seq<char>, int)>::empty());
    let mut i: usize = 0;
    while i < paragraphs.len()
        invariant
            i <= paragraphs.len(),
            w == width as usize,
            two@ == indent2(),
            four@ == indent4(),
            ({
                let l = layout_spec(para_views(paragraphs@).take(i as int), w as nat);
                string_views(new_lines@) == l.0 && toc_view(new_toc@) == l.1
            }),
        decreases paragraphs.len() - i,
    {
        assert(para_views(paragraphs@).take(i + 1).drop_last() =~= para_views(paragraphs@).take(i as int));
        let ghost toc_before = toc_view(new_toc@);
        match &paragraphs[i] {
            Paragraph::Title(text) => {
                push_title(&mut new_lines, &mut new_toc, text, w);
            },
            Paragraph::Body(text) => {
                push_body(&mut new_lines, text, w);
            },
            Paragraph::Epigraph(text) => {
                push_block(&mut new_lines, text, if w >= 4 { w - 4 } else { 0 }, &two);
            },
            Paragraph::Cite(text) => {
                push_block(&mut new_lines, text, if w >= 6 { w - 6 } else { 0 }, &four);
            },
            Paragraph::Poem(text) => {
                push_block(&mut new_lines, text, if w >= 4 { w - 4 } else { 0 }, &two);
            },
            Paragraph::Author(text) | Paragraph::Subtitle(text) | Paragraph::EmphasisBlock(text) => {
                let tc = str_chars(text.as_str());
                let t = trim_chars(&tc);
                let wl = wrap_to_lines(&t, if w >= 8 { w - 8 } else { 0 });
                push_prefixed(&mut new_lines, &wl, &four);
            },
        }
        i = i + 1;
    }
    assert(para_views(paragraphs@).take(paragraphs.len() as int) =~= para_views(paragraphs@));
    (new_lines, new_toc)
}

} // verus!

verus! {

/// The layout of the paragraphs at `width` columns when it has to be made
/// again: when there are no lines yet or the text was last laid out at
/// another width.  `None` when the lines at hand still stand.
pub fn relayout(paragraphs: &[Paragraph], have_lines: bool, laid_out_width: u16, width: u16) -> (res:
    Option<(Vec<String>, Vec<(String, usize)>)>)
    ensures
        res is Some == (!have_lines || laid_out_width != width),
        res matches Some(r) ==> ({
            let l = layout_spec(para_views(paragraphs@), width as nat);
            string_views(r.0@) == l.0 && toc_view(r.1@) == l.1
        }),
{
    if have_lines && laid_out_width == width {
        None
    } else {
        Some(prepare_layout(paragraphs, width))
    }
}

/// Number of title paragraphs.
pub open spec fn count_titles(ps: Seq<(ParagraphKind, Seq<char>)>) -> nat
    decreases ps.len(),
{
    if ps.len() == 0 {
        0
    } else {
        count_titles(ps.drop_last()) + (if ps.last().0 == ParagraphKind::Title {
            1nat
        } else {
            0nat
        })
    }
}

proof fn lemma_layout_step(acc: (Seq<Seq<char>>, Seq<(Seq<char>, int)>), p: (ParagraphKind, Seq<char>), w: nat)
    ensures
        ({
            let r = layout_step(acc, p, w);
            &&& r.0.len() >= acc.0.len()
            &&& p.0 == ParagraphKind::Title ==> r.1.len() == acc.1.len() + 1 && r.1.drop_last() == acc.1
                && acc.0.len() <= r.1.last().1 < r.0.len()
            &&& p.0 != ParagraphKind::Title ==> r.1 == acc.1
        }),
{
}

/// Every title gets one table-of-contents entry, in order, and every entry
/// points at a line of the layout.
pub proof fn law_layout_toc(ps: Seq<(ParagraphKind, Seq<char>)>, w: nat)
    ensures
        ({
            let (ls, toc) = layout_spec(ps, w);
            &&& toc.len() == count_titles(ps)
            &&& forall|i: int| 0 <= i < toc.len() ==> 0 <= #[trigger] toc[i].1 < ls.len()
            &&& forall|i: int, j: int| 0 <= i < j < toc.len() ==> toc[i].1 <= toc[j].1
        }),
    decreases ps.len(),
{
    if ps.len() > 0 {
        law_layout_toc(ps.drop_last(), w);
        let acc = layout_spec(ps.drop_last(), w);
        lemma_layout_step(acc, ps.last(), w);
        let r = layout_spec(ps, w);
        if ps.last().0 == ParagraphKind::Title {
            assert forall|i: int| 0 <= i < r.1.len() implies 0 <= #[trigger] r.1[i].1 < r.0.len() by {
                if i < r.1.len() - 1 {
                    assert(r.1[i] == r.1.drop_last()[i]);
                    assert(acc.1[i].1 < acc.0.len());
                }
            }
            assert forall|i: int, j: int| 0 <= i < j < r.1.len() implies r.1[i].1 <= r.1[j].1 by {
                assert(r.1[i] == acc.1[i]);
                assert(acc.1[i].1 < acc.0.len());
                if j < r.1.len() - 1 {
                    assert(r.1[j] == acc.1[j]);
                }
            }
        }
    }
}

} // verus!

verus! {

/// The layout of `qs` continued from the layout `acc` of what came before.
pub open spec fn layout_from(
    acc: (Seq<Seq<char>>, Seq<(Seq<char>, int)>),
    qs: Seq<(ParagraphKind, Seq<char>)>,
    w: nat,
) -> (Seq<Seq<char>>, Seq<(Seq<char>, int)>)
    decreases qs.len(),
{
    if qs.len() == 0 {
        acc
    } else {
        layout_step(layout_from(acc, qs.drop_last(), w), qs.last(), w)
    }
}

proof fn lemma_layout_concat(ps: Seq<(ParagraphKind, Seq<char>)>, qs: Seq<(ParagraphKind, Seq<char>)>, w: nat)
    ensures
        layout_spec(ps + qs, w) == layout_from(layout_spec(ps, w), qs, w),
    decreases qs.len(),
{
    if qs.len() == 0 {
        assert(ps + qs =~= ps);
    } else {
        lemma_layout_concat(ps, qs.drop_last(), w);
        assert((ps + qs).drop_last() =~= ps + qs.drop_last());
        assert((ps + qs).last() == qs.last());
    }
}

/// Whether no paragraph is a title.
pub open spec fn no_titles(ps: Seq<(ParagraphKind, Seq<char>)>) -> bool {
    forall|i: int| 0 <= i < ps.len() ==> (#[trigger] ps[i]).0 != ParagraphKind::Title
}

proof fn lemma_layout_untitled(
    acc: (Seq<Seq<char>>, Seq<(Seq<char>, int)>),
    qs: Seq<(ParagraphKind, Seq<char>)>,
    w: nat,
)
    requires
        no_titles(qs),
    ensures
        layout_from(acc, qs, w) == (acc.0 + layout_spec(qs, w).0, acc.1),
        layout_spec(qs, w).1.len() == 0,
    decreases qs.len(),
{
    if qs.len() == 0 {
        assert(acc.0 + layout_spec(qs, w).0 =~= acc.0);
    } else {
        let q = qs.drop_last();
        assert(no_titles(q)) by {
            assert forall|i: int| 0 <= i < q.len() implies (#[trigger] q[i]).0 != ParagraphKind::Title by {
                assert(q[i] == qs[i]);
            }
        }
        assert(qs.last() == qs[qs.len() - 1]);
        lemma_layout_untitled(acc, q, w);
        lemma_layout_untitled((seq![], seq![]), q, w);
        assert(layout_from((seq![], seq![]), q, w) == layout_spec(q, w)) by {
            lemma_layout_concat(seq![], q, w);
            assert(Seq::<(ParagraphKind, Seq<char>)>::empty() + q =~= q);
        }
        let l0 = layout_spec(q, w).0;
        let p = qs.last();
        let prev = layout_from(acc, q, w);
        let r1 = layout_step(prev, p, w);
        let r2 = layout_step(layout_spec(q, w), p, w);
        assert(layout_spec(q, w).0 =~= Seq::<Seq<char>>::empty() + l0);
        match p.0 {
            ParagraphKind::Body => {
                if trim(p.1).len() == 0 {
                } else {
                    assert(r1.0 =~= acc.0 + r2.0);
                }
            },
            ParagraphKind::Title => {},
            _ => {
                assert(r1.0 =~= acc.0 + r2.0);
            },
        }
    }
}

/// A body paragraph with nothing but whitespace adds no line and no table
/// of contents entry, wherever it stands.
pub proof fn law_blank_body_adds_nothing(
    a: Seq<(ParagraphKind, Seq<char>)>,
    b: Seq<(ParagraphKind, Seq<char>)>,
    s: Seq<char>,
    w: nat,
)
    requires
        trim(s).len() == 0,
    ensures
        layout_spec(a + seq![(ParagraphKind::Body, s)] + b, w) == layout_spec(a + b, w),
{
    let ab = a + seq![(ParagraphKind::Body, s)];
    lemma_layout_concat(ab, b, w);
    lemma_layout_concat(a, b, w);
    assert(ab.drop_last() =~= a);
    assert(layout_spec(ab, w) == layout_spec(a, w));
}

/// Paragraphs without titles lay out on their own: after any paragraphs
/// their lines follow the lines before, and they add no table of contents
/// entry.
pub proof fn law_untitled_layout_composes(
    a: Seq<(ParagraphKind, Seq<char>)>,
    b: Seq<(ParagraphKind, Seq<char>)>,
    w: nat,
)
    requires
        no_titles(b),
    ensures
        layout_spec(b, w).1.len() == 0,
        layout_spec(a + b, w) == (layout_spec(a, w).0 + layout_spec(b, w).0, layout_spec(a, w).1),
{
    lemma_layout_concat(a, b, w);
    lemma_layout_untitled(layout_spec(a, w), b, w);
}

// ---------------------------------------------------------------------------
// What each kind of paragraph adds
// ---------------------------------------------------------------------------

/// The lines of a block of verses at `width` columns: each line of the text,
/// trimmed, wrapped at `width` columns and indented by `prefix`, the verses
/// one after another.
pub open spec fn verse_lines(text: Seq<char>, width: nat, prefix: Seq<char>) -> Seq<Seq<char>> {
    let vs = lines(text);
    Seq::new(vs.len(), |i: int| Seq::new(wrap_lines(trim(vs[i]), width).len(), |j: int| prefix + wrap_lines(trim(vs[i]), width)[j])).flatten()
}

proof fn lemma_block_is_verses(src: Seq<Seq<char>>, width: nat, prefix: Seq<char>)
    ensures
        block_out(src, width, prefix) == Seq::new(
            src.len(),
            |i: int| Seq::new(wrap_lines(trim(src[i]), width).len(), |j: int| prefix + wrap_lines(trim(src[i]), width)[j]),
        ).flatten(),
    decreases src.len(),
{
    let f = |i: int| Seq::new(wrap_lines(trim(src[i]), width).len(), |j: int| prefix + wrap_lines(trim(src[i]), width)[j]);
    let all = Seq::new(src.len(), f);
    if src.len() == 0 {
        assert(all =~= Seq::<Seq<Seq<char>>>::empty());
    } else {
        let d = src.drop_last();
        lemma_block_is_verses(d, width, prefix);
        let g = |i: int| Seq::new(wrap_lines(trim(d[i]), width).len(), |j: int| prefix + wrap_lines(trim(d[i]), width)[j]);
        let before = Seq::new(d.len(), g);
        assert(all =~= before.push(f(src.len() - 1)));
        before.lemma_flatten_push(f(src.len() - 1));
        assert(prefix_all(wrap_lines(trim(src.last()), width), prefix) =~= f(src.len() - 1));
    }
}

/// Every line that a block of verses adds starts with its indent.
pub proof fn lemma_verse_lines_indented(text: Seq<char>, width: nat, prefix: Seq<char>)
    ensures
        forall|k: int|
            0 <= k < verse_lines(text, width, prefix).len() ==> (#[trigger] verse_lines(text, width, prefix)[k]).subrange(
                0,
                prefix.len() as int,
            ) == prefix,
{
    let vs = lines(text);
    lemma_block_is_verses(vs, width, prefix);
    lemma_block_indented(vs, width, prefix);
}

proof fn lemma_block_indented(src: Seq<Seq<char>>, width: nat, prefix: Seq<char>)
    ensures
        forall|k: int|
            0 <= k < block_out(src, width, prefix).len() ==> (#[trigger] block_out(src, width, prefix)[k]).subrange(
                0,
                prefix.len() as int,
            ) == prefix,
    decreases src.len(),
{
    if src.len() > 0 {
        lemma_block_indented(src.drop_last(), width, prefix);
        let a = block_out(src.drop_last(), width, prefix);
        let b = prefix_all(wrap_lines(trim(src.last()), width), prefix);
        assert forall|k: int| 0 <= k < (a + b).len() implies (#[trigger] (a + b)[k]).subrange(0, prefix.len() as int)
            == prefix by {
            if k >= a.len() {
                assert((a + b)[k] == prefix + wrap_lines(trim(src.last()), width)[k - a.len()]);
                assert((prefix + wrap_lines(trim(src.last()), width)[k - a.len()]).subrange(0, prefix.len() as int) =~= prefix);
            } else {
                assert((a + b)[k] == a[k]);
            }
        }
    }
}

proof fn lemma_layout_push(ps: Seq<(ParagraphKind, Seq<char>)>, p: (ParagraphKind, Seq<char>), w: nat)
    ensures
        layout_spec(ps.push(p), w) == layout_step(layout_spec(ps, w), p, w),
{
    assert(ps.push(p).drop_last() =~= ps);
}

/// A title: after a blank line (unless the lines so far are none or end in
/// a blank one), its text without footnote markers, trimmed, upper-cased
/// and wrapped at `w` columns, each line marked `^:` and centred in `w - 1`
/// columns, then a blank line.  The table of contents gains the title text
/// (without footnote markers) and the index of its first heading line.
pub proof fn law_title_lines(ps: Seq<(ParagraphKind, Seq<char>)>, text: Seq<char>, w: nat)
    ensures
        ({
            let (ls, toc) = layout_spec(ps, w);
            let (rl, rt) = layout_spec(ps.push((ParagraphKind::Title, text)), w);
            let clean = replace_all(text, seq!['^', 'f', ':'], seq![]);
            let heading = wrap_lines(uppercase(trim(clean)), w);
            let start: int = if ls.len() > 0 && ls.last().len() > 0 {
                ls.len() + 1int
            } else {
                ls.len() as int
            };
            &&& rt == toc.push((clean, start))
            &&& rl.len() == start + heading.len() + 1
            &&& rl.subrange(0, ls.len() as int) == ls
            &&& start > ls.len() ==> rl[ls.len() as int].len() == 0
            &&& forall|k: int|
                0 <= k < heading.len() ==> #[trigger] rl[start + k] == seq!['^', ':'] + Seq::new(
                    (sat_sub(sat_sub(w, 1), heading[k].len()) / 2) as nat,
                    |_i: int| ' ',
                ) + heading[k]
            &&& rl.last().len() == 0
        }),
{
    lemma_layout_push(ps, (ParagraphKind::Title, text), w);
    let (ls, toc) = layout_spec(ps, w);
    let clean = replace_all(text, seq!['^', 'f', ':'], seq![]);
    assert(footnote_marker() =~= seq!['^', 'f', ':']);
    assert(title_marker() =~= seq!['^', ':']);
    let heading = wrap_lines(uppercase(trim(clean)), w);
    let l1 = if ls.len() > 0 && ls.last() != Seq::<char>::empty() {
        ls.push(seq![])
    } else {
        ls
    };
    if ls.len() > 0 && ls.last().len() == 0 {
        assert(ls.last() =~= Seq::<char>::empty());
    }
    let rl = (l1 + title_lines(heading, w)).push(seq![]);
    assert(rl.subrange(0, ls.len() as int) =~= ls);
    assert forall|k: int| 0 <= k < heading.len() implies #[trigger] rl[l1.len() + k] == seq!['^', ':'] + Seq::new(
        (sat_sub(sat_sub(w, 1), heading[k].len()) / 2) as nat,
        |_i: int| ' ',
    ) + heading[k] by {
        assert(rl[l1.len() + k] == title_lines(heading, w)[k]);
        assert(spaces(sat_sub(sat_sub(w, 1), heading[k].len()) / 2) =~= Seq::new(
            (sat_sub(sat_sub(w, 1), heading[k].len()) / 2) as nat,
            |_i: int| ' ',
        ));
    }
}

/// A poem adds its verses after the lines before: each verse trimmed,
/// wrapped at `w - 4` columns and indented by two spaces; every added line
/// starts with the indent, and the table of contents is unchanged.
pub proof fn law_poem_lines(ps: Seq<(ParagraphKind, Seq<char>)>, text: Seq<char>, w: nat)
    ensures
        layout_spec(ps.push((ParagraphKind::Poem, text)), w) == (
            layout_spec(ps, w).0 + verse_lines(text, sat_sub(w, 4), indent2()),
            layout_spec(ps, w).1,
        ),
        forall|k: int|
            0 <= k < verse_lines(text, sat_sub(w, 4), indent2()).len() ==> (#[trigger] verse_lines(
                text,
                sat_sub(w, 4),
                indent2(),
            )[k]).subrange(0, 2) == indent2(),
{
    lemma_layout_push(ps, (ParagraphKind::Poem, text), w);
    lemma_block_is_verses(lines(text), sat_sub(w, 4), indent2());
    lemma_verse_lines_indented(text, sat_sub(w, 4), indent2());
}

/// An epigraph adds its lines after the lines before: each trimmed,
/// wrapped at `w - 4` columns and indented by two spaces.
pub proof fn law_epigraph_lines(ps: Seq<(ParagraphKind, Seq<char>)>, text: Seq<char>, w: nat)
    ensures
        layout_spec(ps.push((ParagraphKind::Epigraph, text)), w) == (
            layout_spec(ps, w).0 + verse_lines(text, sat_sub(w, 4), indent2()),
            layout_spec(ps, w).1,
        ),
{
    lemma_layout_push(ps, (ParagraphKind::Epigraph, text), w);
    lemma_block_is_verses(lines(text), sat_sub(w, 4), indent2());
}

/// A citation adds its lines after the lines before: each trimmed, wrapped
/// at `w - 6` columns and indented by four spaces.
pub proof fn law_cite_lines(ps: Seq<(ParagraphKind, Seq<char>)>, text: Seq<char>, w: nat)
    ensures
        layout_spec(ps.push((ParagraphKind::Cite, text)), w) == (
            layout_spec(ps, w).0 + verse_lines(text, sat_sub(w, 6), indent4()),
            layout_spec(ps, w).1,
        ),
{
    lemma_layout_push(ps, (ParagraphKind::Cite, text), w);
    lemma_block_is_verses(lines(text), sat_sub(w, 6), indent4());
}

/// A subtitle, a text author line or an emphasised block adds its text,
/// trimmed and wrapped at `w - 8` columns, each line indented by four
/// spaces.
pub proof fn law_indented_block_lines(
    ps: Seq<(ParagraphKind, Seq<char>)>,
    kind: ParagraphKind,
    text: Seq<char>,
    w: nat,
)
    requires
        kind == ParagraphKind::Subtitle || kind == ParagraphKind::Author || kind
            == ParagraphKind::EmphasisBlock,
    ensures
        layout_spec(ps.push((kind, text)), w) == (
            layout_spec(ps, w).0 + Seq::new(
                wrap_lines(trim(text), sat_sub(w, 8)).len(),
                |j: int| indent4() + wrap_lines(trim(text), sat_sub(w, 8))[j],
            ),
            layout_spec(ps, w).1,
        ),
{
    lemma_layout_push(ps, (kind, text), w);
    assert(prefix_all(wrap_lines(trim(text), sat_sub(w, 8)), indent4()) =~= Seq::new(
        wrap_lines(trim(text), sat_sub(w, 8)).len(),
        |j: int| indent4() + wrap_lines(trim(text), sat_sub(w, 8))[j],
    ));
}

// ---------------------------------------------------------------------------
// Laws of justification
// ---------------------------------------------------------------------------

/// No character of `w` is whitespace.
pub open spec fn no_ws(w: Seq<char>) -> bool {
    forall|i: int| 0 <= i < w.len() ==> !is_ws(#[trigger] w[i])
}

/// Every character of `w` is whitespace.
pub open spec fn all_ws(w: Seq<char>) -> bool {
    forall|i: int| 0 <= i < w.len() ==> is_ws(#[trigger] w[i])
}

/// Every word is non-empty and free of whitespace.
pub open spec fn plain_words(ws: Seq<Seq<char>>) -> bool {
    forall|i: int| 0 <= i < ws.len() ==> (#[trigger] ws[i]).len() > 0 && no_ws(ws[i])
}

/// Splitting before a whitespace character splits the words.
proof fn lemma_words_split(s: Seq<char>, t: Seq<char>, cur: Seq<char>)
    requires
        t.len() > 0,
        is_ws(t[0]),
    ensures
        words_from(s + t, cur) == words_from(s, cur) + words_from(t, seq![]),
    decreases s.len(),
{
    let rest = words_from(t.drop_first(), seq![]);
    if s.len() == 0 {
        assert(s + t =~= t);
        assert(words_from(t, seq![]) == Seq::<Seq<char>>::empty() + rest);
        assert(Seq::<Seq<char>>::empty() + rest =~= rest);
        if cur.len() > 0 {
            assert(words_from(s, cur) == seq![cur]);
        } else {
            assert(words_from(s, cur) == Seq::<Seq<char>>::empty());
            assert(Seq::<Seq<char>>::empty() + rest =~= rest);
        }
    } else {
        assert((s + t)[0] == s[0]);
        assert((s + t).drop_first() =~= s.drop_first() + t);
        if is_ws(s[0]) {
            lemma_words_split(s.drop_first(), t, seq![]);
            let f = if cur.len() > 0 {
                seq![cur]
            } else {
                Seq::<Seq<char>>::empty()
            };
            let a = words_from(s.drop_first(), seq![]);
            let b = words_from(t, seq![]);
            assert(f + (a + b) =~= (f + a) + b);
        } else {
            lemma_words_split(s.drop_first(), t, cur.push(s[0]));
        }
    }
}

/// A run of whitespace before `x` adds no word.
proof fn lemma_words_skip_ws(t: Seq<char>, x: Seq<char>)
    requires
        all_ws(t),
    ensures
        words_from(t + x, seq![]) == words_from(x, seq![]),
    decreases t.len(),
{
    if t.len() == 0 {
        assert(t + x =~= x);
    } else {
        assert((t + x)[0] == t[0]);
        assert(is_ws(t[0]));
        assert((t + x).drop_first() =~= t.drop_first() + x);
        assert(all_ws(t.drop_first())) by {
            assert forall|i: int| 0 <= i < t.drop_first().len() implies is_ws(#[trigger] t.drop_first()[i]) by {
                assert(t.drop_first()[i] == t[i + 1]);
            }
        }
        lemma_words_skip_ws(t.drop_first(), x);
        let r = words_from(t.drop_first() + x, seq![]);
        assert(Seq::<Seq<char>>::empty() + r =~= r);
    }
}

/// A stretch without whitespace continues the current word.
proof fn lemma_words_plain(w: Seq<char>, cur: Seq<char>)
    requires
        no_ws(w),
    ensures
        words_from(w, cur) == (if (cur + w).len() > 0 {
            seq![cur + w]
        } else {
            Seq::<Seq<char>>::empty()
        }),
    decreases w.len(),
{
    if w.len() == 0 {
        assert(cur + w =~= cur);
    } else {
        assert(!is_ws(w[0]));
        assert(no_ws(w.drop_first())) by {
            assert forall|i: int| 0 <= i < w.drop_first().len() implies !is_ws(#[trigger] w.drop_first()[i]) by {
                assert(w.drop_first()[i] == w[i + 1]);
            }
        }
        lemma_words_plain(w.drop_first(), cur.push(w[0]));
        assert(cur.push(w[0]) + w.drop_first() =~= cur + w);
    }
}

/// The words of any text are non-empty and free of whitespace.
proof fn lemma_words_are_plain(s: Seq<char>, cur: Seq<char>)
    requires
        no_ws(cur),
    ensures
        plain_words(words_from(s, cur)),
    decreases s.len(),
{
    if s.len() == 0 {
    } else if is_ws(s[0]) {
        lemma_words_are_plain(s.drop_first(), seq![]);
        let f = if cur.len() > 0 {
            seq![cur]
        } else {
            Seq::<Seq<char>>::empty()
        };
        let a = words_from(s.drop_first(), seq![]);
        assert forall|i: int| 0 <= i < (f + a).len() implies (#[trigger] (f + a)[i]).len() > 0 && no_ws((f + a)[i]) by {
            if i >= f.len() {
                assert((f + a)[i] == a[i - f.len()]);
            }
        }
    } else {
        assert(no_ws(cur.push(s[0]))) by {
            assert forall|i: int| 0 <= i < cur.push(s[0]).len() implies !is_ws(#[trigger] cur.push(s[0])[i]) by {
                if i < cur.len() {
                    assert(cur.push(s[0])[i] == cur[i]);
                }
            }
        }
        lemma_words_are_plain(s.drop_first(), cur.push(s[0]));
    }
}

/// Trimming a text keeps its words.
proof fn lemma_words_trim(s: Seq<char>)
    ensures
        words(trim(s)) == words(s),
{
    let a = lead_ws(s);
    lemma_lead_ws(s);
    assert(all_ws(s.take(a as int)));
    assert(s.take(a as int) + s.skip(a as int) =~= s);
    lemma_words_skip_ws(s.take(a as int), s.skip(a as int));
    let u = trim_start(s);
    let n = u.len();
    let b = trail_ws(u);
    lemma_trail_ws(u);
    if b > 0 {
        let t = u.skip(n - b);
        assert(t[0] == u[n - b]);
        assert(u.take(n - b) + t =~= u);
        lemma_words_split(u.take(n - b), t, seq![]);
        assert(all_ws(t));
        assert(t + Seq::<char>::empty() =~= t);
        lemma_words_skip_ws(t, Seq::<char>::empty());
        let w = words_from(u.take(n - b), seq![]);
        assert(w + Seq::<Seq<char>>::empty() =~= w);
    } else {
        assert(u.take(n as int) =~= u);
    }
}

/// Single spaces between the words are the spread with one space a gap.
proof fn lemma_join_is_spread(ws: Seq<Seq<char>>)
    ensures
        join(ws, seq![' ']) == spread(ws, 1, 0),
    decreases ws.len(),
{
    if ws.len() > 1 {
        lemma_join_is_spread(ws.drop_last());
        assert(spaces(gap_width((ws.len() - 2) as nat, 1, 0)) =~= seq![' ']);
    }
}

/// The words spread over a line are the words again; the line starts with
/// the first word and ends with the last.
proof fn lemma_spread_shape(ws: Seq<Seq<char>>, sw: nat, rem: nat)
    requires
        ws.len() >= 1,
        plain_words(ws),
    ensures
        words(spread(ws, sw, rem)) == ws,
        spread(ws, sw, rem).len() > 0,
        spread(ws, sw, rem)[0] == ws[0][0],
        spread(ws, sw, rem).last() == ws.last().last(),
    decreases ws.len(),
{
    assert(ws[0].len() > 0 && no_ws(ws[0]));
    assert(ws.last().len() > 0 && no_ws(ws.last()));
    if ws.len() == 1 {
        lemma_words_plain(ws[0], seq![]);
        assert(Seq::<char>::empty() + ws[0] =~= ws[0]);
        assert(seq![ws[0]] =~= ws);
    } else {
        let d = ws.drop_last();
        assert(plain_words(d)) by {
            assert forall|i: int| 0 <= i < d.len() implies (#[trigger] d[i]).len() > 0 && no_ws(d[i]) by {
                assert(d[i] == ws[i]);
            }
        }
        lemma_spread_shape(d, sw, rem);
        let x = spread(d, sw, rem);
        let g = gap_width((ws.len() - 2) as nat, sw, rem);
        let t = spaces(g) + ws.last();
        assert(spread(ws, sw, rem) =~= x + t);
        assert(t[0] == ' ');
        lemma_words_split(x, t, seq![]);
        assert(all_ws(spaces(g)));
        lemma_words_skip_ws(spaces(g), ws.last());
        lemma_words_plain(ws.last(), seq![]);
        assert(Seq::<char>::empty() + ws.last() =~= ws.last());
        assert(d + seq![ws.last()] =~= ws);
        assert((x + t)[0] == x[0]);
        assert(d[0] == ws[0]);
        assert((x + t).last() == t.last());
    }
}

/// A line of `k` spaces and then `s` has the indent `k` and trims to `s`.
proof fn lemma_padded(k: nat, s: Seq<char>)
    requires
        s.len() > 0,
        !is_ws(s[0]),
        !is_ws(s.last()),
    ensures
        lead_spaces(spaces(k) + s) == k,
        trim(spaces(k) + s) == s,
    decreases k,
{
    let r = spaces(k) + s;
    if k == 0 {
        assert(r =~= s);
        assert(s[0] != ' ');
    } else {
        assert(r[0] == ' ');
        assert(r.drop_first() =~= spaces((k - 1) as nat) + s);
        lemma_padded((k - 1) as nat, s);
    }
    lemma_lead_ws_padded(k, s);
    assert(trim_start(r) =~= s);
    assert(trail_ws(s) == 0);
    assert(s.take(s.len() as int) =~= s);
}

proof fn lemma_lead_ws_padded(k: nat, s: Seq<char>)
    requires
        s.len() > 0,
        !is_ws(s[0]),
    ensures
        lead_ws(spaces(k) + s) == k,
    decreases k,
{
    let r = spaces(k) + s;
    if k == 0 {
        assert(r =~= s);
    } else {
        assert(r[0] == ' ');
        assert(r.drop_first() =~= spaces((k - 1) as nat) + s);
        lemma_lead_ws_padded((k - 1) as nat, s);
    }
}

/// A line of two or more words justified: its indent followed by its words
/// spread with the gaps that `justify_spec` chose.
proof fn lemma_justified_form(line: Seq<char>, width: nat) -> (sr: (nat, nat))
    requires
        words(trim(line)).len() > 1,
    ensures
        justify_spec(line, width) == spaces(lead_spaces(line)) + spread(words(trim(line)), sr.0, sr.1),
        plain_words(words(trim(line))),
{
    let indent = lead_spaces(line);
    let ws = words(trim(line));
    lemma_words_are_plain(trim(line), seq![]);
    if total_len(ws) + indent >= width {
        lemma_join_is_spread(ws);
        (1, 0)
    } else {
        let total_spaces = (width - total_len(ws) - indent) as nat;
        let gaps = (ws.len() - 1) as nat;
        (total_spaces / gaps, total_spaces % gaps)
    }
}

/// Justifying a justified line again changes nothing.
pub proof fn law_justify_idempotent(line: Seq<char>, width: nat)
    ensures
        justify_spec(justify_spec(line, width), width) == justify_spec(line, width),
{
    let indent = lead_spaces(line);
    let ws = words(trim(line));
    if ws.len() > 1 {
        let sr = lemma_justified_form(line, width);
        let s = spread(ws, sr.0, sr.1);
        lemma_spread_shape(ws, sr.0, sr.1);
        assert(ws[0].len() > 0 && no_ws(ws[0]));
        assert(ws.last().len() > 0 && no_ws(ws.last()));
        assert(!is_ws(s[0]));
        assert(!is_ws(s.last()));
        lemma_padded(indent, s);
    }
}

/// Justification keeps the words of the line, in the same order.
pub proof fn law_justify_keeps_words(line: Seq<char>, width: nat)
    ensures
        words(justify_spec(line, width)) == words(line),
{
    lemma_words_trim(line);
    let indent = lead_spaces(line);
    let ws = words(trim(line));
    if ws.len() > 1 {
        let sr = lemma_justified_form(line, width);
        let s = spread(ws, sr.0, sr.1);
        lemma_spread_shape(ws, sr.0, sr.1);
        assert(all_ws(spaces(indent)));
        lemma_words_skip_ws(spaces(indent), s);
    }
}


// ---------------------------------------------------------------------------
// Body paragraphs keep their words
// ---------------------------------------------------------------------------

/// The words of a sequence of lines, line after line.
pub open spec fn line_words(ls: Seq<Seq<char>>) -> Seq<Seq<char>> {
    Seq::new(ls.len(), |i: int| words(ls[i])).flatten()
}

proof fn lemma_line_words_push(ls: Seq<Seq<char>>, l: Seq<char>)
    ensures
        line_words(ls.push(l)) == line_words(ls) + words(l),
{
    let a = Seq::new(ls.len(), |i: int| words(ls[i]));
    let b = Seq::new(ls.push(l).len(), |i: int| words(ls.push(l)[i]));
    assert(b =~= a.push(words(l)));
    a.lemma_flatten_push(words(l));
}

proof fn lemma_body_fmt_words(ls: Seq<Seq<char>>, indent: Seq<char>, w: nat, i: int)
    requires
        0 <= i < ls.len(),
        all_ws(indent),
    ensures
        words(body_fmt(ls, indent, w, i)) == words(ls[i]),
{
    if i == 0 {
        lemma_words_skip_ws(indent, ls[0]);
        if ls.len() > 1 {
            law_justify_keeps_words(indent + ls[0], w);
        }
    } else if i < ls.len() - 1 {
        law_justify_keeps_words(ls[i], w);
    }
}

proof fn lemma_body_out_words(ls: Seq<Seq<char>>, indent: Seq<char>, w: nat, n: nat)
    requires
        n <= ls.len(),
        all_ws(indent),
    ensures
        line_words(body_out(ls, indent, w, n)) == line_words(ls.take(n as int)),
        forall|k: int| 0 <= k < body_out(ls, indent, w, n).len() ==> trim(#[trigger] body_out(ls, indent, w, n)[k]).len() > 0,
    decreases n,
{
    if n == 0 {
        assert(ls.take(0) =~= Seq::<Seq<char>>::empty());
        assert(line_words(Seq::<Seq<char>>::empty()) =~= Seq::<Seq<char>>::empty());
    } else {
        let m = (n - 1) as nat;
        lemma_body_out_words(ls, indent, w, m);
        let f = body_fmt(ls, indent, w, m as int);
        lemma_body_fmt_words(ls, indent, w, m as int);
        assert(ls.take(n as int) =~= ls.take(m as int).push(ls[m as int]));
        lemma_line_words_push(ls.take(m as int), ls[m as int]);
        let prev = body_out(ls, indent, w, m);
        if trim(f).len() > 0 {
            lemma_line_words_push(prev, f);
            assert(body_out(ls, indent, w, n) == prev.push(f)) by {
                assert(prev + seq![f] =~= prev.push(f));
            }
        } else {
            lemma_words_trim(f);
            assert(words(trim(f)) =~= Seq::<Seq<char>>::empty()) by {
                assert(trim(f) =~= Seq::<char>::empty());
            }
            assert(body_out(ls, indent, w, n) =~= prev);
            assert(line_words(prev) + Seq::<Seq<char>>::empty() =~= line_words(prev));
        }
    }
}

/// A body paragraph with text keeps its words: the lines it adds after the
/// lines before hold, in order, exactly the words of its trimmed text
/// wrapped at `w` columns less its indent (its leading spaces, or four when
/// it has none); none of them is blank; the table of contents is unchanged.
pub proof fn law_body_keeps_words(ps: Seq<(ParagraphKind, Seq<char>)>, text: Seq<char>, w: nat)
    requires
        trim(text).len() > 0,
    ensures
        ({
            let (ls, toc) = layout_spec(ps, w);
            let (rl, rt) = layout_spec(ps.push((ParagraphKind::Body, text)), w);
            let size = if lead_spaces(text) > 0 {
                lead_spaces(text)
            } else {
                4
            };
            let added = rl.subrange(ls.len() as int, rl.len() as int);
            &&& rt == toc
            &&& rl.len() >= ls.len()
            &&& rl.subrange(0, ls.len() as int) == ls
            &&& line_words(added) == line_words(wrap_lines(trim(text), sat_sub(w, size)))
            &&& forall|k: int| 0 <= k < added.len() ==> trim(#[trigger] added[k]).len() > 0
        }),
{
    lemma_layout_push(ps, (ParagraphKind::Body, text), w);
    let (ls, toc) = layout_spec(ps, w);
    let size = if lead_spaces(text) > 0 {
        lead_spaces(text)
    } else {
        4
    };
    let wl = wrap_lines(trim(text), sat_sub(w, size));
    assert(all_ws(spaces(size)));
    lemma_body_out_words(wl, spaces(size), w, wl.len());
    assert(wl.take(wl.len() as int) =~= wl);
    let out = body_out(wl, spaces(size), w, wl.len());
    let rl = ls + out;
    assert(rl.subrange(ls.len() as int, rl.len() as int) =~= out);
    assert(rl.subrange(0, ls.len() as int) =~= ls);
}

} // verus!

verus! {

proof fn lemma_words_nonblank(x: Seq<char>)
    requires
        words(x).len() > 0,
    ensures
        trim(x).len() > 0,
{
    lemma_words_trim(x);
    if trim(x).len() == 0 {
        assert(trim(x) =~= Seq::<char>::empty());
        assert(words(Seq::<char>::empty()) =~= Seq::<Seq<char>>::empty());
    }
}

proof fn lemma_body_out_all(ls: Seq<Seq<char>>, indent: Seq<char>, w: nat, n: nat)
    requires
        n <= ls.len(),
        all_ws(indent),
        forall|i: int| 0 <= i < ls.len() ==> words(#[trigger] ls[i]).len() > 0,
    ensures
        body_out(ls, indent, w, n) == Seq::new(n, |i: int| body_fmt(ls, indent, w, i)),
    decreases n,
{
    if n > 0 {
        lemma_body_out_all(ls, indent, w, (n - 1) as nat);
        lemma_body_fmt_words(ls, indent, w, n - 1);
        lemma_words_nonblank(body_fmt(ls, indent, w, n - 1));
        assert(Seq::new((n - 1) as nat, |i: int| body_fmt(ls, indent, w, i)) + seq![body_fmt(ls, indent, w, n - 1)]
            =~= Seq::new(n, |i: int| body_fmt(ls, indent, w, i)));
    } else {
        assert(Seq::new(0, |i: int| body_fmt(ls, indent, w, i)) =~= Seq::<Seq<char>>::empty());
    }
}

/// The indent of a body paragraph: its leading spaces, or four when it has
/// none.
pub open spec fn body_indent(text: Seq<char>) -> nat {
    if lead_spaces(text) > 0 {
        lead_spaces(text)
    } else {
        4
    }
}

/// A body paragraph whose wrapped lines all hold a word adds one line for
/// each (its trimmed text wrapped at `w` columns less its indent): the
/// first gets the indent, every line but the last is justified to `w`
/// columns, and the last is left as it is.
pub proof fn law_body_lines(ps: Seq<(ParagraphKind, Seq<char>)>, text: Seq<char>, w: nat)
    requires
        trim(text).len() > 0,
        forall|i: int|
            0 <= i < wrap_lines(trim(text), sat_sub(w, body_indent(text))).len() ==> words(
                #[trigger] wrap_lines(trim(text), sat_sub(w, body_indent(text)))[i],
            ).len() > 0,
    ensures
        ({
            let (ls, toc) = layout_spec(ps, w);
            let wl = wrap_lines(trim(text), sat_sub(w, body_indent(text)));
            let n = wl.len() as int;
            let indent = Seq::new(body_indent(text), |_j: int| ' ');
            layout_spec(ps.push((ParagraphKind::Body, text)), w) == (
                ls + Seq::new(
                    wl.len(),
                    |i: int|
                        if i == 0 && n == 1 {
                            indent + wl[0]
                        } else if i == 0 {
                            justify_spec(indent + wl[0], w)
                        } else if i < n - 1 {
                            justify_spec(wl[i], w)
                        } else {
                            wl[i]
                        },
                ),
                toc,
            )
        }),
{
    lemma_layout_push(ps, (ParagraphKind::Body, text), w);
    let size = body_indent(text);
    let wl = wrap_lines(trim(text), sat_sub(w, size));
    assert(all_ws(spaces(size)));
    lemma_body_out_all(wl, spaces(size), w, wl.len());
    assert(spaces(size) =~= Seq::new(size, |_j: int| ' '));
}

} // verus!
