//! The FB2 reader state machine: one verified transition per XML event.
use vstd::prelude::*;
use crate::fb2_parser::{
    add_annotation, add_note_text, after_last, apply_sequence, attr_views, author_part, clear_tag,
    cleaned_text, close_annotation, close_body, close_cite, close_epigraph, close_link,
    close_paragraph, close_poem, close_text_author, close_title, empty_step, end_author, end_para,
    end_section, end_step, event_step, fallback_title, finish_book, footnote_list, footnote_para,
    footnote_views, glue, href_of, initial_model, is_notes_body, is_notes_name, last_id,
    leave_text_block, link_text, note_lookup, note_ref, note_store, norm_tag, notes_title,
    open_annotation, open_author, open_cite, open_epigraph, open_para, open_poem, open_text_author,
    open_title, para_kind, para_views, plain_text, push_para, reset_para, run_events, section_note,
    section_toc, sequence_attr, set_book_title, start_body, start_link, start_section, start_simple,
    start_step, string_toc_views, tag_kind, text_step, title_para, toc_separator, xml_unescape,
    xml_unescaped, BookMeta, FB2Parser, Fb2Model, FootnoteInfo, Paragraph, ParagraphKind, TagKind,
    XmlEvent,
};
use crate::text::{
    chars_eq, chars_to_string, collapse_whitespace, contains, contains_chars, ends_with_chars,
    is_alphanumeric, join_chars, lowercase, parse_i32, push_all, replace_chars, starts_with,
    starts_with_chars, str_chars, str_eq, sub_chars, to_lowercase, trim_chars, trim_end_chars,
    usize_to_chars, utf8_len_below, views,
};

verus! {

pub open spec fn kind_views(v: Seq<(ParagraphKind, Vec<char>)>) -> Seq<(ParagraphKind, Seq<char>)> {
    Seq::new(v.len(), |i: int| (v[i].0, v[i].1@))
}

pub open spec fn toc_views(v: Seq<(Vec<char>, usize)>) -> Seq<(Seq<char>, int)> {
    Seq::new(v.len(), |i: int| (v[i].0@, v[i].1 as int))
}

pub open spec fn pair_views(v: Seq<(Vec<char>, Vec<char>)>) -> Seq<(Seq<char>, Seq<char>)> {
    Seq::new(v.len(), |i: int| (v[i].0@, v[i].1@))
}

/// The reader state, held in executable form.
pub struct Fb2Builder {
    pub paragraphs: Vec<(ParagraphKind, Vec<char>)>,
    pub title: Vec<char>,
    pub author: Vec<char>,
    pub series: Vec<char>,
    pub sequence_number: i32,
    pub annotation: Vec<char>,
    pub toc: Vec<(Vec<char>, usize)>,
    pub current_tag: Vec<char>,
    pub in_author: bool,
    pub in_title: bool,
    pub in_epigraph: bool,
    pub in_poem: bool,
    pub in_cite: bool,
    pub in_text_author: bool,
    pub in_annotation: bool,
    pub in_body: bool,
    pub in_footnote: bool,
    pub in_body_notes: bool,
    pub in_section: bool,
    pub in_text_block: bool,
    pub in_link: bool,
    pub footnote_id: Vec<char>,
    pub footnote_text: Vec<char>,
    pub author_first: Vec<char>,
    pub author_last: Vec<char>,
    pub para_text: Vec<char>,
    pub section_titles: Vec<Vec<char>>,
    pub notes: Vec<(Vec<char>, Vec<char>)>,
    pub order: Vec<Vec<char>>,
    pub pending: Option<usize>,
}

impl Fb2Builder {
    pub open spec fn model(&self) -> Fb2Model {
        Fb2Model {
            paragraphs: kind_views(self.paragraphs@),
            title: self.title@,
            author: self.author@,
            series: self.series@,
            sequence_number: self.sequence_number,
            annotation: self.annotation@,
            toc: toc_views(self.toc@),
            current_tag: self.current_tag@,
            in_author: self.in_author,
            in_title: self.in_title,
            in_epigraph: self.in_epigraph,
            in_poem: self.in_poem,
            in_cite: self.in_cite,
            in_text_author: self.in_text_author,
            in_annotation: self.in_annotation,
            in_body: self.in_body,
            in_footnote: self.in_footnote,
            in_body_notes: self.in_body_notes,
            in_section: self.in_section,
            in_text_block: self.in_text_block,
            in_link: self.in_link,
            footnote_id: self.footnote_id@,
            footnote_text: self.footnote_text@,
            author_first: self.author_first@,
            author_last: self.author_last@,
            para_text: self.para_text@,
            section_titles: views(self.section_titles@),
            notes: pair_views(self.notes@),
            order: views(self.order@),
            pending: self.pending,
        }
    }

    /// The state before the first event.
    pub fn new() -> (res: Self)
        ensures
            res.model() == initial_model(),
    {
        let res = Fb2Builder {
            paragraphs: Vec::new(),
            title: Vec::new(),
            author: Vec::new(),
            series: Vec::new(),
            sequence_number: 0,
            annotation: Vec::new(),
            toc: Vec::new(),
            current_tag: Vec::new(),
            in_author: false,
            in_title: false,
            in_epigraph: false,
            in_poem: false,
            in_cite: false,
            in_text_author: false,
            in_annotation: false,
            in_body: false,
            in_footnote: false,
            in_body_notes: false,
            in_section: false,
            in_text_block: false,
            in_link: false,
            footnote_id: Vec::new(),
            footnote_text: Vec::new(),
            author_first: Vec::new(),
            author_last: Vec::new(),
            para_text: Vec::new(),
            section_titles: Vec::new(),
            notes: Vec::new(),
            order: Vec::new(),
            pending: None,
        };
        assert(res.model() =~= initial_model()) by {
            assert(kind_views(res.paragraphs@) =~= Seq::<(ParagraphKind, Seq<char>)>::empty());
            assert(toc_views(res.toc@) =~= Seq::<(Seq<char>, int)>::empty());
            assert(views(res.section_titles@) =~= Seq::<Seq<char>>::empty());
            assert(pair_views(res.notes@) =~= Seq::<(Seq<char>, Seq<char>)>::empty());
            assert(views(res.order@) =~= Seq::<Seq<char>>::empty());
            assert(res.title@ =~= Seq::<char>::empty());
        }
        res
    }
}

// ---------------------------------------------------------------------------
// Helpers over names and attributes
// ---------------------------------------------------------------------------

/// `to_lowercase` on a character sequence.
fn lower_chars(s: &[char]) -> (res: Vec<char>)
    ensures
        res@ == lowercase(s@),
{
    let st = chars_to_string(s);
    let l = to_lowercase(st.as_str());
    str_chars(l.as_str())
}

fn after_last_chars(s: &[char], c: char) -> (res: Vec<char>)
    ensures
        res@ == after_last(s@, c),
{
    let mut k: usize = s.len();
    assert(s@.take(s.len() as int) =~= s@);
    assert(s@.skip(s.len() as int) =~= Seq::<char>::empty());
    assert(after_last(s@, c) + Seq::<char>::empty() =~= after_last(s@, c));
    while k > 0 && s[k - 1] != c
        invariant
            k <= s.len(),
            after_last(s@, c) == after_last(s@.take(k as int), c) + s@.skip(k as int),
        decreases k,
    {
        let ghost t = s@.take(k as int);
        assert(t.drop_last() == s@.take(k - 1));
        assert(t.last() == s@[k - 1]);
        assert(s@.skip(k - 1) == seq![s@[k - 1]] + s@.skip(k as int));
        assert(after_last(t, c) == after_last(t.drop_last(), c).push(t.last()));
        assert(after_last(s@.take(k - 1), c).push(s@[k - 1]) + s@.skip(k as int) =~= after_last(
            s@.take(k - 1),
            c,
        ) + s@.skip(k - 1));
        k = k - 1;
    }
    proof {
        let t = s@.take(k as int);
        if k > 0 {
            assert(t.last() == c);
            assert(after_last(t, c) =~= Seq::<char>::empty());
        } else {
            assert(t =~= Seq::<char>::empty());
        }
        assert(after_last(t, c) + s@.skip(k as int) =~= s@.skip(k as int));
    }
    sub_chars(s, k, s.len())
}

/// The kind of a normalised tag name.
fn classify_tag(tn: &Vec<char>) -> (res: TagKind)
    ensures
        res == tag_kind(tn@),
{
    reveal(tag_kind);
    if str_eq("author", tn) {
        TagKind::Author
    } else if str_eq("title", tn) {
        TagKind::Title
    } else if str_eq("epigraph", tn) {
        TagKind::Epigraph
    } else if str_eq("poem", tn) {
        TagKind::Poem
    } else if str_eq("cite", tn) {
        TagKind::Cite
    } else if str_eq("text-author", tn) {
        TagKind::TextAuthor
    } else if str_eq("annotation", tn) {
        TagKind::Annotation
    } else if str_eq("p", tn) || str_eq("v", tn) || str_eq("subtitle", tn) {
        TagKind::Para
    } else if str_eq("section", tn) {
        TagKind::Section
    } else if str_eq("body", tn) {
        TagKind::Body
    } else if str_eq("a", tn) {
        TagKind::Link
    } else {
        TagKind::Other
    }
}

/// The lowercased tag name without its namespace prefix.
fn norm_tag_chars(raw: &String) -> (res: Vec<char>)
    ensures
        res@ == norm_tag(raw@),
{
    let rc = str_chars(raw.as_str());
    let l = lower_chars(&rc);
    after_last_chars(&l, ':')
}

fn last_id_of(attrs: &Vec<(String, String)>) -> (res: Option<Vec<char>>)
    ensures
        match res {
            Some(v) => last_id(attr_views(attrs@)) == Some(v@),
            None => last_id(attr_views(attrs@)) is None,
        },
{
    let ghost av = attr_views(attrs@);
    let mut k: usize = attrs.len();
    assert(av.take(attrs.len() as int) =~= av);
    while k > 0
        invariant
            k <= attrs.len(),
            av == attr_views(attrs@),
            last_id(av) == last_id(av.take(k as int)),
        decreases k,
    {
        let key = str_chars(attrs[k - 1].0.as_str());
        let lk = lower_chars(&key);
        let ghost t = av.take(k as int);
        assert(t.last() == av[k - 1]);
        assert(t.drop_last() =~= av.take(k - 1));
        if str_eq("id", &lk) {
            return Some(str_chars(attrs[k - 1].1.as_str()));
        }
        k = k - 1;
    }
    assert(av.take(0) =~= Seq::<(Seq<char>, Seq<char>)>::empty());
    None
}

fn notes_body(attrs: &Vec<(String, String)>) -> (res: bool)
    ensures
        res == is_notes_body(attr_views(attrs@)),
{
    let ghost av = attr_views(attrs@);
    let mut i: usize = 0;
    while i < attrs.len()
        invariant
            i <= attrs.len(),
            av == attr_views(attrs@),
            forall|j: int|
                0 <= j < i ==> !(lowercase(#[trigger] av[j].0) == "name"@ && is_notes_name(
                    lowercase(av[j].1),
                )),
        decreases attrs.len() - i,
    {
        let key = str_chars(attrs[i].0.as_str());
        let lk = lower_chars(&key);
        let val = str_chars(attrs[i].1.as_str());
        let lv = lower_chars(&val);
        if str_eq("name", &lk) && (str_eq("notes", &lv) || str_eq("footnotes", &lv) || str_eq(
            "comments",
            &lv,
        )) {
            assert(lowercase(av[i as int].0) == "name"@ && is_notes_name(lowercase(av[i as int].1)));
            return true;
        }
        i = i + 1;
    }
    false
}

fn href_of_attrs(attrs: &Vec<(String, String)>) -> (res: Vec<char>)
    ensures
        res@ == href_of(attr_views(attrs@)),
{
    let ghost av = attr_views(attrs@);
    let suffix: Vec<char> = vec!['h', 'r', 'e', 'f'];
    proof {
        reveal_strlit("href");
    }
    assert(suffix@ =~= "href"@);
    let mut i: usize = 0;
    assert(av.skip(0) =~= av);
    while i < attrs.len()
        invariant
            i <= attrs.len(),
            av == attr_views(attrs@),
            suffix@ == "href"@,
            href_of(av) == href_of(av.skip(i as int)),
        decreases attrs.len() - i,
    {
        let key = str_chars(attrs[i].0.as_str());
        let lk = lower_chars(&key);
        let ghost t = av.skip(i as int);
        assert(t[0] == av[i as int]);
        assert(t.drop_first() =~= av.skip(i + 1));
        if ends_with_chars(&lk, &suffix) {
            let val = str_chars(attrs[i].1.as_str());
            let hash: Vec<char> = vec!['#'];
            let empty: Vec<char> = Vec::new();
            assert(hash@ =~= seq!['#']);
            assert(empty@ =~= Seq::<char>::empty());
            return replace_chars(&val, &hash, &empty);
        }
        i = i + 1;
    }
    assert(av.skip(attrs.len() as int) =~= Seq::<(Seq<char>, Seq<char>)>::empty());
    Vec::new()
}

fn seq_contains_vec(v: &Vec<Vec<char>>, x: &[char]) -> (res: Option<usize>)
    ensures
        match res {
            Some(i) => i < v.len() && views(v@)[i as int] == x@ && forall|j: int|
                0 <= j < i ==> views(v@)[j] != x@,
            None => !views(v@).contains(x@),
        },
{
    let mut i: usize = 0;
    while i < v.len()
        invariant
            i <= v.len(),
            forall|j: int| 0 <= j < i ==> views(v@)[j] != x@,
        decreases v.len() - i,
    {
        if chars_eq(&v[i], x) {
            return Some(i);
        }
        i = i + 1;
    }
    None
}

fn lookup_note(notes: &Vec<(Vec<char>, Vec<char>)>, id: &[char]) -> (res: Option<Vec<char>>)
    ensures
        match res {
            Some(t) => note_lookup(pair_views(notes@), id@) == Some(t@),
            None => note_lookup(pair_views(notes@), id@) is None,
        },
{
    let ghost nv = pair_views(notes@);
    let mut k: usize = notes.len();
    assert(nv.take(notes.len() as int) =~= nv);
    while k > 0
        invariant
            k <= notes.len(),
            nv == pair_views(notes@),
            note_lookup(nv, id@) == note_lookup(nv.take(k as int), id@),
        decreases k,
    {
        let ghost t = nv.take(k as int);
        assert(t.last() == nv[k - 1]);
        assert(t.drop_last() =~= nv.take(k - 1));
        if chars_eq(&notes[k - 1].0, id) {
            return Some(sub_chars(&notes[k - 1].1, 0, notes[k - 1].1.len()));
        }
        k = k - 1;
    }
    assert(nv.take(0) =~= Seq::<(Seq<char>, Seq<char>)>::empty());
    None
}

fn store_note(notes: &mut Vec<(Vec<char>, Vec<char>)>, id: &[char], text: &[char])
    ensures
        pair_views(final(notes)@) == note_store(pair_views(old(notes)@), id@, text@),
{
    let found = lookup_note(notes, id);
    let ghost nv = pair_views(notes@);
    if found.is_none() {
        let e0 = sub_chars(id, 0, id.len());
        let e1 = sub_chars(text, 0, text.len());
        assert(e0@ =~= id@ && e1@ =~= text@);
        notes.push((e0, e1));
        assert(pair_views(notes@) =~= nv.push((id@, text@)));
        return;
    }
    let mut i: usize = 0;
    while i < notes.len()
        invariant
            i <= notes.len(),
            notes.len() == nv.len(),
            forall|j: int|
                0 <= j < notes.len() ==> #[trigger] pair_views(notes@)[j] == if j < i {
                    if nv[j].0 == id@ {
                        (id@, text@)
                    } else {
                        nv[j]
                    }
                } else {
                    nv[j]
                },
        decreases notes.len() - i,
    {
        let ghost before = notes@;
        assert(pair_views(before)[i as int] == nv[i as int]);
        if chars_eq(&notes[i].0, id) {
            let e0 = sub_chars(id, 0, id.len());
            let e1 = sub_chars(text, 0, text.len());
            assert(e0@ =~= id@ && e1@ =~= text@);
            notes.set(i, (e0, e1));
            assert(forall|j: int| 0 <= j < notes.len() && j != i ==> notes@[j] == before[j]);
        }
        assert forall|j: int| 0 <= j < notes.len() implies #[trigger] pair_views(notes@)[j] == if j < i + 1 {
            if nv[j].0 == id@ {
                (id@, text@)
            } else {
                nv[j]
            }
        } else {
            nv[j]
        } by {
            assert(pair_views(before)[j] == if j < i {
                if nv[j].0 == id@ {
                    (id@, text@)
                } else {
                    nv[j]
                }
            } else {
                nv[j]
            });
        }
        i = i + 1;
    }
    assert(pair_views(notes@) =~= note_store(nv, id@, text@));
}

} // verus!

verus! {

fn push_copy(v: &mut Vec<Vec<char>>, t: &Vec<char>)
    ensures
        views(final(v)@) == views(old(v)@).push(t@),
{
    let ghost before = views(v@);
    v.push(clone_chars(t));
    assert(views(v@) =~= before.push(t@));
}

fn push_kind(v: &mut Vec<(ParagraphKind, Vec<char>)>, k: ParagraphKind, t: Vec<char>)
    ensures
        kind_views(final(v)@) == kind_views(old(v)@).push((k, t@)),
{
    let ghost before = kind_views(v@);
    let ghost tv = t@;
    v.push((k, t));
    assert(kind_views(v@) =~= before.push((k, tv)));
}

fn clone_chars(s: &Vec<char>) -> (res: Vec<char>)
    ensures
        res@ == s@,
{
    sub_chars(s, 0, s.len())
}

proof fn lemma_first_pos(s: Seq<Seq<char>>, x: Seq<char>, pos: int)
    requires
        0 <= pos < s.len(),
        s[pos] == x,
        forall|j: int| 0 <= j < pos ==> s[j] != x,
    ensures
        (choose|i: int| 0 <= i < s.len() && s[i] == x && forall|j: int| 0 <= j < i ==> s[j] != x)
            == pos,
{
    let c = choose|i: int| 0 <= i < s.len() && s[i] == x && forall|j: int| 0 <= j < i ==> s[j] != x;
    assert(0 <= c < s.len() && s[c] == x && forall|j: int| 0 <= j < c ==> s[j] != x);
}

proof fn lemma_start_link_local(m: Fb2Model, av: Seq<(Seq<char>, Seq<char>)>, ov: Seq<Seq<char>>, pos: int)
    requires
        href_of(av).len() > 0,
        !starts_with(href_of(av), "http"@),
        ov == (if m.order.contains(href_of(av)) {
            m.order
        } else {
            m.order.push(href_of(av))
        }),
        0 <= pos < ov.len(),
        ov[pos] == href_of(av),
        forall|j: int| 0 <= j < pos ==> ov[j] != href_of(av),
    ensures
        start_link(m, av) == (Fb2Model { in_link: true, order: ov, pending: Some((pos + 1) as usize), ..m }),
{
    reveal(start_link);
    lemma_first_pos(ov, href_of(av), pos);
}

proof fn lemma_order_after(old_order: Seq<Seq<char>>, ov: Seq<Seq<char>>, hv: Seq<char>)
    requires
        old_order.contains(hv) ==> ov == old_order,
        !old_order.contains(hv) ==> ov == old_order.push(hv),
    ensures
        ov == (if old_order.contains(hv) {
            old_order
        } else {
            old_order.push(hv)
        }),
        ov.contains(hv),
{
    if !old_order.contains(hv) {
        assert(ov[ov.len() - 1] == hv);
    }
}

/// Adds a link target to the order of first reference (unless present)
/// and returns its position there.
fn register_link(order: &mut Vec<Vec<char>>, href: &Vec<char>) -> (pos: usize)
    ensures
        views(final(order)@) == (if views(old(order)@).contains(href@) {
            views(old(order)@)
        } else {
            views(old(order)@).push(href@)
        }),
        pos < final(order).len(),
        views(final(order)@)[pos as int] == href@,
        forall|j: int| 0 <= j < pos ==> views(final(order)@)[j] != href@,
{
    let ghost old_v = views(order@);
    if seq_contains_vec(order, href).is_none() {
        let h2 = clone_chars(href);
        order.push(h2);
        assert(views(order@) =~= old_v.push(href@));
    }
    proof {
        lemma_order_after(old_v, views(order@), href@);
    }
    first_index(order, href)
}

/// Index of the first element equal to `x`, which must occur.
fn first_index(v: &Vec<Vec<char>>, x: &[char]) -> (res: usize)
    requires
        views(v@).contains(x@),
    ensures
        res < v.len(),
        views(v@)[res as int] == x@,
        forall|j: int| 0 <= j < res ==> views(v@)[j] != x@,
{
    match seq_contains_vec(v, x) {
        Some(i) => i,
        None => {
            assert(false);
            0
        },
    }
}

impl Fb2Builder {
    fn open_section(self, attrs: &Vec<(String, String)>) -> (res: Self)
        ensures
            res.model() == start_section(self.model(), attr_views(attrs@)),
    {
        let mut b = self;
        let ghost m = b.model();
        b.in_section = true;
        b.section_titles = Vec::new();
        let id = last_id_of(attrs);
        match id {
            Some(v) if b.in_body_notes => {
                b.footnote_id = v;
                b.footnote_text = Vec::new();
                b.in_footnote = true;
            },
            _ => {
                b.in_text_block = true;
            },
        }
        assert(views(b.section_titles@) =~= Seq::<Seq<char>>::empty());
        reveal(start_section);
        assert(b.model() == start_section(m, attr_views(attrs@)));
        b
    }

    fn open_body(self, attrs: &Vec<(String, String)>) -> (res: Self)
        ensures
            res.model() == start_body(self.model(), attr_views(attrs@)),
    {
        let mut b = self;
        let ghost m = b.model();
        if notes_body(attrs) {
            b.in_body_notes = true;
        } else {
            b.in_body = true;
            b.in_text_block = true;
        }
        reveal(start_body);
        assert(b.model() == start_body(m, attr_views(attrs@)));
        b
    }

    fn open_link(self, attrs: &Vec<(String, String)>) -> (res: Self)
        ensures
            res.model() == start_link(self.model(), attr_views(attrs@)),
    {
        let mut b = self;
        let ghost m = b.model();
        let href = href_of_attrs(attrs);
        let http: Vec<char> = vec!['h', 't', 't', 'p'];
        proof {
            reveal_strlit("http");
        }
        assert(http@ =~= "http"@);
        if href.len() > 0 && !starts_with_chars(&href, &http) {
            let pos = register_link(&mut b.order, &href);
            b.in_link = true;
            b.pending = Some(pos + 1);
            proof {
                lemma_start_link_local(m, attr_views(attrs@), views(b.order@), pos as int);
            }
        } else {
            b.in_link = true;
            proof {
                reveal(start_link);
            }
        }
        b
    }

    fn open_author_exec(self) -> (res: Self)
        ensures
            res.model() == open_author(self.model()),
    {
        let mut b = self;
        b.in_author = true;
        reveal(open_author);
        b
    }

    fn open_title_exec(self) -> (res: Self)
        ensures
            res.model() == open_title(self.model()),
    {
        let mut b = self;
        b.in_title = true;
        b.in_text_block = true;
        b.para_text = Vec::new();
        assert(b.para_text@ =~= Seq::<char>::empty());
        reveal(open_title);
        b
    }

    fn open_epigraph_exec(self) -> (res: Self)
        ensures
            res.model() == open_epigraph(self.model()),
    {
        let mut b = self;
        b.in_epigraph = true;
        b.in_text_block = true;
        reveal(open_epigraph);
        b
    }

    fn open_poem_exec(self) -> (res: Self)
        ensures
            res.model() == open_poem(self.model()),
    {
        let mut b = self;
        b.in_poem = true;
        b.in_text_block = true;
        reveal(open_poem);
        b
    }

    fn open_cite_exec(self) -> (res: Self)
        ensures
            res.model() == open_cite(self.model()),
    {
        let mut b = self;
        b.in_cite = true;
        b.in_text_block = true;
        reveal(open_cite);
        b
    }

    fn open_text_author_exec(self) -> (res: Self)
        ensures
            res.model() == open_text_author(self.model()),
    {
        let mut b = self;
        b.in_text_author = true;
        reveal(open_text_author);
        b
    }

    fn open_annotation_exec(self) -> (res: Self)
        ensures
            res.model() == open_annotation(self.model()),
    {
        let mut b = self;
        b.in_annotation = true;
        reveal(open_annotation);
        b
    }

    fn open_para_exec(self) -> (res: Self)
        ensures
            res.model() == open_para(self.model()),
    {
        let mut b = self;
        b.para_text = Vec::new();
        b.pending = None;
        assert(b.para_text@ =~= Seq::<char>::empty());
        reveal(open_para);
        b
    }

    fn open_simple(self, kind: TagKind) -> (res: Self)
        requires
            kind != TagKind::Section && kind != TagKind::Body && kind != TagKind::Link,
        ensures
            res.model() == start_simple(self.model(), kind),
    {
        match kind {
            TagKind::Author => self.open_author_exec(),
            TagKind::Title => self.open_title_exec(),
            TagKind::Epigraph => self.open_epigraph_exec(),
            TagKind::Poem => self.open_poem_exec(),
            TagKind::Cite => self.open_cite_exec(),
            TagKind::TextAuthor => self.open_text_author_exec(),
            TagKind::Annotation => self.open_annotation_exec(),
            TagKind::Para => self.open_para_exec(),
            _ => self,
        }
    }

    /// Handles a start tag.
    #[verifier::spinoff_prover]
    #[verifier::rlimit(40)]
    pub fn apply_start(self, name: &String, attrs: &Vec<(String, String)>) -> (res: Self)
        ensures
            res.model() == start_step(self.model(), norm_tag(name@), attr_views(attrs@)),
    {
        let tn = norm_tag_chars(name);
        let kind = classify_tag(&tn);
        let mut b = self;
        b.current_tag = clone_chars(&tn);
        match kind {
            TagKind::Section => b.open_section(attrs),
            TagKind::Body => b.open_body(attrs),
            TagKind::Link => b.open_link(attrs),
            _ => b.open_simple(kind),
        }
    }
}

} // verus!

verus! {

// ---------------------------------------------------------------------------
// End tags
// ---------------------------------------------------------------------------

impl Fb2Builder {
    #[verifier::spinoff_prover]
    #[verifier::rlimit(30)]
    fn close_author_exec(self) -> (res: Self)
        ensures
            res.model() == end_author(self.model()),
    {
        let mut b = self;
        let ghost m = b.model();
        let mut joined = clone_chars(&b.author_first);
        joined.push(' ');
        push_all(&mut joined, &b.author_last);
        assert(joined@ =~= m.author_first + seq![' '] + m.author_last);
        let full = trim_chars(&joined);
        if full.len() > 0 && b.author.len() == 0 {
            b.author = full;
        }
        b.in_author = false;
        reveal(end_author);
        b
    }

    #[verifier::spinoff_prover]
    #[verifier::rlimit(30)]
    fn title_para_exec(self, t: Vec<char>) -> (res: Self)
        ensures
            res.model() == title_para(self.model(), t@),
    {
        let mut b = self;
        let ghost m = b.model();
        let ghost tv = t@;
        let add = b.in_section && b.section_titles.len() < 3 && !contains_chars(&t, &b.author);
        if add {
            push_copy(&mut b.section_titles, &t);
        }
        push_kind(&mut b.paragraphs, ParagraphKind::Title, t);
        proof {
            reveal(title_para);
        }
        b
    }

    fn push_para_exec(self, k: ParagraphKind, t: Vec<char>) -> (res: Self)
        ensures
            res.model() == push_para(self.model(), k, t@),
    {
        let mut b = self;
        push_kind(&mut b.paragraphs, k, t);
        reveal(push_para);
        b
    }

    fn para_kind_exec(&self) -> (res: Option<ParagraphKind>)
        ensures
            res == para_kind(self.model()),
    {
        if self.in_epigraph {
            Some(ParagraphKind::Epigraph)
        } else if self.in_text_author {
            Some(ParagraphKind::Author)
        } else if self.in_poem {
            Some(ParagraphKind::Poem)
        } else if self.in_cite {
            Some(ParagraphKind::Cite)
        } else if self.in_body || self.in_text_block {
            Some(ParagraphKind::Body)
        } else {
            None
        }
    }

    fn close_paragraph_exec(self, t: Vec<char>) -> (res: Self)
        ensures
            res.model() == close_paragraph(self.model(), t@),
    {
        if self.in_title {
            self.title_para_exec(t)
        } else {
            match self.para_kind_exec() {
                Some(k) => self.push_para_exec(k, t),
                None => self,
            }
        }
    }

    fn reset_para_exec(self) -> (res: Self)
        ensures
            res.model() == reset_para(self.model()),
    {
        let mut b = self;
        b.para_text = Vec::new();
        b.pending = None;
        assert(b.para_text@ =~= Seq::<char>::empty());
        reveal(reset_para);
        b
    }

    fn close_para_exec(self) -> (res: Self)
        ensures
            res.model() == end_para(self.model()),
    {
        let t = trim_chars(&self.para_text);
        let b = if t.len() > 0 {
            self.close_paragraph_exec(t)
        } else {
            self
        };
        b.reset_para_exec()
    }

    fn section_toc_exec(self) -> (res: Self)
        ensures
            res.model() == section_toc(self.model()),
    {
        let mut b = self;
        let ghost m = b.model();
        if b.section_titles.len() > 0 {
            let sep: Vec<char> = vec![':', ' '];
            assert(sep@ =~= toc_separator());
            let title = join_chars(&b.section_titles, &sep);
            let n = b.paragraphs.len();
            let ghost title_v = title@;
            b.toc.push((title, n));
            assert(toc_views(b.toc@) =~= m.toc.push((title_v, n as int)));
            b.section_titles = Vec::new();
            assert(views(b.section_titles@) =~= Seq::<Seq<char>>::empty());
        }
        b.in_section = false;
        reveal(section_toc);
        b
    }

    #[verifier::spinoff_prover]
    #[verifier::rlimit(30)]
    fn section_note_exec(self) -> (res: Self)
        ensures
            res.model() == section_note(self.model()),
    {
        let mut b = self;
        let ghost m = b.model();
        if b.in_footnote && b.footnote_id.len() > 0 {
            if lookup_note(&b.notes, &b.footnote_id).is_none() {
                let id = clone_chars(&b.footnote_id);
                b.order.push(id);
                assert(views(b.order@) =~= m.order.push(m.footnote_id));
            }
            let text = trim_chars(&b.footnote_text);
            store_note(&mut b.notes, &b.footnote_id, &text);
            b.footnote_id = Vec::new();
            b.footnote_text = Vec::new();
            b.in_footnote = false;
            assert(b.footnote_id@ =~= Seq::<char>::empty());
            assert(b.footnote_text@ =~= Seq::<char>::empty());
        }
        reveal(section_note);
        b
    }

    fn leave_text_block_exec(self) -> (res: Self)
        ensures
            res.model() == leave_text_block(self.model()),
    {
        let mut b = self;
        b.in_text_block = false;
        reveal(leave_text_block);
        b
    }

    fn close_section_exec(self) -> (res: Self)
        ensures
            res.model() == end_section(self.model()),
    {
        self.section_toc_exec().section_note_exec().leave_text_block_exec()
    }

    fn close_link_exec(self) -> (res: Self)
        ensures
            res.model() == close_link(self.model()),
    {
        let mut b = self;
        b.in_link = false;
        reveal(close_link);
        b
    }

    fn close_title_exec(self) -> (res: Self)
        ensures
            res.model() == close_title(self.model()),
    {
        let mut b = self;
        b.in_title = false;
        b.in_text_block = false;
        reveal(close_title);
        b
    }

    fn close_epigraph_exec(self) -> (res: Self)
        ensures
            res.model() == close_epigraph(self.model()),
    {
        let mut b = self;
        b.in_epigraph = false;
        b.in_text_block = false;
        reveal(close_epigraph);
        b
    }

    fn close_poem_exec(self) -> (res: Self)
        ensures
            res.model() == close_poem(self.model()),
    {
        let mut b = self;
        b.in_poem = false;
        b.in_text_block = false;
        reveal(close_poem);
        b
    }

    fn close_cite_exec(self) -> (res: Self)
        ensures
            res.model() == close_cite(self.model()),
    {
        let mut b = self;
        b.in_cite = false;
        b.in_text_block = false;
        reveal(close_cite);
        b
    }

    fn close_text_author_exec(self) -> (res: Self)
        ensures
            res.model() == close_text_author(self.model()),
    {
        let mut b = self;
        b.in_text_author = false;
        reveal(close_text_author);
        b
    }

    fn close_annotation_exec(self) -> (res: Self)
        ensures
            res.model() == close_annotation(self.model()),
    {
        let mut b = self;
        b.in_annotation = false;
        reveal(close_annotation);
        b
    }

    fn close_body_exec(self) -> (res: Self)
        ensures
            res.model() == close_body(self.model()),
    {
        let mut b = self;
        b.in_body_notes = false;
        b.in_body = false;
        b.in_text_block = false;
        reveal(close_body);
        b
    }

    fn clear_tag_exec(self) -> (res: Self)
        ensures
            res.model() == clear_tag(self.model()),
    {
        let mut b = self;
        b.current_tag = Vec::new();
        assert(b.current_tag@ =~= Seq::<char>::empty());
        reveal(clear_tag);
        b
    }

    fn close_kind(self, kind: TagKind) -> (res: Self)
        ensures
            res.model() == (match kind {
                TagKind::Author => end_author(self.model()),
                TagKind::Para => end_para(self.model()),
                TagKind::Section => end_section(self.model()),
                TagKind::Link => close_link(self.model()),
                TagKind::Title => close_title(self.model()),
                TagKind::Epigraph => close_epigraph(self.model()),
                TagKind::Poem => close_poem(self.model()),
                TagKind::Cite => close_cite(self.model()),
                TagKind::TextAuthor => close_text_author(self.model()),
                TagKind::Annotation => close_annotation(self.model()),
                TagKind::Body => close_body(self.model()),
                TagKind::Other => self.model(),
            }),
    {
        match kind {
            TagKind::Author => self.close_author_exec(),
            TagKind::Para => self.close_para_exec(),
            TagKind::Section => self.close_section_exec(),
            TagKind::Link => self.close_link_exec(),
            TagKind::Title => self.close_title_exec(),
            TagKind::Epigraph => self.close_epigraph_exec(),
            TagKind::Poem => self.close_poem_exec(),
            TagKind::Cite => self.close_cite_exec(),
            TagKind::TextAuthor => self.close_text_author_exec(),
            TagKind::Annotation => self.close_annotation_exec(),
            TagKind::Body => self.close_body_exec(),
            TagKind::Other => self,
        }
    }

    /// Handles an end tag.
    pub fn apply_end(self, name: &String) -> (res: Self)
        ensures
            res.model() == end_step(self.model(), norm_tag(name@)),
    {
        let tn = norm_tag_chars(name);
        let kind = classify_tag(&tn);
        self.close_kind(kind).clear_tag_exec()
    }
}

} // verus!

verus! {

// ---------------------------------------------------------------------------
// Empty tags and text
// ---------------------------------------------------------------------------

fn note_ref_exec(n: usize) -> (res: Vec<char>)
    ensures
        res@ == note_ref(n),
{
    let mut r: Vec<char> = vec![' ', '^', 'f', ':', '['];
    let d = usize_to_chars(n);
    push_all(&mut r, &d);
    r.push(']');
    assert(r@ =~= note_ref(n));
    r
}

fn glue_exec(para: &Vec<char>, t: &Vec<char>) -> (res: Vec<char>)
    requires
        t.len() > 0,
    ensures
        res@ == glue(para@, t@),
{
    let mut p = clone_chars(para);
    if para.len() > 0 && para[para.len() - 1] != ' ' {
        let last = para[para.len() - 1];
        let first = t[0];
        let last_ok = is_alphanumeric(last) || last == '?' || last == '!' || last == '.' || last
            == '"' || last == ')';
        let closing = first == '.' || first == ',' || first == '?' || first == '!' || first == ')'
            || first == ';' || first == ':';
        if last_ok && is_alphanumeric(first) {
            p.push(' ');
        } else if !closing {
            p.push(' ');
        }
    }
    push_all(&mut p, t);
    p
}

/// The text of a text event, references resolved and whitespace collapsed.
fn clean_text_exec(raw: &String) -> (res: Vec<char>)
    ensures
        res@ == cleaned_text(raw@),
{
    let text = match xml_unescape(raw.as_str()) {
        Some(t) => str_chars(t.as_str()),
        None => Vec::new(),
    };
    proof {
        if xml_unescaped(raw@) is None {
            assert(text@ =~= Seq::<char>::empty());
        }
    }
    collapse_whitespace(&text)
}

impl Fb2Builder {
    fn sequence_attr_exec(self, k: &String, v: &String) -> (res: Self)
        ensures
            res.model() == sequence_attr(self.model(), k@, v@),
    {
        let mut b = self;
        let kc = str_chars(k.as_str());
        let lk = lower_chars(&kc);
        if str_eq("name", &lk) {
            b.series = str_chars(v.as_str());
        } else if str_eq("number", &lk) {
            let vc = str_chars(v.as_str());
            b.sequence_number = match parse_i32(&vc) {
                Some(n) => n,
                None => 0,
            };
        }
        reveal(sequence_attr);
        b
    }

    /// Handles an empty-element tag.
    pub fn apply_empty(self, name: &String, attrs: &Vec<(String, String)>) -> (res: Self)
        ensures
            res.model() == empty_step(self.model(), norm_tag(name@), attr_views(attrs@)),
    {
        let tn = norm_tag_chars(name);
        if !str_eq("sequence", &tn) {
            return self;
        }
        let mut b = self;
        let ghost m0 = b.model();
        let ghost av = attr_views(attrs@);
        let mut i: usize = 0;
        assert(av.take(0) =~= Seq::<(Seq<char>, Seq<char>)>::empty());
        while i < attrs.len()
            invariant
                i <= attrs.len(),
                av == attr_views(attrs@),
                b.model() == apply_sequence(m0, av.take(i as int)),
            decreases attrs.len() - i,
        {
            b = b.sequence_attr_exec(&attrs[i].0, &attrs[i].1);
            assert(av.take(i + 1).drop_last() =~= av.take(i as int));
            assert(av.take(i + 1).last() == av[i as int]);
            i = i + 1;
        }
        assert(av.take(attrs.len() as int) =~= av);
        b
    }

    fn set_book_title_exec(self, c: Vec<char>) -> (res: Self)
        ensures
            res.model() == set_book_title(self.model(), c@),
    {
        let mut b = self;
        if b.title.len() == 0 {
            b.title = c;
        }
        reveal(set_book_title);
        b
    }

    fn add_note_text_exec(self, c: Vec<char>) -> (res: Self)
        ensures
            res.model() == add_note_text(self.model(), c@),
    {
        let mut b = self;
        let ghost m = b.model();
        push_all(&mut b.footnote_text, &c);
        b.footnote_text.push(' ');
        assert(b.footnote_text@ =~= m.footnote_text + c@ + seq![' ']);
        reveal(add_note_text);
        b
    }

    fn author_part_exec(self, c: Vec<char>) -> (res: Self)
        ensures
            res.model() == author_part(self.model(), c@),
    {
        let mut b = self;
        if str_eq("first-name", &b.current_tag) {
            b.author_first = c;
        } else if str_eq("last-name", &b.current_tag) {
            b.author_last = c;
        }
        reveal(author_part);
        b
    }

    fn add_annotation_exec(self, c: Vec<char>) -> (res: Self)
        ensures
            res.model() == add_annotation(self.model(), c@),
    {
        let mut b = self;
        let ghost m = b.model();
        if b.annotation.len() > 0 {
            b.annotation.push(' ');
        }
        push_all(&mut b.annotation, &c);
        reveal(add_annotation);
        b
    }

    #[verifier::spinoff_prover]
    #[verifier::rlimit(30)]
    fn link_text_exec(self) -> (res: Self)
        ensures
            res.model() == link_text(self.model()),
    {
        let mut b = self;
        let ghost m = b.model();
        match b.pending {
            Some(n) => {
                let mut p = trim_end_chars(&b.para_text);
                let r = note_ref_exec(n);
                push_all(&mut p, &r);
                b.para_text = p;
                b.pending = None;
            },
            None => {},
        }
        reveal(link_text);
        b
    }

    #[verifier::spinoff_prover]
    #[verifier::rlimit(30)]
    fn plain_text_exec(self, c: Vec<char>) -> (res: Self)
        requires
            c.len() > 0,
        ensures
            res.model() == plain_text(self.model(), c@),
    {
        let mut b = self;
        let p = glue_exec(&b.para_text, &c);
        match b.pending {
            Some(n) => {
                let mut q = trim_end_chars(&p);
                let r = note_ref_exec(n);
                push_all(&mut q, &r);
                b.para_text = q;
                b.pending = None;
            },
            None => {
                b.para_text = p;
            },
        }
        reveal(plain_text);
        b
    }

    /// Handles a text event.
    #[verifier::spinoff_prover]
    #[verifier::rlimit(30)]
    pub fn apply_text(self, raw: &String) -> (res: Self)
        ensures
            res.model() == text_step(self.model(), raw@),
    {
        let c = clean_text_exec(raw);
        if c.len() == 0 || !utf8_len_below(&c, 10000) {
            self
        } else if str_eq("book-title", &self.current_tag) {
            self.set_book_title_exec(c)
        } else if self.in_footnote {
            self.add_note_text_exec(c)
        } else if self.in_author {
            self.author_part_exec(c)
        } else if self.in_annotation {
            self.add_annotation_exec(c)
        } else if self.in_text_block || self.in_body {
            if self.in_link {
                self.link_text_exec()
            } else {
                self.plain_text_exec(c)
            }
        } else {
            self
        }
    }

    /// Handles one XML event.
    pub fn apply_event(self, ev: &XmlEvent) -> (res: Self)
        ensures
            res.model() == event_step(self.model(), *ev),
    {
        match ev {
            XmlEvent::Start(n, a) => self.apply_start(n, a),
            XmlEvent::Empty(n, a) => self.apply_empty(n, a),
            XmlEvent::End(n) => self.apply_end(n),
            XmlEvent::Text(t) => self.apply_text(t),
            _ => self,
        }
    }

    /// Runs the reader over a sequence of events, up to the first end of
    /// input or error.
    pub fn run(events: &Vec<XmlEvent>) -> (res: Self)
        ensures
            res.model() == run_events(initial_model(), events@),
    {
        let mut b = Fb2Builder::new();
        let mut i: usize = 0;
        assert(events@.skip(0) =~= events@);
        while i < events.len()
            invariant
                i <= events.len(),
                run_events(initial_model(), events@) == run_events(b.model(), events@.skip(i as int)),
            decreases events.len() - i,
        {
            let ghost rest = events@.skip(i as int);
            assert(rest[0] == events@[i as int]);
            assert(rest.drop_first() =~= events@.skip(i + 1));
            match &events[i] {
                XmlEvent::Eof => {
                    return b;
                },
                XmlEvent::Failed => {
                    return b;
                },
                _ => {},
            }
            b = b.apply_event(&events[i]);
            i = i + 1;
        }
        assert(events@.skip(events.len() as int) =~= Seq::<XmlEvent>::empty());
        b
    }
}

} // verus!

verus! {

// ---------------------------------------------------------------------------
// The finished book
// ---------------------------------------------------------------------------

pub open spec fn opt_view(o: Option<String>) -> Option<Seq<char>> {
    match o {
        Some(s) => Some(s@),
        None => None,
    }
}

fn to_paragraph(k: ParagraphKind, t: String) -> (res: Paragraph)
    ensures
        res@ == (k, t@),
{
    match k {
        ParagraphKind::Title => Paragraph::Title(t),
        ParagraphKind::Subtitle => Paragraph::Subtitle(t),
        ParagraphKind::Body => Paragraph::Body(t),
        ParagraphKind::Poem => Paragraph::Poem(t),
        ParagraphKind::Epigraph => Paragraph::Epigraph(t),
        ParagraphKind::Cite => Paragraph::Cite(t),
        ParagraphKind::Author => Paragraph::Author(t),
        ParagraphKind::EmphasisBlock => Paragraph::EmphasisBlock(t),
    }
}

fn paragraphs_exec(v: &Vec<(ParagraphKind, Vec<char>)>) -> (res: Vec<Paragraph>)
    ensures
        para_views(res@) == kind_views(v@),
{
    let mut res: Vec<Paragraph> = Vec::new();
    let mut i: usize = 0;
    while i < v.len()
        invariant
            i <= v.len(),
            para_views(res@) == kind_views(v@).take(i as int),
        decreases v.len() - i,
    {
        let ghost before = para_views(res@);
        let p = to_paragraph(v[i].0, chars_to_string(&v[i].1));
        res.push(p);
        assert(para_views(res@) =~= before.push(kind_views(v@)[i as int]));
        assert(kind_views(v@).take(i + 1) =~= kind_views(v@).take(i as int).push(
            kind_views(v@)[i as int],
        ));
        i = i + 1;
    }
    assert(kind_views(v@).take(v.len() as int) =~= kind_views(v@));
    res
}

fn toc_exec(v: &Vec<(Vec<char>, usize)>) -> (res: Vec<(String, usize)>)
    ensures
        string_toc_views(res@) == toc_views(v@),
{
    let mut res: Vec<(String, usize)> = Vec::new();
    let mut i: usize = 0;
    while i < v.len()
        invariant
            i <= v.len(),
            string_toc_views(res@) == toc_views(v@).take(i as int),
        decreases v.len() - i,
    {
        let ghost before = string_toc_views(res@);
        res.push((chars_to_string(&v[i].0), v[i].1));
        assert(string_toc_views(res@) =~= before.push(toc_views(v@)[i as int]));
        assert(toc_views(v@).take(i + 1) =~= toc_views(v@).take(i as int).push(
            toc_views(v@)[i as int],
        ));
        i = i + 1;
    }
    assert(toc_views(v@).take(v.len() as int) =~= toc_views(v@));
    res
}

/// The footnote paragraphs: a title, then `n. text` for each footnote.
fn add_note_paragraphs(paragraphs: &mut Vec<Paragraph>, notes: &Vec<FootnoteInfo>)
    ensures
        para_views(final(paragraphs)@) == para_views(old(paragraphs)@).push(
            (ParagraphKind::Title, notes_title()),
        ) + Seq::new(notes.len() as nat, |i: int| footnote_para(footnote_views(notes@)[i])),
{
    let ghost base = para_views(paragraphs@).push((ParagraphKind::Title, notes_title()));
    let ghost fs = Seq::new(notes.len() as nat, |i: int| footnote_para(footnote_views(notes@)[i]));
    let t = String::from_str("Сноски");
    paragraphs.push(Paragraph::Title(t));
    assert(para_views(paragraphs@) =~= base);
    let mut i: usize = 0;
    while i < notes.len()
        invariant
            i <= notes.len(),
            para_views(paragraphs@) == base + fs.take(i as int),
            fs == Seq::new(notes.len() as nat, |i: int| footnote_para(footnote_views(notes@)[i])),
        decreases notes.len() - i,
    {
        let ghost before = para_views(paragraphs@);
        let mut line = usize_to_chars(notes[i].number);
        line.push('.');
        line.push(' ');
        let tc = str_chars(notes[i].text.as_str());
        push_all(&mut line, &tc);
        assert(line@ =~= footnote_para(footnote_views(notes@)[i as int]).1);
        paragraphs.push(Paragraph::Body(chars_to_string(&line)));
        assert(para_views(paragraphs@) =~= before.push(fs[i as int]));
        assert(fs.take(i + 1) =~= fs.take(i as int).push(fs[i as int]));
        i = i + 1;
    }
    assert(fs.take(notes.len() as int) =~= fs);
}

fn fallback_title_exec(stem: Option<String>) -> (res: Vec<char>)
    ensures
        res@ == fallback_title(opt_view(stem)),
{
    let name = match stem {
        Some(s) => str_chars(s.as_str()),
        None => str_chars("Неизвестная книга"),
    };
    let n = name.len();
    if n >= 4 && name[n - 4] == '.' && (name[n - 3] == 'f' || name[n - 3] == 'F') && (name[n - 2]
        == 'b' || name[n - 2] == 'B') && name[n - 1] == '2' {
        sub_chars(&name, 0, n - 4)
    } else {
        name
    }
}

impl Fb2Builder {
    fn footnotes_exec(&self) -> (res: Vec<FootnoteInfo>)
        ensures
            footnote_views(res@) == footnote_list(views(self.order@), pair_views(self.notes@)),
    {
        let ghost ov = views(self.order@);
        let ghost nv = pair_views(self.notes@);
        let mut res: Vec<FootnoteInfo> = Vec::new();
        let mut i: usize = 0;
        assert(ov.take(0) =~= Seq::<Seq<char>>::empty());
        while i < self.order.len()
            invariant
                i <= self.order.len(),
                ov == views(self.order@),
                nv == pair_views(self.notes@),
                footnote_views(res@) == footnote_list(ov.take(i as int), nv),
            decreases self.order.len() - i,
        {
            let ghost before = footnote_views(res@);
            assert(ov.take(i + 1).drop_last() =~= ov.take(i as int));
            assert(ov.take(i + 1).last() == ov[i as int]);
            match lookup_note(&self.notes, &self.order[i]) {
                Some(t) => {
                    res.push(FootnoteInfo { text: chars_to_string(&t), number: i + 1 });
                    assert(footnote_views(res@) =~= before.push((t@, i + 1)));
                },
                None => {},
            }
            i = i + 1;
        }
        assert(ov.take(self.order.len() as int) =~= ov);
        res
    }

    /// The book once every event is read.
    pub fn finish(self, path: std::path::PathBuf, stem: Option<String>, encoding: String) -> (res:
        FB2Parser)
        ensures
            res.book() == finish_book(self.model(), opt_view(stem), encoding@),
            res.path == path,
    {
        let ghost m = self.model();
        let footnotes = self.footnotes_exec();
        let mut paragraphs = paragraphs_exec(&self.paragraphs);
        let mut toc = toc_exec(&self.toc);
        if footnotes.len() > 0 {
            let ghost before = paragraphs@;
            add_note_paragraphs(&mut paragraphs, &footnotes);
            assert(para_views(paragraphs@).len() == paragraphs@.len());
            assert(para_views(before).len() == before.len());
            assert(paragraphs.len() == before.len() + 1 + footnotes.len());
            let toc_index = paragraphs.len() - footnotes.len() - 1;
            toc.push((String::from_str("Сноски"), toc_index));
        }
        let title = if self.title.len() == 0 {
            chars_to_string(&fallback_title_exec(stem))
        } else {
            chars_to_string(&self.title)
        };
        let author = if self.author.len() == 0 {
            String::from_str("Неизвестный Автор")
        } else {
            chars_to_string(&self.author)
        };
        let meta = BookMeta {
            title,
            author,
            series: chars_to_string(&self.series),
            sequence_number: self.sequence_number,
            annotation: chars_to_string(&self.annotation),
        };
        let res = FB2Parser { path, paragraphs, meta, encoding, footnotes, toc };
        let ghost fb = finish_book(m, opt_view(stem), encoding@);
        assert(res.book().paragraphs =~= fb.paragraphs);
        assert(res.book().toc =~= fb.toc);
        assert(res.book().footnotes =~= fb.footnotes);
        assert(res.book().title =~= fb.title);
        assert(res.book().author =~= fb.author);
        assert(res.book() =~= fb);
        res
    }
}

} // verus!
