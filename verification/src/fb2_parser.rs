//! The FictionBook 2 reader: the book model and the parser that builds it
//! from the bytes of a `.fb2` file or of a `.zip` archive holding one.
use vstd::prelude::*;
use quick_xml::events::{BytesStart, Event};
use crate::text::{
    alphanumeric, contains, decimal, ends_with, join, lowercase, parse_i32_spec, replace_all,
    starts_with, str_chars, trim, trim_end, utf8_len, words,
};

verus! {

#[verifier::external_type_specification]
#[verifier::external_body]
pub struct ExPathBuf(std::path::PathBuf);

/// One block of book text.
#[derive(Debug, Clone)]
pub enum Paragraph {
    Title(String),
    Subtitle(String),
    Body(String),
    Poem(String),
    Epigraph(String),
    Cite(String),
    Author(String),
    EmphasisBlock(String),
}

/// The kind of a paragraph, without its text.
#[derive(Debug, Clone, Copy, PartialEq, Eq, Structural)]
pub enum ParagraphKind {
    Title,
    Subtitle,
    Body,
    Poem,
    Epigraph,
    Cite,
    Author,
    EmphasisBlock,
}

impl View for Paragraph {
    type V = (ParagraphKind, Seq<char>);

    open spec fn view(&self) -> (ParagraphKind, Seq<char>) {
        match self {
            Paragraph::Title(t) => (ParagraphKind::Title, t@),
            Paragraph::Subtitle(t) => (ParagraphKind::Subtitle, t@),
            Paragraph::Body(t) => (ParagraphKind::Body, t@),
            Paragraph::Poem(t) => (ParagraphKind::Poem, t@),
            Paragraph::Epigraph(t) => (ParagraphKind::Epigraph, t@),
            Paragraph::Cite(t) => (ParagraphKind::Cite, t@),
            Paragraph::Author(t) => (ParagraphKind::Author, t@),
            Paragraph::EmphasisBlock(t) => (ParagraphKind::EmphasisBlock, t@),
        }
    }
}

pub open spec fn para_views(ps: Seq<Paragraph>) -> Seq<(ParagraphKind, Seq<char>)> {
    Seq::new(ps.len(), |i: int| ps[i]@)
}

/// The book's description.
#[derive(Debug, Clone)]
pub struct BookMeta {
    pub title: String,
    pub author: String,
    pub series: String,
    pub sequence_number: i32,
    pub annotation: String,
}

/// A footnote and its number in order of first reference.
#[derive(Debug, Clone)]
pub struct FootnoteInfo {
    pub text: String,
    pub number: usize,
}

/// A parsed book.
pub struct FB2Parser {
    pub path: std::path::PathBuf,
    pub paragraphs: Vec<Paragraph>,
    pub meta: BookMeta,
    pub encoding: String,
    pub footnotes: Vec<FootnoteInfo>,
    pub toc: Vec<(String, usize)>,
}

} // verus!

verus! {

// ---------------------------------------------------------------------------
// XML events
// ---------------------------------------------------------------------------

/// One event of the XML reader: a start tag with its attributes (key and raw
/// value), an empty-element tag, an end tag, raw text, the end of input, a
/// syntax error, or anything else (comments, declarations, CDATA).
#[derive(Debug)]
pub enum XmlEvent {
    Start(String, Vec<(String, String)>),
    Empty(String, Vec<(String, String)>),
    End(String),
    Text(String),
    Eof,
    Failed,
    Other,
}

pub open spec fn attr_views(a: Seq<(String, String)>) -> Seq<(Seq<char>, Seq<char>)> {
    Seq::new(a.len(), |i: int| (a[i].0@, a[i].1@))
}

/// What `quick_xml::escape::unescape` returns for a text: the text with its
/// entity and character references resolved, or `None` when one is invalid.
pub uninterp spec fn xml_unescaped(raw: Seq<char>) -> Option<Seq<char>>;

// ---------------------------------------------------------------------------
// The parser state
// ---------------------------------------------------------------------------

/// The state of the FB2 reader while it walks the XML events.
pub struct Fb2Model {
    pub paragraphs: Seq<(ParagraphKind, Seq<char>)>,
    pub title: Seq<char>,
    pub author: Seq<char>,
    pub series: Seq<char>,
    pub sequence_number: i32,
    pub annotation: Seq<char>,
    pub toc: Seq<(Seq<char>, int)>,
    pub current_tag: Seq<char>,
    pub in_author: bool,
    pub in_title: bool,
    pub in_epigraph: bool,
    pub in_poem: bool,
    pub in_cite: bool,
    pub in_text_author: bool,
    pub in_annotation: bool,
    pub in_body: bool,
    pub in_footnote: bool,
    pub in_body_notes: bool,
    pub in_section: bool,
    pub in_text_block: bool,
    pub in_link: bool,
    pub footnote_id: Seq<char>,
    pub footnote_text: Seq<char>,
    pub author_first: Seq<char>,
    pub author_last: Seq<char>,
    pub para_text: Seq<char>,
    pub section_titles: Seq<Seq<char>>,
    pub notes: Seq<(Seq<char>, Seq<char>)>,
    pub order: Seq<Seq<char>>,
    pub pending: Option<usize>,
}

pub open spec fn initial_model() -> Fb2Model {
    Fb2Model {
        paragraphs: seq![],
        title: seq![],
        author: seq![],
        series: seq![],
        sequence_number: 0,
        annotation: seq![],
        toc: seq![],
        current_tag: seq![],
        in_author: false,
        in_title: false,
        in_epigraph: false,
        in_poem: false,
        in_cite: false,
        in_text_author: false,
        in_annotation: false,
        in_body: false,
        in_footnote: false,
        in_body_notes: false,
        in_section: false,
        in_text_block: false,
        in_link: false,
        footnote_id: seq![],
        footnote_text: seq![],
        author_first: seq![],
        author_last: seq![],
        para_text: seq![],
        section_titles: seq![],
        notes: seq![],
        order: seq![],
        pending: None,
    }
}

/// The part of `s` after its last `c` (all of `s` when there is none).
pub open spec fn after_last(s: Seq<char>, c: char) -> Seq<char>
    decreases s.len(),
{
    if s.len() == 0 {
        s
    } else if s.last() == c {
        seq![]
    } else {
        after_last(s.drop_last(), c).push(s.last())
    }
}

/// A tag name lowercased, without its namespace prefix.
pub open spec fn norm_tag(raw: Seq<char>) -> Seq<char> {
    after_last(lowercase(raw), ':')
}

/// The value of the last attribute named `id` (in any case).
pub open spec fn last_id(attrs: Seq<(Seq<char>, Seq<char>)>) -> Option<Seq<char>>
    decreases attrs.len(),
{
    if attrs.len() == 0 {
        None
    } else if lowercase(attrs.last().0) == "id"@ {
        Some(attrs.last().1)
    } else {
        last_id(attrs.drop_last())
    }
}

pub open spec fn is_notes_name(v: Seq<char>) -> bool {
    v == "notes"@ || v == "footnotes"@ || v == "comments"@
}

/// Whether a `body` tag is the notes body: an attribute `name` whose value
/// is `notes`, `footnotes` or `comments` (in any case).
pub open spec fn is_notes_body(attrs: Seq<(Seq<char>, Seq<char>)>) -> bool {
    exists|i: int|
        0 <= i < attrs.len() && lowercase(#[trigger] attrs[i].0) == "name"@ && is_notes_name(
            lowercase(attrs[i].1),
        )
}

/// The link target of an `a` tag: the value of its first attribute whose
/// name ends in `href`, with every `#` removed; empty when there is none.
pub open spec fn href_of(attrs: Seq<(Seq<char>, Seq<char>)>) -> Seq<char>
    decreases attrs.len(),
{
    if attrs.len() == 0 {
        seq![]
    } else if ends_with(lowercase(attrs[0].0), "href"@) {
        replace_all(attrs[0].1, seq!['#'], seq![])
    } else {
        href_of(attrs.drop_first())
    }
}

/// One attribute of an empty `sequence` tag: `name` sets the series and
/// `number` its number in the series (0 when it is not an `i32`).
#[verifier::opaque]
pub open spec fn sequence_attr(m: Fb2Model, k: Seq<char>, v: Seq<char>) -> Fb2Model {
    if lowercase(k) == "name"@ {
        Fb2Model { series: v, ..m }
    } else if lowercase(k) == "number"@ {
        Fb2Model {
            sequence_number: match parse_i32_spec(v) {
                Some(n) => n,
                None => 0,
            },
            ..m
        }
    } else {
        m
    }
}

/// The series data of an empty `sequence` tag applied in attribute order.
pub open spec fn apply_sequence(m: Fb2Model, attrs: Seq<(Seq<char>, Seq<char>)>) -> Fb2Model
    decreases attrs.len(),
{
    if attrs.len() == 0 {
        m
    } else {
        sequence_attr(apply_sequence(m, attrs.drop_last()), attrs.last().0, attrs.last().1)
    }
}

/// The footnote text stored for `id`.
pub open spec fn note_lookup(notes: Seq<(Seq<char>, Seq<char>)>, id: Seq<char>) -> Option<Seq<char>>
    decreases notes.len(),
{
    if notes.len() == 0 {
        None
    } else if notes.last().0 == id {
        Some(notes.last().1)
    } else {
        note_lookup(notes.drop_last(), id)
    }
}

/// Stores `text` for `id`, replacing what was stored for it.
pub open spec fn note_store(notes: Seq<(Seq<char>, Seq<char>)>, id: Seq<char>, text: Seq<char>) -> Seq<
    (Seq<char>, Seq<char>),
> {
    if note_lookup(notes, id) is Some {
        Seq::new(
            notes.len(),
            |i: int|
                if notes[i].0 == id {
                    (id, text)
                } else {
                    notes[i]
                },
        )
    } else {
        notes.push((id, text))
    }
}

/// The model after a `section` start tag.
#[verifier::opaque]
pub open spec fn start_section(m: Fb2Model, attrs: Seq<(Seq<char>, Seq<char>)>) -> Fb2Model {
    let m1 = Fb2Model { in_section: true, section_titles: seq![], ..m };
    match last_id(attrs) {
        Some(id) if m.in_body_notes => Fb2Model {
            footnote_id: id,
            footnote_text: seq![],
            in_footnote: true,
            ..m1
        },
        _ => Fb2Model { in_text_block: true, ..m1 },
    }
}

/// The model after a `body` start tag.
#[verifier::opaque]
pub open spec fn start_body(m: Fb2Model, attrs: Seq<(Seq<char>, Seq<char>)>) -> Fb2Model {
    if is_notes_body(attrs) {
        Fb2Model { in_body_notes: true, ..m }
    } else {
        Fb2Model { in_body: true, in_text_block: true, ..m }
    }
}

/// The model after an `a` start tag: a link to a local target is numbered
/// by the order in which targets are first met.
#[verifier::opaque]
pub open spec fn start_link(m: Fb2Model, attrs: Seq<(Seq<char>, Seq<char>)>) -> Fb2Model {
    let href = href_of(attrs);
    let m1 = Fb2Model { in_link: true, ..m };
    if href.len() > 0 && !starts_with(href, "http"@) {
        let order = if m.order.contains(href) {
            m.order
        } else {
            m.order.push(href)
        };
        let pos = choose|i: int|
            0 <= i < order.len() && order[i] == href && forall|j: int| 0 <= j < i ==> order[j] != href;
        Fb2Model { order: order, pending: Some((pos + 1) as usize), ..m1 }
    } else {
        m1
    }
}

/// The tags the reader treats specially.
#[derive(Debug, Clone, Copy, PartialEq, Eq, Structural)]
pub enum TagKind {
    Author,
    Title,
    Epigraph,
    Poem,
    Cite,
    TextAuthor,
    Annotation,
    Para,
    Section,
    Body,
    Link,
    Other,
}

/// The kind of a (normalised) tag name; `p`, `v` and `subtitle` are all
/// paragraphs.
#[verifier::opaque]
pub open spec fn tag_kind(tn: Seq<char>) -> TagKind {
    if tn == "author"@ {
        TagKind::Author
    } else if tn == "title"@ {
        TagKind::Title
    } else if tn == "epigraph"@ {
        TagKind::Epigraph
    } else if tn == "poem"@ {
        TagKind::Poem
    } else if tn == "cite"@ {
        TagKind::Cite
    } else if tn == "text-author"@ {
        TagKind::TextAuthor
    } else if tn == "annotation"@ {
        TagKind::Annotation
    } else if tn == "p"@ || tn == "v"@ || tn == "subtitle"@ {
        TagKind::Para
    } else if tn == "section"@ {
        TagKind::Section
    } else if tn == "body"@ {
        TagKind::Body
    } else if tn == "a"@ {
        TagKind::Link
    } else {
        TagKind::Other
    }
}

#[verifier::opaque]
pub open spec fn open_author(m: Fb2Model) -> Fb2Model {
    Fb2Model { in_author: true, ..m }
}

#[verifier::opaque]
pub open spec fn open_title(m: Fb2Model) -> Fb2Model {
    Fb2Model { in_title: true, in_text_block: true, para_text: seq![], ..m }
}

#[verifier::opaque]
pub open spec fn open_epigraph(m: Fb2Model) -> Fb2Model {
    Fb2Model { in_epigraph: true, in_text_block: true, ..m }
}

#[verifier::opaque]
pub open spec fn open_poem(m: Fb2Model) -> Fb2Model {
    Fb2Model { in_poem: true, in_text_block: true, ..m }
}

#[verifier::opaque]
pub open spec fn open_cite(m: Fb2Model) -> Fb2Model {
    Fb2Model { in_cite: true, in_text_block: true, ..m }
}

#[verifier::opaque]
pub open spec fn open_text_author(m: Fb2Model) -> Fb2Model {
    Fb2Model { in_text_author: true, ..m }
}

#[verifier::opaque]
pub open spec fn open_annotation(m: Fb2Model) -> Fb2Model {
    Fb2Model { in_annotation: true, ..m }
}

#[verifier::opaque]
pub open spec fn open_para(m: Fb2Model) -> Fb2Model {
    Fb2Model { para_text: seq![], pending: None, ..m }
}

/// The model after a start tag whose handling only sets flags.
pub open spec fn start_simple(m: Fb2Model, k: TagKind) -> Fb2Model {
    match k {
        TagKind::Author => open_author(m),
        TagKind::Title => open_title(m),
        TagKind::Epigraph => open_epigraph(m),
        TagKind::Poem => open_poem(m),
        TagKind::Cite => open_cite(m),
        TagKind::TextAuthor => open_text_author(m),
        TagKind::Annotation => open_annotation(m),
        TagKind::Para => open_para(m),
        _ => m,
    }
}

/// The model after a start tag.
pub open spec fn start_step(m0: Fb2Model, tn: Seq<char>, attrs: Seq<(Seq<char>, Seq<char>)>) -> Fb2Model {
    let m = Fb2Model { current_tag: tn, ..m0 };
    match tag_kind(tn) {
        TagKind::Section => start_section(m, attrs),
        TagKind::Body => start_body(m, attrs),
        TagKind::Link => start_link(m, attrs),
        k => start_simple(m, k),
    }
}

/// The model after an empty-element tag.
pub open spec fn empty_step(m: Fb2Model, tn: Seq<char>, attrs: Seq<(Seq<char>, Seq<char>)>) -> Fb2Model {
    if tn == "sequence"@ {
        apply_sequence(m, attrs)
    } else {
        m
    }
}

/// The kind of paragraph that closing a paragraph element outside a title
/// produces, if any.
pub open spec fn para_kind(m: Fb2Model) -> Option<ParagraphKind> {
    if m.in_epigraph {
        Some(ParagraphKind::Epigraph)
    } else if m.in_text_author {
        Some(ParagraphKind::Author)
    } else if m.in_poem {
        Some(ParagraphKind::Poem)
    } else if m.in_cite {
        Some(ParagraphKind::Cite)
    } else if m.in_body || m.in_text_block {
        Some(ParagraphKind::Body)
    } else {
        None
    }
}

/// A title paragraph; inside a section its text also becomes one of the
/// (at most three) section titles, unless it holds the author's name.
#[verifier::opaque]
pub open spec fn title_para(m: Fb2Model, t: Seq<char>) -> Fb2Model {
    let titles = if m.in_section && m.section_titles.len() < 3 && !contains(t, m.author) {
        m.section_titles.push(t)
    } else {
        m.section_titles
    };
    Fb2Model { section_titles: titles, paragraphs: m.paragraphs.push((ParagraphKind::Title, t)), ..m }
}

#[verifier::opaque]
pub open spec fn push_para(m: Fb2Model, k: ParagraphKind, t: Seq<char>) -> Fb2Model {
    Fb2Model { paragraphs: m.paragraphs.push((k, t)), ..m }
}

/// The paragraphs after closing a `p`, `v` or `subtitle` with text `t`.
pub open spec fn close_paragraph(m: Fb2Model, t: Seq<char>) -> Fb2Model {
    if m.in_title {
        title_para(m, t)
    } else {
        match para_kind(m) {
            Some(k) => push_para(m, k, t),
            None => m,
        }
    }
}

pub open spec fn toc_separator() -> Seq<char> {
    seq![':', ' ']
}

/// Closing a `section`: its titles become a table of contents entry.
#[verifier::opaque]
pub open spec fn section_toc(m: Fb2Model) -> Fb2Model {
    if m.section_titles.len() > 0 {
        Fb2Model {
            toc: m.toc.push((join(m.section_titles, toc_separator()), m.paragraphs.len() as int)),
            section_titles: seq![],
            in_section: false,
            ..m
        }
    } else {
        Fb2Model { in_section: false, ..m }
    }
}

/// Closing a footnote `section`: its text is stored under its id.
#[verifier::opaque]
pub open spec fn section_note(m1: Fb2Model) -> Fb2Model {
    if m1.in_footnote && m1.footnote_id.len() > 0 {
        let order = if note_lookup(m1.notes, m1.footnote_id) is Some {
            m1.order
        } else {
            m1.order.push(m1.footnote_id)
        };
        Fb2Model {
            order: order,
            notes: note_store(m1.notes, m1.footnote_id, trim(m1.footnote_text)),
            footnote_id: seq![],
            footnote_text: seq![],
            in_footnote: false,
            ..m1
        }
    } else {
        m1
    }
}

#[verifier::opaque]
pub open spec fn leave_text_block(m: Fb2Model) -> Fb2Model {
    Fb2Model { in_text_block: false, ..m }
}

/// The model after closing a `section`.
pub open spec fn end_section(m: Fb2Model) -> Fb2Model {
    leave_text_block(section_note(section_toc(m)))
}

#[verifier::opaque]
pub open spec fn reset_para(m: Fb2Model) -> Fb2Model {
    Fb2Model { para_text: seq![], pending: None, ..m }
}

/// The model after closing a paragraph element.
pub open spec fn end_para(m: Fb2Model) -> Fb2Model {
    let t = trim(m.para_text);
    reset_para(if t.len() > 0 {
        close_paragraph(m, t)
    } else {
        m
    })
}

/// The model after closing `author`: the first and last names make the
/// author unless one is already known.
#[verifier::opaque]
pub open spec fn end_author(m: Fb2Model) -> Fb2Model {
    let full = trim(m.author_first + seq![' '] + m.author_last);
    let author = if full.len() > 0 && m.author.len() == 0 {
        full
    } else {
        m.author
    };
    Fb2Model { in_author: false, author: author, ..m }
}

#[verifier::opaque]
pub open spec fn close_link(m: Fb2Model) -> Fb2Model {
    Fb2Model { in_link: false, ..m }
}

#[verifier::opaque]
pub open spec fn close_title(m: Fb2Model) -> Fb2Model {
    Fb2Model { in_title: false, in_text_block: false, ..m }
}

#[verifier::opaque]
pub open spec fn close_epigraph(m: Fb2Model) -> Fb2Model {
    Fb2Model { in_epigraph: false, in_text_block: false, ..m }
}

#[verifier::opaque]
pub open spec fn close_poem(m: Fb2Model) -> Fb2Model {
    Fb2Model { in_poem: false, in_text_block: false, ..m }
}

#[verifier::opaque]
pub open spec fn close_cite(m: Fb2Model) -> Fb2Model {
    Fb2Model { in_cite: false, in_text_block: false, ..m }
}

#[verifier::opaque]
pub open spec fn close_text_author(m: Fb2Model) -> Fb2Model {
    Fb2Model { in_text_author: false, ..m }
}

#[verifier::opaque]
pub open spec fn close_annotation(m: Fb2Model) -> Fb2Model {
    Fb2Model { in_annotation: false, ..m }
}

#[verifier::opaque]
pub open spec fn close_body(m: Fb2Model) -> Fb2Model {
    Fb2Model { in_body_notes: false, in_body: false, in_text_block: false, ..m }
}

/// The model after an end tag (before the current tag is cleared).
pub open spec fn end_step_inner(m: Fb2Model, tn: Seq<char>) -> Fb2Model {
    match tag_kind(tn) {
        TagKind::Author => end_author(m),
        TagKind::Para => end_para(m),
        TagKind::Section => end_section(m),
        TagKind::Link => close_link(m),
        TagKind::Title => close_title(m),
        TagKind::Epigraph => close_epigraph(m),
        TagKind::Poem => close_poem(m),
        TagKind::Cite => close_cite(m),
        TagKind::TextAuthor => close_text_author(m),
        TagKind::Annotation => close_annotation(m),
        TagKind::Body => close_body(m),
        TagKind::Other => m,
    }
}

#[verifier::opaque]
pub open spec fn clear_tag(m: Fb2Model) -> Fb2Model {
    Fb2Model { current_tag: seq![], ..m }
}

/// The model after an end tag.
pub open spec fn end_step(m: Fb2Model, tn: Seq<char>) -> Fb2Model {
    clear_tag(end_step_inner(m, tn))
}

/// The marker of a footnote reference: ` ^f:[n]`.
pub open spec fn note_ref(n: usize) -> Seq<char> {
    seq![' ', '^', 'f', ':', '['] + decimal(n as nat) + seq![']']
}

pub open spec fn ends_sentence(c: char) -> bool {
    c == '?' || c == '!' || c == '.' || c == '"' || c == ')'
}

pub open spec fn is_closing_punct(c: char) -> bool {
    c == '.' || c == ',' || c == '?' || c == '!' || c == ')' || c == ';' || c == ':'
}

/// The paragraph text after appending a piece of text: a space is put
/// between the pieces unless the new piece starts with closing punctuation
/// after a character that is neither alphanumeric nor ends a sentence.
pub open spec fn glue(para: Seq<char>, t: Seq<char>) -> Seq<char> {
    if para.len() > 0 && para.last() != ' ' {
        let last = para.last();
        let first = t[0];
        if (alphanumeric(last) || ends_sentence(last)) && alphanumeric(first) {
            para.push(' ') + t
        } else if !is_closing_punct(first) {
            para.push(' ') + t
        } else {
            para + t
        }
    } else {
        para + t
    }
}

/// Text pieces are never fused into one word: after a paragraph text that
/// ends in a character other than a space, a piece that does not start with
/// closing punctuation (`.`, `,`, `?`, `!`, `)`, `;`, `:`) follows one space.
pub proof fn law_glue_keeps_words_apart(para: Seq<char>, t: Seq<char>)
    requires
        para.len() > 0,
        para.last() != ' ',
        t.len() > 0,
        t[0] != '.' && t[0] != ',' && t[0] != '?' && t[0] != '!' && t[0] != ')' && t[0] != ';'
            && t[0] != ':',
    ensures
        glue(para, t) == para + seq![' '] + t,
{
    assert(para.push(' ') =~= para + seq![' ']);
}

/// A piece is appended to the paragraph text as it is, after at most one
/// added space: the old text stays in front and the piece at the end.
pub proof fn law_glue_appends(para: Seq<char>, t: Seq<char>)
    requires
        t.len() > 0,
    ensures
        glue(para, t) == para + t || glue(para, t) == para + seq![' '] + t,
        glue(para, t).len() >= para.len() + t.len(),
        glue(para, t).subrange(0, para.len() as int) == para,
        glue(para, t).subrange(glue(para, t).len() - t.len(), glue(para, t).len() as int) == t,
{
    assert(para.push(' ') =~= para + seq![' ']);
    assert((para + t).subrange(0, para.len() as int) =~= para);
    assert((para + seq![' '] + t).subrange(0, para.len() as int) =~= para);
    assert((para + t).subrange(para.len() as int, (para + t).len() as int) =~= t);
    assert((para + seq![' '] + t).subrange(para.len() + 1int, (para + seq![' '] + t).len() as int) =~= t);
}

/// After an empty paragraph text, or one that ends in a space, the piece is
/// appended with nothing between; closing punctuation after a character
/// that is neither alphanumeric nor ends a sentence is appended directly too.
pub proof fn law_glue_no_space(para: Seq<char>, t: Seq<char>)
    requires
        t.len() > 0,
        para.len() == 0 || para.last() == ' ' || (is_closing_punct(t[0]) && !alphanumeric(para.last())
            && !ends_sentence(para.last())),
    ensures
        glue(para, t) == para + t,
{
}

/// The text of a text event: references resolved (nothing when one is
/// invalid) and whitespace collapsed.
pub open spec fn cleaned_text(raw: Seq<char>) -> Seq<char> {
    let text = match xml_unescaped(raw) {
        Some(t) => t,
        None => seq![],
    };
    join(words(text), seq![' '])
}

#[verifier::opaque]
pub open spec fn set_book_title(m: Fb2Model, c: Seq<char>) -> Fb2Model {
    if m.title.len() == 0 {
        Fb2Model { title: c, ..m }
    } else {
        m
    }
}

#[verifier::opaque]
pub open spec fn add_note_text(m: Fb2Model, c: Seq<char>) -> Fb2Model {
    Fb2Model { footnote_text: m.footnote_text + c + seq![' '], ..m }
}

#[verifier::opaque]
pub open spec fn author_part(m: Fb2Model, c: Seq<char>) -> Fb2Model {
    if m.current_tag == "first-name"@ {
        Fb2Model { author_first: c, ..m }
    } else if m.current_tag == "last-name"@ {
        Fb2Model { author_last: c, ..m }
    } else {
        m
    }
}

#[verifier::opaque]
pub open spec fn add_annotation(m: Fb2Model, c: Seq<char>) -> Fb2Model {
    let a = if m.annotation.len() > 0 {
        m.annotation.push(' ')
    } else {
        m.annotation
    };
    Fb2Model { annotation: a + c, ..m }
}

/// Text inside a link: it is replaced by the reference marker of the link.
#[verifier::opaque]
pub open spec fn link_text(m: Fb2Model) -> Fb2Model {
    match m.pending {
        Some(n) => Fb2Model { para_text: trim_end(m.para_text) + note_ref(n), pending: None, ..m },
        None => m,
    }
}

/// Text of a paragraph: glued to what came before, followed by a pending
/// reference marker.
#[verifier::opaque]
pub open spec fn plain_text(m: Fb2Model, c: Seq<char>) -> Fb2Model {
    let p = glue(m.para_text, c);
    match m.pending {
        Some(n) => Fb2Model { para_text: trim_end(p) + note_ref(n), pending: None, ..m },
        None => Fb2Model { para_text: p, ..m },
    }
}

/// The model after a text event.
pub open spec fn text_step(m: Fb2Model, raw: Seq<char>) -> Fb2Model {
    let cleaned = cleaned_text(raw);
    if cleaned.len() == 0 || utf8_len(cleaned) >= 10000 {
        m
    } else if m.current_tag == "book-title"@ {
        set_book_title(m, cleaned)
    } else if m.in_footnote {
        add_note_text(m, cleaned)
    } else if m.in_author {
        author_part(m, cleaned)
    } else if m.in_annotation {
        add_annotation(m, cleaned)
    } else if m.in_text_block || m.in_body {
        if m.in_link {
            link_text(m)
        } else {
            plain_text(m, cleaned)
        }
    } else {
        m
    }
}

/// The model after one event.
pub open spec fn event_step(m: Fb2Model, ev: XmlEvent) -> Fb2Model {
    match ev {
        XmlEvent::Start(n, a) => start_step(m, norm_tag(n@), attr_views(a@)),
        XmlEvent::Empty(n, a) => empty_step(m, norm_tag(n@), attr_views(a@)),
        XmlEvent::End(n) => end_step(m, norm_tag(n@)),
        XmlEvent::Text(t) => text_step(m, t@),
        _ => m,
    }
}

/// The model after the events up to the first end of input or error.
pub open spec fn run_events(m: Fb2Model, evs: Seq<XmlEvent>) -> Fb2Model
    decreases evs.len(),
{
    if evs.len() == 0 {
        m
    } else {
        match evs[0] {
            XmlEvent::Eof => m,
            XmlEvent::Failed => m,
            _ => run_events(event_step(m, evs[0]), evs.drop_first()),
        }
    }
}

// ---------------------------------------------------------------------------
// The finished book
// ---------------------------------------------------------------------------

/// The footnotes in the order in which their ids were first referenced or
/// defined: each id that has a stored text, numbered by its position there
/// (counting from 1).
pub open spec fn footnote_list(order: Seq<Seq<char>>, notes: Seq<(Seq<char>, Seq<char>)>) -> Seq<
    (Seq<char>, int),
>
    decreases order.len(),
{
    if order.len() == 0 {
        seq![]
    } else {
        let prev = footnote_list(order.drop_last(), notes);
        match note_lookup(notes, order.last()) {
            Some(t) => prev.push((t, order.len() as int)),
            None => prev,
        }
    }
}

/// The title of the footnotes chapter.
pub open spec fn notes_title() -> Seq<char> {
    "Сноски"@
}

/// The paragraph that shows a footnote: `n. text`.
pub open spec fn footnote_para(f: (Seq<char>, int)) -> (ParagraphKind, Seq<char>) {
    (ParagraphKind::Body, decimal(f.1 as nat) + seq!['.', ' '] + f.0)
}

pub open spec fn is_f(c: char) -> bool {
    c == 'f' || c == 'F'
}

pub open spec fn is_b(c: char) -> bool {
    c == 'b' || c == 'B'
}

/// Whether a name ends in `.fb2`, in any case.
pub open spec fn ends_with_fb2(name: Seq<char>) -> bool {
    name.len() >= 4 && name[name.len() - 4] == '.' && is_f(name[name.len() - 3]) && is_b(
        name[name.len() - 2],
    ) && name[name.len() - 1] == '2'
}

/// The title used when the book names none: the file name without its
/// extension and without a further `.fb2`.
pub open spec fn fallback_title(stem: Option<Seq<char>>) -> Seq<char> {
    let name = match stem {
        Some(s) => s,
        None => "Неизвестная книга"@,
    };
    if ends_with_fb2(name) {
        name.take(name.len() - 4)
    } else {
        name
    }
}

/// The author used when the book names none.
pub open spec fn unknown_author() -> Seq<char> {
    "Неизвестный Автор"@
}

/// A parsed book as plain values.
pub struct BookModel {
    pub paragraphs: Seq<(ParagraphKind, Seq<char>)>,
    pub title: Seq<char>,
    pub author: Seq<char>,
    pub series: Seq<char>,
    pub sequence_number: i32,
    pub annotation: Seq<char>,
    pub encoding: Seq<char>,
    pub footnotes: Seq<(Seq<char>, int)>,
    pub toc: Seq<(Seq<char>, int)>,
}

/// The book once every event is read: the footnotes, if any, follow the
/// text as a chapter of their own with an entry in the table of contents,
/// and a missing title or author is filled in.
pub open spec fn finish_book(m: Fb2Model, stem: Option<Seq<char>>, encoding: Seq<char>) -> BookModel {
    let notes = footnote_list(m.order, m.notes);
    BookModel {
        paragraphs: if notes.len() > 0 {
            m.paragraphs.push((ParagraphKind::Title, notes_title())) + Seq::new(
                notes.len(),
                |i: int| footnote_para(notes[i]),
            )
        } else {
            m.paragraphs
        },
        title: if m.title.len() == 0 {
            fallback_title(stem)
        } else {
            m.title
        },
        author: if m.author.len() == 0 {
            unknown_author()
        } else {
            m.author
        },
        series: m.series,
        sequence_number: m.sequence_number,
        annotation: m.annotation,
        encoding: encoding,
        footnotes: notes,
        toc: if notes.len() > 0 {
            m.toc.push((notes_title(), m.paragraphs.len() as int))
        } else {
            m.toc
        },
    }
}

/// The book of a file that could not be read: nothing but the encoding
/// `utf-8`.
pub open spec fn unread_book() -> BookModel {
    BookModel {
        paragraphs: seq![],
        title: seq![],
        author: seq![],
        series: seq![],
        sequence_number: 0,
        annotation: seq![],
        encoding: "utf-8"@,
        footnotes: seq![],
        toc: seq![],
    }
}

pub open spec fn footnote_views(f: Seq<FootnoteInfo>) -> Seq<(Seq<char>, int)> {
    Seq::new(f.len(), |i: int| (f[i].text@, f[i].number as int))
}

pub open spec fn string_toc_views(t: Seq<(String, usize)>) -> Seq<(Seq<char>, int)> {
    Seq::new(t.len(), |i: int| (t[i].0@, t[i].1 as int))
}

impl FB2Parser {
    /// The book as plain values.
    pub open spec fn book(&self) -> BookModel {
        BookModel {
            paragraphs: para_views(self.paragraphs@),
            title: self.meta.title@,
            author: self.meta.author@,
            series: self.meta.series@,
            sequence_number: self.meta.sequence_number,
            annotation: self.meta.annotation@,
            encoding: self.encoding@,
            footnotes: footnote_views(self.footnotes@),
            toc: string_toc_views(self.toc@),
        }
    }
}

} // verus!

verus! {

// ---------------------------------------------------------------------------
// Calls into quick-xml
// ---------------------------------------------------------------------------

#[verifier::external_type_specification]
#[verifier::external_body]
#[verifier::reject_recursive_types(R)]
pub struct ExXmlReader<R>(quick_xml::Reader<R>);

#[verifier::external_type_specification]
#[verifier::external_body]
#[verifier::reject_recursive_types(T)]
pub struct ExCursor<T>(std::io::Cursor<T>);

/// The reader that `quick_xml::Reader::from_reader` makes over the UTF-8
/// bytes of `text`, set by `trim_text(true)` to trim text events.
pub uninterp spec fn xml_reader_of(text: Seq<char>) -> quick_xml::Reader<std::io::Cursor<Vec<u8>>>;

/// `quick_xml::Reader::from_reader` over the UTF-8 bytes of `text`, then
/// `trim_text(true)`, so that text events lose their leading and trailing
/// whitespace and whitespace-only text yields no event: the reader is named
/// `xml_reader_of` of the text.
#[verifier::external_body]
fn xml_reader(text: &str) -> (res: quick_xml::Reader<std::io::Cursor<Vec<u8>>>)
    ensures
        res == xml_reader_of(text@),
{
    let mut reader = quick_xml::Reader::from_reader(std::io::Cursor::new(text.as_bytes().to_vec()));
    reader.trim_text(true);
    reader
}

#[verifier::external_type_specification]
#[verifier::external_body]
pub struct ExBytesStart<'a>(quick_xml::events::BytesStart<'a>);

/// `quick_xml::events::BytesStart::attributes`: the well-formed attributes
/// of a tag, key and raw value taken as UTF-8 with invalid sequences
/// replaced.  Nothing is claimed about them.
#[verifier::external_body]
fn xml_attrs(e: &BytesStart) -> Vec<(String, String)> {
    e.attributes().flatten().map(|a| {
        (String::from_utf8_lossy(a.key.as_ref()).into_owned(), String::from_utf8_lossy(&a.value).into_owned())
    }).collect()
}

/// What one `quick_xml::Reader::read_event_into` does on a reader: the
/// event it yields, converted to an `XmlEvent` (names and text taken as
/// UTF-8 with invalid sequences replaced), and the reader afterwards.  The
/// reader holds its whole input and its position in it, so both are
/// functions of the reader.
pub uninterp spec fn xml_read(r: quick_xml::Reader<std::io::Cursor<Vec<u8>>>) -> (
    XmlEvent,
    quick_xml::Reader<std::io::Cursor<Vec<u8>>>,
);

/// `quick_xml::Reader::read_event_into` with a fresh buffer: the event and
/// the reader afterwards are named `xml_read` of the reader before.
#[verifier::external_body]
fn read_next(r: &mut quick_xml::Reader<std::io::Cursor<Vec<u8>>>) -> (res: XmlEvent)
    ensures
        (res, *final(r)) == xml_read(*old(r)),
{
    let s = |b: &[u8]| String::from_utf8_lossy(b).into_owned();
    let mut buf = Vec::new();
    match r.read_event_into(&mut buf) {
        Ok(Event::Start(e)) => XmlEvent::Start(s(e.name().as_ref()), xml_attrs(&e)),
        Ok(Event::Empty(e)) => XmlEvent::Empty(s(e.name().as_ref()), xml_attrs(&e)),
        Ok(Event::End(e)) => XmlEvent::End(s(e.name().as_ref())),
        Ok(Event::Text(e)) => XmlEvent::Text(s(&e)),
        Ok(Event::Eof) => XmlEvent::Eof,
        Ok(_) => XmlEvent::Other,
        Err(_) => XmlEvent::Failed,
    }
}

/// Whether an event ends the reading.
pub open spec fn is_last_event(e: XmlEvent) -> bool {
    e is Eof || e is Failed
}

/// The events that the reader `r` yields in at most `n` reads, up to and
/// including the first end of input or error.
pub open spec fn reader_events(r: quick_xml::Reader<std::io::Cursor<Vec<u8>>>, n: nat) -> Seq<XmlEvent>
    decreases n,
{
    if n == 0 {
        seq![]
    } else {
        let (e, next) = xml_read(r);
        if is_last_event(e) || n == 1 {
            seq![e]
        } else {
            seq![e] + reader_events(next, (n - 1) as nat)
        }
    }
}

/// The events that the reader yields for a text: up to the first end of
/// input or error.  Every event takes at least one character of the text,
/// so there are at most one more than the text has characters; the reading
/// stops there.
pub open spec fn text_events(text: Seq<char>) -> Seq<XmlEvent> {
    reader_events(xml_reader_of(text), text.len() + 1)
}

/// Reads the XML events of a text.
pub fn read_events(text: &str) -> (res: Vec<XmlEvent>)
    ensures
        res@ == text_events(text@),
{
    let cap = str_chars(text).len();
    let mut reader = xml_reader(text);
    let mut events: Vec<XmlEvent> = Vec::new();
    let mut k: usize = 0;
    loop
        invariant_except_break
            k <= cap,
            cap == text@.len(),
            events@ + reader_events(reader, (cap + 1 - k) as nat) == text_events(text@),
        ensures
            events@ == text_events(text@),
        decreases cap - k,
    {
        let ghost r0 = reader;
        let ev = read_next(&mut reader);
        let last = match ev {
            XmlEvent::Eof => true,
            XmlEvent::Failed => true,
            _ => false,
        };
        let ghost before = events@;
        events.push(ev);
        if last || k == cap {
            assert(reader_events(r0, (cap + 1 - k) as nat) == seq![ev]);
            assert(before + seq![ev] =~= events@);
            break;
        }
        assert(reader_events(r0, (cap + 1 - k) as nat) == seq![ev] + reader_events(
            reader,
            (cap - k) as nat,
        ));
        assert(before + (seq![ev] + reader_events(reader, (cap - k) as nat)) =~= events@
            + reader_events(reader, (cap - k) as nat));
        k = k + 1;
    }
    events
}

/// `quick_xml::escape::unescape`: the result is named `xml_unescaped` of
/// the text (`None` for an error).
#[verifier::external_body]
pub(crate) fn xml_unescape(raw: &str) -> (res: Option<String>)
    ensures
        match res {
            Some(t) => xml_unescaped(raw@) == Some(t@),
            None => xml_unescaped(raw@) is None,
        },
{
    quick_xml::escape::unescape(raw).ok().map(|c| c.into_owned())
}

} // verus!

verus! {

// ---------------------------------------------------------------------------
// Laws of the finished book
// ---------------------------------------------------------------------------

/// Footnotes are numbered in increasing order, each by a position in the
/// order of first reference.
pub proof fn law_footnote_numbers(order: Seq<Seq<char>>, notes: Seq<(Seq<char>, Seq<char>)>)
    ensures
        ({
            let f = footnote_list(order, notes);
            &&& f.len() <= order.len()
            &&& forall|i: int| 0 <= i < f.len() ==> 1 <= #[trigger] f[i].1 <= order.len()
            &&& forall|i: int, j: int| 0 <= i < j < f.len() ==> f[i].1 < f[j].1
        }),
    decreases order.len(),
{
    if order.len() > 0 {
        law_footnote_numbers(order.drop_last(), notes);
    }
}

/// When a book has footnotes, the last entry of its table of contents
/// leads to the title of the footnotes chapter, and each footnote is shown
/// there as `n. text`, in order.
pub proof fn law_notes_chapter(m: Fb2Model, stem: Option<Seq<char>>, encoding: Seq<char>)
    requires
        footnote_list(m.order, m.notes).len() > 0,
    ensures
        ({
            let b = finish_book(m, stem, encoding);
            let last = b.toc[b.toc.len() - 1];
            &&& last == (notes_title(), m.paragraphs.len() as int)
            &&& b.paragraphs[last.1] == (ParagraphKind::Title, notes_title())
            &&& b.paragraphs.len() == m.paragraphs.len() + 1 + b.footnotes.len()
            &&& forall|i: int|
                0 <= i < b.footnotes.len() ==> b.paragraphs[m.paragraphs.len() + 1 + i]
                    == #[trigger] footnote_para(b.footnotes[i])
        }),
{
    let b = finish_book(m, stem, encoding);
    let n = footnote_list(m.order, m.notes);
    let base = m.paragraphs.push((ParagraphKind::Title, notes_title()));
    let tail = Seq::new(n.len(), |i: int| footnote_para(n[i]));
    assert(b.paragraphs == base + tail);
    assert(b.paragraphs[m.paragraphs.len() as int] == base[m.paragraphs.len() as int]);
    assert forall|i: int| 0 <= i < b.footnotes.len() implies b.paragraphs[m.paragraphs.len() + 1 + i]
        == #[trigger] footnote_para(b.footnotes[i]) by {
        assert(b.paragraphs[m.paragraphs.len() + 1 + i] == tail[i]);
    }
}

} // verus!

verus! {

// ---------------------------------------------------------------------------
// What every event keeps
// ---------------------------------------------------------------------------

/// Every paragraph has text, and every table of contents entry points at
/// or before the end of the paragraphs.
pub open spec fn model_ok(m: Fb2Model) -> bool {
    &&& forall|i: int| 0 <= i < m.paragraphs.len() ==> (#[trigger] m.paragraphs[i]).1.len() > 0
    &&& forall|j: int| 0 <= j < m.toc.len() ==> 0 <= (#[trigger] m.toc[j]).1 <= m.paragraphs.len()
}

proof fn lemma_sequence_ok(m: Fb2Model, attrs: Seq<(Seq<char>, Seq<char>)>)
    requires
        model_ok(m),
    ensures
        apply_sequence(m, attrs).paragraphs == m.paragraphs,
        apply_sequence(m, attrs).toc == m.toc,
    decreases attrs.len(),
{
    reveal(sequence_attr);
    if attrs.len() > 0 {
        lemma_sequence_ok(m, attrs.drop_last());
    }
}

proof fn lemma_start_ok(m: Fb2Model, tn: Seq<char>, attrs: Seq<(Seq<char>, Seq<char>)>)
    requires
        model_ok(m),
    ensures
        start_step(m, tn, attrs).paragraphs == m.paragraphs,
        start_step(m, tn, attrs).toc == m.toc,
{
    reveal(start_section);
    reveal(start_body);
    reveal(start_link);
    reveal(open_author);
    reveal(open_title);
    reveal(open_epigraph);
    reveal(open_poem);
    reveal(open_cite);
    reveal(open_text_author);
    reveal(open_annotation);
    reveal(open_para);
}

proof fn lemma_para_ok(m: Fb2Model)
    requires
        model_ok(m),
    ensures
        model_ok(end_para(m)),
{
    reveal(title_para);
    reveal(push_para);
    reveal(reset_para);
    let r = end_para(m);
    assert forall|i: int| 0 <= i < r.paragraphs.len() implies (#[trigger] r.paragraphs[i]).1.len() > 0 by {
        if i < m.paragraphs.len() {
            assert(r.paragraphs[i] == m.paragraphs[i]);
        }
    }
}

#[verifier::spinoff_prover]
#[verifier::rlimit(40)]
proof fn lemma_section_ok(m: Fb2Model)
    requires
        model_ok(m),
    ensures
        model_ok(end_section(m)),
{
    reveal(section_toc);
    reveal(section_note);
    reveal(leave_text_block);
}

proof fn lemma_close_ok(m: Fb2Model, tn: Seq<char>)
    requires
        model_ok(m),
        tag_kind(tn) != TagKind::Para,
        tag_kind(tn) != TagKind::Section,
    ensures
        end_step_inner(m, tn).paragraphs == m.paragraphs,
        end_step_inner(m, tn).toc == m.toc,
{
    reveal(end_author);
    reveal(close_link);
    reveal(close_title);
    reveal(close_epigraph);
    reveal(close_poem);
    reveal(close_cite);
    reveal(close_text_author);
    reveal(close_annotation);
    reveal(close_body);
}

proof fn lemma_end_ok(m: Fb2Model, tn: Seq<char>)
    requires
        model_ok(m),
    ensures
        model_ok(end_step(m, tn)),
{
    reveal(clear_tag);
    match tag_kind(tn) {
        TagKind::Para => lemma_para_ok(m),
        TagKind::Section => lemma_section_ok(m),
        _ => lemma_close_ok(m, tn),
    }
}

proof fn lemma_text_ok(m: Fb2Model, raw: Seq<char>)
    requires
        model_ok(m),
    ensures
        text_step(m, raw).paragraphs == m.paragraphs,
        text_step(m, raw).toc == m.toc,
{
    reveal(set_book_title);
    reveal(add_note_text);
    reveal(author_part);
    reveal(add_annotation);
    reveal(link_text);
    reveal(plain_text);
}

proof fn lemma_event_ok(m: Fb2Model, ev: XmlEvent)
    requires
        model_ok(m),
    ensures
        model_ok(event_step(m, ev)),
{
    match ev {
        XmlEvent::Start(n, a) => lemma_start_ok(m, norm_tag(n@), attr_views(a@)),
        XmlEvent::Empty(n, a) => {
            if norm_tag(n@) == "sequence"@ {
                lemma_sequence_ok(m, attr_views(a@));
            }
        },
        XmlEvent::End(n) => lemma_end_ok(m, norm_tag(n@)),
        XmlEvent::Text(t) => lemma_text_ok(m, t@),
        _ => {},
    }
}

/// Reading events keeps every paragraph non-empty and every table of
/// contents entry within the paragraphs.
pub proof fn law_events_keep_model(m: Fb2Model, evs: Seq<XmlEvent>)
    requires
        model_ok(m),
    ensures
        model_ok(run_events(m, evs)),
    decreases evs.len(),
{
    if evs.len() > 0 {
        match evs[0] {
            XmlEvent::Eof => {},
            XmlEvent::Failed => {},
            _ => {
                lemma_event_ok(m, evs[0]);
                law_events_keep_model(event_step(m, evs[0]), evs.drop_first());
            },
        }
    }
}

/// A finished book has no empty paragraph, and its table of contents
/// points into its paragraphs (or at their end).
pub proof fn law_book_paragraphs(evs: Seq<XmlEvent>, stem: Option<Seq<char>>, encoding: Seq<char>)
    ensures
        ({
            let b = finish_book(run_events(initial_model(), evs), stem, encoding);
            &&& forall|i: int| 0 <= i < b.paragraphs.len() ==> (#[trigger] b.paragraphs[i]).1.len() > 0
            &&& forall|j: int| 0 <= j < b.toc.len() ==> 0 <= (#[trigger] b.toc[j]).1 <= b.paragraphs.len()
        }),
{
    let m0 = initial_model();
    assert(model_ok(m0));
    law_events_keep_model(m0, evs);
    let m = run_events(m0, evs);
    let b = finish_book(m, stem, encoding);
    let n = footnote_list(m.order, m.notes);
    reveal_strlit("Сноски");
    if n.len() > 0 {
        let base = m.paragraphs.push((ParagraphKind::Title, notes_title()));
        let tail = Seq::new(n.len(), |i: int| footnote_para(n[i]));
        assert(b.paragraphs == base + tail);
        assert forall|i: int| 0 <= i < b.paragraphs.len() implies (#[trigger] b.paragraphs[i]).1.len()
            > 0 by {
            if i < m.paragraphs.len() {
                assert(b.paragraphs[i] == m.paragraphs[i]);
            } else if i == m.paragraphs.len() {
                assert(b.paragraphs[i] == (ParagraphKind::Title, notes_title()));
            } else {
                assert(b.paragraphs[i] == tail[i - m.paragraphs.len() - 1]);
                crate::text::lemma_decimal_nonempty(n[i - m.paragraphs.len() - 1].1 as nat);
            }
        }
        assert forall|j: int| 0 <= j < b.toc.len() implies 0 <= (#[trigger] b.toc[j]).1 <= b.paragraphs.len() by {
            if j < m.toc.len() {
                assert(b.toc[j] == m.toc[j]);
            }
        }
    }
}

} // verus!

verus! {

// ---------------------------------------------------------------------------
// Laws of the events
// ---------------------------------------------------------------------------

proof fn lemma_tag_p()
    ensures
        tag_kind("p"@) == TagKind::Para,
{
    reveal(tag_kind);
    reveal_strlit("p");
    assert("p"@.len() == 1);
    reveal_strlit("author");
    assert("p"@ != "author"@) by {
        assert("author"@.len() == 6);
    }
    reveal_strlit("title");
    assert("p"@ != "title"@) by {
        assert("title"@.len() == 5);
    }
    reveal_strlit("epigraph");
    assert("p"@ != "epigraph"@) by {
        assert("epigraph"@.len() == 8);
    }
    reveal_strlit("poem");
    assert("p"@ != "poem"@) by {
        assert("poem"@.len() == 4);
    }
    reveal_strlit("cite");
    assert("p"@ != "cite"@) by {
        assert("cite"@.len() == 4);
    }
    reveal_strlit("text-author");
    assert("p"@ != "text-author"@) by {
        assert("text-author"@.len() == 11);
    }
    reveal_strlit("annotation");
    assert("p"@ != "annotation"@) by {
        assert("annotation"@.len() == 10);
    }
}

proof fn lemma_tag_v()
    ensures
        tag_kind("v"@) == TagKind::Para,
{
    reveal(tag_kind);
    reveal_strlit("v");
    assert("v"@.len() == 1);
    reveal_strlit("author");
    assert("v"@ != "author"@) by {
        assert("author"@.len() == 6);
    }
    reveal_strlit("title");
    assert("v"@ != "title"@) by {
        assert("title"@.len() == 5);
    }
    reveal_strlit("epigraph");
    assert("v"@ != "epigraph"@) by {
        assert("epigraph"@.len() == 8);
    }
    reveal_strlit("poem");
    assert("v"@ != "poem"@) by {
        assert("poem"@.len() == 4);
    }
    reveal_strlit("cite");
    assert("v"@ != "cite"@) by {
        assert("cite"@.len() == 4);
    }
    reveal_strlit("text-author");
    assert("v"@ != "text-author"@) by {
        assert("text-author"@.len() == 11);
    }
    reveal_strlit("annotation");
    assert("v"@ != "annotation"@) by {
        assert("annotation"@.len() == 10);
    }
    reveal_strlit("p");
    assert("v"@ != "p"@) by {
        assert("p"@.len() == 1);
        assert("v"@[0] != "p"@[0]);
    }
}

proof fn lemma_tag_subtitle()
    ensures
        tag_kind("subtitle"@) == TagKind::Para,
{
    reveal(tag_kind);
    reveal_strlit("subtitle");
    assert("subtitle"@.len() == 8);
    reveal_strlit("author");
    assert("subtitle"@ != "author"@) by {
        assert("author"@.len() == 6);
    }
    reveal_strlit("title");
    assert("subtitle"@ != "title"@) by {
        assert("title"@.len() == 5);
    }
    reveal_strlit("epigraph");
    assert("subtitle"@ != "epigraph"@) by {
        assert("epigraph"@.len() == 8);
        assert("subtitle"@[0] != "epigraph"@[0]);
    }
    reveal_strlit("poem");
    assert("subtitle"@ != "poem"@) by {
        assert("poem"@.len() == 4);
    }
    reveal_strlit("cite");
    assert("subtitle"@ != "cite"@) by {
        assert("cite"@.len() == 4);
    }
    reveal_strlit("text-author");
    assert("subtitle"@ != "text-author"@) by {
        assert("text-author"@.len() == 11);
    }
    reveal_strlit("annotation");
    assert("subtitle"@ != "annotation"@) by {
        assert("annotation"@.len() == 10);
    }
    reveal_strlit("p");
    assert("subtitle"@ != "p"@) by {
        assert("p"@.len() == 1);
    }
    reveal_strlit("v");
    assert("subtitle"@ != "v"@) by {
        assert("v"@.len() == 1);
    }
}

proof fn lemma_tag_section()
    ensures
        tag_kind("section"@) == TagKind::Section,
{
    reveal(tag_kind);
    reveal_strlit("section");
    assert("section"@.len() == 7);
    reveal_strlit("author");
    assert("section"@ != "author"@) by {
        assert("author"@.len() == 6);
    }
    reveal_strlit("title");
    assert("section"@ != "title"@) by {
        assert("title"@.len() == 5);
    }
    reveal_strlit("epigraph");
    assert("section"@ != "epigraph"@) by {
        assert("epigraph"@.len() == 8);
    }
    reveal_strlit("poem");
    assert("section"@ != "poem"@) by {
        assert("poem"@.len() == 4);
    }
    reveal_strlit("cite");
    assert("section"@ != "cite"@) by {
        assert("cite"@.len() == 4);
    }
    reveal_strlit("text-author");
    assert("section"@ != "text-author"@) by {
        assert("text-author"@.len() == 11);
    }
    reveal_strlit("annotation");
    assert("section"@ != "annotation"@) by {
        assert("annotation"@.len() == 10);
    }
    reveal_strlit("p");
    assert("section"@ != "p"@) by {
        assert("p"@.len() == 1);
    }
    reveal_strlit("v");
    assert("section"@ != "v"@) by {
        assert("v"@.len() == 1);
    }
    reveal_strlit("subtitle");
    assert("section"@ != "subtitle"@) by {
        assert("subtitle"@.len() == 8);
    }
}

proof fn lemma_tag_author()
    ensures
        tag_kind("author"@) == TagKind::Author,
{
    reveal(tag_kind);
    reveal_strlit("author");
    assert("author"@.len() == 6);
}

proof fn lemma_tag_kinds()
    ensures
        tag_kind("p"@) == TagKind::Para,
        tag_kind("v"@) == TagKind::Para,
        tag_kind("subtitle"@) == TagKind::Para,
        tag_kind("section"@) == TagKind::Section,
        tag_kind("author"@) == TagKind::Author,
{
    lemma_tag_p();
    lemma_tag_v();
    lemma_tag_subtitle();
    lemma_tag_section();
    lemma_tag_author();
}

/// Closing a paragraph element (`p`, `v` or `subtitle`) adds its trimmed
/// text, when it has any, as one paragraph: a title inside a title, else an
/// epigraph line inside an epigraph, an author line inside a text author,
/// a verse inside a poem, a citation inside a cite, and a body paragraph
/// inside the body or a text block (nothing elsewhere).  The paragraph text
/// starts afresh; the table of contents and the metadata stay.
pub proof fn law_paragraph_closed(m: Fb2Model, ev: XmlEvent)
    requires
        ev matches XmlEvent::End(n) && (norm_tag(n@) == "p"@ || norm_tag(n@) == "v"@ || norm_tag(n@)
            == "subtitle"@),
    ensures
        ({
            let r = event_step(m, ev);
            let t = trim(m.para_text);
            &&& r.para_text.len() == 0
            &&& r.toc == m.toc
            &&& r.title == m.title && r.author == m.author && r.series == m.series
            &&& t.len() == 0 ==> r.paragraphs == m.paragraphs
            &&& (t.len() > 0 && m.in_title) ==> r.paragraphs == m.paragraphs.push((ParagraphKind::Title, t))
            &&& (t.len() > 0 && !m.in_title && m.in_epigraph) ==> r.paragraphs == m.paragraphs.push(
                (ParagraphKind::Epigraph, t),
            )
            &&& (t.len() > 0 && !m.in_title && !m.in_epigraph && m.in_text_author) ==> r.paragraphs
                == m.paragraphs.push((ParagraphKind::Author, t))
            &&& (t.len() > 0 && !m.in_title && !m.in_epigraph && !m.in_text_author && m.in_poem)
                ==> r.paragraphs == m.paragraphs.push((ParagraphKind::Poem, t))
            &&& (t.len() > 0 && !m.in_title && !m.in_epigraph && !m.in_text_author && !m.in_poem
                && m.in_cite) ==> r.paragraphs == m.paragraphs.push((ParagraphKind::Cite, t))
            &&& (t.len() > 0 && !m.in_title && !m.in_epigraph && !m.in_text_author && !m.in_poem
                && !m.in_cite && (m.in_body || m.in_text_block)) ==> r.paragraphs == m.paragraphs.push(
                (ParagraphKind::Body, t),
            )
            &&& (!m.in_title && !m.in_epigraph && !m.in_text_author && !m.in_poem && !m.in_cite
                && !m.in_body && !m.in_text_block) ==> r.paragraphs == m.paragraphs
        }),
{
    lemma_tag_kinds();
    reveal(title_para);
    reveal(push_para);
    reveal(reset_para);
    reveal(clear_tag);
}

/// Closing a section that had titles adds a table of contents entry: its
/// titles joined by `": "`, pointing at the number of paragraphs so far;
/// the section's titles are then cleared.  A section without titles adds
/// no entry.
#[verifier::spinoff_prover]
#[verifier::rlimit(40)]
pub proof fn law_section_closed(m: Fb2Model, ev: XmlEvent)
    requires
        ev matches XmlEvent::End(n) && norm_tag(n@) == "section"@,
    ensures
        ({
            let r = event_step(m, ev);
            &&& r.paragraphs == m.paragraphs
            &&& m.section_titles.len() > 0 ==> r.toc == m.toc.push(
                (join(m.section_titles, seq![':', ' ']), m.paragraphs.len() as int),
            )
            &&& m.section_titles.len() > 0 ==> r.section_titles.len() == 0
            &&& m.section_titles.len() == 0 ==> r.toc == m.toc
            &&& !r.in_section
        }),
{
    lemma_tag_kinds();
    reveal(section_toc);
    reveal(section_note);
    reveal(leave_text_block);
    reveal(clear_tag);
    assert(toc_separator() =~= seq![':', ' ']);
}

/// Closing the author element makes the first and last names, joined by a
/// space and trimmed, the book's author, unless the book already has one
/// or the names are empty.
pub proof fn law_author_closed(m: Fb2Model, ev: XmlEvent)
    requires
        ev matches XmlEvent::End(n) && norm_tag(n@) == "author"@,
    ensures
        ({
            let r = event_step(m, ev);
            let full = trim(m.author_first + seq![' '] + m.author_last);
            &&& r.author == (if m.author.len() == 0 && full.len() > 0 {
                full
            } else {
                m.author
            })
            &&& !r.in_author
            &&& r.paragraphs == m.paragraphs
        }),
{
    lemma_tag_kinds();
    reveal(end_author);
    reveal(clear_tag);
}

/// Text inside a paragraph of the body (outside links, footnotes, author
/// and annotation, with no pending reference) is glued to the paragraph
/// text, and so keeps its words apart from what came before.
pub proof fn law_paragraph_text(m: Fb2Model, ev: XmlEvent)
    requires
        ev matches XmlEvent::Text(raw) && cleaned_text(raw@).len() > 0 && utf8_len(cleaned_text(raw@))
            < 10000,
        m.current_tag != "book-title"@,
        !m.in_footnote && !m.in_author && !m.in_annotation && !m.in_link,
        m.in_text_block || m.in_body,
        m.pending is None,
    ensures
        ({
            let r = event_step(m, ev);
            let c = cleaned_text(ev->Text_0@);
            &&& r.para_text == glue(m.para_text, c)
            &&& (m.para_text.len() > 0 && m.para_text.last() != ' ' && !is_closing_punct(c[0]))
                ==> r.para_text == m.para_text + seq![' '] + c
            &&& r.paragraphs == m.paragraphs
        }),
{
    reveal(plain_text);
    let c = cleaned_text(ev->Text_0@);
    if m.para_text.len() > 0 && m.para_text.last() != ' ' && !is_closing_punct(c[0]) {
        law_glue_keeps_words_apart(m.para_text, c);
    }
}

/// The book title is the first title text: text in `book-title` sets it
/// only while the book has none.
pub proof fn law_book_title_first(m: Fb2Model, ev: XmlEvent)
    requires
        ev matches XmlEvent::Text(raw) && cleaned_text(raw@).len() > 0 && utf8_len(cleaned_text(raw@))
            < 10000,
        m.current_tag == "book-title"@,
    ensures
        event_step(m, ev).title == (if m.title.len() == 0 {
            cleaned_text(ev->Text_0@)
        } else {
            m.title
        }),
{
    reveal(set_book_title);
}

} // verus!

verus! {

proof fn lemma_lookup_store(notes: Seq<(Seq<char>, Seq<char>)>, id: Seq<char>, t: Seq<char>)
    ensures
        note_lookup(note_store(notes, id, t), id) == Some(t),
    decreases notes.len(),
{
    let st = note_store(notes, id, t);
    if note_lookup(notes, id) is None {
        assert(st.last() == (id, t));
    } else {
        assert(notes.len() > 0);
        if notes.last().0 == id {
            assert(st.last() == (id, t));
        } else {
            assert(st.last() == notes.last());
            lemma_lookup_store(notes.drop_last(), id, t);
            assert(st.drop_last() =~= note_store(notes.drop_last(), id, t));
        }
    }
}

/// Closing a footnote section stores its trimmed text under its id (the
/// text found for that id from then on); an id not seen before is added at
/// the end of the footnote order; the paragraphs stay as they were.
pub proof fn law_footnote_stored(m: Fb2Model, ev: XmlEvent)
    requires
        ev matches XmlEvent::End(n) && norm_tag(n@) == "section"@,
        m.in_footnote,
        m.footnote_id.len() > 0,
    ensures
        ({
            let r = event_step(m, ev);
            &&& note_lookup(r.notes, m.footnote_id) == Some(trim(m.footnote_text))
            &&& note_lookup(m.notes, m.footnote_id) is None ==> r.order == m.order.push(m.footnote_id)
            &&& note_lookup(m.notes, m.footnote_id) is Some ==> r.order == m.order
            &&& !r.in_footnote
            &&& r.paragraphs == m.paragraphs
        }),
{
    lemma_tag_kinds();
    reveal(section_toc);
    reveal(section_note);
    reveal(leave_text_block);
    reveal(clear_tag);
    let m1 = section_toc(m);
    lemma_lookup_store(m1.notes, m1.footnote_id, trim(m1.footnote_text));
}

} // verus!

verus! {

/// The value of the last attribute whose lowercased name is `key`.
pub open spec fn last_value(attrs: Seq<(Seq<char>, Seq<char>)>, key: Seq<char>) -> Option<Seq<char>>
    decreases attrs.len(),
{
    if attrs.len() == 0 {
        None
    } else if lowercase(attrs.last().0) == key {
        Some(attrs.last().1)
    } else {
        last_value(attrs.drop_last(), key)
    }
}

proof fn lemma_sequence_values(m: Fb2Model, attrs: Seq<(Seq<char>, Seq<char>)>)
    ensures
        apply_sequence(m, attrs).series == (match last_value(attrs, "name"@) {
            Some(v) => v,
            None => m.series,
        }),
        apply_sequence(m, attrs).sequence_number == (match last_value(attrs, "number"@) {
            Some(v) => match parse_i32_spec(v) {
                Some(n) => n,
                None => 0,
            },
            None => m.sequence_number,
        }),
        apply_sequence(m, attrs).paragraphs == m.paragraphs,
        apply_sequence(m, attrs).title == m.title,
    decreases attrs.len(),
{
    reveal(sequence_attr);
    reveal_strlit("name");
    reveal_strlit("number");
    assert("name"@ != "number"@) by {
        assert("name"@.len() != "number"@.len());
    }
    if attrs.len() > 0 {
        lemma_sequence_values(m, attrs.drop_last());
    }
}

/// A `sequence` tag gives the book's series: its name is the value of the
/// last attribute called `name` (in any case), its number that of the last
/// attribute called `number` read as a number (0 when it is none); without
/// such attributes the series data stay as they were.
pub proof fn law_sequence_gives_series(m: Fb2Model, ev: XmlEvent)
    requires
        ev matches XmlEvent::Empty(n, a) && norm_tag(n@) == "sequence"@,
    ensures
        ({
            let r = event_step(m, ev);
            let attrs = attr_views(ev->Empty_1@);
            &&& r.series == (match last_value(attrs, "name"@) {
                Some(v) => v,
                None => m.series,
            })
            &&& r.sequence_number == (match last_value(attrs, "number"@) {
                Some(v) => match parse_i32_spec(v) {
                    Some(n) => n,
                    None => 0,
                },
                None => m.sequence_number,
            })
            &&& r.paragraphs == m.paragraphs
        }),
{
    lemma_sequence_values(m, attr_views(ev->Empty_1@));
}

} // verus!

verus! {

/// The finished book keeps the parsed paragraphs first; when there are
/// footnotes, a title `Сноски` follows, entered in the table of contents at
/// that position, then one body paragraph `n. text` per footnote, in order.
/// Its title is the parsed title, or the fallback when there is none; its
/// author is the parsed author, or the unknown-author text; series, number
/// and annotation are the parsed ones.
pub proof fn law_finished_book(m: Fb2Model, stem: Option<Seq<char>>, encoding: Seq<char>)
    ensures
        ({
            let b = finish_book(m, stem, encoding);
            let notes = footnote_list(m.order, m.notes);
            let n = m.paragraphs.len() as int;
            &&& b.paragraphs.subrange(0, n) == m.paragraphs
            &&& notes.len() == 0 ==> b.paragraphs == m.paragraphs && b.toc == m.toc
            &&& notes.len() > 0 ==> {
                &&& b.paragraphs.len() == n + 1 + notes.len()
                &&& b.paragraphs[n] == (ParagraphKind::Title, notes_title())
                &&& forall|i: int|
                    0 <= i < notes.len() ==> #[trigger] b.paragraphs[n + 1 + i] == (
                        ParagraphKind::Body,
                        decimal(notes[i].1 as nat) + seq!['.', ' '] + notes[i].0,
                    )
                &&& b.toc == m.toc.push((notes_title(), n))
            }
            &&& b.title == (if m.title.len() > 0 {
                m.title
            } else {
                fallback_title(stem)
            })
            &&& b.author == (if m.author.len() > 0 {
                m.author
            } else {
                unknown_author()
            })
            &&& b.series == m.series && b.sequence_number == m.sequence_number && b.annotation
                == m.annotation
            &&& b.footnotes == notes
        }),
{
    let b = finish_book(m, stem, encoding);
    let notes = footnote_list(m.order, m.notes);
    let n = m.paragraphs.len() as int;
    if notes.len() > 0 {
        let base = m.paragraphs.push((ParagraphKind::Title, notes_title()));
        let tail = Seq::new(notes.len(), |i: int| footnote_para(notes[i]));
        assert(b.paragraphs == base + tail);
        assert(b.paragraphs.subrange(0, n) =~= m.paragraphs);
        assert forall|i: int| 0 <= i < notes.len() implies #[trigger] b.paragraphs[n + 1 + i] == (
            ParagraphKind::Body,
            decimal(notes[i].1 as nat) + seq!['.', ' '] + notes[i].0,
        ) by {
            assert(b.paragraphs[n + 1 + i] == tail[i]);
        }
    } else {
        assert(b.paragraphs.subrange(0, n) =~= m.paragraphs);
    }
}

} // verus!

verus! {

proof fn lemma_tag_a()
    ensures
        tag_kind("a"@) == TagKind::Link,
{
    reveal(tag_kind);
    reveal_strlit("a");
    assert("a"@.len() == 1);
    reveal_strlit("author");
    assert("a"@ != "author"@) by {
        assert("author"@.len() == 6);
    }
    reveal_strlit("title");
    assert("a"@ != "title"@) by {
        assert("title"@.len() == 5);
    }
    reveal_strlit("epigraph");
    assert("a"@ != "epigraph"@) by {
        assert("epigraph"@.len() == 8);
    }
    reveal_strlit("poem");
    assert("a"@ != "poem"@) by {
        assert("poem"@.len() == 4);
    }
    reveal_strlit("cite");
    assert("a"@ != "cite"@) by {
        assert("cite"@.len() == 4);
    }
    reveal_strlit("text-author");
    assert("a"@ != "text-author"@) by {
        assert("text-author"@.len() == 11);
    }
    reveal_strlit("annotation");
    assert("a"@ != "annotation"@) by {
        assert("annotation"@.len() == 10);
    }
    reveal_strlit("p");
    assert("a"@ != "p"@) by {
        assert("a"@[0] != "p"@[0]);
    }
    reveal_strlit("v");
    assert("a"@ != "v"@) by {
        assert("a"@[0] != "v"@[0]);
    }
    reveal_strlit("subtitle");
    assert("a"@ != "subtitle"@) by {
        assert("subtitle"@.len() == 8);
    }
    reveal_strlit("section");
    assert("a"@ != "section"@) by {
        assert("section"@.len() == 7);
    }
    reveal_strlit("body");
    assert("a"@ != "body"@) by {
        assert("body"@.len() == 4);
    }
}

/// A link to a local target numbers it by the order in which targets are
/// first met: a target met before keeps its number, a new one is added at
/// the end of the order; the number waits to be written as a reference
/// marker by the link's text.
pub proof fn law_link_numbered(m: Fb2Model, ev: XmlEvent)
    requires
        ev matches XmlEvent::Start(n, a) && norm_tag(n@) == "a"@,
        href_of(attr_views(ev->Start_1@)).len() > 0,
        !starts_with(href_of(attr_views(ev->Start_1@)), "http"@),
        m.order.len() < usize::MAX,
    ensures
        ({
            let r = event_step(m, ev);
            let href = href_of(attr_views(ev->Start_1@));
            &&& r.order == (if m.order.contains(href) {
                m.order
            } else {
                m.order.push(href)
            })
            &&& r.in_link
            &&& r.pending matches Some(k) && 1 <= k <= r.order.len() && r.order[k - 1] == href && forall|j: int|
                0 <= j < k - 1 ==> r.order[j] != href
        }),
{
    lemma_tag_a();
    reveal(start_link);
    let href = href_of(attr_views(ev->Start_1@));
    let order = if m.order.contains(href) {
        m.order
    } else {
        m.order.push(href)
    };
    assert(order.contains(href)) by {
        if !m.order.contains(href) {
            assert(order[m.order.len() as int] == href);
        }
    }
    let i0 = choose|i: int| 0 <= i < order.len() && order[i] == href;
    lemma_first_index(order, href, i0);
}

proof fn lemma_first_index(s: Seq<Seq<char>>, x: Seq<char>, i0: int)
    requires
        0 <= i0 < s.len(),
        s[i0] == x,
    ensures
        exists|i: int| 0 <= i < s.len() && s[i] == x && forall|j: int| 0 <= j < i ==> s[j] != x,
    decreases i0,
{
    if exists|j: int| 0 <= j < i0 && s[j] == x {
        let j = choose|j: int| 0 <= j < i0 && s[j] == x;
        lemma_first_index(s, x, j);
    } else {
        assert(forall|j: int| 0 <= j < i0 ==> s[j] != x);
    }
}

/// The text of a numbered link becomes its reference marker: the paragraph
/// text, without trailing spaces, followed by ` ^f:[n]`.
pub proof fn law_link_marker(m: Fb2Model, ev: XmlEvent)
    requires
        ev matches XmlEvent::Text(raw) && cleaned_text(raw@).len() > 0 && utf8_len(cleaned_text(raw@))
            < 10000,
        m.current_tag != "book-title"@,
        !m.in_footnote && !m.in_author && !m.in_annotation,
        m.in_text_block || m.in_body,
        m.in_link,
        m.pending is Some,
    ensures
        ({
            let r = event_step(m, ev);
            &&& r.para_text == trim_end(m.para_text) + seq![' ', '^', 'f', ':', '['] + decimal(
                m.pending->0 as nat,
            ) + seq![']']
            &&& r.pending is None
        }),
{
    reveal(link_text);
    let tail = decimal(m.pending->0 as nat);
    assert(trim_end(m.para_text) + note_ref(m.pending->0) =~= trim_end(m.para_text) + seq![' ', '^', 'f', ':', '['] + tail + seq![']']);
}

} // verus!
