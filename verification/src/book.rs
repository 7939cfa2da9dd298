//! Book-level operations: text search over the laid-out lines, loading a
//! book, and naming a downloaded book file.
use vstd::prelude::*;
use crate::fb2_builder::opt_view;
use crate::fb2_parser::{para_views, FB2Parser};
use crate::fb2_source::{opt_bytes, owned_path, path_book};
use crate::layout::{layout_spec, prepare_layout, toc_view};
use crate::text::{
    chars_to_string, contains, contains_chars, ends_with, ends_with_chars, lowercase, push_all,
    str_chars, string_views, to_lowercase,
};

verus! {

/// Indices below `n` of the lines whose lowercase form contains `ql`, in
/// increasing order.
pub open spec fn hits(lines: Seq<Seq<char>>, ql: Seq<char>, n: nat) -> Seq<usize>
    decreases n,
{
    if n == 0 {
        seq![]
    } else {
        let prev = hits(lines, ql, (n - 1) as nat);
        if contains(lowercase(lines[n - 1]), ql) {
            prev.push((n - 1) as usize)
        } else {
            prev
        }
    }
}

/// The lines that match a query: none for an empty query, otherwise those
/// that contain the query ignoring case.
pub open spec fn search_spec(lines: Seq<Seq<char>>, query: Seq<char>) -> Seq<usize> {
    if query.len() == 0 {
        seq![]
    } else {
        hits(lines, lowercase(query), lines.len())
    }
}

/// Case-insensitive search: the indices of the lines that contain `query`.
pub fn perform_search(lines: &[String], query: &str) -> (res: Vec<usize>)
    ensures
        res@ == search_spec(string_views(lines@), query@),
{
    let mut res: Vec<usize> = Vec::new();
    if query.is_empty() {
        return res;
    }
    let q = to_lowercase(query);
    let qc = str_chars(q.as_str());
    let ghost ls = string_views(lines@);
    let mut i: usize = 0;
    while i < lines.len()
        invariant
            i <= lines.len(),
            ls == string_views(lines@),
            qc@ == lowercase(query@),
            res@ == hits(ls, qc@, i as nat),
        decreases lines.len() - i,
    {
        let low = to_lowercase(lines[i].as_str());
        let lc = str_chars(low.as_str());
        assert(ls[i as int] == lines@[i as int]@);
        if contains_chars(&lc, &qc) {
            res.push(i);
        }
        i = i + 1;
    }
    res
}

/// The search results are exactly the matching lines, in increasing order.
pub proof fn law_search_exact(lines: Seq<Seq<char>>, query: Seq<char>)
    requires
        query.len() > 0,
        lines.len() <= usize::MAX,
    ensures
        ({
            let r = search_spec(lines, query);
            &&& forall|k: int| 0 <= k < r.len() ==> #[trigger] r[k] < lines.len() && contains(
                lowercase(lines[r[k] as int]),
                lowercase(query),
            )
            &&& forall|k: int, m: int| 0 <= k < m < r.len() ==> r[k] < r[m]
            &&& forall|i: int|
                0 <= i < lines.len() && contains(#[trigger] lowercase(lines[i]), lowercase(query))
                    ==> r.contains(i as usize)
        }),
{
    lemma_hits(lines, lowercase(query), lines.len());
}

/// Refining the query can only narrow the search: when the lowercased
/// longer query contains the lowercased shorter one, every line found for
/// the longer query is found for the shorter one.
pub proof fn law_refined_query_narrows(lines: Seq<Seq<char>>, q1: Seq<char>, q2: Seq<char>)
    requires
        q1.len() > 0,
        contains(lowercase(q2), lowercase(q1)),
        lines.len() <= usize::MAX,
    ensures
        forall|k: int|
            0 <= k < search_spec(lines, q2).len() ==> search_spec(lines, q1).contains(
                #[trigger] search_spec(lines, q2)[k],
            ),
{
    law_search_exact(lines, q1);
    if q2.len() > 0 {
        law_search_exact(lines, q2);
        let r2 = search_spec(lines, q2);
        assert forall|k: int| 0 <= k < r2.len() implies search_spec(lines, q1).contains(
            #[trigger] r2[k],
        ) by {
            let i = r2[k] as int;
            crate::text::lemma_contains_trans(lowercase(lines[i]), lowercase(q2), lowercase(q1));
            assert(contains(lowercase(lines[i]), lowercase(q1)));
        }
    }
}

proof fn lemma_hits(lines: Seq<Seq<char>>, ql: Seq<char>, n: nat)
    requires
        n <= lines.len(),
        lines.len() <= usize::MAX,
    ensures
        ({
            let r = hits(lines, ql, n);
            &&& forall|k: int| 0 <= k < r.len() ==> #[trigger] r[k] < n && contains(
                lowercase(lines[r[k] as int]),
                ql,
            )
            &&& forall|k: int, m: int| 0 <= k < m < r.len() ==> r[k] < r[m]
            &&& forall|i: int|
                0 <= i < n && contains(#[trigger] lowercase(lines[i]), ql) ==> r.contains(
                    i as usize,
                )
        }),
    decreases n,
{
    if n > 0 {
        lemma_hits(lines, ql, (n - 1) as nat);
        let prev = hits(lines, ql, (n - 1) as nat);
        let r = hits(lines, ql, n);
        assert forall|i: int|
            0 <= i < n && contains(#[trigger] lowercase(lines[i]), ql) implies r.contains(
            i as usize,
        ) by {
            if i < n - 1 {
                let k = choose|k: int| 0 <= k < prev.len() && prev[k] == i as usize;
                assert(r[k] == prev[k]);
            } else {
                assert(r[r.len() - 1] == (n - 1) as usize);
            }
        }
    }
}

// ---------------------------------------------------------------------------
// Loading a book
// ---------------------------------------------------------------------------

/// What `PathBuf::as_path` gives for a path.
pub uninterp spec fn borrowed_path(p: &std::path::PathBuf) -> &std::path::Path;

/// `PathBuf::as_path`: named `borrowed_path` of the path; `to_path_buf` of
/// the borrowed path (`owned_path`) is a path buffer equal to the one borrowed
/// from, since `as_path` views the same bytes and `to_path_buf` copies them.
#[verifier::external_body]
fn as_path(p: &std::path::PathBuf) -> (res: &std::path::Path)
    ensures
        res == borrowed_path(p),
        owned_path(res) == *p,
{
    p.as_path()
}

/// Reads the book at `path` from the contents of its file (`None` when the
/// file could not be read) and lays it out at `width` columns.
pub fn load_book_data(path: &std::path::PathBuf, contents: Option<Vec<u8>>, width: u16) -> (res: (
    FB2Parser,
    Vec<String>,
    Vec<(String, usize)>,
))
    ensures
        ({
            let l = layout_spec(para_views(res.0.paragraphs@), width as nat);
            string_views(res.1@) == l.0 && toc_view(res.2@) == l.1
        }),
        res.0.book() == path_book(borrowed_path(path), opt_bytes(contents)),
        res.0.path == *path,
{
    let parser = FB2Parser::new(as_path(path), contents);
    let (lines, toc) = prepare_layout(parser.paragraphs.as_slice(), width);
    (parser, lines, toc)
}

// ---------------------------------------------------------------------------
// Naming a downloaded book
// ---------------------------------------------------------------------------

/// The last of the path segments of the URL that `url::Url::parse` makes of
/// the text (`None` when the text is no URL, or the URL cannot be a base).
pub uninterp spec fn url_last_segment(text: Seq<char>) -> Option<Seq<char>>;

/// `url::Url::parse` of the text, then the last of `Url::path_segments`:
/// named `url_last_segment` of the text.
#[verifier::external_body]
fn last_path_segment(text: &str) -> (res: Option<String>)
    ensures
        opt_view(res) == url_last_segment(text@),
{
    let url = url::Url::parse(text).ok()?;
    url.path_segments().and_then(|segs| segs.last()).map(|s| s.to_string())
}

/// The file name under which a downloaded book is stored: the last path
/// segment of its URL (`book.fb2` when there is none), with `.fb2` added
/// unless it ends in `.fb2` or `.zip`.
pub open spec fn book_file_name(segment: Option<Seq<char>>) -> Seq<char> {
    let name = match segment {
        Some(s) => s,
        None => "book.fb2"@,
    };
    if ends_with(name, ".fb2"@) || ends_with(name, ".zip"@) {
        name
    } else {
        name + ".fb2"@
    }
}

/// The file name for a downloaded book, given the last path segment of its
/// URL.
pub fn file_name_for(segment: Option<String>) -> (res: String)
    ensures
        res@ == book_file_name(opt_view(segment)),
{
    let name = match segment {
        Some(s) => str_chars(s.as_str()),
        None => str_chars("book.fb2"),
    };
    let fb2 = str_chars(".fb2");
    let zip = str_chars(".zip");
    if ends_with_chars(&name, &fb2) || ends_with_chars(&name, &zip) {
        chars_to_string(&name)
    } else {
        let mut n = name;
        push_all(&mut n, &fb2);
        chars_to_string(&n)
    }
}

/// The name of a downloaded book always ends in `.fb2` or `.zip`: a last
/// URL segment that already does is kept, any other gets `.fb2` added, and
/// without a segment the name is `book.fb2`.
pub proof fn law_book_file_name(segment: Option<Seq<char>>)
    ensures
        ends_with(book_file_name(segment), ".fb2"@) || ends_with(book_file_name(segment), ".zip"@),
        segment is Some && (ends_with(segment->0, ".fb2"@) || ends_with(segment->0, ".zip"@))
            ==> book_file_name(segment) == segment->0,
        segment is Some && !(ends_with(segment->0, ".fb2"@) || ends_with(segment->0, ".zip"@))
            ==> book_file_name(segment) == segment->0 + ".fb2"@,
        segment is None ==> book_file_name(segment) == "book.fb2"@,
{
    reveal_strlit("book.fb2");
    reveal_strlit(".fb2");
    let name = match segment {
        Some(s) => s,
        None => "book.fb2"@,
    };
    let added = name + ".fb2"@;
    assert(added.subrange(added.len() - 4, added.len() as int) =~= ".fb2"@);
    assert("book.fb2"@.subrange(4, 8) =~= ".fb2"@);
}

/// The file name for a book downloaded from `url`.
pub fn download_file_name(url: &str) -> (res: String)
    ensures
        res@ == book_file_name(url_last_segment(url@)),
{
    file_name_for(last_path_segment(url))
}

} // verus!
