//! Getting from the bytes of a book file to the parsed book: the archive
//! entry that holds the book, the encoding that its XML declaration names,
//! the decoding, and the XML events.
use vstd::prelude::*;
use vstd::utf8::{decode_utf8, encode_utf8, valid_utf8};
use crate::fb2_builder::{opt_view, Fb2Builder};
use crate::fb2_parser::{
    finish_book, initial_model, read_events, run_events, text_events, unread_book, BookMeta,
    BookModel, FB2Parser, XmlEvent,
};
use crate::text::{
    ends_with, ends_with_chars, lowercase, quoted_piece, quoted_piece_chars, second_piece,
    second_piece_chars, str_chars, str_eq, to_lowercase, trim, trim_chars, chars_to_string,
};

verus! {

// ---------------------------------------------------------------------------
// Outside calls
// ---------------------------------------------------------------------------

#[verifier::external_type_specification]
#[verifier::external_body]
pub struct ExPath(std::path::Path);

/// What `String::from_utf8_lossy` returns for some bytes.
pub uninterp spec fn utf8_lossy(b: Seq<u8>) -> Seq<char>;

/// `String::from_utf8_lossy`: the result is named `utf8_lossy` of the
/// bytes, and bytes that are valid UTF-8 are decoded as they are.
#[verifier::external_body]
pub(crate) fn lossy_utf8(b: &[u8]) -> (res: String)
    ensures
        res@ == utf8_lossy(b@),
        valid_utf8(b@) ==> res@ == decode_utf8(b@),
{
    String::from_utf8_lossy(b).into_owned()
}

/// The number of entries of the archive that the `zip` crate reads in the
/// bytes (`None` when it reads no archive there).
pub uninterp spec fn zip_count(bytes: Seq<u8>) -> Option<usize>;

/// The name of entry `i` of the archive in the bytes (`None` when the
/// archive or the entry cannot be opened).
pub uninterp spec fn zip_name(bytes: Seq<u8>, i: int) -> Option<Seq<char>>;

/// The contents of entry `i` of the archive in the bytes (`None` when the
/// archive or the entry cannot be opened or read).
pub uninterp spec fn zip_data(bytes: Seq<u8>, i: int) -> Option<Seq<u8>>;

/// `zip::ZipArchive::new` over the bytes, then `len`: named `zip_count` of
/// the bytes.
#[verifier::external_body]
fn zip_len(bytes: &[u8]) -> (res: Option<usize>)
    ensures
        res == zip_count(bytes@),
{
    zip::ZipArchive::new(std::io::Cursor::new(bytes)).ok().map(|z| z.len())
}

/// `zip::ZipArchive::new` over the bytes, `by_index(i)` and the entry's
/// `name`: named `zip_name` of the bytes and the index.
#[verifier::external_body]
fn zip_entry_name(bytes: &[u8], i: usize) -> (res: Option<String>)
    ensures
        opt_view(res) == zip_name(bytes@, i as int),
{
    let mut z = zip::ZipArchive::new(std::io::Cursor::new(bytes)).ok()?;
    let name = z.by_index(i).ok().map(|f| f.name().to_string());
    name
}

/// `zip::ZipArchive::new` over the bytes, `by_index(i)` and the entry read
/// to its end with `std::io::Read::read_to_end`: named `zip_data` of the
/// bytes and the index.
#[verifier::external_body]
fn zip_entry_bytes(bytes: &[u8], i: usize) -> (res: Option<Vec<u8>>)
    ensures
        opt_bytes(res) == zip_data(bytes@, i as int),
{
    let mut z = zip::ZipArchive::new(std::io::Cursor::new(bytes)).ok()?;
    let mut f = z.by_index(i).ok()?;
    let mut out: Vec<u8> = Vec::new();
    std::io::Read::read_to_end(&mut f, &mut out).ok()?;
    Some(out)
}

pub open spec fn opt_bytes(o: Option<Vec<u8>>) -> Option<Seq<u8>> {
    match o {
        Some(v) => Some(v@),
        None => None,
    }
}

/// What `encoding_rs` makes of `raw` in the encoding that `label` names
/// (`None` when the label names none).
pub uninterp spec fn label_decoded(label: Seq<u8>, raw: Seq<u8>) -> Option<Seq<char>>;

/// What `encoding_rs` makes of `raw` in UTF-8.
pub uninterp spec fn utf8_decoded(raw: Seq<u8>) -> Seq<char>;

/// `encoding_rs::Encoding::for_label`, then `Encoding::decode` of the text
/// in that encoding: the result is named `label_decoded` of the label and
/// the bytes.  The crate panics when the size of its output buffer
/// overflows `usize`, which the bound on the input length rules out.
#[verifier::external_body]
fn decode_in_label(label: &[u8], raw: &[u8]) -> (res: Option<String>)
    requires
        raw.len() <= usize::MAX / 8,
    ensures
        opt_view(res) == label_decoded(label@, raw@),
{
    encoding_rs::Encoding::for_label(label).map(|e| e.decode(raw).0.into_owned())
}

/// `encoding_rs::UTF_8.decode`: the result is named `utf8_decoded` of the
/// bytes.
#[verifier::external_body]
fn decode_utf8_encoding(raw: &[u8]) -> (res: String)
    requires
        raw.len() <= usize::MAX / 8,
    ensures
        res@ == utf8_decoded(raw@),
{
    encoding_rs::UTF_8.decode(raw).0.into_owned()
}

/// What `std::path::Path::file_stem` gives for a path, taken lossily as a
/// string.
pub uninterp spec fn path_stem_of(path: &std::path::Path) -> Option<Seq<char>>;

/// What `std::path::Path::extension` gives for a path, taken lossily as a
/// string.
pub uninterp spec fn path_extension_of(path: &std::path::Path) -> Option<Seq<char>>;

/// What `std::path::Path::to_path_buf` gives for a path.
pub uninterp spec fn owned_path(path: &std::path::Path) -> std::path::PathBuf;

/// `std::path::Path::file_stem`, taken lossily as a string: named
/// `path_stem_of` of the path.
#[verifier::external_body]
fn path_stem(path: &std::path::Path) -> (res: Option<String>)
    ensures
        opt_view(res) == path_stem_of(path),
{
    path.file_stem().map(|s| s.to_string_lossy().into_owned())
}

/// `std::path::Path::extension`, taken lossily as a string: named
/// `path_extension_of` of the path.
#[verifier::external_body]
fn path_extension(path: &std::path::Path) -> (res: Option<String>)
    ensures
        opt_view(res) == path_extension_of(path),
{
    path.extension().map(|s| s.to_string_lossy().into_owned())
}

/// `std::path::Path::to_path_buf`: named `owned_path` of the path.
#[verifier::external_body]
fn to_path_buf(path: &std::path::Path) -> (res: std::path::PathBuf)
    ensures
        res == owned_path(path),
{
    path.to_path_buf()
}

// ---------------------------------------------------------------------------
// The archive entry
// ---------------------------------------------------------------------------

pub open spec fn opt_views(v: Seq<Option<String>>) -> Seq<Option<Seq<char>>> {
    Seq::new(v.len(), |i: int| opt_view(v[i]))
}

/// Whether a name ends in `.fb2` once lowercased.
pub open spec fn is_fb2_name(n: Seq<char>) -> bool {
    ends_with(lowercase(n), ".fb2"@)
}

/// The first index at or after `k` of an entry whose name ends in `.fb2`.
pub open spec fn fb2_entry_from(names: Seq<Option<Seq<char>>>, k: int) -> Option<int>
    decreases names.len() - k,
{
    if k < 0 || k >= names.len() {
        None
    } else if names[k] matches Some(n) && is_fb2_name(n) {
        Some(k)
    } else {
        fb2_entry_from(names, k + 1)
    }
}

/// The entry of an archive that holds the book: the first whose name ends
/// in `.fb2` in any case (entries that cannot be opened have no name), or
/// else the first entry.
pub open spec fn fb2_entry(names: Seq<Option<Seq<char>>>) -> int {
    match fb2_entry_from(names, 0) {
        Some(i) => i,
        None => 0,
    }
}

fn fb2_name(n: &String) -> (res: bool)
    ensures
        res == is_fb2_name(n@),
{
    let l = to_lowercase(n.as_str());
    let lc = str_chars(l.as_str());
    let suffix = str_chars(".fb2");
    ends_with_chars(&lc, &suffix)
}

fn fb2_entry_exec(names: &Vec<Option<String>>, k: usize) -> (res: usize)
    requires
        k <= names.len(),
    ensures
        res == (match fb2_entry_from(opt_views(names@), k as int) {
            Some(i) => i,
            None => 0,
        }),
    decreases names.len() - k,
{
    if k == names.len() {
        return 0;
    }
    let hit = match &names[k] {
        Some(n) => fb2_name(n),
        None => false,
    };
    if hit {
        k
    } else {
        fb2_entry_exec(names, k + 1)
    }
}

/// Picks the archive entry that holds the book from the entries' names.
pub fn pick_fb2_entry(names: &Vec<Option<String>>) -> (res: usize)
    ensures
        res == fb2_entry(opt_views(names@)),
{
    fb2_entry_exec(names, 0)
}

/// The names of the `n` entries of the archive in the bytes.
pub open spec fn zip_names(bytes: Seq<u8>, n: nat) -> Seq<Option<Seq<char>>> {
    Seq::new(n, |i: int| zip_name(bytes, i))
}

/// The contents of the book entry of the archive in the bytes (`None` when
/// the archive or the entry cannot be read).
pub open spec fn archive_book(bytes: Seq<u8>) -> Option<Seq<u8>> {
    match zip_count(bytes) {
        Some(n) => zip_data(bytes, fb2_entry(zip_names(bytes, n as nat))),
        None => None,
    }
}

/// Reads the book entry of a zip archive.
pub fn read_archive(bytes: Vec<u8>) -> (res: Option<Vec<u8>>)
    ensures
        opt_bytes(res) == archive_book(bytes@),
{
    let ghost b = bytes@;
    let n = match zip_len(&bytes) {
        Some(n) => n,
        None => {
            return None;
        },
    };
    let mut names: Vec<Option<String>> = Vec::new();
    let mut i: usize = 0;
    while i < n
        invariant
            i <= n,
            bytes@ == b,
            zip_count(b) == Some(n),
            names.len() == i,
            forall|q: int| 0 <= q < i ==> #[trigger] opt_view(names@[q]) == zip_name(b, q),
        decreases n - i,
    {
        let name = zip_entry_name(&bytes, i);
        names.push(name);
        i = i + 1;
    }
    assert(opt_views(names@) =~= zip_names(b, n as nat));
    let target = pick_fb2_entry(&names);
    zip_entry_bytes(&bytes, target)
}

// ---------------------------------------------------------------------------
// The declared encoding and the decoding
// ---------------------------------------------------------------------------

/// The encoding that an XML declaration names: the quoted value after the
/// first `encoding=`, trimmed; `utf-8` when there is none.
pub open spec fn declared_encoding(head: Seq<char>) -> Seq<char> {
    match second_piece(head, "encoding="@) {
        Some(part) => match quoted_piece(part) {
            Some(found) => trim(found),
            None => "utf-8"@,
        },
        None => "utf-8"@,
    }
}

/// The encoding of a book file: what the first 200 bytes, read as UTF-8
/// and lowercased, declare.
pub open spec fn detected_encoding(raw: Seq<u8>) -> Seq<char> {
    let n = if raw.len() < 200 {
        raw.len() as int
    } else {
        200
    };
    declared_encoding(lowercase(utf8_lossy(raw.take(n))))
}

fn first_bytes(raw: &[u8], n: usize) -> (res: Vec<u8>)
    requires
        n <= raw.len(),
    ensures
        res@ == raw@.take(n as int),
{
    let mut res: Vec<u8> = Vec::new();
    let mut i: usize = 0;
    while i < n
        invariant
            i <= n <= raw.len(),
            res@ == raw@.take(i as int),
        decreases n - i,
    {
        res.push(raw[i]);
        assert(raw@.take(i + 1) =~= raw@.take(i as int).push(raw@[i as int]));
        i = i + 1;
    }
    res
}

/// The encoding that a book file declares.
pub fn detect_encoding(raw: &[u8]) -> (res: String)
    ensures
        res@ == detected_encoding(raw@),
{
    let n: usize = if raw.len() < 200 {
        raw.len()
    } else {
        200
    };
    let head_bytes = first_bytes(raw, n);
    let head = lossy_utf8(head_bytes.as_slice());
    let lowered = to_lowercase(head.as_str());
    let hc = str_chars(lowered.as_str());
    let pat = str_chars("encoding=");
    proof {
        reveal_strlit("encoding=");
    }
    match second_piece_chars(&hc, &pat) {
        Some(part) => match quoted_piece_chars(&part) {
            Some(found) => chars_to_string(&trim_chars(&found)),
            None => String::from_str("utf-8"),
        },
        None => String::from_str("utf-8"),
    }
}

/// Whether the bytes are short enough for every decoder.
pub open spec fn decodable(raw: Seq<u8>) -> bool {
    raw.len() <= usize::MAX / 8
}

/// The text of a book file: the bytes read as UTF-8 (invalid sequences
/// replaced) when the encoding is `utf-8`, otherwise decoded in the encoding
/// with that label, or in UTF-8 when the label names no encoding.
pub open spec fn decoded_text(encoding: Seq<char>, raw: Seq<u8>) -> Seq<char> {
    if encoding == "utf-8"@ {
        utf8_lossy(raw)
    } else {
        match label_decoded(encode_utf8(encoding), raw) {
            Some(t) => t,
            None => utf8_decoded(raw),
        }
    }
}

/// Decodes the text of a book file.
pub fn decode_text(encoding: &str, raw: &[u8]) -> (res: String)
    requires
        decodable(raw@),
    ensures
        res@ == decoded_text(encoding@, raw@),
{
    let ec = str_chars(encoding);
    if !str_eq("utf-8", &ec) {
        match decode_in_label(encoding.as_bytes(), raw) {
            Some(t) => t,
            None => decode_utf8_encoding(raw),
        }
    } else {
        lossy_utf8(raw)
    }
}

// ---------------------------------------------------------------------------
// The parsed book
// ---------------------------------------------------------------------------

/// The book that a decoded text describes.
pub open spec fn book_of_text(t: Seq<char>, stem: Option<Seq<char>>, encoding: Seq<char>) -> BookModel {
    finish_book(run_events(initial_model(), text_events(t)), stem, encoding)
}

/// The book in the contents of a file (`None` when the file could not be
/// read): an archive's book entry when `zip` is set, decoded in the
/// encoding the book declares; a file that cannot be read, an archive
/// without a readable book entry, or a book too large to decode give the
/// empty book.
pub open spec fn file_book(stem: Option<Seq<char>>, zip: bool, contents: Option<Seq<u8>>) -> BookModel {
    match contents {
        None => unread_book(),
        Some(b) => {
            let raw = if zip {
                archive_book(b)
            } else {
                Some(b)
            };
            match raw {
                None => unread_book(),
                Some(r) => if decodable(r) {
                    book_of_text(decoded_text(detected_encoding(r), r), stem, detected_encoding(r))
                } else {
                    unread_book()
                },
            }
        },
    }
}

/// Whether a file extension is `zip` in any case.
pub open spec fn is_zip_extension(extension: Option<String>) -> bool {
    is_zip_name(opt_view(extension))
}

/// Whether an extension, if there is one, is `zip` in any case.
pub open spec fn is_zip_name(extension: Option<Seq<char>>) -> bool {
    extension matches Some(e) && lowercase(e) == "zip"@
}

/// The book in the contents of the file at `path`: its stem serves as a
/// fallback title and a `zip` extension marks an archive.
pub open spec fn path_book(path: &std::path::Path, contents: Option<Seq<u8>>) -> BookModel {
    file_book(path_stem_of(path), is_zip_name(path_extension_of(path)), contents)
}

impl FB2Parser {
    /// The book of a file that could not be read.
    pub fn unread(path: std::path::PathBuf) -> (res: FB2Parser)
        ensures
            res.book() == unread_book(),
            res.path == path,
    {
        let res = FB2Parser {
            path,
            paragraphs: Vec::new(),
            meta: BookMeta {
                title: String::new(),
                author: String::new(),
                series: String::new(),
                sequence_number: 0,
                annotation: String::new(),
            },
            encoding: String::from_str("utf-8"),
            footnotes: Vec::new(),
            toc: Vec::new(),
        };
        assert(res.book().paragraphs =~= unread_book().paragraphs);
        assert(res.book().footnotes =~= unread_book().footnotes);
        assert(res.book().toc =~= unread_book().toc);
        assert(res.book().title =~= unread_book().title);
        assert(res.book().author =~= unread_book().author);
        assert(res.book().series =~= unread_book().series);
        assert(res.book().annotation =~= unread_book().annotation);
        assert(res.book() =~= unread_book());
        res
    }

    /// The book that a sequence of XML events describes.
    pub fn from_events(
        path: std::path::PathBuf,
        stem: Option<String>,
        encoding: String,
        events: &Vec<XmlEvent>,
    ) -> (res: FB2Parser)
        ensures
            res.book() == finish_book(run_events(initial_model(), events@), opt_view(stem), encoding@),
            res.path == path,
    {
        let b = Fb2Builder::run(events);
        b.finish(path, stem, encoding)
    }

    /// The book in the contents of a file (`None` when the file could not
    /// be read), given the file's stem and extension.  A `.zip` file is read
    /// as an archive; the text is decoded in the encoding its XML declaration
    /// names (UTF-8 with invalid sequences replaced when that is `utf-8`).
    pub fn from_parts(
        path: std::path::PathBuf,
        stem: Option<String>,
        extension: Option<String>,
        contents: Option<Vec<u8>>,
    ) -> (res: FB2Parser)
        ensures
            res.path == path,
            res.book() == file_book(opt_view(stem), is_zip_extension(extension), opt_bytes(contents)),
    {
        let bytes = match contents {
            Some(b) => b,
            None => {
                return FB2Parser::unread(path);
            },
        };
        let is_zip = match &extension {
            Some(e) => {
                let l = to_lowercase(e.as_str());
                let lc = str_chars(l.as_str());
                str_eq("zip", &lc)
            },
            None => false,
        };
        let ghost b = bytes@;
        let raw = if is_zip {
            match read_archive(bytes) {
                Some(r) => r,
                None => {
                    return FB2Parser::unread(path);
                },
            }
        } else {
            bytes
        };
        if raw.len() > usize::MAX / 8 {
            return FB2Parser::unread(path);
        }
        let encoding = detect_encoding(raw.as_slice());
        let text = decode_text(encoding.as_str(), raw.as_slice());
        let events = read_events(text.as_str());
        let ghost sv = opt_view(stem);
        let res = FB2Parser::from_events(path, stem, encoding, &events);
        assert(res.book() == book_of_text(text@, sv, detected_encoding(raw@)));
        assert(opt_bytes(Some(raw)) == Some(raw@));
        res
    }

    /// Reads the book at `path` from the contents of its file (`None` when
    /// the file could not be read); the path gives the file's stem, used as
    /// a title when the book names none, and its extension, which tells a
    /// `.zip` archive.
    pub fn new(path: &std::path::Path, contents: Option<Vec<u8>>) -> (res: FB2Parser)
        ensures
            res.book() == path_book(path, opt_bytes(contents)),
            res.path == owned_path(path),
    {
        let stem = path_stem(path);
        let extension = path_extension(path);
        FB2Parser::from_parts(to_path_buf(path), stem, extension, contents)
    }
}

} // verus!

verus! {

/// A book read from a file has no empty paragraph, and its table of
/// contents points into its paragraphs (or at their end).
pub proof fn law_file_book_paragraphs(stem: Option<Seq<char>>, zip: bool, contents: Option<Seq<u8>>)
    ensures
        ({
            let b = file_book(stem, zip, contents);
            &&& forall|i: int| 0 <= i < b.paragraphs.len() ==> (#[trigger] b.paragraphs[i]).1.len() > 0
            &&& forall|j: int| 0 <= j < b.toc.len() ==> 0 <= (#[trigger] b.toc[j]).1 <= b.paragraphs.len()
        }),
{
    match contents {
        Some(b) => {
            let raw = if zip {
                archive_book(b)
            } else {
                Some(b)
            };
            match raw {
                Some(r) => {
                    if decodable(r) {
                        crate::fb2_parser::law_book_paragraphs(
                            text_events(decoded_text(detected_encoding(r), r)),
                            stem,
                            detected_encoding(r),
                        );
                    }
                },
                None => {},
            }
        },
        None => {},
    }
}

} // verus!
