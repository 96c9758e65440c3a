use vstd::prelude::*;

use std::hash::{Hash, Hasher};
use vstd::multiset::Multiset;

use crate::book::{Book, Chapter, ReadingPosition};
use crate::encoding::{
    decode_gbk, decode_utf16be, decode_utf16le, decode_utf8_sniffing, gbk_with_bom_sniffing,
    utf16be_with_bom_sniffing, utf16le_with_bom_sniffing, utf8_with_bom_sniffing,
};
use crate::text::{
    copy_bytes, lstrip_pat, lstrip_pat_chars, append_chars, ascii_lower, ascii_lower_chars,
    chars_eq, chars_of, decimal, decimal_chars, eq_str, starts_with, starts_with_str,
    str_to_lowercase, string_of, trim, trim_chars, unicode_lower,
};

verus! {

/// Lexicographic order of character sequences by code point, which is the
/// order of `String` (UTF-8 keeps code point order).
pub open spec fn chars_le(a: Seq<char>, b: Seq<char>) -> bool
    decreases a.len(),
{
    if a.len() == 0 {
        true
    } else if b.len() == 0 {
        false
    } else if a[0] != b[0] {
        a[0] < b[0]
    } else {
        chars_le(a.drop_first(), b.drop_first())
    }
}

pub proof fn lemma_chars_le_total(a: Seq<char>, b: Seq<char>)
    ensures
        chars_le(a, b) || chars_le(b, a),
    decreases a.len(),
{
    if a.len() > 0 && b.len() > 0 && a[0] == b[0] {
        lemma_chars_le_total(a.drop_first(), b.drop_first());
    }
}

pub proof fn lemma_chars_le_refl(a: Seq<char>)
    ensures
        chars_le(a, a),
    decreases a.len(),
{
    if a.len() > 0 {
        lemma_chars_le_refl(a.drop_first());
    }
}

pub proof fn lemma_chars_le_trans(a: Seq<char>, b: Seq<char>, c: Seq<char>)
    requires
        chars_le(a, b),
        chars_le(b, c),
    ensures
        chars_le(a, c),
    decreases a.len(),
{
    if a.len() > 0 && b.len() > 0 && c.len() > 0 && a[0] == b[0] && b[0] == c[0] {
        lemma_chars_le_trans(a.drop_first(), b.drop_first(), c.drop_first());
    }
}

/// Compares two character sequences in code point order.
pub fn chars_le_exec(a: &Vec<char>, b: &Vec<char>) -> (r: bool)
    ensures
        r == chars_le(a@, b@),
{
    let mut i: usize = 0;
    assert(a@.skip(0) =~= a@);
    assert(b@.skip(0) =~= b@);
    while i < a.len()
        invariant
            i <= a@.len(),
            i <= b@.len(),
            forall|k: int| 0 <= k < i ==> a@[k] == b@[k],
            chars_le(a@, b@) == chars_le(a@.skip(i as int), b@.skip(i as int)),
        decreases a@.len() - i,
    {
        if i >= b.len() {
            return false;
        }
        if a[i] != b[i] {
            return a[i] < b[i];
        }
        assert(a@.skip(i as int).drop_first() =~= a@.skip(i + 1));
        assert(b@.skip(i as int).drop_first() =~= b@.skip(i + 1));
        i += 1;
    }
    true
}

/// The key books are ordered by: the title in lower case.
pub open spec fn title_key(b: Book) -> Seq<char> {
    unicode_lower(b.title@)
}

/// The first position from `i` on whose element's key is above `k` (the
/// length when there is none).
pub open spec fn first_above<T>(s: Seq<T>, key: spec_fn(T) -> Seq<char>, k: Seq<char>, i: int) -> int
    decreases s.len() - i,
{
    if i < 0 || i >= s.len() {
        s.len() as int
    } else if !chars_le(key(s[i]), k) {
        i
    } else {
        first_above(s, key, k, i + 1)
    }
}

/// `s` with `x` placed after every element whose key is not above its own.
pub open spec fn stable_insert<T>(s: Seq<T>, key: spec_fn(T) -> Seq<char>, x: T) -> Seq<T> {
    s.insert(first_above(s, key, key(x), 0), x)
}

/// Items ordered by key, items with equal keys kept in their order: each item
/// in turn goes after every earlier one whose key is not above its own.
pub open spec fn stable_sort<T>(items: Seq<T>, key: spec_fn(T) -> Seq<char>) -> Seq<T>
    decreases items.len(),
{
    if items.len() == 0 {
        Seq::empty()
    } else {
        stable_insert(stable_sort(items.drop_last(), key), key, items.last())
    }
}

/// Keys never decrease along `s`.
pub open spec fn sorted_by<T>(s: Seq<T>, key: spec_fn(T) -> Seq<char>) -> bool {
    forall|i: int, j: int| 0 <= i < j < s.len() ==> chars_le(key(s[i]), key(s[j]))
}

proof fn lemma_first_above<T>(s: Seq<T>, key: spec_fn(T) -> Seq<char>, k: Seq<char>, i: int)
    requires
        0 <= i <= s.len(),
    ensures
        i <= first_above(s, key, k, i) <= s.len(),
        forall|j: int| i <= j < first_above(s, key, k, i) ==> chars_le(key(s[j]), k),
        first_above(s, key, k, i) < s.len() ==> !chars_le(key(s[first_above(s, key, k, i)]), k),
    decreases s.len() - i,
{
    if i < s.len() && chars_le(key(s[i]), k) {
        lemma_first_above(s, key, k, i + 1);
    }
}

proof fn lemma_stable_insert<T>(s: Seq<T>, key: spec_fn(T) -> Seq<char>, x: T)
    requires
        sorted_by(s, key),
    ensures
        sorted_by(stable_insert(s, key, x), key),
        stable_insert(s, key, x).to_multiset() == s.to_multiset().insert(x),
{
    let p = first_above(s, key, key(x), 0);
    lemma_first_above(s, key, key(x), 0);
    let t = s.insert(p, x);
    s.insert_ensures(p, x);
    assert forall|j: int| p <= j < s.len() implies chars_le(key(x), key(s[j])) by {
        lemma_chars_le_total(key(s[p]), key(x));
        if j > p {
            lemma_chars_le_trans(key(x), key(s[p]), key(s[j]));
        }
    }
    assert forall|a: int, b: int| 0 <= a < b < t.len() implies chars_le(key(t[a]), key(t[b])) by {
        if b < p {
            assert(t[a] == s[a] && t[b] == s[b]);
        } else if b == p {
            assert(t[a] == s[a]);
        } else if a < p {
            assert(t[a] == s[a] && t[b] == s[b - 1]);
            assert(chars_le(key(s[a]), key(x)));
            assert(chars_le(key(x), key(s[b - 1])));
            lemma_chars_le_trans(key(s[a]), key(x), key(s[b - 1]));
        } else if a == p {
            assert(t[b] == s[b - 1]);
        } else {
            assert(t[a] == s[a - 1] && t[b] == s[b - 1]);
        }
    }
    assert(t.remove(p) =~= s);
    t.to_multiset_ensures();
    assert(t[p] == x);
    assert(s.to_multiset() =~= t.to_multiset().remove(x));
    assert(t.to_multiset().count(x) > 0) by {
        assert(t.contains(x));
        broadcast use vstd::seq_lib::group_to_multiset_ensures;
    }
    assert(t.to_multiset() =~= s.to_multiset().insert(x));
}

/// The stable order by key is ordered and holds the same items.
pub proof fn lemma_stable_sort<T>(items: Seq<T>, key: spec_fn(T) -> Seq<char>)
    ensures
        sorted_by(stable_sort(items, key), key),
        stable_sort(items, key).to_multiset() == items.to_multiset(),
    decreases items.len(),
{
    if items.len() == 0 {
        assert(items.to_multiset() =~= Multiset::<T>::empty()) by {
            items.to_multiset_ensures();
        }
        assert(stable_sort(items, key).to_multiset() =~= Multiset::<T>::empty()) by {
            stable_sort(items, key).to_multiset_ensures();
        }
    } else {
        lemma_stable_sort(items.drop_last(), key);
        lemma_stable_insert(stable_sort(items.drop_last(), key), key, items.last());
        items.drop_last().to_multiset_ensures();
        assert(items.drop_last().push(items.last()) =~= items);
    }
}

/// Orders items by the given keys (which `key` computes), keeping items
/// with equal keys in their order.
fn sort_keyed<T>(items: Vec<T>, keys: Vec<Vec<char>>, Ghost(key): Ghost<spec_fn(T) -> Seq<char>>) -> (r: Vec<T>)
    requires
        keys@.len() == items@.len(),
        forall|k: int| 0 <= k < items@.len() ==> (#[trigger] keys@[k])@ == key(items@[k]),
    ensures
        r@ == stable_sort(items@, key),
{
    let ghost all = items@;
    let mut rest = items;
    let mut rest_keys = keys;
    let mut out: Vec<T> = Vec::new();
    let mut out_keys: Vec<Vec<char>> = Vec::new();
    let ghost mut done: int = 0;
    assert(all.take(0) =~= Seq::<T>::empty());
    assert(all.skip(0) =~= all);
    while rest.len() > 0
        invariant
            0 <= done <= all.len(),
            rest@ == all.skip(done),
            rest_keys@.len() == rest@.len(),
            forall|k: int| 0 <= k < rest@.len() ==> (#[trigger] rest_keys@[k])@ == key(rest@[k]),
            out@ == stable_sort(all.take(done), key),
            out_keys@.len() == out@.len(),
            forall|k: int| 0 <= k < out@.len() ==> (#[trigger] out_keys@[k])@ == key(out@[k]),
        decreases rest@.len(),
    {
        let ghost rest0 = rest@;
        let ghost rk0 = rest_keys@;
        let x = rest.remove(0);
        let kx = rest_keys.remove(0);
        assert(kx@ == key(x)) by {
            assert(rk0[0]@ == key(rest0[0]));
        }
        assert(x == all[done]);
        let ghost before = out@;
        let mut p: usize = 0;
        loop
            invariant_except_break
                p <= out_keys@.len(),
                out_keys@.len() == out@.len(),
                out@ == before,
                forall|k: int| 0 <= k < out@.len() ==> (#[trigger] out_keys@[k])@ == key(out@[k]),
                first_above(before, key, kx@, 0) == first_above(before, key, kx@, p as int),
            ensures
                p == first_above(before, key, kx@, 0),
                out@ == before,
                out_keys@.len() == out@.len(),
                forall|k: int| 0 <= k < out@.len() ==> (#[trigger] out_keys@[k])@ == key(out@[k]),
            decreases out_keys@.len() - p,
        {
            if p >= out_keys.len() {
                break;
            }
            if !chars_le_exec(&out_keys[p], &kx) {
                break;
            }
            p += 1;
        }
        proof {
            lemma_first_above(before, key, kx@, 0);
        }
        let ghost ok0 = out_keys@;
        out.insert(p, x);
        out_keys.insert(p, kx);
        proof {
            before.insert_ensures(p as int, x);
            ok0.insert_ensures(p as int, kx);
            assert(all.take(done + 1).drop_last() =~= all.take(done));
            assert(all.take(done + 1).last() == x);
            assert(rest@ =~= all.skip(done + 1));
            assert forall|k: int| 0 <= k < out@.len() implies (#[trigger] out_keys@[k])@ == key(out@[k]) by {
                if k < p {
                    assert(out_keys@[k] == ok0[k]);
                    assert(out@[k] == before[k]);
                } else if k == p {
                } else {
                    assert(out_keys@[k] == ok0[k - 1]);
                    assert(out@[k] == before[k - 1]);
                }
            }
            done = done + 1;
        }
    }
    assert(all.take(all.len() as int) =~= all);
    out
}

/// Orders books by their titles, ignoring case. Books with equal keys keep
/// their order.
pub fn sort_books_by_title(books: Vec<Book>) -> (r: Vec<Book>)
    ensures
        r@ == stable_sort(books@, |b: Book| title_key(b)),
        r@.to_multiset() == books@.to_multiset(),
        forall|i: int, j: int| 0 <= i < j < r@.len() ==> chars_le(title_key(r@[i]), title_key(r@[j])),
{
    let mut keys: Vec<Vec<char>> = Vec::new();
    let mut i: usize = 0;
    while i < books.len()
        invariant
            i <= books@.len(),
            keys@.len() == i,
            forall|k: int| 0 <= k < i ==> (#[trigger] keys@[k])@ == title_key(books@[k]),
        decreases books@.len() - i,
    {
        let lower = str_to_lowercase(books[i].title.as_str());
        keys.push(chars_of(lower.as_str()));
        i += 1;
    }
    proof {
        lemma_stable_sort(books@, |b: Book| title_key(b));
    }
    sort_keyed(books, keys, Ghost(|b: Book| title_key(b)))
}

/// Orders file paths by their lower-case text.
pub fn sort_paths(paths: Vec<String>) -> (r: Vec<String>)
    ensures
        r@ == stable_sort(paths@, |p: String| unicode_lower(p@)),
        r@.to_multiset() == paths@.to_multiset(),
        forall|i: int, j: int| 0 <= i < j < r@.len() ==> chars_le(unicode_lower(r@[i]@), unicode_lower(r@[j]@)),
{
    let mut keys: Vec<Vec<char>> = Vec::new();
    let mut i: usize = 0;
    while i < paths.len()
        invariant
            i <= paths@.len(),
            keys@.len() == i,
            forall|k: int| 0 <= k < i ==> (#[trigger] keys@[k])@ == unicode_lower(paths@[k]@),
        decreases paths@.len() - i,
    {
        let lower = str_to_lowercase(paths[i].as_str());
        keys.push(chars_of(lower.as_str()));
        i += 1;
    }
    proof {
        lemma_stable_sort(paths@, |p: String| unicode_lower(p@));
    }
    sort_keyed(paths, keys, Ghost(|p: String| unicode_lower(p@)))
}

/// The lower-case hexadecimal digit of `d` (below 16).
pub open spec fn hex_lower(d: nat) -> char {
    if d < 10 {
        (48 + d) as char
    } else {
        (87 + d) as char
    }
}

/// The last `n` hexadecimal digits of `v`, zero-padded.
pub open spec fn hex_digits(v: nat, n: nat) -> Seq<char>
    decreases n,
{
    if n == 0 {
        Seq::empty()
    } else {
        hex_digits(v / 16, (n - 1) as nat).push(hex_lower(v % 16))
    }
}

fn hex_digits_exec(v: u64, n: usize) -> (r: Vec<char>)
    ensures
        r@ == hex_digits(v as nat, n as nat),
    decreases n,
{
    if n == 0 {
        Vec::new()
    } else {
        let mut r = hex_digits_exec(v / 16, n - 1);
        let d = (v % 16) as u8;
        let c: char = if d < 10 { (48 + d) as char } else { (87 + d) as char };
        r.push(c);
        r
    }
}

/// A 64-bit value as 16 lower-case hexadecimal digits (`{:016x}`).
pub fn hex16(v: u64) -> (r: String)
    ensures
        r@ == hex_digits(v as nat, 16),
{
    let d = hex_digits_exec(v, 16);
    string_of(d.as_slice())
}

/// The value `DefaultHasher::new()` gives for a string after `str::hash` and
/// `finish`. Every hasher made by `DefaultHasher::new` starts from the same
/// fixed keys (std documents that all such instances behave alike), so the
/// value depends on the string alone; the algorithm itself is unspecified and
/// may differ between Rust releases, so nothing more is said of it.
pub uninterp spec fn path_hash(s: Seq<char>) -> u64;

/// `DefaultHasher::new()` fed the string with `str::hash`, then `finish`: the
/// result is [`path_hash`] of the string.
#[verifier::external_body]
fn default_hash(s: &str) -> (h: u64)
    ensures
        h == path_hash(s@),
{
    let mut hasher = std::collections::hash_map::DefaultHasher::new();
    s.hash(&mut hasher);
    hasher.finish()
}

/// The id of the book at `path`: the 16 lower-case hex digits of
/// [`path_hash`] of the path, so the same path always gives the same id.
pub fn book_id(path: &str) -> (r: String)
    ensures
        r@ == hex_digits(path_hash(path@) as nat, 16),
{
    let h = default_hash(path);
    hex16(h)
}

/// The file extensions the reader opens.
pub open spec fn supported_extensions() -> Seq<Seq<char>> {
    seq![
        "epub"@, "pdf"@, "txt"@, "text"@, "md"@, "markdown"@, "rst"@, "log"@, "html"@, "htm"@,
        "xhtml"@, "xml"@, "csv"@, "json"@, "tex"@, "docx"@, "odt"@, "rtf"@, "fb2"@, "mobi"@,
        "azw"@, "azw3"@,
    ]
}

/// The extensions the reader opens, as in [`supported_extensions`].
pub const SUPPORTED_EXTENSIONS: [&'static str; 22] = [
    "epub", "pdf", "txt", "text", "md", "markdown", "rst", "log", "html", "htm", "xhtml", "xml",
    "csv", "json", "tex", "docx", "odt", "rtf", "fb2", "mobi", "azw", "azw3",
];

/// Whether a file extension is one the reader opens, ignoring ASCII case.
pub open spec fn is_supported_extension_spec(ext: Seq<char>) -> bool {
    exists|k: int| 0 <= k < supported_extensions().len() && ascii_lower(#[trigger] supported_extensions()[k]) == ascii_lower(ext)
}

/// Whether a file extension is one the reader opens, ignoring ASCII case.
pub fn is_supported_extension(ext: &str) -> (b: bool)
    ensures
        b == is_supported_extension_spec(ext@),
{
    let e = ascii_lower_chars(&chars_of(ext));
    let mut k: usize = 0;
    while k < 22
        invariant
            k <= 22,
            e@ == ascii_lower(ext@),
            forall|m: int| 0 <= m < k ==> ascii_lower(#[trigger] supported_extensions()[m]) != ascii_lower(ext@),
        decreases 22 - k,
    {
        let cand = chars_of(SUPPORTED_EXTENSIONS[k]);
        assert(cand@ == supported_extensions()[k as int]) by {
            assert(SUPPORTED_EXTENSIONS@[k as int]@ == supported_extensions()[k as int]);
        }
        let lc = ascii_lower_chars(&cand);
        if chars_eq(&lc, &e) {
            return true;
        }
        k += 1;
    }
    false
}

/// Whether a directory entry is hidden: its name starts with a dot.
pub fn is_hidden_name(name: &str) -> (b: bool)
    ensures
        b == starts_with(name@, "."@),
{
    starts_with_str(&chars_of(name), ".")
}

/// The format of a book: its file extension in ASCII lower case, or `未知`
/// without one.
pub fn book_format(ext: Option<&str>) -> (r: String)
    ensures
        r@ == match ext {
            Some(e) => ascii_lower(e@),
            None => "未知"@,
        },
{
    match ext {
        Some(e) => string_of(ascii_lower_chars(&chars_of(e)).as_slice()),
        None => String::from_str("未知"),
    }
}

/// How a book file is read.
#[derive(Debug, Clone, Copy, PartialEq, Eq, Structural)]
pub enum BookKind {
    Epub,
    Mobi,
    Pdf,
    Docx,
    Odt,
    Fb2,
    Html,
    Xml,
    Rtf,
    Text,
}

/// How a book of a format is read; any other format is read as plain text.
pub open spec fn book_kind_spec(format: Seq<char>) -> BookKind {
    if format == "epub"@ {
        BookKind::Epub
    } else if format == "mobi"@ || format == "azw"@ || format == "azw3"@ {
        BookKind::Mobi
    } else if format == "pdf"@ {
        BookKind::Pdf
    } else if format == "docx"@ {
        BookKind::Docx
    } else if format == "odt"@ {
        BookKind::Odt
    } else if format == "fb2"@ {
        BookKind::Fb2
    } else if format == "html"@ || format == "htm"@ || format == "xhtml"@ {
        BookKind::Html
    } else if format == "xml"@ {
        BookKind::Xml
    } else if format == "rtf"@ {
        BookKind::Rtf
    } else {
        BookKind::Text
    }
}

/// How a book of a format is read.
pub fn book_kind(format: &str) -> (k: BookKind)
    ensures
        k == book_kind_spec(format@),
{
    let f = chars_of(format);
    if eq_str(&f, "epub") {
        BookKind::Epub
    } else if eq_str(&f, "mobi") || eq_str(&f, "azw") || eq_str(&f, "azw3") {
        BookKind::Mobi
    } else if eq_str(&f, "pdf") {
        BookKind::Pdf
    } else if eq_str(&f, "docx") {
        BookKind::Docx
    } else if eq_str(&f, "odt") {
        BookKind::Odt
    } else if eq_str(&f, "fb2") {
        BookKind::Fb2
    } else if eq_str(&f, "html") || eq_str(&f, "htm") || eq_str(&f, "xhtml") {
        BookKind::Html
    } else if eq_str(&f, "xml") {
        BookKind::Xml
    } else if eq_str(&f, "rtf") {
        BookKind::Rtf
    } else {
        BookKind::Text
    }
}

/// The default chapter title of a book read as text when its file has no
/// name: it says what kind of file it was.
pub open spec fn kind_default_title(k: BookKind) -> Seq<char> {
    match k {
        BookKind::Pdf => "PDF"@,
        BookKind::Fb2 => "FB2"@,
        BookKind::Html => "网页"@,
        BookKind::Xml => "XML"@,
        BookKind::Rtf => "RTF"@,
        BookKind::Docx | BookKind::Odt => "文档"@,
        BookKind::Mobi | BookKind::Epub => "电子书"@,
        BookKind::Text => "文本"@,
    }
}

/// The title a text is split under: the file name without extension, or the
/// kind's default.
pub fn default_title(stem: Option<&str>, kind: BookKind) -> (r: String)
    ensures
        r@ == match stem {
            Some(s) => s@,
            None => kind_default_title(kind),
        },
{
    match stem {
        Some(s) => string_of(chars_of(s).as_slice()),
        None => {
            let t = match kind {
                BookKind::Pdf => "PDF",
                BookKind::Fb2 => "FB2",
                BookKind::Html => "网页",
                BookKind::Xml => "XML",
                BookKind::Rtf => "RTF",
                BookKind::Docx | BookKind::Odt => "文档",
                BookKind::Mobi | BookKind::Epub => "电子书",
                BookKind::Text => "文本",
            };
            string_of(chars_of(t).as_slice())
        },
    }
}

/// The title a book is listed under: the title its file gives, unless that is
/// blank, else the fallback (the file name).
pub fn book_title(parsed: &str, fallback: &str) -> (r: String)
    ensures
        r@ == if trim(parsed@).len() == 0 {
            fallback@
        } else {
            parsed@
        },
{
    let t = trim_chars(&chars_of(parsed));
    if t.len() == 0 {
        string_of(chars_of(fallback).as_slice())
    } else {
        string_of(chars_of(parsed).as_slice())
    }
}

/// A book as listed: read successfully, it has the title its file gives
/// (the file name when that is blank) and its chapters; otherwise the file
/// name, no chapters, and the error.
pub fn make_book(
    id: String,
    path: String,
    format: String,
    fallback: String,
    parsed: Result<(String, Vec<Chapter>), String>,
) -> (b: Book)
    ensures
        b.id == id,
        b.path == path,
        b.format == format,
        match parsed {
            Ok((t, cs)) => {
                &&& b.title@ == (if trim(t@).len() == 0 { fallback@ } else { t@ })
                &&& b.chapters == cs
                &&& b.error is None
            },
            Err(e) => {
                &&& b.title@ == fallback@
                &&& b.chapters@.len() == 0
                &&& b.error == Some(e)
            },
        },
{
    match parsed {
        Ok((t, chapters)) => {
            let title = book_title(t.as_str(), fallback.as_str());
            Book { id, path, title, format, chapters, error: None }
        },
        Err(e) => Book { id, path, title: fallback, format, chapters: Vec::new(), error: Some(e) },
    }
}

/// The version of the cached-book format; cached books of another version
/// are parsed again.
pub const BOOK_CACHE_VERSION: u32 = 5;

/// What a cached book was read from.
#[derive(Debug, Clone)]
pub struct CacheStamp {
    pub version: u32,
    pub path: String,
    pub modified: u64,
    pub size: u64,
}

/// Whether a cached book can be used for the file at `path` with modification
/// time `modified` and length `size`: same cache version, path, time and size.
pub fn cache_is_fresh(cached: &CacheStamp, path: &str, modified: u64, size: u64) -> (b: bool)
    ensures
        b == (cached.version == BOOK_CACHE_VERSION && cached.path@ == path@ && cached.modified == modified
            && cached.size == size),
{
    cached.version == BOOK_CACHE_VERSION && chars_eq(&chars_of(cached.path.as_str()), &chars_of(path))
        && cached.modified == modified && cached.size == size
}

/// The title of the `n`th chapter (from 1) when its document names none.
pub fn numbered_chapter_title(n: usize) -> (r: String)
    ensures
        r@ == "第 "@ + decimal(n as nat) + " 章"@,
{
    let mut out = chars_of("第 ");
    append_chars(&mut out, &decimal_chars(n as u64));
    append_chars(&mut out, &chars_of(" 章"));
    string_of(out.as_slice())
}

/// The reading positions of the books, by book id.
#[derive(Debug, Clone)]
pub struct ProgressFile {
    pub books: Vec<(String, ReadingPosition)>,
}

pub open spec fn entries_view(v: Seq<(String, ReadingPosition)>) -> Seq<(Seq<char>, ReadingPosition)> {
    v.map_values(|e: (String, ReadingPosition)| (e.0@, e.1))
}

/// The position stored for `id`: that of its first entry.
pub open spec fn lookup_position(v: Seq<(Seq<char>, ReadingPosition)>, id: Seq<char>, i: int) -> Option<ReadingPosition>
    decreases v.len() - i,
{
    if i < 0 || i >= v.len() {
        None
    } else if v[i].0 == id {
        Some(v[i].1)
    } else {
        lookup_position(v, id, i + 1)
    }
}

/// The first index of an entry for `id`.
pub open spec fn index_of_book(v: Seq<(Seq<char>, ReadingPosition)>, id: Seq<char>, i: int) -> Option<int>
    decreases v.len() - i,
{
    if i < 0 || i >= v.len() {
        None
    } else if v[i].0 == id {
        Some(i)
    } else {
        index_of_book(v, id, i + 1)
    }
}

proof fn lemma_index_of_book(v: Seq<(Seq<char>, ReadingPosition)>, id: Seq<char>, i: int)
    requires
        0 <= i,
    ensures
        index_of_book(v, id, i) matches Some(k) ==> i <= k < v.len() && v[k].0 == id && forall|m: int|
            i <= m < k ==> v[m].0 != id,
        index_of_book(v, id, i) is None ==> forall|m: int| i <= m < v.len() ==> v[m].0 != id,
    decreases v.len() - i,
{
    if i < v.len() && v[i].0 != id {
        lemma_index_of_book(v, id, i + 1);
    }
}

proof fn lemma_lookup_after_update(
    v: Seq<(Seq<char>, ReadingPosition)>,
    id: Seq<char>,
    k: int,
    p: ReadingPosition,
    key: Seq<char>,
    i: int,
)
    requires
        0 <= i,
        index_of_book(v, id, i) == Some(k),
    ensures
        lookup_position(v.update(k, (id, p)), key, i) == if key == id {
            Some(p)
        } else {
            lookup_position(v, key, i)
        },
    decreases v.len() - i,
{
    lemma_index_of_book(v, id, i);
    let w = v.update(k, (id, p));
    if i < k {
        assert(w[i] == v[i]);
        lemma_lookup_after_update(v, id, k, p, key, i + 1);
    } else {
        assert(i == k);
        lemma_lookup_suffix_eq(w, v, key, k + 1);
    }
}

proof fn lemma_lookup_suffix_eq(v1: Seq<(Seq<char>, ReadingPosition)>, v2: Seq<(Seq<char>, ReadingPosition)>, key: Seq<char>, j: int)
    requires
        0 <= j,
        v1.len() == v2.len(),
        forall|m: int| j <= m < v1.len() ==> v1[m] == v2[m],
    ensures
        lookup_position(v1, key, j) == lookup_position(v2, key, j),
    decreases v1.len() - j,
{
    if j < v1.len() {
        lemma_lookup_suffix_eq(v1, v2, key, j + 1);
    }
}

proof fn lemma_lookup_after_push(v: Seq<(Seq<char>, ReadingPosition)>, id: Seq<char>, p: ReadingPosition, key: Seq<char>, i: int)
    requires
        0 <= i <= v.len(),
        index_of_book(v, id, i) is None,
    ensures
        lookup_position(v.push((id, p)), key, i) == if key == id && lookup_position(v, key, i) is None {
            Some(p)
        } else {
            lookup_position(v, key, i)
        },
    decreases v.len() - i,
{
    lemma_index_of_book(v, id, i);
    let w = v.push((id, p));
    if i < v.len() {
        assert(w[i] == v[i]);
        lemma_lookup_after_push(v, id, p, key, i + 1);
    } else {
        assert(w[i] == (id, p));
    }
}

proof fn lemma_lookup_none(v: Seq<(Seq<char>, ReadingPosition)>, id: Seq<char>, i: int)
    requires
        0 <= i,
        index_of_book(v, id, i) is None,
    ensures
        lookup_position(v, id, i) is None,
    decreases v.len() - i,
{
    if i < v.len() {
        lemma_lookup_none(v, id, i + 1);
    }
}

impl ProgressFile {
    /// The positions by book id.
    pub open spec fn positions(&self) -> Map<Seq<char>, ReadingPosition> {
        Map::new(
            |id: Seq<char>| lookup_position(entries_view(self.books@), id, 0) is Some,
            |id: Seq<char>| lookup_position(entries_view(self.books@), id, 0)->0,
        )
    }

    /// No reading position is stored yet.
    pub fn new() -> (r: ProgressFile)
        ensures
            r.positions() == Map::<Seq<char>, ReadingPosition>::empty(),
    {
        let r = ProgressFile { books: Vec::new() };
        assert(r.positions() =~= Map::<Seq<char>, ReadingPosition>::empty());
        r
    }

    fn find(&self, id: &Vec<char>) -> (r: Option<usize>)
        ensures
            match r {
                Some(k) => index_of_book(entries_view(self.books@), id@, 0) == Some(k as int) && k < self.books@.len(),
                None => index_of_book(entries_view(self.books@), id@, 0) is None,
            },
    {
        let ghost v = entries_view(self.books@);
        let mut i: usize = 0;
        while i < self.books.len()
            invariant
                i <= self.books@.len(),
                v == entries_view(self.books@),
                index_of_book(v, id@, 0) == index_of_book(v, id@, i as int),
            decreases self.books@.len() - i,
        {
            if chars_eq(&chars_of(self.books[i].0.as_str()), id) {
                return Some(i);
            }
            i += 1;
        }
        None
    }

    /// Where the reader stopped in book `id`; the start of the book when no
    /// position is stored.
    pub fn position(&self, id: &str) -> (r: ReadingPosition)
        ensures
            r == if self.positions().contains_key(id@) {
                self.positions()[id@]
            } else {
                ReadingPosition { chapter: 0, offset: 0 }
            },
    {
        let ghost v = entries_view(self.books@);
        let idc = chars_of(id);
        let mut i: usize = 0;
        while i < self.books.len()
            invariant
                i <= self.books@.len(),
                idc@ == id@,
                v == entries_view(self.books@),
                lookup_position(v, id@, 0) == lookup_position(v, id@, i as int),
            decreases self.books@.len() - i,
        {
            if chars_eq(&chars_of(self.books[i].0.as_str()), &idc) {
                return self.books[i].1;
            }
            i += 1;
        }
        ReadingPosition { chapter: 0, offset: 0 }
    }

    /// Stores where the reader stopped in book `id`.
    pub fn record(&mut self, id: &str, position: ReadingPosition)
        ensures
            final(self).positions() == old(self).positions().insert(id@, position),
    {
        let idc = chars_of(id);
        let ghost v = entries_view(self.books@);
        match self.find(&idc) {
            Some(k) => {
                self.books.set(k, (string_of(idc.as_slice()), position));
                proof {
                    assert(entries_view(self.books@) =~= v.update(k as int, (id@, position)));
                    assert forall|key: Seq<char>| true implies lookup_position(entries_view(self.books@), key, 0) == if key == id@ {
                        Some(position)
                    } else {
                        lookup_position(v, key, 0)
                    } by {
                        lemma_lookup_after_update(v, id@, k as int, position, key, 0);
                    }
                    assert(self.positions() =~= old(self).positions().insert(id@, position));
                }
            },
            None => {
                self.books.push((string_of(idc.as_slice()), position));
                proof {
                    assert(entries_view(self.books@) =~= v.push((id@, position)));
                    lemma_lookup_none(v, id@, 0);
                    assert forall|key: Seq<char>| true implies lookup_position(entries_view(self.books@), key, 0) == if key == id@ {
                        Some(position)
                    } else {
                        lookup_position(v, key, 0)
                    } by {
                        lemma_lookup_after_push(v, id@, position, key, 0);
                    }
                    assert(self.positions() =~= old(self).positions().insert(id@, position));
                }
            },
        }
    }
}

/// What is read back for a book is what was last recorded for it, and
/// recording one book leaves the others as they were.
pub proof fn law_progress_read_after_write(
    before: ProgressFile,
    after: ProgressFile,
    id: Seq<char>,
    position: ReadingPosition,
    other: Seq<char>,
)
    requires
        after.positions() == before.positions().insert(id, position),
    ensures
        after.positions().contains_key(id) && after.positions()[id] == position,
        other != id ==> (after.positions().contains_key(other) == before.positions().contains_key(other)
            && (before.positions().contains_key(other) ==> after.positions()[other] == before.positions()[other])),
{
}

/// The text of a book file's bytes: UTF-16 when a byte-order mark says so,
/// else UTF-8 without its byte-order marks, else (when UTF-8 decoding meets
/// errors) GBK.
pub open spec fn decode_bytes_spec(bytes: Seq<u8>) -> Seq<char> {
    if bytes.len() >= 2 && bytes[0] == 0xffu8 && bytes[1] == 0xfeu8 {
        utf16le_with_bom_sniffing(bytes.subrange(2, bytes.len() as int))
    } else if bytes.len() >= 2 && bytes[0] == 0xfeu8 && bytes[1] == 0xffu8 {
        utf16be_with_bom_sniffing(bytes.subrange(2, bytes.len() as int))
    } else if utf8_with_bom_sniffing(bytes).1 {
        gbk_with_bom_sniffing(bytes)
    } else {
        lstrip_pat(utf8_with_bom_sniffing(bytes).0, seq!['\u{feff}'])
    }
}

/// Reads the text of a book file's bytes.
pub fn decode_bytes(bytes: &[u8]) -> (r: String)
    ensures
        r@ == decode_bytes_spec(bytes@),
{
    let n = bytes.len();
    if n >= 2 && bytes[0] == 0xff && bytes[1] == 0xfe {
        let rest = copy_bytes(bytes, 2, n);
        return decode_utf16le(rest.as_slice());
    }
    if n >= 2 && bytes[0] == 0xfe && bytes[1] == 0xff {
        let rest = copy_bytes(bytes, 2, n);
        return decode_utf16be(rest.as_slice());
    }
    let (text, had_errors) = decode_utf8_sniffing(bytes);
    if had_errors {
        decode_gbk(bytes)
    } else {
        let mut bom: Vec<char> = Vec::new();
        bom.push('\u{feff}');
        assert(bom@ =~= seq!['\u{feff}']);
        string_of(lstrip_pat_chars(&chars_of(text.as_str()), &bom).as_slice())
    }
}

/// The index of the last occurrence of `c` in `s`.
pub open spec fn last_index_of(s: Seq<char>, c: char) -> Option<int>
    decreases s.len(),
{
    if s.len() == 0 {
        None
    } else if s.last() == c {
        Some(s.len() - 1)
    } else {
        last_index_of(s.drop_last(), c)
    }
}

pub fn last_index_of_exec(s: &Vec<char>, c: char) -> (r: Option<usize>)
    ensures
        match r {
            Some(k) => last_index_of(s@, c) == Some(k as int) && k < s@.len(),
            None => last_index_of(s@, c) is None,
        },
{
    let mut i = s.len();
    assert(s@.take(s@.len() as int) =~= s@);
    while i > 0
        invariant
            i <= s@.len(),
            last_index_of(s@, c) == last_index_of(s@.take(i as int), c),
        decreases i,
    {
        assert(s@.take(i as int).drop_last() =~= s@.take(i - 1));
        if s[i - 1] == c {
            return Some(i - 1);
        }
        i -= 1;
    }
    None
}

/// The extension of a path's file name (`Path::extension`): after the last
/// `.` of the last component, unless that `.` starts the name.
pub open spec fn path_extension(path: Seq<char>) -> Option<Seq<char>> {
    let name = match last_index_of(path, '/') {
        Some(k) => path.subrange(k + 1, path.len() as int),
        None => path,
    };
    if name == "."@ || name == ".."@ {
        None
    } else {
        match last_index_of(name, '.') {
            Some(d) => if d == 0 {
                None
            } else {
                Some(name.subrange(d + 1, name.len() as int))
            },
            None => None,
        }
    }
}

/// The extension an extracted image file gets: that of its source when it is
/// at most five ASCII letters or digits, else `img`.
pub open spec fn image_file_extension(source: Seq<char>) -> Seq<char> {
    match path_extension(source) {
        Some(e) => if e.len() <= 5 && (forall|k: int| 0 <= k < e.len() ==> #[trigger] crate::text::is_ascii_alnum(e[k])) {
            e
        } else {
            "img"@
        },
        None => "img"@,
    }
}

/// A number written with at least three digits (`{:03}`).
pub open spec fn pad3(n: nat) -> Seq<char> {
    let d = decimal(n);
    if d.len() == 1 {
        "00"@ + d
    } else if d.len() == 2 {
        "0"@ + d
    } else {
        d
    }
}

/// The file name of the `number`th extracted image of a book, taken from
/// archive path `source`: `{number:03}.{extension}`.
pub fn image_file_name(source: &str, number: u64) -> (r: String)
    ensures
        r@ == pad3(number as nat) + "."@ + image_file_extension(source@),
{
    let src = chars_of(source);
    let name: Vec<char> = match last_index_of_exec(&src, '/') {
        Some(k) => crate::text::copy_range(&src, k + 1, src.len()),
        None => crate::text::copy_range(&src, 0, src.len()),
    };
    assert(name@ == match last_index_of(src@, '/') {
        Some(k) => src@.subrange(k + 1, src@.len() as int),
        None => src@,
    });
    let ext: Vec<char> = if eq_str(&name, ".") || eq_str(&name, "..") {
        chars_of("img")
    } else {
        match last_index_of_exec(&name, '.') {
            Some(d) => {
                if d == 0 {
                    chars_of("img")
                } else {
                    let e = crate::text::copy_range(&name, d + 1, name.len());
                    let mut ok = e.len() <= 5;
                    let mut k: usize = 0;
                    while k < e.len()
                        invariant
                            k <= e@.len(),
                            ok == (e@.len() <= 5 && forall|m: int| 0 <= m < k ==> #[trigger] crate::text::is_ascii_alnum(e@[m])),
                        decreases e@.len() - k,
                    {
                        if !crate::text::ascii_alnum(e[k]) {
                            ok = false;
                        }
                        k += 1;
                    }
                    if ok {
                        e
                    } else {
                        chars_of("img")
                    }
                }
            },
            None => chars_of("img"),
        }
    };
    assert(ext@ == image_file_extension(src@));
    let digits = decimal_chars(number);
    let mut out: Vec<char> = Vec::new();
    if digits.len() == 1 {
        out = chars_of("00");
    } else if digits.len() == 2 {
        out = chars_of("0");
    }
    append_chars(&mut out, &digits);
    assert(out@ == pad3(number as nat));
    append_chars(&mut out, &chars_of("."));
    append_chars(&mut out, &ext);
    string_of(out.as_slice())
}

/// Whether an image link points outside the book (`http://` or `https://`).
pub fn is_remote_link(href: &str) -> (b: bool)
    ensures
        b == (starts_with(href@, "http://"@) || starts_with(href@, "https://"@)),
{
    let h = chars_of(href);
    starts_with_str(&h, "http://") || starts_with_str(&h, "https://")
}

} // verus!
