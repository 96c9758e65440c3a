use vstd::prelude::*;

use crate::book::chapters::{chapter_views, spec_split_text, split_text};
use crate::book::formats::{rtf_from, strip_rtf, xml_text, xml_text_fold};
use crate::book::Chapter;
use crate::book::library::{decode_bytes, decode_bytes_spec, BookKind};
use crate::platform::html::{fragment_nodes, text_fold, to_text};
use crate::text::{chars_of, replace_all, replace_chars, string_of, trim};
use crate::xml::xml_events;

verus! {

/// The text of a book file read as text: FB2 and XML by their text nodes,
/// HTML as rendered text, RTF without its control words, anything else as
/// it is.
pub open spec fn book_text_spec(kind: BookKind, raw: Seq<char>) -> Seq<char> {
    match kind {
        BookKind::Fb2 | BookKind::Xml => xml_text_fold(xml_events(raw, true), true),
        BookKind::Html => trim(text_fold(fragment_nodes(raw, Seq::empty()))),
        BookKind::Rtf => rtf_from(raw, 0),
        _ => raw,
    }
}

/// The chapters of a book file that is read as text (FB2, HTML, XML, RTF or
/// plain text), from the file's bytes.
pub fn text_file_chapters(kind: BookKind, bytes: &[u8], title: &str) -> (r: Vec<Chapter>)
    ensures
        chapter_views(r@) == spec_split_text(book_text_spec(kind, decode_bytes_spec(bytes@)), title@),
{
    let raw = decode_bytes(bytes);
    let text = match kind {
        BookKind::Fb2 | BookKind::Xml => xml_text(raw.as_str(), true),
        BookKind::Html => to_text(raw.as_str()),
        BookKind::Rtf => strip_rtf(raw.as_str()),
        _ => raw,
    };
    split_text(text.as_str(), title)
}

/// The chapters of a PDF's extracted text: each form feed starts a new
/// paragraph.
pub fn pdf_chapters(text: &str, title: &str) -> (r: Vec<Chapter>)
    ensures
        chapter_views(r@) == spec_split_text(replace_all(text@, seq!['\u{c}'], "\n\n"@), title@),
{
    let mut ff: Vec<char> = Vec::new();
    ff.push('\u{c}');
    assert(ff@ =~= seq!['\u{c}']);
    let breaks = chars_of("\n\n");
    let t = replace_chars(&chars_of(text), &ff, &breaks);
    split_text(string_of(t.as_slice()).as_str(), title)
}

} // verus!
