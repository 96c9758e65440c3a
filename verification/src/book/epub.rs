use vstd::prelude::*;
use vstd::utf8::encode_utf8;

use crate::book::chapters::{is_heading, spec_is_heading};
use crate::book::formats::{
    attr_value, attribute_value, local_name, local_name_spec, pct_decode_from, percent_decode,
    zip_path, zip_path_spec,
};
use crate::platform::html::{
    select_fragment_subtrees, selected_fragment_subtrees, select_inner_html, selected_inner_html,
    attr_at, attr_of, fragment_nodes, node_view, nodes_view, parse_fragment_nodes, select_subtrees,
    selected_subtrees, subtree_text, subtrees_view, text_fold, text_of, to_text, HtmlNode,
    SpecHtmlNode,
};
use crate::text::{
    decimal_chars_wide, is_ws, match_at, matches_at,
    append_chars, chars_eq, chars_of, decimal, decimal_chars, eq_str, find_pat, find_pat_from,
    lines, lines_of, starts_with, starts_with_str, string_of, strs, trim, trim_chars, utf8_lossy_of,
    vviews,
};
use crate::xml::{events_view, opt_chars, read_xml_events, xml_events, SpecXmlEvent, XmlEvent};

verus! {

/// One `<item>` of an EPUB manifest.
#[derive(Debug, Clone)]
pub struct ManifestItem {
    pub id: String,
    pub href: String,
    pub media_type: String,
    pub properties: String,
}

/// What an EPUB package document (OPF) gives: the title, the manifest (one
/// item per id), the reading order of item ids, and the id of the table of
/// contents.
pub struct OpfData {
    pub title: String,
    pub manifest: Vec<ManifestItem>,
    pub spine: Vec<String>,
    pub toc_id: Option<String>,
}

/// A manifest item as four texts: id, href, media type, properties.
pub type SpecItem = (Seq<char>, Seq<char>, Seq<char>, Seq<char>);

pub open spec fn item_view(it: ManifestItem) -> SpecItem {
    (it.id@, it.href@, it.media_type@, it.properties@)
}

pub open spec fn items_view(v: Seq<ManifestItem>) -> Seq<SpecItem> {
    v.map_values(|it: ManifestItem| item_view(it))
}

/// The index of the first item with `id`.
pub open spec fn index_of_id(m: Seq<SpecItem>, id: Seq<char>, i: int) -> Option<int>
    decreases m.len() - i,
{
    if i < 0 || i >= m.len() {
        None
    } else if m[i].0 == id {
        Some(i)
    } else {
        index_of_id(m, id, i + 1)
    }
}

pub proof fn lemma_index_of_id(m: Seq<SpecItem>, id: Seq<char>, i: int)
    requires
        0 <= i,
    ensures
        index_of_id(m, id, i) matches Some(k) ==> i <= k < m.len() && m[k].0 == id,
        index_of_id(m, id, i) is None ==> forall|k: int| i <= k < m.len() ==> m[k].0 != id,
    decreases m.len() - i,
{
    if i < m.len() && m[i].0 != id {
        lemma_index_of_id(m, id, i + 1);
    }
}

/// Puts an item into the manifest: it replaces the item with its id, or is
/// added at the end.
pub open spec fn manifest_insert(m: Seq<SpecItem>, it: SpecItem) -> Seq<SpecItem> {
    match index_of_id(m, it.0, 0) {
        Some(k) => m.update(k, it),
        None => m.push(it),
    }
}

/// What a manifest `<item>` tag adds: an item when it has an id and an href.
pub open spec fn add_manifest(m: Seq<SpecItem>, attrs: Seq<(Seq<u8>, Option<Seq<char>>)>) -> Seq<SpecItem> {
    match (attr_value(attrs, "id"@), attr_value(attrs, "href"@)) {
        (Some(id), Some(href)) => manifest_insert(
            m,
            (
                id,
                href,
                match attr_value(attrs, "media-type"@) {
                    Some(v) => v,
                    None => Seq::empty(),
                },
                match attr_value(attrs, "properties"@) {
                    Some(v) => v,
                    None => Seq::empty(),
                },
            ),
        ),
        _ => m,
    }
}

/// What a spine `<itemref>` tag adds: its `idref`.
pub open spec fn add_spine(s: Seq<Seq<char>>, attrs: Seq<(Seq<u8>, Option<Seq<char>>)>) -> Seq<Seq<char>> {
    match attr_value(attrs, "idref"@) {
        Some(v) => s.push(v),
        None => s,
    }
}

/// What the package reader has gathered so far.
pub struct OpfScan {
    pub title: Seq<char>,
    pub manifest: Seq<SpecItem>,
    pub spine: Seq<Seq<char>>,
    pub toc_id: Option<Seq<char>>,
    pub title_open: bool,
}

/// One reader event of a package document.
pub open spec fn opf_step(st: OpfScan, e: SpecXmlEvent) -> OpfScan {
    match e {
        SpecXmlEvent::Tag(empty, name, attrs) => {
            let n = local_name_spec(name);
            let manifest = if n == "item"@ { add_manifest(st.manifest, attrs) } else { st.manifest };
            let spine = if n == "itemref"@ { add_spine(st.spine, attrs) } else { st.spine };
            if empty {
                OpfScan { manifest, spine, ..st }
            } else {
                OpfScan {
                    manifest,
                    spine,
                    toc_id: if n == "spine"@ { attr_value(attrs, "toc"@) } else { st.toc_id },
                    title_open: n == "title"@,
                    ..st
                }
            }
        },
        SpecXmlEvent::Text(t) => if st.title_open {
            OpfScan {
                title: match t {
                    Some(v) => v,
                    None => Seq::empty(),
                },
                ..st
            }
        } else {
            st
        },
        SpecXmlEvent::End(name) => if local_name_spec(name) == "title"@ {
            OpfScan { title_open: false, ..st }
        } else {
            st
        },
        _ => st,
    }
}

pub open spec fn opf_fold(es: Seq<SpecXmlEvent>) -> OpfScan
    decreases es.len(),
{
    if es.len() == 0 {
        OpfScan {
            title: Seq::empty(),
            manifest: Seq::empty(),
            spine: Seq::empty(),
            toc_id: None,
            title_open: false,
        }
    } else {
        opf_step(opf_fold(es.drop_last()), es.last())
    }
}

/// The package read from an OPF document (its title trimmed).
pub open spec fn opf_spec(raw: Seq<char>) -> OpfScan {
    let st = opf_fold(xml_events(raw, true));
    OpfScan { title: trim(st.title), ..st }
}

fn manifest_index(m: &Vec<ManifestItem>, id: &Vec<char>) -> (r: Option<usize>)
    ensures
        match r {
            Some(k) => index_of_id(items_view(m@), id@, 0) == Some(k as int),
            None => index_of_id(items_view(m@), id@, 0) is None,
        },
{
    let ghost ms = items_view(m@);
    let mut i: usize = 0;
    while i < m.len()
        invariant
            i <= m@.len(),
            ms == items_view(m@),
            index_of_id(ms, id@, 0) == index_of_id(ms, id@, i as int),
        decreases m@.len() - i,
    {
        let cid = chars_of(m[i].id.as_str());
        if chars_eq(&cid, id) {
            return Some(i);
        }
        i += 1;
    }
    None
}

fn add_manifest_exec(m: &mut Vec<ManifestItem>, attrs: &Vec<(Vec<u8>, Option<String>)>)
    ensures
        items_view(final(m)@) == add_manifest(
            items_view(old(m)@),
            attrs@.map_values(|a: (Vec<u8>, Option<String>)| crate::xml::attr_pair_view(a)),
        ),
{
    let id = attribute_value(attrs, "id");
    let href = attribute_value(attrs, "href");
    match (id, href) {
        (Some(id), Some(href)) => {
            let media_type = match attribute_value(attrs, "media-type") {
                Some(v) => v,
                None => String::new(),
            };
            let properties = match attribute_value(attrs, "properties") {
                Some(v) => v,
                None => String::new(),
            };
            let idc = chars_of(id.as_str());
            let item = ManifestItem { id, href, media_type, properties };
            let ghost before = items_view(m@);
            proof {
                lemma_index_of_id(before, idc@, 0);
            }
            match manifest_index(m, &idc) {
                Some(k) => {
                    m.set(k, item);
                    assert(items_view(m@) =~= before.update(k as int, item_view(item)));
                },
                None => {
                    m.push(item);
                    assert(items_view(m@) =~= before.push(item_view(item)));
                },
            }
        },
        _ => {},
    }
}

/// Reads an EPUB package document.
pub fn parse_opf(raw: &str) -> (r: OpfData)
    ensures
        r.title@ == opf_spec(raw@).title,
        items_view(r.manifest@) == opf_spec(raw@).manifest,
        strs(r.spine@) == opf_spec(raw@).spine,
        opt_chars(r.toc_id) == opf_spec(raw@).toc_id,
{
    let events = read_xml_events(raw, true);
    let ghost es = events_view(events@);
    let mut title = String::new();
    let mut manifest: Vec<ManifestItem> = Vec::new();
    let mut spine: Vec<String> = Vec::new();
    let mut toc_id: Option<String> = None;
    let mut title_open = false;
    let mut i: usize = 0;
    assert(es.take(0) =~= Seq::<SpecXmlEvent>::empty());
    assert(items_view(manifest@) =~= Seq::<SpecItem>::empty());
    assert(strs(spine@) =~= Seq::<Seq<char>>::empty());
    while i < events.len()
        invariant
            i <= events@.len(),
            es == events_view(events@),
            es == xml_events(raw@, true),
            opf_fold(es.take(i as int)) == (OpfScan {
                title: title@,
                manifest: items_view(manifest@),
                spine: strs(spine@),
                toc_id: opt_chars(toc_id),
                title_open,
            }),
        decreases events@.len() - i,
    {
        assert(es.take(i + 1).drop_last() =~= es.take(i as int));
        assert(es.take(i + 1).last() == crate::xml::event_view(events@[i as int]));
        match &events[i] {
            XmlEvent::Tag(empty, name, attrs) => {
                let n = local_name(name.as_slice());
                if eq_str(&n, "item") {
                    add_manifest_exec(&mut manifest, attrs);
                }
                if eq_str(&n, "itemref") {
                    match attribute_value(attrs, "idref") {
                        Some(v) => {
                            let ghost before = strs(spine@);
                            spine.push(v);
                            assert(strs(spine@) =~= before.push(v@));
                        },
                        None => {},
                    }
                }
                if !*empty {
                    if eq_str(&n, "spine") {
                        toc_id = attribute_value(attrs, "toc");
                    }
                    title_open = eq_str(&n, "title");
                }
            },
            XmlEvent::Text(t) => {
                if title_open {
                    title = match t {
                        Some(v) => v.clone(),
                        None => String::new(),
                    };
                }
            },
            XmlEvent::End(name) => {
                let n = local_name(name.as_slice());
                if eq_str(&n, "title") {
                    title_open = false;
                }
            },
            _ => {},
        }
        i += 1;
    }
    assert(es.take(events@.len() as int) =~= es);
    OpfData { title: crate::text::trim_str(title.as_str()), manifest, spine, toc_id }
}

/// One entry of a table of contents: a title and the archive path it opens.
#[derive(Debug, Clone)]
pub struct TocEntry {
    pub title: String,
    pub path: String,
}

pub open spec fn toc_view(e: TocEntry) -> (Seq<char>, Seq<char>) {
    (e.title@, e.path@)
}

pub open spec fn tocs_view(v: Seq<TocEntry>) -> Seq<(Seq<char>, Seq<char>)> {
    v.map_values(|e: TocEntry| toc_view(e))
}

/// The archive path a link of a document in directory `base` names, its
/// percent escapes decoded.
pub open spec fn link_path(base: Seq<char>, href: Seq<char>) -> Seq<char> {
    zip_path_spec(base, utf8_lossy_of(pct_decode_from(encode_utf8(href), 0)))
}

/// What the NCX reader has gathered so far.
pub struct NcxScan {
    pub in_label: bool,
    pub label: Seq<char>,
    pub entries: Seq<(Seq<char>, Seq<char>)>,
}

/// One reader event of an NCX table of contents: the text of a `<text>` label
/// names the next `<content>` link; a link with a label that is not blank
/// makes an entry.
pub open spec fn ncx_step(st: NcxScan, e: SpecXmlEvent, base: Seq<char>) -> NcxScan {
    match e {
        SpecXmlEvent::Tag(empty, name, attrs) => {
            let n = local_name_spec(name);
            if !empty && n == "text"@ {
                NcxScan { in_label: true, ..st }
            } else if n == "content"@ {
                let entries = match attr_value(attrs, "src"@) {
                    Some(src) => if trim(st.label).len() > 0 {
                        st.entries.push((trim(st.label), link_path(base, src)))
                    } else {
                        st.entries
                    },
                    None => st.entries,
                };
                NcxScan { label: Seq::empty(), entries, ..st }
            } else {
                st
            }
        },
        SpecXmlEvent::Text(t) => if st.in_label {
            NcxScan {
                label: match t {
                    Some(v) => v,
                    None => Seq::empty(),
                },
                ..st
            }
        } else {
            st
        },
        SpecXmlEvent::End(name) => if local_name_spec(name) == "text"@ {
            NcxScan { in_label: false, ..st }
        } else {
            st
        },
        _ => st,
    }
}

pub open spec fn ncx_fold(es: Seq<SpecXmlEvent>, base: Seq<char>) -> NcxScan
    decreases es.len(),
{
    if es.len() == 0 {
        NcxScan { in_label: false, label: Seq::empty(), entries: Seq::empty() }
    } else {
        ncx_step(ncx_fold(es.drop_last(), base), es.last(), base)
    }
}

/// Reads an NCX table of contents of a document in directory `base`.
pub fn parse_ncx(raw: &str, base: &str) -> (r: Vec<TocEntry>)
    ensures
        tocs_view(r@) == ncx_fold(xml_events(raw@, true), base@).entries,
{
    let events = read_xml_events(raw, true);
    let ghost es = events_view(events@);
    let mut in_label = false;
    let mut label: Vec<char> = Vec::new();
    let mut entries: Vec<TocEntry> = Vec::new();
    let mut i: usize = 0;
    assert(es.take(0) =~= Seq::<SpecXmlEvent>::empty());
    assert(tocs_view(entries@) =~= Seq::<(Seq<char>, Seq<char>)>::empty());
    while i < events.len()
        invariant
            i <= events@.len(),
            es == events_view(events@),
            ncx_fold(es.take(i as int), base@) == (NcxScan {
                in_label,
                label: label@,
                entries: tocs_view(entries@),
            }),
        decreases events@.len() - i,
    {
        assert(es.take(i + 1).drop_last() =~= es.take(i as int));
        assert(es.take(i + 1).last() == crate::xml::event_view(events@[i as int]));
        match &events[i] {
            XmlEvent::Tag(empty, name, attrs) => {
                let n = local_name(name.as_slice());
                if !*empty && eq_str(&n, "text") {
                    in_label = true;
                } else if eq_str(&n, "content") {
                    match attribute_value(attrs, "src") {
                        Some(src) => {
                            let title = trim_chars(&label);
                            if title.len() > 0 {
                                let path = zip_path(base, percent_decode(src.as_str()).as_str());
                                let ghost before = tocs_view(entries@);
                                let e = TocEntry { title: string_of(title.as_slice()), path };
                                entries.push(e);
                                assert(tocs_view(entries@) =~= before.push(toc_view(e)));
                            }
                        },
                        None => {},
                    }
                    label = Vec::new();
                }
            },
            XmlEvent::Text(t) => {
                if in_label {
                    label = match t {
                        Some(v) => chars_of(v.as_str()),
                        None => Vec::new(),
                    };
                }
            },
            XmlEvent::End(name) => {
                let n = local_name(name.as_slice());
                if eq_str(&n, "text") {
                    in_label = false;
                }
            },
            _ => {},
        }
        i += 1;
    }
    assert(es.take(events@.len() as int) =~= es);
    entries
}

/// The entry of one link of a navigation document: its text, trimmed, and
/// the path its `href` names; `None` without an `href` or with blank text.
pub open spec fn nav_entry(sub: Seq<SpecHtmlNode>, base: Seq<char>) -> Option<(Seq<char>, Seq<char>)> {
    match (if sub.len() > 0 { attr_at(sub[0], 0) } else { None }) {
        None => None,
        Some(href) => if trim(subtree_text(sub)).len() == 0 {
            None
        } else {
            Some((trim(subtree_text(sub)), link_path(base, href)))
        },
    }
}

pub open spec fn nav_entries(subs: Seq<Seq<SpecHtmlNode>>, base: Seq<char>) -> Seq<(Seq<char>, Seq<char>)>
    decreases subs.len(),
{
    if subs.len() == 0 {
        Seq::empty()
    } else {
        nav_entries(subs.drop_last(), base) + match nav_entry(subs.last(), base) {
            Some(e) => seq![e],
            None => Seq::empty(),
        }
    }
}

/// The table of contents of an EPUB 3 navigation document: the links inside
/// `<nav>`.
pub open spec fn nav_spec(raw: Seq<char>, base: Seq<char>) -> Seq<(Seq<char>, Seq<char>)> {
    match selected_subtrees(raw, "nav a"@, seq!["href"@]) {
        Some(subs) => nav_entries(subs, base),
        None => Seq::empty(),
    }
}

/// Reads the table of contents of an EPUB 3 navigation document in directory
/// `base`.
pub fn parse_nav_document(raw: &str, base: &str) -> (r: Vec<TocEntry>)
    ensures
        tocs_view(r@) == nav_spec(raw@, base@),
{
    let mut names: Vec<String> = Vec::new();
    names.push(String::from_str("href"));
    assert(strs(names@) =~= seq!["href"@]);
    let mut entries: Vec<TocEntry> = Vec::new();
    let subs = match select_subtrees(raw, "nav a", &names) {
        Some(v) => v,
        None => {
            assert(tocs_view(entries@) =~= Seq::<(Seq<char>, Seq<char>)>::empty());
            return entries;
        },
    };
    let ghost views = subtrees_view(subs@);
    let mut i: usize = 0;
    assert(tocs_view(entries@) =~= nav_entries(views.take(0), base@));
    while i < subs.len()
        invariant
            i <= subs@.len(),
            views == subtrees_view(subs@),
            tocs_view(entries@) == nav_entries(views.take(i as int), base@),
        decreases subs@.len() - i,
    {
        assert(views.take(i + 1).drop_last() =~= views.take(i as int));
        assert(views.take(i + 1).last() == nodes_view(subs@[i as int]@));
        let sub = &subs[i];
        let href = if sub.len() > 0 {
            attr_of(&sub[0], 0)
        } else {
            None
        };
        match href {
            Some(h) => {
                let text = text_of(sub);
                let title = trim_chars(&text);
                if title.len() > 0 {
                    let path = zip_path(base, percent_decode(h.as_str()).as_str());
                    let ghost before = tocs_view(entries@);
                    let e = TocEntry { title: string_of(title.as_slice()), path };
                    entries.push(e);
                    assert(tocs_view(entries@) =~= before.push(toc_view(e)));
                }
            },
            None => {},
        }
        i += 1;
    }
    assert(views.take(subs@.len() as int) =~= views);
    entries
}

/// The item with `id`, if the manifest has one.
pub open spec fn lookup_item(m: Seq<SpecItem>, id: Seq<char>) -> Option<SpecItem> {
    match index_of_id(m, id, 0) {
        Some(k) => Some(m[k]),
        None => None,
    }
}

/// Whether `pat` occurs in `s` (`str::contains`).
pub open spec fn contains_text(s: Seq<char>, pat: Seq<char>) -> bool {
    find_pat_from(s, pat, 0) is Some
}

/// The archive paths of the spine's documents, in reading order: each
/// spine id that names an (X)HTML item of the manifest.
pub open spec fn spine_path_list(spine: Seq<Seq<char>>, m: Seq<SpecItem>, base: Seq<char>) -> Seq<Seq<char>>
    decreases spine.len(),
{
    if spine.len() == 0 {
        Seq::empty()
    } else {
        spine_path_list(spine.drop_last(), m, base) + match lookup_item(m, spine.last()) {
            Some(it) => if contains_text(it.2, "html"@) {
                seq![link_path(base, it.1)]
            } else {
                Seq::empty()
            },
            None => Seq::empty(),
        }
    }
}

fn lookup_exec<'a>(m: &'a Vec<ManifestItem>, id: &Vec<char>) -> (r: Option<&'a ManifestItem>)
    ensures
        match r {
            Some(it) => lookup_item(items_view(m@), id@) == Some(item_view(*it)),
            None => lookup_item(items_view(m@), id@) is None,
        },
{
    proof {
        lemma_index_of_id(items_view(m@), id@, 0);
    }
    match manifest_index(m, id) {
        Some(k) => Some(&m[k]),
        None => None,
    }
}

/// The archive paths of the documents the spine lists, in reading order.
pub fn spine_paths(opf: &OpfData, base: &str) -> (r: Vec<String>)
    ensures
        strs(r@) == spine_path_list(strs(opf.spine@), items_view(opf.manifest@), base@),
{
    let ghost sp = strs(opf.spine@);
    let html = chars_of("html");
    let mut out: Vec<String> = Vec::new();
    let mut i: usize = 0;
    assert(strs(out@) =~= spine_path_list(sp.take(0), items_view(opf.manifest@), base@));
    while i < opf.spine.len()
        invariant
            i <= opf.spine@.len(),
            sp == strs(opf.spine@),
            html@ == "html"@,
            strs(out@) == spine_path_list(sp.take(i as int), items_view(opf.manifest@), base@),
        decreases opf.spine@.len() - i,
    {
        assert(sp.take(i + 1).drop_last() =~= sp.take(i as int));
        let id = chars_of(opf.spine[i].as_str());
        match lookup_exec(&opf.manifest, &id) {
            Some(it) => {
                let mt = chars_of(it.media_type.as_str());
                if find_pat(&mt, &html, 0).is_some() {
                    let path = zip_path(base, percent_decode(it.href.as_str()).as_str());
                    let ghost before = strs(out@);
                    out.push(path);
                    assert(strs(out@) =~= before.push(path@));
                }
            },
            None => {},
        }
        i += 1;
    }
    assert(sp.take(opf.spine@.len() as int) =~= sp);
    out
}

/// Whether `w` is one of the whitespace-separated words of `s`.
pub open spec fn has_word(s: Seq<char>, w: Seq<char>) -> bool {
    exists|i: int|
        #![trigger match_at(s, i, w)]
        match_at(s, i, w) && (i == 0 || is_ws(s[i - 1])) && (i + w.len() == s.len() || is_ws(
            s[i + w.len()],
        ))
}

fn has_word_exec(s: &Vec<char>, w: &Vec<char>) -> (r: bool)
    requires
        w@.len() > 0,
    ensures
        r == has_word(s@, w@),
{
    let mut i: usize = 0;
    while i < s.len()
        invariant
            i <= s@.len(),
            w@.len() > 0,
            forall|k: int|
                0 <= k < i ==> !(#[trigger] match_at(s@, k, w@) && (k == 0 || is_ws(s@[k - 1])) && (k + w@.len()
                    == s@.len() || is_ws(s@[k + w@.len()]))),
        decreases s@.len() - i,
    {
        if matches_at(s, i, w) {
            let before_ok = i == 0 || crate::text::is_whitespace(s[i - 1]);
            let after_ok = i + w.len() == s.len() || crate::text::is_whitespace(s[i + w.len()]);
            if before_ok && after_ok {
                return true;
            }
        }
        i += 1;
    }
    false
}

/// Whether an item is a table of contents: an NCX file or a navigation
/// document.
pub open spec fn is_toc_item(it: SpecItem) -> bool {
    contains_text(it.2, "ncx"@) || has_word(it.3, "nav"@)
}

/// The first table-of-contents item of the manifest from `i` on.
pub open spec fn first_toc_item(m: Seq<SpecItem>, i: int) -> Option<SpecItem>
    decreases m.len() - i,
{
    if i < 0 || i >= m.len() {
        None
    } else if is_toc_item(m[i]) {
        Some(m[i])
    } else {
        first_toc_item(m, i + 1)
    }
}

/// The table of contents of a package: the item its spine names, else the
/// first NCX or navigation item of the manifest.
pub open spec fn toc_item_spec(m: Seq<SpecItem>, toc_id: Option<Seq<char>>) -> Option<SpecItem> {
    match toc_id {
        Some(id) => match lookup_item(m, id) {
            Some(it) => Some(it),
            None => first_toc_item(m, 0),
        },
        None => first_toc_item(m, 0),
    }
}

/// The table-of-contents item of a package.
pub fn toc_item(opf: &OpfData) -> (r: Option<&ManifestItem>)
    ensures
        match r {
            Some(it) => toc_item_spec(items_view(opf.manifest@), opt_chars(opf.toc_id)) == Some(item_view(*it)),
            None => toc_item_spec(items_view(opf.manifest@), opt_chars(opf.toc_id)) is None,
        },
{
    match &opf.toc_id {
        Some(id) => {
            let idc = chars_of(id.as_str());
            match lookup_exec(&opf.manifest, &idc) {
                Some(it) => {
                    return Some(it);
                },
                None => {},
            }
        },
        None => {},
    }
    let ghost m = items_view(opf.manifest@);
    assert(toc_item_spec(m, opt_chars(opf.toc_id)) == first_toc_item(m, 0));
    let ncx = chars_of("ncx");
    let nav = chars_of("nav");
    proof {
        reveal_strlit("nav");
    }
    let mut i: usize = 0;
    while i < opf.manifest.len()
        invariant
            i <= opf.manifest@.len(),
            m == items_view(opf.manifest@),
            toc_item_spec(m, opt_chars(opf.toc_id)) == first_toc_item(m, 0),
            ncx@ == "ncx"@,
            nav@ == "nav"@,
            nav@.len() == 3,
            first_toc_item(m, 0) == first_toc_item(m, i as int),
        decreases opf.manifest@.len() - i,
    {
        let it = &opf.manifest[i];
        assert(m[i as int] == item_view(*it));
        let mt = chars_of(it.media_type.as_str());
        let props = chars_of(it.properties.as_str());
        if find_pat(&mt, &ncx, 0).is_some() || has_word_exec(&props, &nav) {
            return Some(it);
        }
        i += 1;
    }
    None
}

/// The first index of `p` in `paths`.
pub open spec fn position_of(paths: Seq<Seq<char>>, p: Seq<char>, i: int) -> Option<int>
    decreases paths.len() - i,
{
    if i < 0 || i >= paths.len() {
        None
    } else if paths[i] == p {
        Some(i)
    } else {
        position_of(paths, p, i + 1)
    }
}

pub proof fn lemma_position_of(paths: Seq<Seq<char>>, p: Seq<char>, i: int)
    requires
        0 <= i,
    ensures
        position_of(paths, p, i) matches Some(k) ==> i <= k < paths.len(),
    decreases paths.len() - i,
{
    if i < paths.len() && paths[i] != p {
        lemma_position_of(paths, p, i + 1);
    }
}

/// Where the chapters of the table of contents start in the spine: each
/// entry whose path is in the spine, kept only when it starts after the
/// chapter before it.
pub open spec fn toc_starts_spec(toc: Seq<(Seq<char>, Seq<char>)>, paths: Seq<Seq<char>>) -> Seq<(int, Seq<char>)>
    decreases toc.len(),
{
    if toc.len() == 0 {
        Seq::empty()
    } else {
        let prev = toc_starts_spec(toc.drop_last(), paths);
        match position_of(paths, toc.last().1, 0) {
            None => prev,
            Some(k) => if prev.len() > 0 && k <= prev.last().0 {
                prev
            } else {
                prev.push((k, toc.last().0))
            },
        }
    }
}

/// The chapter starts lie in the spine, in strictly increasing order.
pub proof fn law_toc_starts_increase(toc: Seq<(Seq<char>, Seq<char>)>, paths: Seq<Seq<char>>)
    ensures
        forall|i: int|
            0 <= i < toc_starts_spec(toc, paths).len() ==> 0 <= #[trigger] toc_starts_spec(toc, paths)[i].0
                < paths.len(),
        forall|i: int, j: int|
            0 <= i < j < toc_starts_spec(toc, paths).len() ==> #[trigger] toc_starts_spec(toc, paths)[i].0
                < #[trigger] toc_starts_spec(toc, paths)[j].0,
    decreases toc.len(),
{
    if toc.len() > 0 {
        let prev = toc_starts_spec(toc.drop_last(), paths);
        law_toc_starts_increase(toc.drop_last(), paths);
        lemma_position_of(paths, toc.last().1, 0);
        match position_of(paths, toc.last().1, 0) {
            None => {},
            Some(k) => {
                if !(prev.len() > 0 && k <= prev.last().0) {
                    let r = prev.push((k, toc.last().0));
                    assert(r == toc_starts_spec(toc, paths));
                    assert forall|i: int, j: int| 0 <= i < j < r.len() implies r[i].0 < r[j].0 by {
                        if j == r.len() - 1 && i < prev.len() - 1 {
                            assert(prev[i].0 < prev[prev.len() - 1].0);
                        }
                    }
                }
            },
        }
    }
}

/// Where each table-of-contents chapter starts in the spine, and its title.
pub fn toc_starts(toc: &Vec<TocEntry>, spine_paths: &Vec<String>) -> (r: Vec<(usize, String)>)
    ensures
        r@.len() == toc_starts_spec(tocs_view(toc@), strs(spine_paths@)).len(),
        forall|i: int|
            0 <= i < r@.len() ==> (#[trigger] r@[i]).0 as int == toc_starts_spec(tocs_view(toc@), strs(spine_paths@))[i].0
                && r@[i].1@ == toc_starts_spec(tocs_view(toc@), strs(spine_paths@))[i].1,
{
    let ghost t = tocs_view(toc@);
    let ghost ps = strs(spine_paths@);
    let mut out: Vec<(usize, String)> = Vec::new();
    let mut i: usize = 0;
    while i < toc.len()
        invariant
            i <= toc@.len(),
            t == tocs_view(toc@),
            ps == strs(spine_paths@),
            out@.len() == toc_starts_spec(t.take(i as int), ps).len(),
            forall|k: int|
                0 <= k < out@.len() ==> (#[trigger] out@[k]).0 as int == toc_starts_spec(t.take(i as int), ps)[k].0
                    && out@[k].1@ == toc_starts_spec(t.take(i as int), ps)[k].1,
        decreases toc@.len() - i,
    {
        assert(t.take(i + 1).drop_last() =~= t.take(i as int));
        let entry = &toc[i];
        let path = chars_of(entry.path.as_str());
        let mut j: usize = 0;
        let mut found: Option<usize> = None;
        while j < spine_paths.len()
            invariant
                j <= spine_paths@.len(),
                ps == strs(spine_paths@),
                match found {
                    None => position_of(ps, path@, 0) == position_of(ps, path@, j as int),
                    Some(k) => position_of(ps, path@, 0) == Some(k as int),
                },
            decreases spine_paths@.len() - j,
        {
            if found.is_none() {
                let sp = chars_of(spine_paths[j].as_str());
                if chars_eq(&sp, &path) {
                    found = Some(j);
                }
            }
            j += 1;
        }
        proof {
            lemma_position_of(ps, path@, 0);
        }
        match found {
            None => {},
            Some(k) => {
                assert(position_of(ps, path@, 0) == Some(k as int));
                let n = out.len();
                if !(n > 0 && k <= out[n - 1].0) {
                    out.push((k, entry.title.clone()));
                }
            },
        }
        i += 1;
    }
    assert(t.take(toc@.len() as int) =~= t);
    out
}

/// Images and text of the body of an EPUB document: one step of the
/// rendering. Text is kept; `<br>` is a newline; a paragraph, division or
/// heading after some text starts a new paragraph; an `<img>` or `<image>`
/// with a link (`src`, `href` or `xlink:href`, the first present) that is not
/// a `data:` URL adds the link and the marker `【图片N】`, N counting from
/// `offset + 1` across the book.
pub open spec fn body_step(acc: (Seq<char>, Seq<Seq<char>>), n: SpecHtmlNode, offset: nat) -> (
    Seq<char>,
    Seq<Seq<char>>,
) {
    let (out, hrefs) = acc;
    match n {
        SpecHtmlNode::Text(t) => (out + t, hrefs),
        SpecHtmlNode::Element(name, attrs) => if name == "br"@ {
            (out.push('\n'), hrefs)
        } else if (name == "p"@ || name == "div"@ || name == "h1"@ || name == "h2"@ || name == "h3"@
            || name == "h4"@) && out.len() > 0 {
            (out + "\n\n"@, hrefs)
        } else if name == "img"@ || name == "image"@ {
            match first_present(attrs) {
                Some(h) => if starts_with(h, "data:"@) {
                    acc
                } else {
                    (out + "【图片"@ + decimal(offset + hrefs.len() + 1) + "】"@, hrefs.push(h))
                },
                None => acc,
            }
        } else {
            acc
        },
        SpecHtmlNode::Other => acc,
    }
}

/// The first attribute value that is present.
pub open spec fn first_present(vals: Seq<Option<Seq<char>>>) -> Option<Seq<char>>
    decreases vals.len(),
{
    if vals.len() == 0 {
        None
    } else if vals[0] is Some {
        vals[0]
    } else {
        first_present(vals.drop_first())
    }
}

pub open spec fn body_fold(ns: Seq<SpecHtmlNode>, offset: nat) -> (Seq<char>, Seq<Seq<char>>)
    decreases ns.len(),
{
    if ns.len() == 0 {
        (Seq::empty(), Seq::empty())
    } else {
        body_step(body_fold(ns.drop_last(), offset), ns.last(), offset)
    }
}

/// The attributes an EPUB image link is read from, in order.
pub open spec fn link_attrs() -> Seq<Seq<char>> {
    seq!["src"@, "href"@, "xlink:href"@]
}

/// The text (trimmed) and image links of an EPUB document: its `<body>`'s
/// inner HTML read again as a fragment; empty when it has no `<body>`.
pub open spec fn epub_body_spec(raw: Seq<char>, offset: nat) -> (Seq<char>, Seq<Seq<char>>) {
    match selected_inner_html(raw, "body"@) {
        Some(hs) => if hs.len() > 0 {
            let (t, h) = body_fold(fragment_nodes(hs[0], link_attrs()), offset);
            (trim(t), h)
        } else {
            (Seq::empty(), Seq::empty())
        },
        None => (Seq::empty(), Seq::empty()),
    }
}

fn first_present_exec(attrs: &Vec<Option<String>>) -> (r: Option<String>)
    ensures
        crate::platform::html::opt_view(r) == first_present(
            attrs@.map_values(|a: Option<String>| crate::platform::html::opt_view(a)),
        ),
{
    let ghost all = attrs@.map_values(|a: Option<String>| crate::platform::html::opt_view(a));
    let mut k: usize = 0;
    assert(all.subrange(0, all.len() as int) =~= all);
    while k < attrs.len()
        invariant
            k <= attrs@.len(),
            all == attrs@.map_values(|a: Option<String>| crate::platform::html::opt_view(a)),
            first_present(all) == first_present(all.subrange(k as int, all.len() as int)),
        decreases attrs@.len() - k,
    {
        assert(all.subrange(k as int, all.len() as int).drop_first() =~= all.subrange(k + 1, all.len() as int));
        match &attrs[k] {
            Some(v) => {
                return Some(v.clone());
            },
            None => {},
        }
        k += 1;
    }
    None
}

/// The text of the body of an EPUB document, with `【图片N】` markers, and the
/// links of its images; `image_offset` images came before it in the book.
pub fn epub_body_content(raw: &str, image_offset: usize) -> (r: (String, Vec<String>))
    ensures
        r.0@ == epub_body_spec(raw@, image_offset as nat).0,
        strs(r.1@) == epub_body_spec(raw@, image_offset as nat).1,
{
    let mut names: Vec<String> = Vec::new();
    names.push(String::from_str("src"));
    names.push(String::from_str("href"));
    names.push(String::from_str("xlink:href"));
    assert(strs(names@) =~= link_attrs());
    let inners = match select_inner_html(raw, "body") {
        Some(v) => v,
        None => {
            return (String::new(), Vec::new());
        },
    };
    if inners.len() == 0 {
        return (String::new(), Vec::new());
    }
    let sub = parse_fragment_nodes(inners[0].as_str(), &names);
    let ghost ns = nodes_view(sub@);
    let from: usize = 0;
    assert(nodes_view(sub@).subrange(from as int, sub@.len() as int) =~= ns);
    let mut out: Vec<char> = Vec::new();
    let mut hrefs: Vec<String> = Vec::new();
    let mut i: usize = from;
    assert(ns.take(0) =~= Seq::<SpecHtmlNode>::empty());
    while i < sub.len()
        invariant
            from <= i <= sub@.len(),
            ns == nodes_view(sub@).subrange(from as int, sub@.len() as int),
            (out@, strs(hrefs@)) == body_fold(ns.take(i - from), image_offset as nat),
        decreases sub@.len() - i,
    {
        assert(ns.take(i - from + 1).drop_last() =~= ns.take(i - from));
        assert(ns.take(i - from + 1).last() == node_view(sub@[i as int]));
        match &sub[i] {
            HtmlNode::Text(t) => {
                let cs = chars_of(t.as_str());
                append_chars(&mut out, &cs);
            },
            HtmlNode::Element(name, attrs) => {
                let nm = chars_of(name.as_str());
                if eq_str(&nm, "br") {
                    out.push('\n');
                } else if (eq_str(&nm, "p") || eq_str(&nm, "div") || eq_str(&nm, "h1") || eq_str(&nm, "h2")
                    || eq_str(&nm, "h3") || eq_str(&nm, "h4")) && out.len() > 0 {
                    let br = chars_of("\n\n");
                    append_chars(&mut out, &br);
                } else if eq_str(&nm, "img") || eq_str(&nm, "image") {
                    match first_present_exec(attrs) {
                        Some(h) => {
                            let hc = chars_of(h.as_str());
                            if !starts_with_str(&hc, "data:") {
                                let number: u128 = image_offset as u128 + hrefs.len() as u128 + 1;
                                let ghost before = strs(hrefs@);
                                let open = chars_of("【图片");
                                append_chars(&mut out, &open);
                                let d = decimal_chars_wide(number);
                                append_chars(&mut out, &d);
                                let close = chars_of("】");
                                append_chars(&mut out, &close);
                                hrefs.push(h);
                                assert(strs(hrefs@) =~= before.push(hc@));
                            }
                        },
                        None => {},
                    }
                }
            },
            HtmlNode::Other => {},
        }
        i += 1;
    }
    assert(ns.take(sub@.len() - from) =~= ns);
    (string_of(trim_chars(&out).as_slice()), hrefs)
}

/// The first heading (`h1` to `h3`) with text of a document, trimmed.
pub open spec fn first_heading(subs: Seq<Seq<SpecHtmlNode>>, i: int) -> Option<Seq<char>>
    decreases subs.len() - i,
{
    if i < 0 || i >= subs.len() {
        None
    } else if trim(subtree_text(subs[i])).len() > 0 {
        Some(trim(subtree_text(subs[i])))
    } else {
        first_heading(subs, i + 1)
    }
}

/// The first line of `ls` that, trimmed, looks like a chapter heading.
pub open spec fn first_heading_line(ls: Seq<Seq<char>>, i: int) -> Option<Seq<char>>
    decreases ls.len() - i,
{
    if i < 0 || i >= ls.len() {
        None
    } else if spec_is_heading(trim(ls[i])) {
        Some(trim(ls[i]))
    } else {
        first_heading_line(ls, i + 1)
    }
}

/// The title of an EPUB document: its first `h1`-`h3` with text, else the
/// first line of its text that looks like a chapter heading.
pub open spec fn html_heading_spec(raw: Seq<char>) -> Option<Seq<char>> {
    let from_tags = match selected_fragment_subtrees(raw, "h1, h2, h3"@, Seq::empty()) {
        Some(subs) => first_heading(subs, 0),
        None => None,
    };
    match from_tags {
        Some(h) => Some(h),
        None => first_heading_line(lines(trim(text_fold(fragment_nodes(raw, Seq::empty())))), 0),
    }
}

/// The title of an EPUB document.
pub fn html_heading(raw: &str) -> (r: Option<String>)
    ensures
        opt_chars(r) == html_heading_spec(raw@),
{
    let no_attrs: Vec<String> = Vec::new();
    assert(strs(no_attrs@) =~= Seq::<Seq<char>>::empty());
    match select_fragment_subtrees(raw, "h1, h2, h3", &no_attrs) {
        Some(subs) => {
            let ghost views = subtrees_view(subs@);
            let mut i: usize = 0;
            while i < subs.len()
                invariant
                    i <= subs@.len(),
                    views == subtrees_view(subs@),
                    selected_fragment_subtrees(raw@, "h1, h2, h3"@, Seq::empty()) == Some(views),
                    first_heading(views, 0) == first_heading(views, i as int),
                decreases subs@.len() - i,
            {
                assert(views[i as int] == nodes_view(subs@[i as int]@));
                let text = text_of(&subs[i]);
                let t = trim_chars(&text);
                if t.len() > 0 {
                    return Some(string_of(t.as_slice()));
                }
                i += 1;
            }
        },
        None => {},
    }
    let text = to_text(raw);
    let cs = chars_of(text.as_str());
    let ls = lines_of(&cs);
    let ghost lv = vviews(ls@);
    assert(html_heading_spec(raw@) == first_heading_line(lv, 0));
    let mut k: usize = 0;
    while k < ls.len()
        invariant
            k <= ls@.len(),
            lv == vviews(ls@),
            html_heading_spec(raw@) == first_heading_line(lv, 0),
            first_heading_line(lv, 0) == first_heading_line(lv, k as int),
        decreases ls@.len() - k,
    {
        let line = trim_chars(&ls[k]);
        if is_heading(&line) {
            return Some(string_of(line.as_slice()));
        }
        k += 1;
    }
    None
}

/// One step of reading MOBI markup: text is kept, `<br>` is a newline, a
/// paragraph or division after some text starts a new paragraph, and the
/// `n`th `<img>` becomes `【图片n】` while there are that many images.
pub open spec fn mobi_step(acc: (Seq<char>, nat), n: SpecHtmlNode, image_count: nat) -> (Seq<char>, nat) {
    let (out, seen) = acc;
    match n {
        SpecHtmlNode::Text(t) => (out + t, seen),
        SpecHtmlNode::Element(name, _) => if name == "br"@ {
            (out.push('\n'), seen)
        } else if (name == "p"@ || name == "div"@) && out.len() > 0 {
            (out + "\n\n"@, seen)
        } else if name == "img"@ {
            if seen + 1 <= image_count {
                (out + "【图片"@ + decimal(seen + 1) + "】"@, seen + 1)
            } else {
                (out, seen + 1)
            }
        } else {
            acc
        },
        SpecHtmlNode::Other => acc,
    }
}

pub open spec fn mobi_fold(ns: Seq<SpecHtmlNode>, image_count: nat) -> (Seq<char>, nat)
    decreases ns.len(),
{
    if ns.len() == 0 {
        (Seq::empty(), 0)
    } else {
        mobi_step(mobi_fold(ns.drop_last(), image_count), ns.last(), image_count)
    }
}

/// The text of a MOBI book's markup, with markers for its first
/// `image_count` images, trimmed.
pub fn mobi_html_to_text(raw: &str, image_count: usize) -> (r: String)
    ensures
        r@ == trim(mobi_fold(fragment_nodes(raw@, Seq::empty()), image_count as nat).0),
{
    let no_attrs: Vec<String> = Vec::new();
    assert(strs(no_attrs@) =~= Seq::<Seq<char>>::empty());
    let ns = parse_fragment_nodes(raw, &no_attrs);
    let ghost nv = nodes_view(ns@);
    let mut out: Vec<char> = Vec::new();
    let mut seen: usize = 0;
    let mut i: usize = 0;
    assert(nv.take(0) =~= Seq::<SpecHtmlNode>::empty());
    while i < ns.len()
        invariant
            i <= ns@.len(),
            nv == nodes_view(ns@),
            seen <= i,
            (out@, seen as nat) == mobi_fold(nv.take(i as int), image_count as nat),
        decreases ns@.len() - i,
    {
        assert(nv.take(i + 1).drop_last() =~= nv.take(i as int));
        assert(nv.take(i + 1).last() == node_view(ns@[i as int]));
        match &ns[i] {
            HtmlNode::Text(t) => {
                let cs = chars_of(t.as_str());
                append_chars(&mut out, &cs);
            },
            HtmlNode::Element(name, _) => {
                let nm = chars_of(name.as_str());
                if eq_str(&nm, "br") {
                    out.push('\n');
                } else if (eq_str(&nm, "p") || eq_str(&nm, "div")) && out.len() > 0 {
                    let br = chars_of("\n\n");
                    append_chars(&mut out, &br);
                } else if eq_str(&nm, "img") {
                    seen += 1;
                    if seen <= image_count {
                        let open = chars_of("【图片");
                        append_chars(&mut out, &open);
                        let d = decimal_chars(seen as u64);
                        append_chars(&mut out, &d);
                        let close = chars_of("】");
                        append_chars(&mut out, &close);
                    }
                }
            },
            HtmlNode::Other => {},
        }
        i += 1;
    }
    assert(nv.take(ns@.len() as int) =~= nv);
    string_of(trim_chars(&out).as_slice())
}

/// Where each table-of-contents chapter runs in the spine: from its start to
/// the next chapter's start, the last one to the end of the spine.
pub open spec fn toc_range(starts: Seq<(int, Seq<char>)>, k: int, spine_len: int) -> (int, int) {
    (starts[k].0, if k + 1 < starts.len() { starts[k + 1].0 } else { spine_len })
}

/// The spine ranges and titles of the table-of-contents chapters.
pub fn toc_ranges(starts: &Vec<(usize, String)>, spine_len: usize) -> (r: Vec<(usize, usize, String)>)
    ensures
        r@.len() == starts@.len(),
        forall|k: int|
            0 <= k < r@.len() ==> {
                &&& (#[trigger] r@[k]).0 == starts@[k].0
                &&& r@[k].1 == if k + 1 < starts@.len() { starts@[k + 1].0 } else { spine_len }
                &&& r@[k].2@ == starts@[k].1@
            },
{
    let mut out: Vec<(usize, usize, String)> = Vec::new();
    let mut k: usize = 0;
    while k < starts.len()
        invariant
            k <= starts@.len(),
            out@.len() == k,
            forall|m: int|
                0 <= m < k ==> {
                    &&& (#[trigger] out@[m]).0 == starts@[m].0
                    &&& out@[m].1 == if m + 1 < starts@.len() { starts@[m + 1].0 } else { spine_len }
                    &&& out@[m].2@ == starts@[m].1@
                },
        decreases starts@.len() - k,
    {
        let end = if k + 1 < starts.len() { starts[k + 1].0 } else { spine_len };
        out.push((starts[k].0, end, starts[k].1.clone()));
        k += 1;
    }
    out
}

} // verus!
