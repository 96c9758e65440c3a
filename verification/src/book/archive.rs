use vstd::prelude::*;

use crate::book::chapters::{
    all_have_text, chapter_view, chapter_views, numbered_title, paragraphs_from_text, spec_paragraphs,
    spec_split_text, split_text, SpecChapter,
};
use crate::book::epub::{
    contains_text, epub_body_content, epub_body_spec, html_heading, html_heading_spec,
    law_toc_starts_increase, link_path, nav_spec, ncx_fold, opf_spec, parse_nav_document,
    parse_ncx, parse_opf, spine_path_list, spine_paths, toc_item, toc_item_spec, toc_range,
    toc_ranges, toc_starts, toc_starts_spec, tocs_view, SpecItem, TocEntry,
};
use crate::book::formats::{
    first_attr_from, first_xml_attribute, parent_dir, parent_dir_spec, percent_decode, xml_text,
    xml_text_fold, zip_path,
};
use crate::book::library::{
    decode_bytes, decode_bytes_spec, image_file_extension, image_file_name, is_remote_link,
    numbered_chapter_title, pad3,
};
use crate::book::Chapter;
use crate::text::{chars_of, find_pat, starts_with, strs};
use crate::xml::xml_events;
use vstd::string::StringExecFns;

verus! {

/// Whether `zip::ZipArchive` can open the bytes as an archive.
pub uninterp spec fn zip_opens(archive: Seq<u8>) -> bool;

/// What `zip` reads for entry `name` of an archive held in memory: the
/// entry's bytes; `Err(true)` when the archive or the entry cannot be
/// opened; `Err(false)` when reading the entry's contents fails.
pub uninterp spec fn zip_entry_of(archive: Seq<u8>, name: Seq<char>) -> Result<Seq<u8>, bool>;

pub open spec fn entry_view(r: Result<Vec<u8>, bool>) -> Result<Seq<u8>, bool> {
    match r {
        Ok(b) => Ok(b@),
        Err(m) => Err(m),
    }
}

/// `zip::ZipArchive::new` over the bytes, read through a cursor; claims
/// only that the outcome is the one named for these bytes.
#[verifier::external_body]
fn zip_archive_opens(archive: &[u8]) -> (b: bool)
    ensures
        b == zip_opens(archive@),
{
    zip::ZipArchive::new(std::io::Cursor::new(archive)).is_ok()
}

/// `ZipArchive::by_name` then `Read::read_to_end` on one entry of an archive
/// held in memory; claims only that the outcome is the one named for these
/// bytes and this name.
#[verifier::external_body]
fn zip_read_entry(archive: &[u8], name: &str) -> (r: Result<Vec<u8>, bool>)
    ensures
        entry_view(r) == zip_entry_of(archive@, name@),
{
    let mut zip = match zip::ZipArchive::new(std::io::Cursor::new(archive)) {
        Ok(z) => z,
        Err(_) => return Err(true),
    };
    let mut file = match zip.by_name(name) {
        Ok(f) => f,
        Err(_) => return Err(true),
    };
    let mut bytes: Vec<u8> = Vec::new();
    match std::io::Read::read_to_end(&mut file, &mut bytes) {
        Ok(_) => Ok(bytes),
        Err(_) => Err(false),
    }
}

/// The text of an archive entry, or the error the reader reports for it.
pub open spec fn zip_text_spec(archive: Seq<u8>, name: Seq<char>) -> Result<Seq<char>, Seq<char>> {
    match zip_entry_of(archive, name) {
        Ok(b) => Ok(decode_bytes_spec(b)),
        Err(missing) => Err(
            if missing {
                "压缩包缺少文件: "@ + name
            } else {
                "读取压缩文件"@
            },
        ),
    }
}

pub open spec fn text_result(r: Result<String, String>) -> Result<Seq<char>, Seq<char>> {
    match r {
        Ok(s) => Ok(s@),
        Err(e) => Err(e@),
    }
}

/// Reads the text of an archive entry.
pub fn zip_text(archive: &[u8], name: &str) -> (r: Result<String, String>)
    ensures
        text_result(r) == zip_text_spec(archive@, name@),
{
    match zip_read_entry(archive, name) {
        Ok(b) => Ok(decode_bytes(b.as_slice())),
        Err(missing) => {
            if missing {
                Err(String::from_str("压缩包缺少文件: ").concat(name))
            } else {
                Err(String::from_str("读取压缩文件"))
            }
        },
    }
}

/// An image file to be written next to the book: its file name and bytes.
pub open spec fn assets_view(v: Seq<(String, Vec<u8>)>) -> Seq<(Seq<char>, Seq<u8>)> {
    v.map_values(|a: (String, Vec<u8>)| (a.0@, a.1@))
}

/// What one image link of document `doc` yields: the file name the image is
/// stored under and the file to write, or an empty name when the link is
/// remote, names no entry, or its number does not fit.
pub open spec fn doc_image(archive: Seq<u8>, doc: Seq<char>, href: Seq<char>, number: nat) -> (
    Seq<char>,
    Option<(Seq<char>, Seq<u8>)>,
) {
    if starts_with(href, "http://"@) || starts_with(href, "https://"@) {
        (Seq::empty(), None)
    } else {
        let source = link_path(parent_dir_spec(doc), href);
        match zip_entry_of(archive, source) {
            Ok(b) => if number > usize::MAX {
                (Seq::empty(), None)
            } else {
                let name = pad3(number) + "."@ + image_file_extension(source);
                (name, Some((name, b)))
            },
            Err(_) => (Seq::empty(), None),
        }
    }
}

/// The image names and files of a document's image links, numbered from
/// `offset + 1`.
pub open spec fn doc_images(archive: Seq<u8>, doc: Seq<char>, hrefs: Seq<Seq<char>>, offset: nat) -> (
    Seq<Seq<char>>,
    Seq<(Seq<char>, Seq<u8>)>,
)
    decreases hrefs.len(),
{
    if hrefs.len() == 0 {
        (Seq::empty(), Seq::empty())
    } else {
        let prev = doc_images(archive, doc, hrefs.drop_last(), offset);
        let one = doc_image(archive, doc, hrefs.last(), offset + hrefs.len());
        (
            prev.0.push(one.0),
            match one.1 {
                Some(a) => prev.1.push(a),
                None => prev.1,
            },
        )
    }
}

fn extract_images(
    archive: &[u8],
    doc: &str,
    hrefs: &Vec<String>,
    offset: usize,
    assets: &mut Vec<(String, Vec<u8>)>,
) -> (names: Vec<String>)
    ensures
        strs(names@) == doc_images(archive@, doc@, strs(hrefs@), offset as nat).0,
        assets_view(final(assets)@) == assets_view(old(assets)@) + doc_images(
            archive@,
            doc@,
            strs(hrefs@),
            offset as nat,
        ).1,
{
    let ghost hs = strs(hrefs@);
    let base = parent_dir(doc);
    let mut names: Vec<String> = Vec::new();
    let mut i: usize = 0;
    assert(hs.take(0) =~= Seq::<Seq<char>>::empty());
    assert(assets_view(assets@) =~= assets_view(old(assets)@) + Seq::<(Seq<char>, Seq<u8>)>::empty());
    while i < hrefs.len()
        invariant
            i <= hrefs@.len(),
            hs == strs(hrefs@),
            base@ == parent_dir_spec(doc@),
            strs(names@) == doc_images(archive@, doc@, hs.take(i as int), offset as nat).0,
            assets_view(assets@) == assets_view(old(assets)@) + doc_images(
                archive@,
                doc@,
                hs.take(i as int),
                offset as nat,
            ).1,
        decreases hrefs@.len() - i,
    {
        let ghost before_names = strs(names@);
        let ghost before_assets = assets_view(assets@);
        let ghost pre = hs.take(i as int);
        assert(hs.take(i + 1).drop_last() =~= pre);
        assert(hs.take(i + 1).last() == hs[i as int]);
        let h = &hrefs[i];
        let ghost one = doc_image(archive@, doc@, h@, (offset + i + 1) as nat);
        if is_remote_link(h.as_str()) {
            names.push(String::new());
            assert(strs(names@) =~= before_names.push(one.0));
        } else {
            let source = zip_path(base.as_str(), percent_decode(h.as_str()).as_str());
            assert(source@ == link_path(parent_dir_spec(doc@), h@));
            match zip_read_entry(archive, source.as_str()) {
                Ok(bytes) => {
                    match offset.checked_add(i + 1) {
                        Some(number) => {
                            let name = image_file_name(source.as_str(), number as u64);
                            assets.push((name.clone(), bytes));
                            names.push(name);
                            assert(strs(names@) =~= before_names.push(one.0));
                            assert(assets_view(assets@) =~= before_assets.push(one.1->0));
                        },
                        None => {
                            names.push(String::new());
                            assert(strs(names@) =~= before_names.push(one.0));
                        },
                    }
                },
                Err(_) => {
                    names.push(String::new());
                    assert(strs(names@) =~= before_names.push(one.0));
                },
            }
        }
        i += 1;
    }
    assert(hs.take(hrefs@.len() as int) =~= hs);
    names
}

/// Paragraphs, image names and image files gathered from documents so far.
pub struct ContentParts {
    pub paragraphs: Seq<Seq<char>>,
    pub images: Seq<Seq<char>>,
    pub assets: Seq<(Seq<char>, Seq<u8>)>,
}

/// One document's contribution: its body's paragraphs and images (numbered
/// after those already gathered); a document the archive lacks adds nothing.
pub open spec fn content_step(archive: Seq<u8>, acc: ContentParts, path: Seq<char>) -> ContentParts {
    match zip_entry_of(archive, path) {
        Ok(b) => {
            let body = epub_body_spec(decode_bytes_spec(b), acc.images.len());
            let imgs = doc_images(archive, path, body.1, acc.images.len());
            ContentParts {
                paragraphs: acc.paragraphs + spec_paragraphs(body.0),
                images: acc.images + imgs.0,
                assets: acc.assets + imgs.1,
            }
        },
        Err(_) => acc,
    }
}

/// The content of a run of documents, in order.
pub open spec fn content_fold(archive: Seq<u8>, paths: Seq<Seq<char>>) -> ContentParts
    decreases paths.len(),
{
    if paths.len() == 0 {
        ContentParts { paragraphs: Seq::empty(), images: Seq::empty(), assets: Seq::empty() }
    } else {
        content_step(archive, content_fold(archive, paths.drop_last()), paths.last())
    }
}

fn append_strings(dst: &mut Vec<String>, src: Vec<String>)
    ensures
        strs(final(dst)@) == strs(old(dst)@) + strs(src@),
{
    let ghost s0 = strs(src@);
    let ghost d0 = strs(dst@);
    let n = src.len();
    let mut k: usize = 0;
    while k < n
        invariant
            n == src@.len(),
            k <= n,
            s0 == strs(src@),
            strs(dst@) == d0 + s0.take(k as int),
        decreases n - k,
    {
        let ghost before = strs(dst@);
        dst.push(src[k].clone());
        assert(s0.take(k + 1) =~= s0.take(k as int).push(s0[k as int]));
        assert(strs(dst@) =~= before.push(s0[k as int]));
        k += 1;
    }
    assert(s0.take(n as int) =~= s0);
}

/// Reads documents `lo..hi` of the spine.
fn read_content(
    archive: &[u8],
    paths: &Vec<String>,
    lo: usize,
    hi: usize,
    assets: &mut Vec<(String, Vec<u8>)>,
) -> (r: (Vec<String>, Vec<String>))
    requires
        lo <= hi <= paths@.len(),
    ensures
        strs(r.0@) == content_fold(archive@, strs(paths@).subrange(lo as int, hi as int)).paragraphs,
        strs(r.1@) == content_fold(archive@, strs(paths@).subrange(lo as int, hi as int)).images,
        assets_view(final(assets)@) == assets_view(old(assets)@) + content_fold(
            archive@,
            strs(paths@).subrange(lo as int, hi as int),
        ).assets,
{
    let ghost ps = strs(paths@);
    let mut paragraphs: Vec<String> = Vec::new();
    let mut images: Vec<String> = Vec::new();
    let mut j: usize = lo;
    assert(ps.subrange(lo as int, lo as int) =~= Seq::<Seq<char>>::empty());
    assert(assets_view(assets@) =~= assets_view(old(assets)@) + Seq::<(Seq<char>, Seq<u8>)>::empty());
    while j < hi
        invariant
            lo <= j <= hi <= paths@.len(),
            ps == strs(paths@),
            strs(paragraphs@) == content_fold(archive@, ps.subrange(lo as int, j as int)).paragraphs,
            strs(images@) == content_fold(archive@, ps.subrange(lo as int, j as int)).images,
            assets_view(assets@) == assets_view(old(assets)@) + content_fold(
                archive@,
                ps.subrange(lo as int, j as int),
            ).assets,
        decreases hi - j,
    {
        let ghost pre = ps.subrange(lo as int, j as int);
        let ghost acc = content_fold(archive@, pre);
        assert(ps.subrange(lo as int, j + 1).drop_last() =~= pre);
        assert(ps.subrange(lo as int, j + 1).last() == ps[j as int]);
        let path = &paths[j];
        match zip_read_entry(archive, path.as_str()) {
            Ok(bytes) => {
                let raw = decode_bytes(bytes.as_slice());
                let offset = images.len();
                let (text, hrefs) = epub_body_content(raw.as_str(), offset);
                let ps_new = paragraphs_from_text(text.as_str());
                append_strings(&mut paragraphs, ps_new);
                let ghost before_assets = assets_view(assets@);
                let names = extract_images(archive, path.as_str(), &hrefs, offset, assets);
                append_strings(&mut images, names);
                assert(assets_view(assets@) =~= assets_view(old(assets)@) + content_fold(
                    archive@,
                    ps.subrange(lo as int, j + 1),
                ).assets);
            },
            Err(_) => {},
        }
        j += 1;
    }
    (paragraphs, images)
}

/// Chapters and image files of the first `k` table-of-contents chapters:
/// each reads the spine documents of its range, and is kept when it has
/// text.
pub open spec fn toc_chapters(archive: Seq<u8>, spine: Seq<Seq<char>>, starts: Seq<(int, Seq<char>)>, k: int) -> (
    Seq<SpecChapter>,
    Seq<(Seq<char>, Seq<u8>)>,
)
    decreases k,
{
    if k <= 0 {
        (Seq::empty(), Seq::empty())
    } else {
        let prev = toc_chapters(archive, spine, starts, k - 1);
        let range = toc_range(starts, k - 1, spine.len() as int);
        let parts = content_fold(archive, spine.subrange(range.0, range.1));
        (
            if parts.paragraphs.len() > 0 {
                prev.0.push(
                    SpecChapter {
                        title: starts[k - 1].1,
                        paragraphs: parts.paragraphs,
                        images: parts.images,
                    },
                )
            } else {
                prev.0
            },
            prev.1 + parts.assets,
        )
    }
}

/// One spine document as a chapter of its own, kept when it has text and
/// titled by its first heading or its number.
pub open spec fn spine_step(
    archive: Seq<u8>,
    acc: (Seq<SpecChapter>, Seq<(Seq<char>, Seq<u8>)>),
    path: Seq<char>,
) -> (Seq<SpecChapter>, Seq<(Seq<char>, Seq<u8>)>) {
    match zip_entry_of(archive, path) {
        Ok(b) => {
            let raw = decode_bytes_spec(b);
            let body = epub_body_spec(raw, 0);
            let ps = spec_paragraphs(body.0);
            if ps.len() == 0 {
                acc
            } else {
                let imgs = doc_images(archive, path, body.1, 0);
                let title = match html_heading_spec(raw) {
                    Some(t) => t,
                    None => numbered_title(acc.0.len() + 1),
                };
                (acc.0.push(SpecChapter { title, paragraphs: ps, images: imgs.0 }), acc.1 + imgs.1)
            }
        },
        Err(_) => acc,
    }
}

pub open spec fn spine_chapters(archive: Seq<u8>, paths: Seq<Seq<char>>) -> (
    Seq<SpecChapter>,
    Seq<(Seq<char>, Seq<u8>)>,
)
    decreases paths.len(),
{
    if paths.len() == 0 {
        (Seq::empty(), Seq::empty())
    } else {
        spine_step(archive, spine_chapters(archive, paths.drop_last()), paths.last())
    }
}

fn chapters_from_spine(archive: &[u8], paths: &Vec<String>, assets: &mut Vec<(String, Vec<u8>)>) -> (r: Vec<
    Chapter,
>)
    ensures
        chapter_views(r@) == spine_chapters(archive@, strs(paths@)).0,
        assets_view(final(assets)@) == assets_view(old(assets)@) + spine_chapters(archive@, strs(paths@)).1,
{
    let ghost ps = strs(paths@);
    let mut chapters: Vec<Chapter> = Vec::new();
    let mut i: usize = 0;
    assert(ps.take(0) =~= Seq::<Seq<char>>::empty());
    assert(chapter_views(chapters@) =~= Seq::<SpecChapter>::empty());
    assert(assets_view(assets@) =~= assets_view(old(assets)@) + Seq::<(Seq<char>, Seq<u8>)>::empty());
    while i < paths.len()
        invariant
            i <= paths@.len(),
            ps == strs(paths@),
            chapters@.len() <= i,
            chapter_views(chapters@) == spine_chapters(archive@, ps.take(i as int)).0,
            assets_view(assets@) == assets_view(old(assets)@) + spine_chapters(archive@, ps.take(i as int)).1,
        decreases paths@.len() - i,
    {
        let ghost pre = ps.take(i as int);
        assert(ps.take(i + 1).drop_last() =~= pre);
        assert(ps.take(i + 1).last() == ps[i as int]);
        let ghost before = chapter_views(chapters@);
        let path = &paths[i];
        match zip_read_entry(archive, path.as_str()) {
            Ok(bytes) => {
                let raw = decode_bytes(bytes.as_slice());
                let (text, hrefs) = epub_body_content(raw.as_str(), 0);
                let paragraphs = paragraphs_from_text(text.as_str());
                if paragraphs.len() > 0 {
                    let images = extract_images(archive, path.as_str(), &hrefs, 0, assets);
                    let title = match html_heading(raw.as_str()) {
                        Some(t) => t,
                        None => numbered_chapter_title(chapters.len() + 1),
                    };
                    let c = Chapter { title, paragraphs, images };
                    assert(chapter_view(c).title == match html_heading_spec(raw@) {
                        Some(t) => t,
                        None => numbered_title(before.len() + 1),
                    });
                    chapters.push(c);
                    assert(chapter_views(chapters@) =~= before.push(chapter_view(c)));
                    assert(assets_view(assets@) =~= assets_view(old(assets)@) + spine_chapters(
                        archive@,
                        ps.take(i + 1),
                    ).1);
                }
            },
            Err(_) => {},
        }
        i += 1;
    }
    assert(ps.take(paths@.len() as int) =~= ps);
    chapters
}

fn chapters_from_toc(
    archive: &[u8],
    paths: &Vec<String>,
    starts: &Vec<(usize, String)>,
    Ghost(st): Ghost<Seq<(int, Seq<char>)>>,
    assets: &mut Vec<(String, Vec<u8>)>,
) -> (r: Vec<Chapter>)
    requires
        st.len() == starts@.len(),
        forall|i: int| 0 <= i < st.len() ==> (#[trigger] st[i]).0 == starts@[i].0 as int && st[i].1 == starts@[i].1@,
        forall|i: int| 0 <= i < st.len() ==> 0 <= #[trigger] st[i].0 < paths@.len(),
        forall|i: int, j: int| 0 <= i < j < st.len() ==> #[trigger] st[i].0 < #[trigger] st[j].0,
    ensures
        chapter_views(r@) == toc_chapters(archive@, strs(paths@), st, st.len() as int).0,
        assets_view(final(assets)@) == assets_view(old(assets)@) + toc_chapters(
            archive@,
            strs(paths@),
            st,
            st.len() as int,
        ).1,
{
    let ghost ps = strs(paths@);
    let n = paths.len();
    let ranges = toc_ranges(starts, n);
    let mut chapters: Vec<Chapter> = Vec::new();
    let mut k: usize = 0;
    assert(chapter_views(chapters@) =~= Seq::<SpecChapter>::empty());
    assert(assets_view(assets@) =~= assets_view(old(assets)@) + Seq::<(Seq<char>, Seq<u8>)>::empty());
    while k < ranges.len()
        invariant
            k <= ranges@.len(),
            ranges@.len() == starts@.len(),
            st.len() == starts@.len(),
            n == paths@.len(),
            ps == strs(paths@),
            forall|m: int| 0 <= m < st.len() ==> (#[trigger] st[m]).0 == starts@[m].0 as int && st[m].1 == starts@[m].1@,
            forall|m: int| 0 <= m < st.len() ==> 0 <= #[trigger] st[m].0 < paths@.len(),
            forall|m: int, j: int| 0 <= m < j < st.len() ==> #[trigger] st[m].0 < #[trigger] st[j].0,
            forall|m: int|
                0 <= m < ranges@.len() ==> {
                    &&& (#[trigger] ranges@[m]).0 == starts@[m].0
                    &&& ranges@[m].1 == if m + 1 < starts@.len() { starts@[m + 1].0 } else { n }
                    &&& ranges@[m].2@ == starts@[m].1@
                },
            chapter_views(chapters@) == toc_chapters(archive@, ps, st, k as int).0,
            assets_view(assets@) == assets_view(old(assets)@) + toc_chapters(archive@, ps, st, k as int).1,
        decreases ranges@.len() - k,
    {
        let lo = ranges[k].0;
        let hi = ranges[k].1;
        assert(st[k as int].0 == lo as int);
        assert(st[k as int].0 < paths@.len());
        if k + 1 < starts.len() {
            assert(st[k as int].0 < st[k + 1].0);
            assert(st[k + 1].0 == starts@[k + 1].0 as int);
        }
        assert(lo <= hi <= paths@.len());
        assert(toc_range(st, k as int, ps.len() as int) == (lo as int, hi as int));
        let ghost before = chapter_views(chapters@);
        let ghost before_assets = assets_view(assets@);
        let (paragraphs, images) = read_content(archive, paths, lo, hi, assets);
        if paragraphs.len() > 0 {
            let c = Chapter { title: ranges[k].2.clone(), paragraphs, images };
            chapters.push(c);
            assert(chapter_views(chapters@) =~= before.push(chapter_view(c)));
        }
        assert(assets_view(assets@) =~= assets_view(old(assets)@) + toc_chapters(archive@, ps, st, k + 1).1);
        k += 1;
    }
    chapters
}

/// The table-of-contents entries of the book: read from the navigation item
/// (NCX or XHTML navigation document), none when it is missing.
pub open spec fn toc_entries_spec(archive: Seq<u8>, item: Option<SpecItem>, opf_base: Seq<char>) -> Seq<
    (Seq<char>, Seq<char>),
> {
    match item {
        None => Seq::empty(),
        Some(it) => {
            let p = link_path(opf_base, it.1);
            match zip_entry_of(archive, p) {
                Ok(b) => {
                    let raw = decode_bytes_spec(b);
                    if contains_text(it.2, "ncx"@) {
                        ncx_fold(xml_events(raw, true), parent_dir_spec(p)).entries
                    } else {
                        nav_spec(raw, parent_dir_spec(p))
                    }
                },
                Err(_) => Seq::empty(),
            }
        },
    }
}

/// An EPUB read from its archive: its title, its chapters, and the image
/// files its chapters' image names refer to.
pub struct EpubBook {
    pub title: String,
    pub chapters: Vec<Chapter>,
    pub assets: Vec<(String, Vec<u8>)>,
}

/// The book an EPUB archive holds, or why it cannot be read. Chapters follow
/// the table of contents when it names spine documents, else one chapter per
/// spine document; chapters without text are left out.
pub open spec fn parse_epub_spec(archive: Seq<u8>) -> Result<
    (Seq<char>, Seq<SpecChapter>, Seq<(Seq<char>, Seq<u8>)>),
    Seq<char>,
> {
    if !zip_opens(archive) {
        Err("读取 EPUB 压缩包"@)
    } else {
        match zip_text_spec(archive, "META-INF/container.xml"@) {
            Err(e) => Err(e),
            Ok(container) => match first_attr_from(xml_events(container, true), "rootfile"@, "full-path"@, 0) {
                None => Err("EPUB 缺少 OPF 目录"@),
                Some(opf_path) => match zip_text_spec(archive, opf_path) {
                    Err(e) => Err(e),
                    Ok(opf) => {
                        let pkg = opf_spec(opf);
                        if pkg.spine.len() == 0 {
                            Err("EPUB 没有可阅读章节"@)
                        } else {
                            let base = parent_dir_spec(opf_path);
                            let spine = spine_path_list(pkg.spine, pkg.manifest, base);
                            let toc = toc_entries_spec(archive, toc_item_spec(pkg.manifest, pkg.toc_id), base);
                            let starts = toc_starts_spec(toc, spine);
                            let found = if starts.len() == 0 {
                                spine_chapters(archive, spine)
                            } else {
                                toc_chapters(archive, spine, starts, starts.len() as int)
                            };
                            if found.0.len() == 0 {
                                Err("EPUB 章节内容为空"@)
                            } else {
                                Ok((pkg.title, found.0, found.1))
                            }
                        }
                    },
                },
            },
        }
    }
}

pub open spec fn epub_view(r: Result<EpubBook, String>) -> Result<
    (Seq<char>, Seq<SpecChapter>, Seq<(Seq<char>, Seq<u8>)>),
    Seq<char>,
> {
    match r {
        Ok(b) => Ok((b.title@, chapter_views(b.chapters@), assets_view(b.assets@))),
        Err(e) => Err(e@),
    }
}

fn read_toc(archive: &[u8], item: &crate::book::epub::ManifestItem, opf_base: &str) -> (r: Vec<TocEntry>)
    ensures
        tocs_view(r@) == toc_entries_spec(
            archive@,
            Some((item.id@, item.href@, item.media_type@, item.properties@)),
            opf_base@,
        ),
{
    let p = zip_path(opf_base, percent_decode(item.href.as_str()).as_str());
    match zip_read_entry(archive, p.as_str()) {
        Ok(bytes) => {
            let raw = decode_bytes(bytes.as_slice());
            let base = parent_dir(p.as_str());
            if find_pat(&chars_of(item.media_type.as_str()), &chars_of("ncx"), 0).is_some() {
                parse_ncx(raw.as_str(), base.as_str())
            } else {
                parse_nav_document(raw.as_str(), base.as_str())
            }
        },
        Err(_) => {
            let v: Vec<TocEntry> = Vec::new();
            assert(tocs_view(v@) =~= Seq::<(Seq<char>, Seq<char>)>::empty());
            v
        },
    }
}

/// Reads an EPUB from the bytes of its archive.
pub fn parse_epub(archive: &[u8]) -> (r: Result<EpubBook, String>)
    ensures
        epub_view(r) == parse_epub_spec(archive@),
{
    if !zip_archive_opens(archive) {
        return Err(String::from_str("读取 EPUB 压缩包"));
    }
    let container = match zip_text(archive, "META-INF/container.xml") {
        Ok(c) => c,
        Err(e) => {
            return Err(e);
        },
    };
    let opf_path = match first_xml_attribute(container.as_str(), "rootfile", "full-path") {
        Some(p) => p,
        None => {
            return Err(String::from_str("EPUB 缺少 OPF 目录"));
        },
    };
    let opf = match zip_text(archive, opf_path.as_str()) {
        Ok(o) => o,
        Err(e) => {
            return Err(e);
        },
    };
    let package = parse_opf(opf.as_str());
    if package.spine.len() == 0 {
        return Err(String::from_str("EPUB 没有可阅读章节"));
    }
    let base = parent_dir(opf_path.as_str());
    let spine = spine_paths(&package, base.as_str());
    let toc = match toc_item(&package) {
        Some(item) => read_toc(archive, item, base.as_str()),
        None => {
            let v: Vec<TocEntry> = Vec::new();
            assert(tocs_view(v@) =~= Seq::<(Seq<char>, Seq<char>)>::empty());
            v
        },
    };
    let starts = toc_starts(&toc, &spine);
    let ghost st = toc_starts_spec(tocs_view(toc@), strs(spine@));
    proof {
        law_toc_starts_increase(tocs_view(toc@), strs(spine@));
    }
    let mut assets: Vec<(String, Vec<u8>)> = Vec::new();
    assert(assets_view(assets@) =~= Seq::<(Seq<char>, Seq<u8>)>::empty());
    let chapters = if starts.len() == 0 {
        chapters_from_spine(archive, &spine, &mut assets)
    } else {
        chapters_from_toc(archive, &spine, &starts, Ghost(st), &mut assets)
    };
    if chapters.len() == 0 {
        return Err(String::from_str("EPUB 章节内容为空"));
    }
    Ok(EpubBook { title: package.title, chapters, assets })
}

proof fn lemma_toc_chapters_have_text(archive: Seq<u8>, spine: Seq<Seq<char>>, starts: Seq<(int, Seq<char>)>, k: int)
    ensures
        all_have_text(toc_chapters(archive, spine, starts, k).0),
    decreases k,
{
    if k > 0 {
        lemma_toc_chapters_have_text(archive, spine, starts, k - 1);
    }
}

proof fn lemma_spine_chapters_have_text(archive: Seq<u8>, paths: Seq<Seq<char>>)
    ensures
        all_have_text(spine_chapters(archive, paths).0),
    decreases paths.len(),
{
    if paths.len() > 0 {
        lemma_spine_chapters_have_text(archive, paths.drop_last());
    }
}

/// Every chapter read from an EPUB has text: documents (or table-of-contents
/// ranges) without any are left out.
pub proof fn law_epub_chapters_have_text(archive: Seq<u8>)
    ensures
        parse_epub_spec(archive) matches Ok(book) ==> book.1.len() > 0 && all_have_text(book.1),
{
    lemma_spine_chapters_have_text(archive, Seq::empty());
    if let Ok(container) = zip_text_spec(archive, "META-INF/container.xml"@) {
        if let Some(opf_path) = first_attr_from(xml_events(container, true), "rootfile"@, "full-path"@, 0) {
            if let Ok(opf) = zip_text_spec(archive, opf_path) {
                let pkg = opf_spec(opf);
                let base = parent_dir_spec(opf_path);
                let spine = spine_path_list(pkg.spine, pkg.manifest, base);
                let toc = toc_entries_spec(archive, toc_item_spec(pkg.manifest, pkg.toc_id), base);
                let starts = toc_starts_spec(toc, spine);
                lemma_spine_chapters_have_text(archive, spine);
                lemma_toc_chapters_have_text(archive, spine, starts, starts.len() as int);
            }
        }
    }
}

/// Where an extracted image ended up: the path of the last file stored under
/// its name, or empty when none was.
pub open spec fn stored_path(stored: Seq<(Seq<char>, Seq<char>)>, name: Seq<char>) -> Seq<char>
    decreases stored.len(),
{
    if stored.len() == 0 {
        Seq::empty()
    } else if stored.last().0 == name {
        stored.last().1
    } else {
        stored_path(stored.drop_last(), name)
    }
}

pub open spec fn stored_view(v: Seq<(String, String)>) -> Seq<(Seq<char>, Seq<char>)> {
    v.map_values(|e: (String, String)| (e.0@, e.1@))
}

fn stored_path_exec(stored: &Vec<(String, String)>, name: &String) -> (r: String)
    ensures
        r@ == stored_path(stored_view(stored@), name@),
{
    let ghost sv = stored_view(stored@);
    let mut k = stored.len();
    assert(sv.take(k as int) =~= sv);
    while k > 0
        invariant
            k <= stored@.len(),
            sv == stored_view(stored@),
            stored_path(sv, name@) == stored_path(sv.take(k as int), name@),
        decreases k,
    {
        assert(sv.take(k as int).drop_last() =~= sv.take(k - 1));
        assert(sv.take(k as int).last() == sv[k - 1]);
        if crate::text::chars_eq(&chars_of(stored[k - 1].0.as_str()), &chars_of(name.as_str())) {
            return stored[k - 1].1.clone();
        }
        k -= 1;
    }
    String::new()
}

/// The chapters with each image name replaced by the path its file was
/// stored under (empty when it was not).
pub fn with_image_paths(chapters: &Vec<Chapter>, stored: &Vec<(String, String)>) -> (r: Vec<Chapter>)
    ensures
        r@.len() == chapters@.len(),
        forall|i: int|
            0 <= i < r@.len() ==> {
                &&& (#[trigger] r@[i]).title@ == chapters@[i].title@
                &&& strs(r@[i].paragraphs@) == strs(chapters@[i].paragraphs@)
                &&& strs(r@[i].images@) == strs(chapters@[i].images@).map_values(
                    |n: Seq<char>| stored_path(stored_view(stored@), n),
                )
            },
{
    let ghost sv = stored_view(stored@);
    let mut out: Vec<Chapter> = Vec::new();
    let mut i: usize = 0;
    while i < chapters.len()
        invariant
            i <= chapters@.len(),
            out@.len() == i,
            sv == stored_view(stored@),
            forall|m: int|
                0 <= m < i ==> {
                    &&& (#[trigger] out@[m]).title@ == chapters@[m].title@
                    &&& strs(out@[m].paragraphs@) == strs(chapters@[m].paragraphs@)
                    &&& strs(out@[m].images@) == strs(chapters@[m].images@).map_values(
                        |n: Seq<char>| stored_path(sv, n),
                    )
                },
        decreases chapters@.len() - i,
    {
        let c = &chapters[i];
        let ghost names = strs(c.images@);
        let mut images: Vec<String> = Vec::new();
        let mut j: usize = 0;
        while j < c.images.len()
            invariant
                j <= c.images@.len(),
                names == strs(c.images@),
                sv == stored_view(stored@),
                strs(images@) == names.take(j as int).map_values(|n: Seq<char>| stored_path(sv, n)),
            decreases c.images@.len() - j,
        {
            let ghost before = strs(images@);
            images.push(stored_path_exec(stored, &c.images[j]));
            assert(names.take(j + 1).map_values(|n: Seq<char>| stored_path(sv, n)) =~= names.take(
                j as int,
            ).map_values(|n: Seq<char>| stored_path(sv, n)).push(stored_path(sv, names[j as int])));
            assert(strs(images@) =~= before.push(stored_path(sv, names[j as int])));
            j += 1;
        }
        assert(names.take(c.images@.len() as int) =~= names);
        out.push(Chapter { title: c.title.clone(), paragraphs: crate::text::clone_strings(&c.paragraphs), images });
        i += 1;
    }
    out
}

/// The chapters of a zipped XML document (DOCX, ODT): the text of entry
/// `entry_name`, split into chapters.
pub open spec fn zip_document_spec(archive: Seq<u8>, entry_name: Seq<char>, default_title: Seq<char>) -> Result<
    Seq<SpecChapter>,
    Seq<char>,
> {
    if !zip_opens(archive) {
        Err("读取压缩电子书"@)
    } else {
        match zip_text_spec(archive, entry_name) {
            Err(e) => Err(e),
            Ok(raw) => Ok(spec_split_text(xml_text_fold(xml_events(raw, true), true), default_title)),
        }
    }
}

pub open spec fn chapters_result(r: Result<Vec<Chapter>, String>) -> Result<Seq<SpecChapter>, Seq<char>> {
    match r {
        Ok(c) => Ok(chapter_views(c@)),
        Err(e) => Err(e@),
    }
}

/// Reads a zipped XML document (DOCX, ODT) from the bytes of its archive.
pub fn parse_zip_xml(archive: &[u8], entry_name: &str, default_title: &str) -> (r: Result<Vec<Chapter>, String>)
    ensures
        chapters_result(r) == zip_document_spec(archive@, entry_name@, default_title@),
{
    if !zip_archive_opens(archive) {
        return Err(String::from_str("读取压缩电子书"));
    }
    match zip_text(archive, entry_name) {
        Ok(raw) => {
            let text = xml_text(raw.as_str(), true);
            Ok(split_text(text.as_str(), default_title))
        },
        Err(e) => Err(e),
    }
}

} // verus!
