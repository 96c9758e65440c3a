use touch_fish::book::mobi::{mobi_records_fit, read_mobi_parts};
use touch_fish::book::{split_text, Book, Chapter};
use touch_fish::book::mobi::decompress_palmdoc;
use touch_fish::book::mobi::{mobi_text, MobiCompression};
use touch_fish::book::mobi::attach_mobi_images;
use touch_fish::book::mobi::has_readable_text;
use touch_fish::book::mobi::image_extension;
use touch_fish::book::formats::strip_rtf;
use touch_fish::book::formats::{hex, percent_decode};
use touch_fish::book::formats::{parent_dir, zip_path};
use touch_fish::book::formats::{first_xml_attribute, local_name, xml_text};
use touch_fish::book::epub::{parse_ncx, parse_opf, spine_paths, toc_item, toc_starts};
use touch_fish::book::epub::epub_body_content;
use touch_fish::book::epub::{html_heading, mobi_html_to_text};
use touch_fish::book::library::sort_books_by_title;
use touch_fish::book::library::{book_id, hex16};
use touch_fish::book::library::{book_format, book_kind, book_title, default_title, image_file_name, is_hidden_name, is_supported_extension, numbered_chapter_title, BookKind,};
use touch_fish::book::library::ProgressFile;
use touch_fish::book::ReadingPosition;
use touch_fish::book::library::decode_bytes;

#[test]
fn splits_text_into_detected_chapters() {
    let chapters = split_text("第一章 开始\n这是第一段。\n\n第二章 继续\n这是第二段。", "书");
    assert_eq!(chapters.len(), 2);
    assert_eq!(chapters[0].title, "第一章 开始");
    assert!(chapters[1].paragraphs.join("\n\n").contains("第二段"));
}

#[test]
fn plain_text_without_heading_has_a_default_chapter() {
    let chapters = split_text("第一段\n\n第二段", "书名");
    assert_eq!(chapters[0].title, "第一章 · 书名");
    assert_eq!(chapters[0].paragraphs.len(), 2);
}

#[test]
fn position_roundtrips_to_character_counts() {
    let book = Book {
        id: "x".into(),
        path: String::new(),
        title: "书".into(),
        format: "txt".into(),
        error: None,
        chapters: vec![Chapter {
            title: "第一章".into(),
            paragraphs: vec!["abc".into(), "defg".into()],
            images: Vec::new(),
        }],
    };
    assert_eq!(book.read_count(0, 1, 2), 7);
    assert_eq!(book.position_for_offset(0, 7), (1, 2));
}

#[test]
fn split_text_edge_cases() {
    let empty = split_text("", "空");
    assert_eq!(empty.len(), 1);
    assert_eq!(empty[0].paragraphs, vec!["(本书没有可显示的正文)".to_string()]);
    // Text before the first heading becomes a numbered chapter.
    let c = split_text("前言文字\r\nChapter 1\nbody", "t");
    assert_eq!(c.len(), 2);
    assert_eq!(c[0].title, "第 1 章");
    assert_eq!(c[1].title, "Chapter 1");
    assert_eq!(c[1].paragraphs, vec!["body".to_string()]);
    // Blank lines split paragraphs; runs of blank lines count once.
    let d = split_text("序言\na\n\n\n\nb\nc", "t");
    assert_eq!(d[0].title, "序言");
    assert_eq!(d[0].paragraphs, vec!["a".to_string(), "b\nc".to_string()]);
}

#[test]
fn counts_characters() {
    let ch = Chapter { title: "t".into(), paragraphs: vec!["中文".into(), "abc".into()], images: vec![] };
    assert_eq!(ch.char_count(), 7);
    let book = Book { id: String::new(), path: String::new(), title: String::new(), format: String::new(), error: None, chapters: vec![ch.clone(), ch] };
    assert_eq!(book.chapter_count(), 2);
    assert_eq!(book.char_count(), 14);
    assert_eq!(book.read_count(1, 0, 1), 8);
    assert_eq!(book.read_count(1, 5, 0), 7 + 9);
    assert_eq!(book.read_count(9, 0, 0), 14);
    assert_eq!(book.position_for_offset(0, 3), (1, 0));
    assert_eq!(book.position_for_offset(0, 100), (1, 3));
    assert_eq!(book.position_for_offset(5, 1), (0, 0));
}

#[test]
fn decompresses_palmdoc_back_references() {
    assert_eq!(decompress_palmdoc(b"Hello \x80\x32"), b"Hello Hello");
}

#[test]
fn palmdoc_literal_runs_and_space_pairs() {
    assert_eq!(decompress_palmdoc(&[0x02, b'a', b'b', 0xe1]), b"ab a");
    assert_eq!(decompress_palmdoc(&[0x05, b'x']), b"x");
    assert_eq!(decompress_palmdoc(&[b'a', 0x80]), b"a");
    assert_eq!(decompress_palmdoc(&[b'a', 0x80, 0x80]), b"a");
}

#[test]
fn mobi_text_records_are_decoded_and_cut() {
    let records = vec![b"header".to_vec(), b"Hello \x80\x32".to_vec(), b"!!".to_vec(), b"unused".to_vec()];
    assert_eq!(mobi_text(MobiCompression::PalmDoc, &records, 2, 12), "Hello Hello!");
    assert_eq!(mobi_text(MobiCompression::No, &records, 5, 100), "Hello \u{fffd}2!!unused");
}

#[test]
fn mobi_images_are_renumbered_per_chapter() {
    let mut chapters = vec![
        Chapter { title: "一".into(), paragraphs: vec!["看【图片2】和【图片9】".into()], images: Vec::new() },
        Chapter { title: "二".into(), paragraphs: vec!["【图片1】".into(), "【图片x】【图片".into()], images: Vec::new() },
    ];
    attach_mobi_images(&mut chapters, vec!["/a.jpg".into(), "/b.jpg".into()]);
    assert_eq!(chapters[0].paragraphs, vec!["看【图片1】和[图片]".to_string()]);
    assert_eq!(chapters[0].images, vec!["/b.jpg".to_string()]);
    assert_eq!(chapters[1].paragraphs, vec!["【图片1】".to_string(), "[图片]【图片".to_string()]);
    assert_eq!(chapters[1].images, vec!["/a.jpg".to_string()]);
}

#[test]
fn readable_text_needs_twenty_alphanumerics() {
    assert!(has_readable_text("abcdefghij0123456789"));
    assert!(!has_readable_text("abcdefghij012345678 !!"));
    assert!(has_readable_text("这是一本很长很长的电子书正文内容共有二十个字吗是的"));
}

#[test]
fn image_extensions_by_magic() {
    assert_eq!(image_extension(&[0xff, 0xd8, 0xff, 0x00]), Some("jpg"));
    assert_eq!(image_extension(b"\x89PNG\r\n\x1a\nxx"), Some("png"));
    assert_eq!(image_extension(b"GIF89a"), Some("gif"));
    assert_eq!(image_extension(b"BMxx"), Some("bmp"));
    assert_eq!(image_extension(b"RIFF"), None);
}

#[test]
fn strips_rtf_control_words() {
    assert_eq!(strip_rtf("{\\rtf1\\ansi Hello\\par World\\line !}"), "Hello\nWorld\n!");
    assert_eq!(strip_rtf("a\\b-12 c"), "ac");
}

#[test]
fn percent_decodes_links() {
    assert_eq!(percent_decode("a%20b%2Fc%zz%4"), "a b/c%zz%4");
    assert_eq!(percent_decode("%E4%B8%AD"), "中");
    assert_eq!(hex(b'f'), Some(15));
    assert_eq!(hex(b'G'), None);
}

#[test]
fn zip_paths_resolve_dots() {
    assert_eq!(zip_path("OPS/text", "../images/a.jpg#x"), "OPS/images/a.jpg");
    assert_eq!(zip_path("OPS", "./b.xhtml?q=1"), "OPS/b.xhtml");
    assert_eq!(zip_path("OPS", "/root.xhtml"), "root.xhtml");
    assert_eq!(zip_path("", "a\\b.xhtml"), "a/b.xhtml");
    assert_eq!(parent_dir("OPS/content.opf"), "OPS");
    assert_eq!(parent_dir("content.opf"), "");
}

#[test]
fn reads_xml_text_and_attributes() {
    assert_eq!(xml_text("<a><p> one </p><p>two</p></a>", true), "one\n\ntwo\n\n");
    assert_eq!(xml_text("<a><p> one </p><p>two</p></a>", false), "onetwo");
    let container = r#"<container><rootfiles><rootfile full-path="OPS/content.opf"/></rootfiles></container>"#;
    assert_eq!(first_xml_attribute(container, "rootfile", "full-path").as_deref(), Some("OPS/content.opf"));
    assert_eq!(first_xml_attribute(container, "missing", "full-path"), None);
    assert_eq!(local_name(b"dc:title").into_iter().collect::<String>(), "title");
}

#[test]
fn epub_package_pieces_are_read_in_order() {
    let opf = parse_opf(r#"<package><metadata><dc:title>测试书</dc:title></metadata><manifest><item id="a" href="a.xhtml" media-type="application/xhtml+xml"/><item id="b" href="b.xhtml" media-type="application/xhtml+xml"/><item id="ncx" href="toc.ncx" media-type="application/x-dtbncx+xml"/></manifest><spine toc="ncx"><itemref idref="b"/><itemref idref="a"/></spine></package>"#);
    assert_eq!(opf.title, "测试书");
    assert_eq!(opf.spine, vec!["b".to_string(), "a".to_string()]);
    let paths = spine_paths(&opf, "OPS");
    assert_eq!(paths, vec!["OPS/b.xhtml".to_string(), "OPS/a.xhtml".to_string()]);
    let toc = toc_item(&opf).unwrap();
    assert_eq!(toc.href, "toc.ncx");
    let entries = parse_ncx(r#"<ncx><navMap><navPoint><navLabel><text>目录第一章</text></navLabel><content src="b.xhtml"/></navPoint><navPoint><navLabel><text>目录第二章</text></navLabel><content src="a.xhtml"/></navPoint></navMap></ncx>"#, "OPS");
    assert_eq!(entries.len(), 2);
    assert_eq!(entries[0].title, "目录第一章");
    assert_eq!(entries[0].path, "OPS/b.xhtml");
    let starts = toc_starts(&entries, &paths);
    assert_eq!(starts, vec![(0, "目录第一章".to_string()), (1, "目录第二章".to_string())]);
}

#[test]
fn epub_body_ignores_head_styles() {
    let raw = "<html><head><style>@page { margin: 0 }</style></head><body><h1>正文</h1><p>内容</p></body></html>";
    let text = epub_body_content(raw, 0).0;
    assert!(!text.contains("@page"));
    assert!(text.contains("正文"));
    assert!(text.contains("内容"));
}

#[test]
fn epub_body_numbers_images_across_the_book() {
    let (text, hrefs) = epub_body_content("<html><body><p>前面<img src=\"pic.jpg\"/><img src=\"data:x\"/></p></body></html>", 3);
    assert_eq!(text, "前面【图片4】");
    assert_eq!(hrefs, vec!["pic.jpg".to_string()]);
}

#[test]
fn headings_and_mobi_markup() {
    assert_eq!(html_heading("<h2> 第三章 </h2><p>x</p>").as_deref(), Some("第三章"));
    assert_eq!(html_heading("<p>序言</p><p>正文</p>").as_deref(), Some("序言"));
    assert_eq!(html_heading("<p>没有标题</p>"), None);
    assert_eq!(mobi_html_to_text("<p>a</p><img/><br/>b<img/>", 1), "a【图片1】\nb");
}

#[test]
fn books_sort_by_title_ignoring_case() {
    let book = |t: &str| Book {
        id: t.into(),
        path: String::new(),
        title: t.into(),
        format: "txt".into(),
        chapters: Vec::new(),
        error: None,
    };
    let sorted = sort_books_by_title(vec![book("b"), book("A"), book("c"), book("a")]);
    let titles: Vec<String> = sorted.into_iter().map(|b| b.title).collect();
    assert_eq!(titles, vec!["A", "a", "b", "c"]);
}

#[test]
fn book_ids_are_sixteen_hex_digits() {
    assert_eq!(hex16(255), "00000000000000ff");
    let id = book_id("/books/a.txt");
    assert_eq!(id.len(), 16);
    assert!(id.chars().all(|c| c.is_ascii_hexdigit()));
    assert_eq!(id, book_id("/books/a.txt"));
}

#[test]
fn file_kinds_and_names() {
    assert!(is_supported_extension("EPUB"));
    assert!(is_supported_extension("azw3"));
    assert!(!is_supported_extension("exe"));
    assert!(is_hidden_name(".git"));
    assert!(!is_hidden_name("a.txt"));
    assert_eq!(book_format(Some("TXT")), "txt");
    assert_eq!(book_format(None), "未知");
    assert_eq!(book_kind("azw"), BookKind::Mobi);
    assert_eq!(book_kind("htm"), BookKind::Html);
    assert_eq!(book_kind("csv"), BookKind::Text);
    assert_eq!(default_title(None, BookKind::Pdf), "PDF");
    assert_eq!(default_title(Some("书"), BookKind::Pdf), "书");
    assert_eq!(book_title("  ", "文件名"), "文件名");
    assert_eq!(book_title("标题", "文件名"), "标题");
    assert_eq!(image_file_name("OPS/img/pic.JPEG", 7), "007.JPEG");
    assert_eq!(image_file_name("OPS/img/pic.toolong", 12), "012.img");
    assert_eq!(image_file_name("OPS/.hidden", 123), "123.img");
    assert_eq!(numbered_chapter_title(2), "第 2 章");
}

#[test]
fn progress_is_saved_per_book() {
    let mut file = ProgressFile::new();
    file.record("book-a", ReadingPosition { chapter: 3, offset: 99 });
    assert_eq!(file.position("book-a").chapter, 3);
    assert_eq!(file.position("book-b"), ReadingPosition::default());
    file.record("book-a", ReadingPosition { chapter: 4, offset: 1 });
    assert_eq!(file.position("book-a"), ReadingPosition { chapter: 4, offset: 1 });
    assert_eq!(file.books.len(), 1);
}

#[test]
fn decodes_book_bytes() {
    assert_eq!(decode_bytes("\u{feff}中文".as_bytes()), "中文");
    assert_eq!(decode_bytes(&[0xff, 0xfe, b'a', 0]), "a");
    assert_eq!(decode_bytes(&[0xd6, 0xd0, 0xce, 0xc4]), "中文");
}

#[test]
fn different_paths_get_different_ids() {
    let a = book_id("/books/a.txt");
    let b = book_id("/books/b.txt");
    assert_eq!(a.len(), 16);
    assert_ne!(a, b);
}

fn minimal_pdf(text: &str) -> Vec<u8> {
    let stream = format!("BT /F1 12 Tf 72 712 Td ({text}) Tj ET");
    let objects = [
        "<< /Type /Catalog /Pages 2 0 R >>".to_string(),
        "<< /Type /Pages /Kids [3 0 R] /Count 1 >>".to_string(),
        "<< /Type /Page /Parent 2 0 R /MediaBox [0 0 612 792] /Contents 4 0 R /Resources << /Font << /F1 5 0 R >> >> >>".to_string(),
        format!("<< /Length {} >>\nstream\n{}\nendstream", stream.len(), stream),
        "<< /Type /Font /Subtype /Type1 /BaseFont /Helvetica >>".to_string(),
    ];
    let mut out = String::from("%PDF-1.4\n");
    let mut offsets = Vec::new();
    for (i, body) in objects.iter().enumerate() {
        offsets.push(out.len());
        out.push_str(&format!("{} 0 obj\n{}\nendobj\n", i + 1, body));
    }
    let xref = out.len();
    out.push_str(&format!("xref\n0 {}\n0000000000 65535 f \n", objects.len() + 1));
    for offset in offsets {
        out.push_str(&format!("{offset:010} 00000 n \n"));
    }
    out.push_str(&format!("trailer\n<< /Size {} /Root 1 0 R >>\nstartxref\n{xref}\n%%EOF\n", objects.len() + 1));
    out.into_bytes()
}

#[test]
fn pdf_text_becomes_chapters() {
    let text = pdf_extract::extract_text_from_mem(&minimal_pdf("Hello PDF reader")).unwrap();
    let chapters = touch_fish::book::files::pdf_chapters(&text, "PDF");
    let paragraphs: Vec<String> = chapters.iter().flat_map(|c| c.paragraphs.clone()).collect();
    assert!(paragraphs.join("\n").contains("Hello PDF reader"));
}

#[test]
fn unreadable_mobi_is_an_error() {
    let bytes = b"not a mobi file".to_vec();
    match touch_fish::book::mobi::read_mobi_parts(&bytes) {
        Err(e) => assert_eq!(e, "读取 MOBI 文件"),
        Ok(_) => panic!("a text file parsed as MOBI"),
    }
}

fn pdb_with_offsets(offsets: &[u32], total: usize) -> Vec<u8> {
    let mut bytes = vec![0u8; 76];
    bytes[60..64].copy_from_slice(b"BOOK");
    bytes[64..68].copy_from_slice(b"MOBI");
    bytes.extend_from_slice(&(offsets.len() as u16).to_be_bytes());
    for (i, offset) in offsets.iter().enumerate() {
        bytes.extend_from_slice(&offset.to_be_bytes());
        bytes.extend_from_slice(&(i as u32).to_be_bytes());
    }
    bytes.extend_from_slice(&[0, 0]);
    bytes.resize(total.max(bytes.len()), 0);
    bytes
}

#[test]
fn mobi_records_must_lie_within_the_file() {
    assert!(mobi_records_fit(&pdb_with_offsets(&[96, 100], 200)));
    assert!(!mobi_records_fit(&pdb_with_offsets(&[96, 300], 200)));
    assert!(!mobi_records_fit(&pdb_with_offsets(&[96, 100, 250], 200)));
    assert!(mobi_records_fit(&b"short".to_vec()));
    let bad = pdb_with_offsets(&[96, 5000], 200);
    match read_mobi_parts(&bad) {
        Err(e) => assert_eq!(e, "读取 MOBI 文件"),
        Ok(_) => panic!("records past the end were accepted"),
    }
}
