use std::io::{Cursor, Write};
use touch_fish::book::archive::{parse_epub, parse_zip_xml, with_image_paths};
use touch_fish::book::files::{pdf_chapters, text_file_chapters};
use touch_fish::book::library::{make_book, sort_paths, BookKind};
use touch_fish::book::Chapter;

fn zip_of(entries: &[(&str, &[u8])]) -> Vec<u8> {
    let mut w = zip::ZipWriter::new(Cursor::new(Vec::new()));
    for (name, bytes) in entries {
        w.start_file(*name, zip::write::SimpleFileOptions::default()).unwrap();
        w.write_all(bytes).unwrap();
    }
    w.finish().unwrap().into_inner()
}

const CONTAINER: &str = r#"<container><rootfiles><rootfile full-path="OEBPS/content.opf" media-type="application/oebps-package+xml"/></rootfiles></container>"#;

const OPF: &str = r#"<package><metadata><dc:title>书名</dc:title></metadata><manifest><item id="c1" href="ch1.xhtml" media-type="application/xhtml+xml"/><item id="i1" href="img/a.png" media-type="image/png"/></manifest><spine><itemref idref="c1"/></spine></package>"#;

const CH1: &str = r#"<html><head><title>t</title></head><body><h1>标题一</h1><p>第一段</p><img src="img/a.png"/><p>第二段</p></body></html>"#;

#[test]
fn epub_archive_reads_spine_chapter_and_image() {
    let png: &[u8] = b"\x89PNG\r\n\x1a\nrest";
    let archive = zip_of(&[
        ("META-INF/container.xml", CONTAINER.as_bytes()),
        ("OEBPS/content.opf", OPF.as_bytes()),
        ("OEBPS/ch1.xhtml", CH1.as_bytes()),
        ("OEBPS/img/a.png", png),
    ]);
    let book = parse_epub(&archive).unwrap();
    assert_eq!(book.title, "书名");
    assert_eq!(book.chapters.len(), 1);
    assert_eq!(book.chapters[0].title, "标题一");
    assert_eq!(book.chapters[0].paragraphs, vec!["标题一", "第一段【图片1】", "第二段"]);
    assert_eq!(book.chapters[0].images, vec!["001.png"]);
    assert_eq!(book.assets.len(), 1);
    assert_eq!(book.assets[0].0, "001.png");
    assert_eq!(book.assets[0].1, png.to_vec());
}

#[test]
fn epub_archive_errors() {
    assert_eq!(parse_epub(b"not a zip").err().unwrap(), "读取 EPUB 压缩包");
    let no_container = zip_of(&[("OEBPS/content.opf", OPF.as_bytes())]);
    assert_eq!(parse_epub(&no_container).err().unwrap(), "压缩包缺少文件: META-INF/container.xml");
    let no_rootfile = zip_of(&[("META-INF/container.xml", b"<container></container>")]);
    assert_eq!(parse_epub(&no_rootfile).err().unwrap(), "EPUB 缺少 OPF 目录");
    let empty_spine = zip_of(&[
        ("META-INF/container.xml", CONTAINER.as_bytes()),
        ("OEBPS/content.opf", b"<package><manifest></manifest><spine></spine></package>"),
    ]);
    assert_eq!(parse_epub(&empty_spine).err().unwrap(), "EPUB 没有可阅读章节");
    let missing_doc = zip_of(&[
        ("META-INF/container.xml", CONTAINER.as_bytes()),
        ("OEBPS/content.opf", OPF.as_bytes()),
    ]);
    assert_eq!(parse_epub(&missing_doc).err().unwrap(), "EPUB 章节内容为空");
}

#[test]
fn docx_text_is_split_into_chapters() {
    let doc = r#"<w:document><w:body><w:p><w:r><w:t>第一章 开始</w:t></w:r></w:p><w:p><w:r><w:t>正文</w:t></w:r></w:p></w:body></w:document>"#;
    let archive = zip_of(&[("word/document.xml", doc.as_bytes())]);
    let chapters = parse_zip_xml(&archive, "word/document.xml", "文档").unwrap();
    assert_eq!(chapters.len(), 1);
    assert_eq!(chapters[0].title, "第一章 开始");
    assert_eq!(chapters[0].paragraphs, vec!["正文"]);
    assert_eq!(
        parse_zip_xml(&archive, "content.xml", "文档").err().unwrap(),
        "压缩包缺少文件: content.xml"
    );
    assert_eq!(parse_zip_xml(b"plain", "content.xml", "文档").err().unwrap(), "读取压缩电子书");
}

#[test]
fn text_files_become_chapters() {
    let plain = text_file_chapters(BookKind::Text, "第一章 开端\n内容一\n\n内容二".as_bytes(), "书");
    assert_eq!(plain.len(), 1);
    assert_eq!(plain[0].title, "第一章 开端");
    assert_eq!(plain[0].paragraphs, vec!["内容一", "内容二"]);
    let html = text_file_chapters(BookKind::Html, "<p>甲</p><p>乙</p>".as_bytes(), "网页");
    assert_eq!(html[0].title, "第一章 · 网页");
    assert_eq!(html[0].paragraphs, vec!["甲", "乙"]);
}

#[test]
fn pdf_form_feeds_start_paragraphs() {
    let chapters = pdf_chapters("甲\u{c}乙", "PDF");
    assert_eq!(chapters.len(), 1);
    assert_eq!(chapters[0].title, "第一章 · PDF");
    assert_eq!(chapters[0].paragraphs, vec!["甲", "乙"]);
}

#[test]
fn paths_sort_ignoring_case() {
    let sorted = sort_paths(vec!["/b/Z.txt".to_string(), "/b/a.txt".to_string(), "/A/c.txt".to_string()]);
    assert_eq!(sorted, vec!["/A/c.txt", "/b/a.txt", "/b/Z.txt"]);
}

#[test]
fn book_keeps_file_name_when_title_blank_or_read_fails() {
    let ch = Chapter { title: "一".into(), paragraphs: vec!["p".into()], images: vec![] };
    let ok = make_book("id".into(), "/x.epub".into(), "epub".into(), "x".into(), Ok(("  ".into(), vec![ch])));
    assert_eq!(ok.title, "x");
    assert_eq!(ok.chapters.len(), 1);
    assert!(ok.error.is_none());
    let titled = make_book("id".into(), "/x.epub".into(), "epub".into(), "x".into(), Ok(("书".into(), vec![])));
    assert_eq!(titled.title, "书");
    let failed = make_book("id".into(), "/x.epub".into(), "epub".into(), "x".into(), Err("坏了".into()));
    assert_eq!(failed.title, "x");
    assert!(failed.chapters.is_empty());
    assert_eq!(failed.error.as_deref(), Some("坏了"));
}

#[test]
fn image_names_become_stored_paths() {
    let ch = Chapter {
        title: "一".into(),
        paragraphs: vec!["p".into()],
        images: vec!["001.png".into(), String::new(), "002.jpg".into()],
    };
    let stored = vec![
        ("001.png".to_string(), "/old/001.png".to_string()),
        ("002.jpg".to_string(), String::new()),
        ("001.png".to_string(), "/a/001.png".to_string()),
    ];
    let out = with_image_paths(&vec![ch], &stored);
    assert_eq!(out[0].title, "一");
    assert_eq!(out[0].images, vec!["/a/001.png", "", ""]);
}

#[test]
fn epub_manifest_and_spine_are_read_in_order() {
    let archive = zip_of(&[
        ("META-INF/container.xml", br#"<container><rootfiles><rootfile full-path="OPS/content.opf"/></rootfiles></container>"#),
        ("OPS/content.opf", r#"<package><metadata><dc:title>测试书</dc:title></metadata><manifest><item id="a" href="a.xhtml" media-type="application/xhtml+xml"/><item id="b" href="b.xhtml" media-type="application/xhtml+xml"/><item id="ncx" href="toc.ncx" media-type="application/x-dtbncx+xml"/></manifest><spine toc="ncx"><itemref idref="b"/><itemref idref="a"/></spine></package>"#.as_bytes()),
        ("OPS/toc.ncx", r#"<ncx><navMap><navPoint><navLabel><text>目录第一章</text></navLabel><content src="b.xhtml"/></navPoint><navPoint><navLabel><text>目录第二章</text></navLabel><content src="a.xhtml"/></navPoint></navMap></ncx>"#.as_bytes()),
        ("OPS/a.xhtml", "<html><body><h1>第二章</h1><p>后面</p></body></html>".as_bytes()),
        ("OPS/b.xhtml", "<html><body><h1>第一章</h1><p>前面<img src=\"pic.jpg\"/></p></body></html>".as_bytes()),
        ("OPS/pic.jpg", b"fake image"),
    ]);
    let epub = parse_epub(&archive).unwrap();
    assert_eq!(epub.title, "测试书");
    assert_eq!(epub.chapters.len(), 2);
    assert_eq!(epub.chapters[0].title, "目录第一章");
    assert_eq!(epub.chapters[1].title, "目录第二章");
    assert!(epub.chapters[0].paragraphs.join("\n\n").contains("前面"));
    assert!(epub.chapters[0].paragraphs.join("\n\n").contains("【图片1】"));
    assert_eq!(epub.chapters[0].images.len(), 1);
    assert_eq!(epub.chapters[0].images[0], "001.jpg");
    assert_eq!(epub.assets, vec![("001.jpg".to_string(), b"fake image".to_vec())]);
    assert!(epub.chapters[1].paragraphs.join("\n\n").contains("后面"));
}
