use touch_fish::book::library::sort_paths;
use touch_fish::book::mobi::decompress_palmdoc;
use touch_fish::platform::zhihu::sign::checked_signature;
use touch_fish::platform::stock::sina_text;
use touch_fish::platform::tieba::mobile_url;
use touch_fish::platform::zhihu::client::hot_list_api_path;
use touch_fish::platform::{cookie_prompt_entry, Platform};
use touch_fish::ui::{camouflaged_body, BodyLine};

#[test]
fn camouflage_puts_a_decoy_after_each_paragraph() {
    let lines = camouflaged_body("a\n\nb\n\n\nc");
    assert_eq!(
        lines,
        vec![
            BodyLine::Text("a".into()),
            BodyLine::Blank,
            BodyLine::Decoy(0),
            BodyLine::Blank,
            BodyLine::Text("b".into()),
            BodyLine::Blank,
            BodyLine::Decoy(1),
            BodyLine::Blank,
            BodyLine::Text("c".into()),
        ]
    );
    assert_eq!(camouflaged_body("\n\nx"), vec![BodyLine::Text("x".into())]);
}

#[test]
fn tieba_threads_are_read_from_the_mobile_page() {
    assert_eq!(
        mobile_url("https://tieba.baidu.com/p/123?pn=2"),
        "https://tieba.baidu.com/mo/q/m?kz=123&word=&has_received=1"
    );
    assert_eq!(mobile_url("https://tieba.baidu.com/p/"), "https://tieba.baidu.com/p/");
    assert_eq!(mobile_url("https://example.com/x"), "https://example.com/x");
}

#[test]
fn forums_without_cookie_show_a_prompt_row() {
    let e = cookie_prompt_entry(Platform::Nga);
    assert_eq!(e.title, "NGA 未配置 cookie(回车去配置)");
    assert!(e.open_token.is_none());
    assert_eq!(cookie_prompt_entry(Platform::Tieba).title, "贴吧 未配置 cookie(回车去配置)");
}

#[test]
fn sina_feed_is_decoded_from_gbk() {
    assert_eq!(sina_text(&[0xD6, 0xD0, 0xCE, 0xC4]), "中文");
}

#[test]
fn hot_list_path_asks_for_fifty() {
    assert_eq!(hot_list_api_path(), "/api/v3/feed/topstory/hot-lists/total?limit=50&desktop=true");
}

#[test]
fn signatures_must_carry_the_version_prefix() {
    assert_eq!(checked_signature("2.0_abc".into()), Ok("2.0_abc".to_string()));
    assert_eq!(
        checked_signature("1.0_x".into()),
        Err("unexpected signature format: expected '2.0_' prefix, got: 1.0_x".to_string())
    );
}

#[test]
fn plain_records_decode_to_themselves() {
    let plain = b"hello\tworld\n0123 ~".to_vec();
    assert_eq!(decompress_palmdoc(&plain), plain);
}

#[test]
fn mobi_images_are_named_by_their_bytes() {
    assert_eq!(touch_fish::book::mobi::mobi_image_name(3, b"\x89PNG\r\n\x1a\nxx"), "3.png");
    assert_eq!(touch_fish::book::mobi::mobi_image_name(12, b"??"), "12.img");
}

#[test]
fn downloaded_images_are_numbered_with_two_digits() {
    assert_eq!(touch_fish::app::runner::cached_image_name(3, "https://pic/a.PNG?x=1"), "03.png");
    assert_eq!(touch_fish::app::runner::cached_image_name(12, "https://pic/b"), "12.jpg");
}

#[test]
fn equal_titles_keep_their_order() {
    let sorted = sort_paths(vec!["B".to_string(), "a2".to_string(), "b".to_string(), "A2".to_string()]);
    assert_eq!(sorted, vec!["a2", "A2", "B", "b"]);
}

#[test]
fn mobi_text_becomes_chapters_with_their_images() {
    let raw = "<p>第一章 开始</p><p>这是第一段内容这是第一段内容这是第一段</p><img src=\"x\"/>";
    let chapters = touch_fish::book::mobi::mobi_chapters(raw, vec!["/x/1.jpg".to_string()], "书").unwrap();
    assert_eq!(chapters.len(), 1);
    assert_eq!(chapters[0].title, "第一章 开始");
    assert_eq!(chapters[0].paragraphs, vec!["这是第一段内容这是第一段内容这是第一段【图片1】"]);
    assert_eq!(chapters[0].images, vec!["/x/1.jpg"]);
    assert!(touch_fish::book::mobi::mobi_chapters("<p>短</p>", vec![], "书").is_none());
}
