use touch_fish::platform::html::{to_text, to_text_and_images};
use touch_fish::platform::zhihu::html::to_text as zhihu_text;

#[test]
fn html_paragraphs_become_blank_line_separated() {
    assert_eq!(to_text("<p>第一段</p><p>第二段</p>"), "第一段\n\n第二段");
}

#[test]
fn html_breaks_and_images() {
    assert_eq!(to_text("行一<br/>行二<img src=\"x\"/>"), "行一\n行二[图片]");
}

#[test]
fn html_strips_other_tags_keeps_text() {
    assert_eq!(to_text("<b>粗</b><a href=\"u\">链接</a>"), "粗链接");
}

#[test]
fn html_handles_real_answer_html_without_panicking() {
    let html = "<p>开头</p><p>中间<b>加粗</b>和<a href=\"https://x\">链接</a></p><figure><img src=\"https://pic\"/></figure><p>结尾</p>";
    let out = to_text(html);
    assert!(out.contains("开头"));
    assert!(out.contains("加粗"));
    assert!(out.contains("[图片]"));
    assert!(out.contains("结尾"));
}

#[test]
fn extracts_image_urls_and_markers() {
    let html = r#"<p>看图</p><img data-original="https://pic1.zhimg.com/a.jpg" src="data:image/svg+xml;base64,xxx"/><p>结束</p>"#;
    let (text, imgs) = to_text_and_images(html);
    assert_eq!(imgs, vec!["https://pic1.zhimg.com/a.jpg".to_string()]);
    assert!(text.contains("【图1】"));
    assert!(text.contains("看图"));
    assert!(text.contains("结束"));
}

#[test]
fn skips_images_without_real_url() {
    let html = r#"<img src="data:image/svg+xml;base64,xxx"/>文字"#;
    let (text, imgs) = to_text_and_images(html);
    assert!(imgs.is_empty());
    assert!(!text.contains("【图"));
    assert!(text.contains("文字"));
}

#[test]
fn falls_back_to_actualsrc_then_src() {
    let html = r#"<img data-actualsrc="https://pic2.zhimg.com/b.jpg"/><img src="https://pic3.zhimg.com/c.png"/>"#;
    let (_t, imgs) = to_text_and_images(html);
    assert_eq!(imgs, vec!["https://pic2.zhimg.com/b.jpg".to_string(), "https://pic3.zhimg.com/c.png".to_string()]);
}

#[test]
fn html_text_and_images_exact_output() {
    let (text, imgs) = to_text_and_images("<p>a</p><img src=\"http://x/1.png\"/><br/><img src=\"https://x/2.png\"/>");
    assert_eq!(text, "a【图1】\n【图2】");
    assert_eq!(imgs, vec!["http://x/1.png".to_string(), "https://x/2.png".to_string()]);
}

#[test]
fn zhihu_html_paragraphs_and_breaks() {
    assert_eq!(zhihu_text("<p>第一段</p><p>第二段</p>"), "第一段\n\n第二段");
    assert_eq!(zhihu_text("行一<br/>行二<img src=\"x\"/>"), "行一\n行二[图片]");
    assert_eq!(zhihu_text("<b>粗</b><a href=\"u\">链接</a>"), "粗链接");
    assert_eq!(zhihu_text("  <p> </p> "), "");
}
