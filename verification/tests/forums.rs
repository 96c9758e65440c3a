use touch_fish::platform::hupu::strip_css_mangle;
use touch_fish::platform::nga::{clean_bbcode, extract_nga_images};
use touch_fish::platform::{hupu, linuxdo, nga, v2ex};

#[test]
fn de_mangle_is_utf8_safe() {
    let s = "中文__abc\"后面__def 结束";
    let out = strip_css_mangle(s);
    assert!(out.contains("中文") && out.contains("后面") && out.contains("结束"));
    assert!(!out.contains("__abc") && !out.contains("__def"));
}

#[test]
fn de_mangle_exact_output() {
    assert_eq!(strip_css_mangle("a__x1_y\"b"), "a\"b");
    assert_eq!(strip_css_mangle("a__x c"), "a c");
    assert_eq!(strip_css_mangle("a__x-c"), "a-c");
    assert_eq!(strip_css_mangle("a_b"), "a_b");
    assert_eq!(strip_css_mangle("end__"), "end");
}

#[test]
fn cleans_nga_bbcode() {
    let out = clean_bbcode("看[b]这里[/b][quote]引用[/quote][s:ac:茶]结束");
    assert!(!out.contains("[b]") && !out.contains("[/quote]") && !out.contains("[s:"));
    assert!(out.contains("看") && out.contains("结束"));
}

#[test]
fn clean_bbcode_exact_output() {
    assert_eq!(clean_bbcode("看[b]这里[/b]结束"), "看这里结束");
    assert_eq!(clean_bbcode("a]b[[c]d]e"), "a]be");
}

#[test]
fn extracts_nga_image_urls() {
    let urls = extract_nga_images("x[img]./mon/aa.jpg[/img]y[img]/bb.png[/img]");
    assert_eq!(urls.len(), 2);
    assert!(urls[0].starts_with("https://img.nga.178.com/attachments/"));
    assert!(urls[0].ends_with("mon/aa.jpg"));
}

#[test]
fn nga_image_urls_exact() {
    let urls = extract_nga_images("[img]https://x/a.png[/img][img]  [/img][img]././//c.gif[/img][img]open");
    assert_eq!(urls, vec![
        "https://x/a.png".to_string(),
        "https://img.nga.178.com/attachments/c.gif".to_string(),
    ]);
}

#[test]
fn nga_list_from_xml() {
    let xml = "<root><__T><item><tid>123</tid><subject> 标题 </subject><replies>5</replies></item><item><subject>无tid</subject></item><item><tid>9</tid><subject><![CDATA[C]]></subject></item></__T></root>";
    let rows = nga::parse_list(xml);
    assert_eq!(rows.len(), 2);
    assert_eq!(rows[0].title, "[5] 标题");
    assert_eq!(rows[0].open_token.as_deref(), Some("/read.php?tid=123"));
    assert_eq!(rows[1].title, "[0] C");
}

#[test]
fn nga_detail_concats_floors() {
    let xml = "<root><item><content>主楼[b]粗[/b][img]./a.jpg[/img]</content></item><item><content>回复</content></item></root>";
    let d = &nga::parse_detail(xml)[0];
    assert_eq!(d.voteup, 2);
    assert_eq!(d.images, vec!["https://img.nga.178.com/attachments/a.jpg".to_string()]);
    assert_eq!(d.body, "主楼粗./a.jpg\n\n── #1 ──\n回复\n【图1】");
}

#[test]
fn nga_links() {
    assert_eq!(nga::nga_tid("/read.php?tid=42&page=2").as_deref(), Some("42"));
    assert_eq!(nga::nga_tid("/read.php?x=1"), None);
    assert_eq!(nga::nga_tid("/read.php?tid=&a"), None);
    assert_eq!(nga::list_url(0), "https://bbs.nga.cn/thread.php?fid=-7&page=1&lite=xml");
    assert_eq!(nga::detail_url("42"), "https://bbs.nga.cn/read.php?tid=42&lite=xml");
}

#[test]
fn decodes_gbk_bytes() {
    let bytes = [0xD6u8, 0xD0, 0xCE, 0xC4];
    assert_eq!(nga::gbk_to_string(&bytes), "中文");
}

#[test]
fn linuxdo_feed_rows_and_topic() {
    let rss = r#"<rss><channel><title>Linux.do</title><item><title>第一帖</title><link>https://linux.do/t/1</link><description><![CDATA[<p>一楼</p>]]></description></item><item><title></title><link>https://linux.do/t/2</link></item></channel></rss>"#;
    let rows = linuxdo::parse_list(rss);
    assert_eq!(rows.len(), 1);
    assert_eq!(rows[0].title, "第一帖");
    assert_eq!(rows[0].open_token.as_deref(), Some("https://linux.do/t/1"));
    let topic = r#"<rss><channel><item><description>&lt;p&gt;回复&lt;/p&gt;</description></item><item><description><![CDATA[<p>主帖</p><p><a href="">阅读完整话题</a></p>]]></description></item></channel></rss>"#;
    let d = &linuxdo::parse_detail(topic)[0];
    assert_eq!(d.voteup, 1);
    assert_eq!(d.body, "主帖\n\n── #1 ──\n回复");
    assert_eq!(linuxdo::clean_desc("a阅读完整话题b"), "ab");
    assert_eq!(linuxdo::detail_url("https://linux.do/t/1//"), "https://linux.do/t/1.rss");
    assert_eq!(linuxdo::detail_url("https://linux.do/t/1.rss"), "https://linux.do/t/1.rss");
    assert!(linuxdo::parse_detail("<rss></rss>")[0].body.is_empty());
}

#[test]
fn v2ex_rows_and_detail() {
    let html = r##"<html><body><div id="Main"><div class="box"><div class="cell item"><a class="topic-link" href="/t/1#reply3"> 标题一 </a></div><div class="cell item"><a class="topic-link" href="">空</a></div></div></div></body></html>"##;
    let rows = v2ex::parse_list(html);
    assert_eq!(rows.len(), 1);
    assert_eq!(rows[0].title, "标题一");
    assert_eq!(rows[0].open_token.as_deref(), Some("/t/1"));
    let d = v2ex::parse_detail(r#"<html><body><div id="Main"><p>正文</p><img src="https://i/1.png"/></div></body></html>"#);
    assert_eq!(d.body, "正文【图1】");
    assert_eq!(d.images, vec!["https://i/1.png".to_string()]);
    assert_eq!(v2ex::list_url(9), "https://www.v2ex.com/?tab=tech");
    assert_eq!(v2ex::detail_url("/t/1"), "https://www.v2ex.com/t/1");
}

#[test]
fn hupu_rows_and_detail() {
    let html = r#"<html><body><div class="text-list-model"><div class="list-item"><a href="123.html"><span class="t-title"> 标题 </span></a></div><div class="list-item"><a href="/9.html">无标题</a></div></div></body></html>"#;
    let rows = hupu::parse_list(html);
    assert_eq!(rows.len(), 1);
    assert_eq!(rows[0].title, "标题");
    assert_eq!(rows[0].open_token.as_deref(), Some("/123.html"));
    let page = r#"<html><body><div class="index_bbs-post-web-body-left-wrapper__x1">正文</div></body></html>"#;
    assert_eq!(hupu::parse_detail(page).body, "正文");
    assert_eq!(hupu::list_url(8), "https://bbs.hupu.com/all-gambia");
    assert_eq!(hupu::detail_url("/1.html.html"), "https://bbs.hupu.com/1.html");
}
