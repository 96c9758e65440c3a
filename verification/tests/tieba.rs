use touch_fish::platform::tieba::{
    absolutize, detail_url, forum_name, parse_detail, parse_list, thread_title, FeedItem,
    HotMessageData, HotMessageResponse,
};

fn item(title: &str, fname: &str, thread_id: &str, detail_url: &str) -> FeedItem {
    FeedItem {
        title: title.into(),
        fname: fname.into(),
        thread_id: thread_id.into(),
        detail_url: detail_url.into(),
        ..FeedItem::default()
    }
}

#[test]
fn parses_tieba_list() {
    let resp = HotMessageResponse {
        no: 0,
        error: String::new(),
        data: HotMessageData {
            info: vec![
                item("今天也要努力", "Rust吧", "123", "https://tieba.baidu.com/p/123"),
                item("  ", "空标题吧", "456", "https://tieba.baidu.com/p/456"),
            ],
        },
    };
    let rows = parse_list(&resp).unwrap();
    assert_eq!(rows.len(), 1);
    assert_eq!(rows[0].title, "《Rust吧》- 今天也要努力");
    assert_eq!(rows[0].open_token.as_deref(), Some("https://tieba.baidu.com/p/123"));
}

#[test]
fn parse_list_bubbles_api_error() {
    let resp = HotMessageResponse { no: 1, error: "not logined!".into(), data: HotMessageData::default() };
    let err = parse_list(&resp).unwrap_err();
    assert!(err.contains("not logined"));
}

#[test]
fn parse_list_error_without_message_names_the_code() {
    let resp = HotMessageResponse { no: -3, error: String::new(), data: HotMessageData::default() };
    assert_eq!(parse_list(&resp).unwrap_err(), "贴吧首页推送接口返回异常: no=-3");
}

#[test]
fn parses_tieba_detail_and_falls_back() {
    let html = r#"
        <html><body>
          <div class="i"><p>主楼正文</p><img src="https://img/a.jpg" /></div>
          <div class="i"><p>回复一</p></div>
        </body></html>
        "#;
    let dv = parse_detail(html, "https://tieba.baidu.com/p/123");
    assert!(dv.body.contains("主楼正文"));
    assert!(dv.body.contains("回复一"));
    assert_eq!(dv.images.len(), 1);

    let fallback = parse_detail("<html></html>", "https://tieba.baidu.com/p/123");
    assert!(fallback.body.contains("贴吧原帖链接"));
}

#[test]
fn tieba_detail_exact_body() {
    let html = r#"<html><body><div class="i">一<img src="https://img/a.jpg"/></div><div class="i">二</div></body></html>"#;
    let dv = parse_detail(html, "t");
    assert_eq!(dv.body, "一【图1】\n\n── #2 ──\n二");
    assert_eq!(dv.images, vec!["https://img/a.jpg".to_string()]);
    assert_eq!(dv.answer_id, "t");
}

#[test]
fn feed_item_fallbacks() {
    let it = FeedItem {
        summary: " 摘要 ".into(),
        forumname: "吧名".into(),
        tid: "789".into(),
        ..FeedItem::default()
    };
    assert_eq!(forum_name(&it), "吧名");
    assert_eq!(thread_title(&it), "摘要");
    assert_eq!(detail_url(&it), "https://tieba.baidu.com/p/789");
    assert_eq!(absolutize("/p/1"), "https://tieba.baidu.com/p/1");
    assert_eq!(absolutize("p/1"), "https://tieba.baidu.com/p/1");
    assert_eq!(absolutize("https://x/y"), "https://x/y");
}
