use touch_fish::platform::zhihu::client::{question_id_from_url, strip_em, urlencode};
use touch_fish::platform::zhihu::cookie::field;
use touch_fish::platform::zhihu::sign::build_sign_input;
use touch_fish::platform::zhihu::client::{answer_views, answers_path, comment_views, cookie_d_c0, hot_entries, search_entries, search_path,};
use touch_fish::platform::zhihu::model::{Answer, AnswerFeed, AnswersResponse, Author, Comment, CommentAuthor, CommentResponse, Highlight, HotItem, HotListResponse, HotTarget, LinkArea, SearchItem, SearchObject, SearchQuestion, SearchResponse, TextArea,};

#[test]
fn extracts_question_id_from_url() {
    assert_eq!(question_id_from_url("https://www.zhihu.com/question/659652777").as_deref(), Some("659652777"));
    assert_eq!(question_id_from_url("https://www.zhihu.com/p/12345"), None);
}

#[test]
fn strips_em_tags() {
    assert_eq!(strip_em("有没有<em>程序员</em>"), "有没有程序员");
}

#[test]
fn extracts_field_value() {
    let c = "_xsrf=foo; d_c0=\"AB12|169\"; z_c0=bar";
    assert_eq!(field(c, "d_c0").as_deref(), Some("AB12|169"));
    assert_eq!(field(c, "z_c0").as_deref(), Some("bar"));
}

#[test]
fn missing_field_is_none() {
    assert_eq!(field("a=1; b=2", "d_c0"), None);
}

#[test]
fn value_containing_equals_is_preserved() {
    let c = "d_c0=AFCSc2wb_RmPTtdAxKxyQyok=|1739262461; z_c0=x";
    assert_eq!(field(c, "d_c0").as_deref(), Some("AFCSc2wb_RmPTtdAxKxyQyok=|1739262461"));
}

#[test]
fn builds_sign_input() {
    let got = build_sign_input("/api/v3/feed/topstory/hot-lists/total?limit=50&desktop=true", "AB12");
    assert_eq!(got, "101_3_3.0+/api/v3/feed/topstory/hot-lists/total?limit=50&desktop=true+AB12");
}

#[test]
fn cookie_field_first_match_and_key_trimming() {
    assert_eq!(field(" a = 1 ; a=2", "a").as_deref(), Some("1"));
    assert_eq!(field("novalue; k=\"\"v\"\"", "k").as_deref(), Some("v"));
    assert_eq!(field("", "k"), None);
}

#[test]
fn question_id_takes_leading_digits_only() {
    assert_eq!(question_id_from_url("https://www.zhihu.com/question/123/answer/456").as_deref(), Some("123"));
    assert_eq!(question_id_from_url("https://www.zhihu.com/question/abc"), None);
}

#[test]
fn urlencode_keeps_unreserved_and_escapes_the_rest() {
    assert_eq!(urlencode("a-Z_0.~"), "a-Z_0.~");
    assert_eq!(urlencode("a b/c"), "a%20b%2Fc");
    assert_eq!(urlencode("程"), "%E7%A8%8B");
}

#[test]
fn strip_em_removes_nested_leftovers_in_order() {
    assert_eq!(strip_em("<em></em>x</em>"), "x");
    assert_eq!(strip_em("no tags"), "no tags");
}

#[test]
fn maps_zhihu_replies_to_rows() {
    let hot = HotListResponse {
        data: vec![
            HotItem {
                target: HotTarget {
                    title_area: TextArea { text: "热榜".into() },
                    excerpt_area: TextArea { text: "摘要".into() },
                    link: LinkArea { url: "https://www.zhihu.com/question/42".into() },
                },
            },
            HotItem { target: HotTarget::default() },
        ],
    };
    let rows = hot_entries(&hot);
    assert_eq!(rows.len(), 1);
    assert_eq!(rows[0].subtitle, "摘要");
    assert_eq!(rows[0].open_token.as_deref(), Some("42"));

    let search = SearchResponse {
        data: vec![
            SearchItem {
                kind: "search_result".into(),
                highlight: Some(Highlight { title: "<em>Rust</em> 问题".into() }),
                object: Some(SearchObject {
                    kind: "answer".into(),
                    title: "t".into(),
                    question: Some(SearchQuestion { id: "7".into(), name: "名".into() }),
                }),
            },
            SearchItem { kind: "hot_timing".into(), highlight: None, object: None },
        ],
    };
    let rows = search_entries(&search);
    assert_eq!(rows.len(), 1);
    assert_eq!(rows[0].title, "Rust 问题");
    assert_eq!(rows[0].open_token.as_deref(), Some("7"));

    let answers = AnswersResponse {
        data: vec![AnswerFeed {
            target: Answer {
                id: "9".into(),
                content: "<p>一</p><p>二<img src=\"https://pic1.zhimg.com/a.jpg\"/></p>".into(),
                voteup_count: 3,
                author: Author { name: "作者".into() },
            },
        }],
    };
    let views = answer_views(&answers);
    assert_eq!(views[0].body, "一\n\n二【图1】");
    assert_eq!(views[0].images, vec!["https://pic1.zhimg.com/a.jpg".to_string()]);
    assert_eq!(views[0].answer_id, "9");
    let comments = CommentResponse {
        data: vec![Comment {
            id: "c".into(),
            content: "好<br/>的".into(),
            like_count: 2,
            child_comment_count: 1,
            author: CommentAuthor { name: "甲".into() },
        }],
    };
    let cs = comment_views(&comments);
    assert_eq!(cs[0].body, "好\n的");
    assert_eq!(cs[0].like_count, 2);
    assert_eq!(search_path("a b"), "/api/v4/search_v3?t=general&q=a%20b&offset=0&limit=20");
    assert!(answers_path("5").starts_with("/api/v4/questions/5/feeds"));
    assert_eq!(cookie_d_c0("a=1; d_c0=xyz").unwrap(), "xyz");
    assert!(cookie_d_c0("a=1").is_err());
}
