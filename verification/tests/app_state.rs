use touch_fish::app::state::Screen;
use touch_fish::app::App;
use touch_fish::platform::{DetailView, ListEntry, Platform};
use touch_fish::app::runner::image_path_for_digit;
use touch_fish::app::runner::url_ext;
use touch_fish::ui::{decoy_block, one_line, subtitle_cols, todo_mark, Tone, TodoMark};

fn entry(t: &str) -> ListEntry {
    ListEntry { title: t.into(), subtitle: String::new(), open_token: Some("1".to_string()), detail: None }
}

fn e(title: &str, tok: &str) -> ListEntry {
    ListEntry { title: title.into(), subtitle: String::new(), open_token: Some(tok.into()), detail: None }
}

#[test]
fn starts_at_root() {
    let app = App::new();
    assert_eq!(app.screen(), &Screen::Root);
}

#[test]
fn push_and_back_navigates_the_stack() {
    let mut app = App::new();
    app.push(Screen::List);
    app.push(Screen::Detail);
    assert_eq!(app.screen(), &Screen::Detail);
    app.back();
    assert_eq!(app.screen(), &Screen::List);
    app.back();
    assert_eq!(app.screen(), &Screen::Root);
    app.back(); // must not pop past root
    assert_eq!(app.screen(), &Screen::Root);
}

#[test]
fn list_cursor_moves_within_bounds() {
    let mut app = App::new();
    app.set_list(vec![entry("a"), entry("b"), entry("c")]);
    app.push(Screen::List);
    assert_eq!(app.list_cursor(), 0);
    app.cursor_down();
    app.cursor_down();
    app.cursor_down(); // clamps at 2
    assert_eq!(app.list_cursor(), 2);
    app.cursor_up();
    app.cursor_up();
    app.cursor_up(); // clamps at 0
    assert_eq!(app.list_cursor(), 0);
}

#[test]
fn replace_swaps_top_of_stack() {
    let mut app = App::new();
    app.replace(Screen::Login);
    assert_eq!(app.screen(), &Screen::Login);
    // replace does not grow the stack: back from a replaced root stays put
    app.back();
    assert_eq!(app.screen(), &Screen::Login);
}

#[test]
fn default_platform_is_zhihu() {
    let app = App::new();
    assert_eq!(app.active_platform, Platform::Zhihu);
}

#[test]
fn extend_list_deduped_appends_only_fresh() {
    let mut app = App::new();
    app.apply_list_deduped(vec![e("a", "1"), e("b", "2")]);
    app.list_cursor = 1;
    // Load-more with one seen ("2") + two new ("3","4"): list grows, cursor kept.
    app.extend_list_deduped(vec![e("b2", "2"), e("c", "3"), e("d", "4")]);
    assert_eq!(app.list.len(), 4, "two fresh appended, seen dropped");
    assert_eq!(app.list[2].title, "c");
    assert_eq!(app.list[3].title, "d");
    assert_eq!(app.list_cursor, 1, "cursor must not move on append");
}

#[test]
fn recommend_dedup_skips_seen_rows() {
    let mut app = App::new();
    app.apply_list_deduped(vec![e("a", "1"), e("b", "2")]);
    assert_eq!(app.list.len(), 2);
    // Refresh: q:2 already seen → dropped; q:3 is new → shown (replaces list).
    app.apply_list_deduped(vec![e("b-again", "2"), e("c", "3")]);
    assert_eq!(app.list.len(), 1);
    assert_eq!(app.list[0].title, "c");
    // Refresh returning only seen rows → keep current list, don't blank it.
    app.apply_list_deduped(vec![e("a", "1")]);
    assert_eq!(app.list.len(), 1);
    assert_eq!(app.list[0].title, "c");
}

#[test]
fn dedup_keys_prefer_answer_then_token_then_title() {
    let mut app = App::new();
    let with_answer = ListEntry {
        title: "t".into(),
        subtitle: String::new(),
        open_token: Some("9".into()),
        detail: Some(DetailView { author: String::new(), voteup: 0, body: String::new(), images: vec![], answer_id: "77".into() }),
    };
    let no_token = ListEntry { title: "only-title".into(), subtitle: String::new(), open_token: None, detail: None };
    app.apply_list_deduped(vec![with_answer, no_token]);
    assert_eq!(app.seen, vec!["a:77".to_string(), "t:only-title".to_string()]);
    // Same question id, different answer: the q-key was never recorded, so it is fresh.
    app.apply_list_deduped(vec![e("same q", "9")]);
    assert_eq!(app.list.len(), 1);
    assert_eq!(app.seen.len(), 3);
    // Duplicates inside one batch are dropped too.
    app.apply_list_deduped(vec![e("x", "5"), e("x again", "5")]);
    assert_eq!(app.list.len(), 1);
}

#[test]
fn switching_platform_clears_list_and_memory() {
    let mut app = App::new();
    app.apply_list_deduped(vec![e("a", "1")]);
    app.switch_platform(Platform::Zhihu);
    assert_eq!(app.list.len(), 1, "same platform keeps everything");
    app.switch_platform(Platform::Nga);
    assert!(app.list.is_empty());
    assert!(app.seen.is_empty());
    assert_eq!(app.active_platform, Platform::Nga);
    app.apply_list_deduped(vec![e("a", "1")]);
    assert_eq!(app.list.len(), 1, "a new platform starts clean");
}

#[test]
fn stream_list_placeholders_and_entry_growth() {
    let mut app = App::new();
    app.prepare_stream_list(2);
    assert_eq!(app.list.len(), 2);
    assert_eq!(app.list[0].title, "加载中...");
    app.set_list_entry(4, e("late", "x"));
    assert_eq!(app.list.len(), 5);
    assert_eq!(app.list[3].title, "加载中...");
    assert_eq!(app.list[4].title, "late");
    app.set_list_entry(0, e("first", "y"));
    assert_eq!(app.list[0].title, "first");
    assert_eq!(app.list.len(), 5);
}

#[test]
fn root_picker_moves_within_the_platforms() {
    let mut app = App::new();
    app.root_cursor_up();
    assert_eq!(app.picked_platform(), Platform::Zhihu);
    for _ in 0..10 {
        app.root_cursor_down();
    }
    assert_eq!(app.root_cursor, 5);
    assert_eq!(app.picked_platform(), Platform::Tieba);
    assert_eq!(Platform::ALL.len(), 6);
    assert_eq!(Platform::ALL[3], Platform::Nga);
}

#[test]
fn platform_labels_and_cookie_needs() {
    assert_eq!(Platform::Zhihu.label(), "知乎");
    assert_eq!(Platform::LinuxDo.label(), "Linux.do");
    assert!(Platform::Nga.needs_cookie());
    assert!(!Platform::V2ex.needs_cookie());
    assert!(!Platform::Hupu.needs_cookie());
    assert!(Platform::Tieba.needs_cookie());
}

#[test]
fn selection_and_detail_accessors() {
    let mut app = App::new();
    assert!(app.selected_entry().is_none());
    assert!(app.current_detail().is_none());
    app.set_list(vec![entry("a"), entry("b")]);
    app.cursor_down();
    assert_eq!(app.selected_entry().map(|e| e.title.as_str()), Some("b"));
    app.replace_list(vec![entry("z")]);
    assert_eq!(app.list_cursor(), 0);
}

#[test]
fn image_path_for_digit_returns_correct_path() {
    let mut app = App::new();
    app.image_paths = vec!["/c/1.jpg".into(), String::new(), "/c/3.jpg".into()];
    assert_eq!(image_path_for_digit(&app, '1'), Some("/c/1.jpg".into()));
    assert_eq!(image_path_for_digit(&app, '2'), None);
    assert_eq!(image_path_for_digit(&app, '3'), Some("/c/3.jpg".into()));
    assert_eq!(image_path_for_digit(&app, '4'), None);
    assert_eq!(image_path_for_digit(&app, '0'), None);
    assert_eq!(image_path_for_digit(&app, 'x'), None);
}

#[test]
fn image_extensions_from_urls() {
    assert_eq!(url_ext("https://pic1.zhimg.com/v2-abc_720w.JPG?source=1"), "jpg");
    assert_eq!(url_ext("https://x/a.webp#frag"), "webp");
    assert_eq!(url_ext("https://x/a.jpeg5"), "jpg");
    assert_eq!(url_ext("https://x/noext"), "jpg");
}

#[test]
fn one_line_clips_to_columns() {
    assert_eq!(one_line("hello world", 5), "hello…");
    assert_eq!(one_line("中文字", 4), "中文…");
    assert_eq!(one_line("a\nb", 10), "a…");
    assert_eq!(one_line("abc", 3), "abc");
    assert_eq!(todo_mark(1, 2), TodoMark::Done);
    assert_eq!(todo_mark(2, 2), TodoMark::Current);
    assert_eq!(todo_mark(3, 2), TodoMark::Pending);
    assert_eq!(subtitle_cols(100), 90);
    assert_eq!(subtitle_cols(15), 20);
    let block = decoy_block(7);
    assert_eq!(block.len(), 1);
    assert_eq!(block[0][1].text, "Changes look consistent. Committing:");
    let diff = decoy_block(6);
    assert_eq!(diff[2][0].text.chars().count(), 64);
    assert_eq!(diff[2][0].tone, Tone::Removed);
}

#[test]
fn reapplying_the_same_batch_keeps_the_list() {
    let mut app = App::new();
    app.apply_list_deduped(vec![e("a", "1"), e("b", "2"), e("c", "3")]);
    app.cursor_down();
    app.apply_list_deduped(vec![e("a", "1"), e("b", "2"), e("c", "3")]);
    assert_eq!(app.list.len(), 3);
    assert_eq!(app.list[2].title, "c");
    assert_eq!(app.list_cursor(), 1);
}

#[test]
fn stack_never_empties() {
    let mut app = App::new();
    app.back();
    assert_eq!(app.screen(), &Screen::Root);
    app.push(Screen::List);
    app.replace(Screen::Detail);
    assert_eq!(app.stack.len(), 2);
    app.back();
    app.back();
    assert_eq!(app.stack.len(), 1);
    assert_eq!(app.screen(), &Screen::Root);
}
