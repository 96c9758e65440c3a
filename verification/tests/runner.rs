use touch_fish::app::command::Command;
use touch_fish::app::runner::{
    apply_update, dispatch_command, handle_key, open_selection, request_images, Effect, Key, Request, Update,
};
use touch_fish::app::state::Screen;
use touch_fish::app::{App, ListSource};
use touch_fish::platform::{DetailView, ListEntry};

fn entry(title: &str, qid: Option<&str>) -> ListEntry {
    ListEntry { title: title.into(), subtitle: String::new(), open_token: qid.map(|s| s.to_string()), detail: None }
}

fn detail(body: &str, images: Vec<String>, answer_id: &str) -> DetailView {
    DetailView { author: "a".into(), voteup: 1, body: body.into(), images, answer_id: answer_id.into() }
}

#[test]
fn boss_key_toggles_boss_mode() {
    let mut app = App::new();
    assert!(!app.boss_mode);
    handle_key(&mut app, Key::Char('`'));
    assert!(app.boss_mode, "backtick should enable boss mode");
    handle_key(&mut app, Key::Char('`'));
    assert!(!app.boss_mode, "backtick again should disable it");
    handle_key(&mut app, Key::Char('·'));
    assert!(app.boss_mode, "Chinese-IME middle dot should enable boss mode");
    handle_key(&mut app, Key::Char('·'));
    assert!(!app.boss_mode, "middle dot again should disable it");
}

#[test]
fn c_key_toggles_camouflage_on_detail() {
    let mut app = App::new();
    app.details = vec![detail("b", vec![], "9")];
    app.push(Screen::Detail);
    assert!(app.camouflage, "camouflage on by default");
    handle_key(&mut app, Key::Char('c'));
    assert!(!app.camouflage, "c should toggle camouflage off");
    handle_key(&mut app, Key::Char('c'));
    assert!(app.camouflage, "c again should toggle it back on");
}

#[test]
fn boss_mode_swallows_other_keys() {
    let mut app = App::new();
    app.boss_mode = true;
    let eff = handle_key(&mut app, Key::Char('q'));
    assert!(!app.should_quit, "q must be swallowed while hidden");
    assert!(app.command.is_empty(), "typing must be swallowed while hidden");
    assert!(eff.is_empty());
}

#[test]
fn dispatch_zhihu_with_cookie_requests_recommend() {
    let mut app = App::new();
    app.cookie = "x".into();
    let eff = dispatch_command(&mut app, Command::Zhihu);
    assert_eq!(eff, vec![Effect::Send(Request::Recommend)]);
    assert_eq!(app.list_source, ListSource::Recommend);
}

#[test]
fn dispatch_hot_with_cookie_requests_hotlist() {
    let mut app = App::new();
    app.cookie = "x".into();
    let eff = dispatch_command(&mut app, Command::Hot);
    assert_eq!(eff, vec![Effect::Send(Request::HotList)]);
    assert_eq!(app.list_source, ListSource::Hot);
}

#[test]
fn dispatch_zhihu_without_cookie_goes_to_login() {
    let mut app = App::new();
    let eff = dispatch_command(&mut app, Command::Zhihu);
    assert_eq!(app.screen(), &Screen::Login);
    assert!(eff.is_empty(), "nothing should have been sent");
}

#[test]
fn dispatch_search_sends_search_request() {
    let mut app = App::new();
    let eff = dispatch_command(&mut app, Command::Search("rust".into()));
    assert_eq!(eff, vec![Effect::Send(Request::Search("rust".into()))]);
}

#[test]
fn dispatch_quit_sets_should_quit() {
    let mut app = App::new();
    dispatch_command(&mut app, Command::Quit);
    assert!(app.should_quit);
}

#[test]
fn dispatch_unknown_sets_error() {
    let mut app = App::new();
    dispatch_command(&mut app, Command::Unknown("/foo".into()));
    assert!(app.error.is_some(), "expected an error message to be set");
}

#[test]
fn typing_a_command_then_enter_dispatches() {
    let mut app = App::new();
    app.cookie = "x".into();
    for c in "/zhihu".chars() {
        handle_key(&mut app, Key::Char(c));
    }
    let eff = handle_key(&mut app, Key::Enter);
    assert_eq!(eff, vec![Effect::Send(Request::Recommend)]);
    assert!(app.command.is_empty(), "command buffer should be cleared after dispatch");
}

#[test]
fn typing_hot_command_dispatches_hotlist() {
    let mut app = App::new();
    app.cookie = "x".into();
    for c in "/hot".chars() {
        handle_key(&mut app, Key::Char(c));
    }
    let eff = handle_key(&mut app, Key::Enter);
    assert_eq!(eff, vec![Effect::Send(Request::HotList)]);
    assert!(app.command.is_empty());
}

#[test]
fn r_key_on_list_refreshes() {
    let mut app = App::new();
    app.cookie = "x".into();
    app.list_source = ListSource::Recommend;
    app.push(Screen::List);
    let eff = handle_key(&mut app, Key::Char('r'));
    assert_eq!(eff, vec![Effect::Send(Request::Recommend)]);
    assert!(app.loading);
}

#[test]
fn q_on_root_quits_when_not_composing() {
    let mut app = App::new();
    handle_key(&mut app, Key::Char('q'));
    assert!(app.should_quit);
}

#[test]
fn slash_starts_command_buffer() {
    let mut app = App::new();
    handle_key(&mut app, Key::Char('/'));
    assert_eq!(app.command, "/");
    assert!(!app.should_quit);
}

#[test]
fn open_selection_on_list_sends_answers() {
    let mut app = App::new();
    app.set_list(vec![entry("t", Some("123"))]);
    app.push(Screen::List);
    let eff = open_selection(&mut app);
    assert_eq!(eff, vec![Effect::Send(Request::Answers("123".into()))]);
    assert!(app.loading);
}

#[test]
fn apply_list_update_from_login_replaces_to_list() {
    let mut app = App::new();
    app.replace(Screen::Login);
    apply_update(&mut app, Update::List(vec![entry("t", None)]));
    assert_eq!(app.screen(), &Screen::List);
    assert_eq!(app.list.len(), 1);
}

#[test]
fn apply_details_update_pushes_detail() {
    let mut app = App::new();
    apply_update(&mut app, Update::Details(vec![detail("b", vec![], "9")]));
    assert_eq!(app.screen(), &Screen::Detail);
    assert!(app.current_detail().is_some());
}

#[test]
fn request_images_sends_fetch_and_clears_stale() {
    let mut app = App::new();
    app.details = vec![detail("b", vec!["https://pic/a.jpg".into()], "42")];
    app.image_paths = vec!["/old.jpg".into()];
    app.image_owner = "old".into();
    let eff = request_images(&mut app);
    assert!(app.image_paths.is_empty(), "stale paths cleared");
    assert!(app.image_owner.is_empty());
    assert_eq!(
        eff,
        vec![Effect::Send(Request::FetchImages {
            answer_id: "42".into(),
            urls: vec!["https://pic/a.jpg".to_string()],
        })]
    );
}

#[test]
fn open_selection_uses_prefetched_detail() {
    let mut app = App::new();
    app.set_list(vec![ListEntry {
        title: "问题标题".into(),
        subtitle: "预览摘要".into(),
        open_token: Some("100".into()),
        detail: Some(DetailView {
            author: "作者".into(),
            voteup: 5,
            body: "预览的正文".into(),
            images: vec![],
            answer_id: "777".into(),
        }),
    }]);
    app.push(Screen::List);
    let eff = open_selection(&mut app);
    assert_eq!(app.screen(), &Screen::Detail);
    assert_eq!(app.current_detail().map(|d| d.body.as_str()), Some("预览的正文"));
    assert_eq!(app.current_detail().map(|d| d.answer_id.as_str()), Some("777"));
    assert!(eff.is_empty(), "prefetched answer must not fetch the question feed");
}

#[test]
fn apply_error_update_sets_error_without_navigating() {
    let mut app = App::new();
    apply_update(&mut app, Update::Error("boom".into()));
    assert_eq!(app.error.as_deref(), Some("boom"));
    assert_eq!(app.screen(), &Screen::Root);
}

#[test]
fn stock_commands_show_and_change_the_watch_list() {
    let mut app = App::new();
    let eff = dispatch_command(&mut app, Command::Stock);
    assert!(app.list_source == ListSource::Stocks && app.loading);
    assert!(matches!(eff.as_slice(), [Effect::Send(Request::Quotes(false))]));
    let eff = dispatch_command(&mut app, Command::AddStock("SPCX".into()));
    assert!(matches!(eff.as_slice(), [Effect::AddWatch(c), Effect::Send(Request::Quotes(false))] if c == "SPCX"));
    let eff = dispatch_command(&mut app, Command::DeleteStock("SPCX".into()));
    assert!(matches!(eff.as_slice(), [Effect::DeleteWatch(c), Effect::Send(Request::Quotes(false))] if c == "SPCX"));
    let eff = dispatch_command(&mut app, Command::Refresh);
    assert!(matches!(eff.as_slice(), [Effect::Send(Request::Quotes(true))]));
}

#[test]
fn start_without_cookie_asks_for_login() {
    let (app, eff) = touch_fish::app::runner::start_app(String::new());
    assert_eq!(app.screen(), &Screen::Login);
    assert!(eff.is_empty() && !app.loading);
    let (app, eff) = touch_fish::app::runner::start_app("z_c0=1".to_string());
    assert_eq!(app.screen(), &Screen::Root);
    assert!(app.loading);
    assert!(matches!(eff.as_slice(), [Effect::Send(Request::Connect(c))] if c == "z_c0=1"));
}

#[test]
fn stock_poll_asks_only_on_the_stock_list() {
    let mut app = App::new();
    assert!(touch_fish::app::runner::stock_poll(&mut app).is_empty());
    app.list_source = ListSource::Stocks;
    let eff = touch_fish::app::runner::stock_poll(&mut app);
    assert!(matches!(eff.as_slice(), [Effect::Send(Request::Quotes(false))]));
    assert!(app.loading);
    assert!(touch_fish::app::runner::stock_poll(&mut app).is_empty());
}
