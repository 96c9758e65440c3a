use vstd::prelude::*;

use super::command::{parse, spec_parse, Command, SpecCommand};
use super::state::Screen;
use super::{after_back, after_push, after_replace, App, ListSource};
use crate::platform::{CommentView, DetailView, ListEntry, Platform};
use crate::text::{clone_strings, pop_char, push_char, strs};
use vstd::string::StringExecFns;

verus! {

/// A request for the network worker.
#[derive(Debug, Clone, PartialEq)]
pub enum Request {
    /// Validate a cookie and load the first feed.
    Connect(String),
    Recommend,
    HotList,
    Search(String),
    /// Answers of a question id.
    Answers(String),
    /// Comments of an answer id.
    Comments(String),
    FetchImages { answer_id: String, urls: Vec<String> },
    /// Quotes of the watched stocks; `true` forces a full refresh.
    Quotes(bool),
}

/// A request as a mathematical value.
pub enum SpecRequest {
    Connect(Seq<char>),
    Recommend,
    HotList,
    Search(Seq<char>),
    Answers(Seq<char>),
    Comments(Seq<char>),
    FetchImages(Seq<char>, Seq<Seq<char>>),
    Quotes(bool),
}

impl View for Request {
    type V = SpecRequest;

    open spec fn view(&self) -> SpecRequest {
        match self {
            Request::Connect(c) => SpecRequest::Connect(c@),
            Request::Recommend => SpecRequest::Recommend,
            Request::HotList => SpecRequest::HotList,
            Request::Search(q) => SpecRequest::Search(q@),
            Request::Answers(q) => SpecRequest::Answers(q@),
            Request::Comments(a) => SpecRequest::Comments(a@),
            Request::FetchImages { answer_id, urls } => SpecRequest::FetchImages(
                answer_id@,
                strs(urls@),
            ),
            Request::Quotes(f) => SpecRequest::Quotes(*f),
        }
    }
}

/// A result coming back from the network worker.
pub enum Update {
    Connected { cookie: String, list: Vec<ListEntry> },
    ConnectFailed(String),
    List(Vec<ListEntry>),
    Details(Vec<DetailView>),
    Comments(Vec<CommentView>),
    ImagesReady { answer_id: String, paths: Vec<String> },
    Error(String),
}

/// A key press, as the state machine sees it.
#[derive(Debug, Clone, Copy, PartialEq, Eq)]
pub enum Key {
    Char(char),
    Backspace,
    Esc,
    Enter,
    Up,
    Down,
    Left,
    Right,
    Tab,
    Other,
}

/// Work the state machine asks its driver to do.
#[derive(Debug, Clone, PartialEq)]
pub enum Effect {
    /// Hand a request to the network worker.
    Send(Request),
    /// Store a validated Zhihu cookie in the configuration file.
    SaveZhihuCookie(String),
    /// Open a downloaded image in the surrounding editor.
    OpenImage(String),
    /// Add a stock code to the stored watch list.
    AddWatch(String),
    /// Remove a stock code from the stored watch list.
    DeleteWatch(String),
}

pub enum SpecEffect {
    Send(SpecRequest),
    SaveZhihuCookie(Seq<char>),
    OpenImage(Seq<char>),
    AddWatch(Seq<char>),
    DeleteWatch(Seq<char>),
}

impl View for Effect {
    type V = SpecEffect;

    open spec fn view(&self) -> SpecEffect {
        match self {
            Effect::Send(r) => SpecEffect::Send(r@),
            Effect::SaveZhihuCookie(c) => SpecEffect::SaveZhihuCookie(c@),
            Effect::OpenImage(p) => SpecEffect::OpenImage(p@),
            Effect::AddWatch(c) => SpecEffect::AddWatch(c@),
            Effect::DeleteWatch(c) => SpecEffect::DeleteWatch(c@),
        }
    }
}

pub open spec fn effect_views(v: Seq<Effect>) -> Seq<SpecEffect> {
    v.map_values(|e: Effect| e@)
}

/// The boss key: the backtick key, or the characters Chinese input methods
/// produce for it.
pub open spec fn spec_is_boss_key(c: char) -> bool {
    c == '`' || c == '·' || c == '・' || c == '•'
}

pub fn is_boss_key(k: Key) -> (b: bool)
    ensures
        b == (k matches Key::Char(c) && spec_is_boss_key(c)),
{
    match k {
        Key::Char(c) => c == '`' || c == '·' || c == '・' || c == '•',
        _ => false,
    }
}

/// The effects of asking for the images of the answer on screen: a fetch
/// when it has any.
pub open spec fn image_fetch(app: App) -> Seq<SpecEffect> {
    if app.detail_idx < app.details@.len() && app.details@[app.detail_idx as int].images@.len() > 0 {
        seq![
            SpecEffect::Send(
                SpecRequest::FetchImages(
                    app.details@[app.detail_idx as int].answer_id@,
                    strs(app.details@[app.detail_idx as int].images@),
                ),
            ),
        ]
    } else {
        Seq::empty()
    }
}

/// Drop stale image paths and request the images of the answer now on screen.
pub fn request_images(app: &mut App) -> (eff: Vec<Effect>)
    ensures
        final(app).image_paths@.len() == 0,
        final(app).image_owner@.len() == 0,
        *final(app) == (App {
            image_paths: final(app).image_paths,
            image_owner: final(app).image_owner,
            ..*old(app)
        }),
        effect_views(eff@) == image_fetch(*old(app)),
{
    app.image_paths.clear();
    app.image_owner = String::new();
    let mut eff: Vec<Effect> = Vec::new();
    if app.detail_idx < app.details.len() {
        let d = &app.details[app.detail_idx];
        if d.images.len() > 0 {
            eff.push(
                Effect::Send(
                    Request::FetchImages {
                        answer_id: d.answer_id.clone(),
                        urls: clone_strings(&d.images),
                    },
                ),
            );
        }
    }
    assert(effect_views(eff@) =~= image_fetch(*old(app)));
    eff
}

/// The digit of an ASCII decimal digit character.
pub open spec fn digit_value(c: char) -> int {
    c as int - '0' as int
}

/// Local image path for digit key `c` (1-based), or None if absent or the
/// download failed (empty path).
pub fn image_path_for_digit(app: &App, c: char) -> (p: Option<String>)
    ensures
        ('1' <= c <= '9' && digit_value(c) - 1 < app.image_paths@.len()
            && app.image_paths@[digit_value(c) - 1]@.len() > 0) ==> p is Some && p->0@
            == app.image_paths@[digit_value(c) - 1]@,
        !('1' <= c <= '9' && digit_value(c) - 1 < app.image_paths@.len()
            && app.image_paths@[digit_value(c) - 1]@.len() > 0) ==> p is None,
{
    if c < '1' || c > '9' {
        return None;
    }
    let i = (c as u32 - '1' as u32) as usize;
    if i < app.image_paths.len() && !app.image_paths[i].as_str().is_empty() {
        Some(app.image_paths[i].clone())
    } else {
        None
    }
}

/// The request that refreshes a list source.
pub open spec fn refresh_request(src: ListSource) -> SpecRequest {
    match src {
        ListSource::Recommend => SpecRequest::Recommend,
        ListSource::Hot => SpecRequest::HotList,
        ListSource::Search(q) => SpecRequest::Search(q@),
        ListSource::Stocks => SpecRequest::Quotes(true),
    }
}

/// Re-request the current list source.
pub fn refresh(app: &mut App) -> (eff: Vec<Effect>)
    ensures
        *final(app) == (App { loading: true, ..*old(app) }),
        effect_views(eff@) == seq![SpecEffect::Send(refresh_request(old(app).list_source))],
{
    app.loading = true;
    let req = match &app.list_source {
        ListSource::Recommend => Request::Recommend,
        ListSource::Hot => Request::HotList,
        ListSource::Search(q) => Request::Search(q.clone()),
        ListSource::Stocks => Request::Quotes(true),
    };
    let mut eff: Vec<Effect> = Vec::new();
    eff.push(Effect::Send(req));
    assert(effect_views(eff@) =~= seq![SpecEffect::Send(refresh_request(old(app).list_source))]);
    eff
}

/// What `App::switch_platform(p)` does.
pub open spec fn switched(old: App, p: Platform, new: App) -> bool {
    &&& old.active_platform == p ==> new == old
    &&& old.active_platform != p ==> {
        &&& new.seen_keys().len() == 0
        &&& new.list@.len() == 0
        &&& new == (App {
            active_platform: p,
            seen: new.seen,
            list: new.list,
            list_cursor: 0,
            ..old
        })
    }
}

/// `new` is `old` with only its stack changed, to `ss`.
pub open spec fn navigated(old: App, new: App, ss: Seq<Screen>) -> bool {
    &&& new.screens() == ss
    &&& App::only_stack_changed(old, new)
}

/// What running a slash command does to the app, and what it asks for.
pub open spec fn dispatched(old: App, cmd: SpecCommand, new: App, eff: Seq<SpecEffect>) -> bool {
    match cmd {
        SpecCommand::Zhihu => if old.cookie@.len() == 0 {
            navigated(old, new, after_replace(old.screens(), Screen::Login)) && eff.len() == 0
        } else {
            new == (App { list_source: ListSource::Recommend, loading: true, ..old }) && eff == seq![
                SpecEffect::Send(SpecRequest::Recommend),
            ]
        },
        SpecCommand::Hot => if old.cookie@.len() == 0 {
            navigated(old, new, after_replace(old.screens(), Screen::Login)) && eff.len() == 0
        } else {
            new == (App { list_source: ListSource::Hot, loading: true, ..old }) && eff == seq![
                SpecEffect::Send(SpecRequest::HotList),
            ]
        },
        SpecCommand::Refresh => if !can_refresh(old) {
            new == old && eff.len() == 0
        } else {
            new == (App { loading: true, ..old }) && eff == seq![
                SpecEffect::Send(refresh_request(old.list_source)),
            ]
        },
        SpecCommand::Search(q) => {
            &&& new == (App { list_source: new.list_source, loading: true, ..old })
            &&& new.list_source matches ListSource::Search(s) && s@ == q
            &&& eff == seq![SpecEffect::Send(SpecRequest::Search(q))]
        },
        SpecCommand::Login => {
            &&& new.error is None
            &&& new.screens() == after_replace(old.screens(), Screen::Login)
            &&& new == (App { error: None, stack: new.stack, ..old })
            &&& eff.len() == 0
        },
        SpecCommand::Help => eff.len() == 0 && if old.screens().last() != Screen::Help {
            navigated(old, new, after_push(old.screens(), Screen::Help))
        } else {
            new == old
        },
        SpecCommand::Back => navigated(old, new, after_back(old.screens())) && eff.len() == 0,
        SpecCommand::Quit => new == (App { should_quit: true, ..old }) && eff.len() == 0,
        SpecCommand::Unknown(s) => {
            &&& new == (App { error: new.error, ..old })
            &&& new.error matches Some(e) && e@ == "未知命令: "@ + s
            &&& eff.len() == 0
        },
        SpecCommand::V2ex => switched(old, Platform::V2ex, new) && eff.len() == 0,
        SpecCommand::Hupu => switched(old, Platform::Hupu, new) && eff.len() == 0,
        SpecCommand::Nga => switched(old, Platform::Nga, new) && eff.len() == 0,
        SpecCommand::LinuxDo => switched(old, Platform::LinuxDo, new) && eff.len() == 0,
        SpecCommand::Stock => new == (App { list_source: ListSource::Stocks, loading: true, ..old })
            && eff == seq![SpecEffect::Send(SpecRequest::Quotes(false))],
        SpecCommand::AddStock(c) => new == (App { list_source: ListSource::Stocks, loading: true, ..old })
            && eff == seq![SpecEffect::AddWatch(c), SpecEffect::Send(SpecRequest::Quotes(false))],
        SpecCommand::DeleteStock(c) => new == (App {
            list_source: ListSource::Stocks,
            loading: true,
            ..old
        }) && eff == seq![SpecEffect::DeleteWatch(c), SpecEffect::Send(SpecRequest::Quotes(false))],
    }
}

/// Whether the current list can be re-requested: the stock watch list always
/// can; a Zhihu feed only with a cookie.
pub open spec fn can_refresh(app: App) -> bool {
    app.cookie@.len() > 0 || app.list_source == ListSource::Stocks
}

fn refreshable(app: &App) -> (b: bool)
    ensures
        b == can_refresh(*app),
{
    !app.cookie.as_str().is_empty() || matches!(app.list_source, ListSource::Stocks)
}

/// The effects of a watch-list change: the change, then a fresh look at the
/// quotes.
fn watch_then_quotes(change: Effect) -> (eff: Vec<Effect>)
    ensures
        effect_views(eff@) == seq![change@, SpecEffect::Send(SpecRequest::Quotes(false))],
{
    let mut eff: Vec<Effect> = Vec::new();
    eff.push(change);
    eff.push(Effect::Send(Request::Quotes(false)));
    assert(effect_views(eff@) =~= seq![change@, SpecEffect::Send(SpecRequest::Quotes(false))]);
    eff
}

fn send_one(r: Request) -> (eff: Vec<Effect>)
    ensures
        eff@ == seq![Effect::Send(r)],
        effect_views(eff@) == seq![SpecEffect::Send(r@)],
{
    let mut eff: Vec<Effect> = Vec::new();
    eff.push(Effect::Send(r));
    assert(eff@ =~= seq![Effect::Send(r)]);
    assert(effect_views(eff@) =~= seq![SpecEffect::Send(r@)]);
    eff
}

/// The app as it starts with the saved Zhihu cookie: on the login screen
/// when there is none; else on the platform picker, loading, with a request
/// to validate the cookie and load the first feed.
pub fn start_app(cookie: String) -> (r: (App, Vec<Effect>))
    ensures
        r.0.wf(),
        App::starts_fresh(r.0),
        r.0.cookie@ == cookie@,
        cookie@.len() == 0 ==> {
            &&& r.0.screens() == seq![Screen::Login]
            &&& !r.0.loading
            &&& effect_views(r.1@) == Seq::<SpecEffect>::empty()
        },
        cookie@.len() > 0 ==> {
            &&& r.0.screens() == seq![Screen::Root]
            &&& r.0.loading
            &&& effect_views(r.1@) == seq![SpecEffect::Send(SpecRequest::Connect(cookie@))]
        },
{
    let mut app = App::new();
    app.cookie = cookie.clone();
    if cookie.as_str().is_empty() {
        app.replace(Screen::Login);
        let none: Vec<Effect> = Vec::new();
        assert(effect_views(none@) =~= Seq::<SpecEffect>::empty());
        (app, none)
    } else {
        app.loading = true;
        (app, send_one(Request::Connect(cookie)))
    }
}

/// The periodic stock poll: when the stock watch list is the current list
/// and nothing is loading, ask for fresh quotes; else do nothing.
pub fn stock_poll(app: &mut App) -> (eff: Vec<Effect>)
    ensures
        old(app).list_source == ListSource::Stocks && !old(app).loading ==> {
            &&& *final(app) == (App { loading: true, ..*old(app) })
            &&& effect_views(eff@) == seq![SpecEffect::Send(SpecRequest::Quotes(false))]
        },
        !(old(app).list_source == ListSource::Stocks && !old(app).loading) ==> {
            &&& *final(app) == *old(app)
            &&& effect_views(eff@) == Seq::<SpecEffect>::empty()
        },
{
    if matches!(app.list_source, ListSource::Stocks) && !app.loading {
        app.loading = true;
        send_one(Request::Quotes(false))
    } else {
        let none: Vec<Effect> = Vec::new();
        assert(effect_views(none@) =~= Seq::<SpecEffect>::empty());
        none
    }
}

/// Run a slash command.
pub fn dispatch_command(app: &mut App, cmd: Command) -> (eff: Vec<Effect>)
    requires
        old(app).wf(),
    ensures
        final(app).wf(),
        dispatched(*old(app), cmd@, *final(app), effect_views(eff@)),
{
    let none: Vec<Effect> = Vec::new();
    proof {
        assert(effect_views(none@) =~= Seq::<SpecEffect>::empty());
    }
    match cmd {
        Command::Zhihu => {
            if app.cookie.as_str().is_empty() {
                app.replace(Screen::Login);
                none
            } else {
                app.list_source = ListSource::Recommend;
                app.loading = true;
                send_one(Request::Recommend)
            }
        },
        Command::Hot => {
            if app.cookie.as_str().is_empty() {
                app.replace(Screen::Login);
                none
            } else {
                app.list_source = ListSource::Hot;
                app.loading = true;
                send_one(Request::HotList)
            }
        },
        Command::Refresh => {
            if refreshable(app) {
                refresh(app)
            } else {
                none
            }
        },
        Command::Search(q) => {
            app.list_source = ListSource::Search(q.clone());
            app.loading = true;
            send_one(Request::Search(q))
        },
        Command::Login => {
            app.error = None;
            app.replace(Screen::Login);
            none
        },
        Command::Help => {
            if *app.screen() != Screen::Help {
                app.push(Screen::Help);
            }
            none
        },
        Command::Back => {
            app.back();
            none
        },
        Command::Quit => {
            app.should_quit = true;
            none
        },
        Command::Unknown(s) => {
            app.error = Some(String::from_str("未知命令: ").concat(s.as_str()));
            none
        },
        Command::V2ex => {
            app.switch_platform(Platform::V2ex);
            none
        },
        Command::Hupu => {
            app.switch_platform(Platform::Hupu);
            none
        },
        Command::Nga => {
            app.switch_platform(Platform::Nga);
            none
        },
        Command::LinuxDo => {
            app.switch_platform(Platform::LinuxDo);
            none
        },
        Command::Stock => {
            app.list_source = ListSource::Stocks;
            app.loading = true;
            send_one(Request::Quotes(false))
        },
        Command::AddStock(c) => {
            app.list_source = ListSource::Stocks;
            app.loading = true;
            watch_then_quotes(Effect::AddWatch(c))
        },
        Command::DeleteStock(c) => {
            app.list_source = ListSource::Stocks;
            app.loading = true;
            watch_then_quotes(Effect::DeleteWatch(c))
        },
    }
}

/// Two details that read the same.
pub open spec fn same_detail(a: DetailView, b: DetailView) -> bool {
    &&& a.author@ == b.author@
    &&& a.voteup == b.voteup
    &&& a.body@ == b.body@
    &&& strs(a.images@) == strs(b.images@)
    &&& a.answer_id@ == b.answer_id@
}

pub fn clone_detail(d: &DetailView) -> (r: DetailView)
    ensures
        same_detail(r, *d),
{
    DetailView {
        author: d.author.clone(),
        voteup: d.voteup,
        body: d.body.clone(),
        images: clone_strings(&d.images),
        answer_id: d.answer_id.clone(),
    }
}

/// What opening the selected row does: show the answer the row already
/// carries, or ask for the answers of its question, or nothing.
pub open spec fn selection_opened(old: App, new: App, eff: Seq<SpecEffect>) -> bool {
    if old.screens().last() != Screen::List || old.cursor() >= old.list@.len() {
        new == old && eff.len() == 0
    } else {
        let e = old.list@[old.cursor() as int];
        if e.detail is Some {
            &&& new.details@.len() == 1
            &&& same_detail(new.details@[0], e.detail->0)
            &&& new.screens() == after_push(old.screens(), Screen::Detail)
            &&& new.image_paths@.len() == 0
            &&& new.image_owner@.len() == 0
            &&& new == (App {
                error: None,
                details: new.details,
                detail_idx: 0,
                detail_scroll: 0,
                stack: new.stack,
                image_paths: new.image_paths,
                image_owner: new.image_owner,
                ..old
            })
            &&& eff == if e.detail->0.images@.len() > 0 {
                seq![
                    SpecEffect::Send(
                        SpecRequest::FetchImages(
                            e.detail->0.answer_id@,
                            strs(e.detail->0.images@),
                        ),
                    ),
                ]
            } else {
                Seq::empty()
            }
        } else if e.open_token is Some {
            new == (App { loading: true, ..old }) && eff == seq![
                SpecEffect::Send(SpecRequest::Answers(e.open_token->0@)),
            ]
        } else {
            new == old && eff.len() == 0
        }
    }
}

/// Open the row under the cursor.
pub fn open_selection(app: &mut App) -> (eff: Vec<Effect>)
    requires
        old(app).wf(),
    ensures
        final(app).wf(),
        selection_opened(*old(app), *final(app), effect_views(eff@)),
{
    let none: Vec<Effect> = Vec::new();
    proof {
        assert(effect_views(none@) =~= Seq::<SpecEffect>::empty());
    }
    if *app.screen() != Screen::List {
        return none;
    }
    let (detail, token) = match app.selected_entry() {
        Some(e) => {
            let d = match &e.detail {
                Some(d) => Some(clone_detail(d)),
                None => None,
            };
            let t = match &e.open_token {
                Some(t) => Some(t.clone()),
                None => None,
            };
            (d, t)
        },
        None => {
            return none;
        },
    };
    match detail {
        Some(d) => {
            app.error = None;
            let mut ds: Vec<DetailView> = Vec::new();
            ds.push(d);
            app.details = ds;
            app.detail_idx = 0;
            app.detail_scroll = 0;
            app.push(Screen::Detail);
            assert(app.details@[0] == d);
            let eff = request_images(app);
            proof {
                let e = old(app).list@[old(app).cursor() as int];
                assert(same_detail(d, e.detail->0));
                assert(strs(d.images@).len() == d.images@.len());
                assert(strs(e.detail->0.images@).len() == e.detail->0.images@.len());
                assert(e.detail->0.images@.len() == d.images@.len());
                if d.images@.len() > 0 {
                    assert(effect_views(eff@) =~= seq![
                        SpecEffect::Send(
                            SpecRequest::FetchImages(
                                e.detail->0.answer_id@,
                                strs(e.detail->0.images@),
                            ),
                        ),
                    ]);
                } else {
                    assert(strs(e.detail->0.images@).len() == 0);
                    assert(effect_views(eff@) =~= Seq::<SpecEffect>::empty());
                }
            }
            eff
        },
        None => match token {
            Some(q) => {
                app.loading = true;
                send_one(Request::Answers(q))
            },
            None => none,
        },
    }
}

/// `u16::saturating_add(x, 1)`.
pub open spec fn scroll_down(x: u16) -> u16 {
    if x == u16::MAX {
        x
    } else {
        (x + 1) as u16
    }
}

/// `u16::saturating_sub(x, 1)`.
pub open spec fn scroll_up(x: u16) -> u16 {
    if x == 0 {
        x
    } else {
        (x - 1) as u16
    }
}

/// What a typed character does (boss mode off, boss key excluded).
pub open spec fn char_typed(old: App, c: char, new: App, eff: Seq<SpecEffect>) -> bool {
    let mid = App { error: None, ..old };
    let top = old.screens().last();
    if top == Screen::Login || c == '/' || old.command@.len() > 0 {
        new == (App { command: new.command, ..mid }) && new.command@ == old.command@.push(c)
            && eff.len() == 0
    } else if c == 'q' {
        new == (App { should_quit: true, ..mid }) && eff.len() == 0
    } else if c == 'r' && top == Screen::List {
        if can_refresh(old) {
            new == (App { loading: true, ..mid }) && eff == seq![
                SpecEffect::Send(refresh_request(old.list_source)),
            ]
        } else {
            new == mid && eff.len() == 0
        }
    } else if c == 'c' && (top == Screen::Detail || top == Screen::List) {
        new == (App { camouflage: !old.camouflage, ..mid }) && eff.len() == 0
    } else if top == Screen::Detail {
        if c == 'n' && old.detail_idx + 1 < old.details@.len() {
            let m2 = App { detail_idx: (old.detail_idx + 1) as usize, detail_scroll: 0, ..mid };
            &&& new == (App { image_paths: new.image_paths, image_owner: new.image_owner, ..m2 })
            &&& new.image_paths@.len() == 0
            &&& new.image_owner@.len() == 0
            &&& eff == image_fetch(m2)
        } else if c == 'p' && old.detail_idx > 0 {
            let m2 = App { detail_idx: (old.detail_idx - 1) as usize, detail_scroll: 0, ..mid };
            &&& new == (App { image_paths: new.image_paths, image_owner: new.image_owner, ..m2 })
            &&& new.image_paths@.len() == 0
            &&& new.image_owner@.len() == 0
            &&& eff == image_fetch(m2)
        } else if '1' <= c <= '9' && digit_value(c) - 1 < old.image_paths@.len()
            && old.image_paths@[digit_value(c) - 1]@.len() > 0 {
            new == mid && eff == seq![SpecEffect::OpenImage(old.image_paths@[digit_value(c) - 1]@)]
        } else {
            new == mid && eff.len() == 0
        }
    } else {
        new == mid && eff.len() == 0
    }
}

/// What a key press does to the app, and what it asks for.
pub open spec fn key_step(old: App, k: Key, new: App, eff: Seq<SpecEffect>) -> bool {
    let top = old.screens().last();
    if k matches Key::Char(c) && spec_is_boss_key(c) {
        new == (App { boss_mode: !old.boss_mode, ..old }) && eff.len() == 0
    } else if old.boss_mode {
        new == old && eff.len() == 0
    } else {
        match k {
            Key::Char(c) => char_typed(old, c, new, eff),
            Key::Backspace => {
                &&& new == (App { command: new.command, ..old })
                &&& new.command@ == if old.command@.len() > 0 {
                    old.command@.drop_last()
                } else {
                    old.command@
                }
                &&& eff.len() == 0
            },
            Key::Esc => {
                &&& new.command@.len() == 0
                &&& new.screens() == after_back(old.screens())
                &&& new == (App { command: new.command, stack: new.stack, ..old })
                &&& eff.len() == 0
            },
            Key::Enter => if top == Screen::Login {
                &&& new.command@.len() == 0
                &&& if old.command@.len() > 0 {
                    &&& new == (App {
                        command: new.command,
                        cookie: new.cookie,
                        loading: true,
                        ..old
                    })
                    &&& new.cookie@ == old.command@
                    &&& eff == seq![SpecEffect::Send(SpecRequest::Connect(old.command@))]
                } else {
                    new == (App { command: new.command, ..old }) && eff.len() == 0
                }
            } else if old.command@.len() > 0 {
                &&& new.command@.len() == 0
                &&& dispatched(
                    App { command: new.command, ..old },
                    spec_parse(old.command@),
                    new,
                    eff,
                )
            } else {
                selection_opened(old, new, eff)
            },
            Key::Up => eff.len() == 0 && if top == Screen::List {
                new == (App { list_cursor: super::cursor_after_up(old.cursor()), ..old })
            } else if top == Screen::Detail {
                new == (App { detail_scroll: scroll_up(old.detail_scroll), ..old })
            } else if top == Screen::Comments {
                new == (App { comment_scroll: scroll_up(old.comment_scroll), ..old })
            } else {
                new == old
            },
            Key::Down => eff.len() == 0 && if top == Screen::List {
                new == (App {
                    list_cursor: super::cursor_after_down(old.cursor(), old.list@.len()),
                    ..old
                })
            } else if top == Screen::Detail {
                new == (App { detail_scroll: scroll_down(old.detail_scroll), ..old })
            } else if top == Screen::Comments {
                new == (App { comment_scroll: scroll_down(old.comment_scroll), ..old })
            } else {
                new == old
            },
            Key::Left => navigated(old, new, after_back(old.screens())) && eff.len() == 0,
            Key::Right | Key::Tab => if top == Screen::Detail && old.detail_idx
                < old.details@.len() {
                new == (App { loading: true, ..old }) && eff == seq![
                    SpecEffect::Send(
                        SpecRequest::Comments(old.details@[old.detail_idx as int].answer_id@),
                    ),
                ]
            } else {
                new == old && eff.len() == 0
            },
            Key::Other => new == old && eff.len() == 0,
        }
    }
}

fn take_command(app: &mut App) -> (cmd: String)
    ensures
        cmd@ == old(app).command@,
        final(app).command@.len() == 0,
        *final(app) == (App { command: final(app).command, ..*old(app) }),
{
    let mut empty = String::new();
    std::mem::swap(&mut empty, &mut app.command);
    empty
}

/// React to a key press.
pub fn handle_key(app: &mut App, k: Key) -> (eff: Vec<Effect>)
    requires
        old(app).wf(),
    ensures
        final(app).wf(),
        key_step(*old(app), k, *final(app), effect_views(eff@)),
{
    let none: Vec<Effect> = Vec::new();
    proof {
        assert(effect_views(none@) =~= Seq::<SpecEffect>::empty());
    }
    if is_boss_key(k) {
        app.boss_mode = !app.boss_mode;
        return none;
    }
    if app.boss_mode {
        return none;
    }
    match k {
        Key::Char(c) => {
            app.error = None;
            let top = *app.screen();
            if top == Screen::Login || c == '/' || !app.command.as_str().is_empty() {
                push_char(&mut app.command, c);
                none
            } else if c == 'q' {
                app.should_quit = true;
                none
            } else if c == 'r' && top == Screen::List {
                if refreshable(app) {
                    refresh(app)
                } else {
                    none
                }
            } else if c == 'c' && (top == Screen::Detail || top == Screen::List) {
                app.camouflage = !app.camouflage;
                none
            } else if top == Screen::Detail {
                if c == 'n' && app.detail_idx < app.details.len() && app.detail_idx + 1
                    < app.details.len() {
                    app.detail_idx = app.detail_idx + 1;
                    app.detail_scroll = 0;
                    request_images(app)
                } else if c == 'p' && app.detail_idx > 0 {
                    app.detail_idx = app.detail_idx - 1;
                    app.detail_scroll = 0;
                    request_images(app)
                } else {
                    match image_path_for_digit(app, c) {
                        Some(path) => {
                            let mut eff: Vec<Effect> = Vec::new();
                            eff.push(Effect::OpenImage(path));
                            assert(effect_views(eff@) =~= seq![SpecEffect::OpenImage(path@)]);
                            eff
                        },
                        None => none,
                    }
                }
            } else {
                none
            }
        },
        Key::Backspace => {
            let _ = pop_char(&mut app.command);
            none
        },
        Key::Esc => {
            let _ = take_command(app);
            app.back();
            none
        },
        Key::Enter => {
            if *app.screen() == Screen::Login {
                let cookie = take_command(app);
                if !cookie.as_str().is_empty() {
                    app.cookie = cookie.clone();
                    app.loading = true;
                    send_one(Request::Connect(cookie))
                } else {
                    none
                }
            } else if !app.command.as_str().is_empty() {
                let line = take_command(app);
                let cmd = parse(line.as_str());
                dispatch_command(app, cmd)
            } else {
                open_selection(app)
            }
        },
        Key::Up => {
            let top = *app.screen();
            if top == Screen::List {
                app.cursor_up();
            } else if top == Screen::Detail {
                app.detail_scroll = app.detail_scroll.saturating_sub(1);
            } else if top == Screen::Comments {
                app.comment_scroll = app.comment_scroll.saturating_sub(1);
            }
            none
        },
        Key::Down => {
            let top = *app.screen();
            if top == Screen::List {
                app.cursor_down();
            } else if top == Screen::Detail {
                app.detail_scroll = app.detail_scroll.saturating_add(1);
            } else if top == Screen::Comments {
                app.comment_scroll = app.comment_scroll.saturating_add(1);
            }
            none
        },
        Key::Left => {
            app.back();
            none
        },
        Key::Right | Key::Tab => {
            if *app.screen() == Screen::Detail && app.detail_idx < app.details.len() {
                let aid = app.details[app.detail_idx].answer_id.clone();
                app.loading = true;
                send_one(Request::Comments(aid))
            } else {
                none
            }
        },
        Key::Other => none,
    }
}

/// The stack after showing a list: stay on a list, leave the login screen for
/// it, or push it.
pub open spec fn to_list(ss: Seq<Screen>) -> Seq<Screen> {
    if ss.last() == Screen::List {
        ss
    } else if ss.last() == Screen::Login {
        after_replace(ss, Screen::List)
    } else {
        after_push(ss, Screen::List)
    }
}

/// `new` shows the rows of `items` that were not seen before (keeping the old
/// list when there are none) and remembers their keys.
pub open spec fn deduped_into(old: App, items: Seq<ListEntry>, new: App) -> bool {
    let d = super::dedup(old.seen_keys(), items);
    &&& new.seen_keys() == d.0
    &&& d.1.len() > 0 ==> new.list@ == d.1 && new.cursor() == 0
    &&& d.1.len() == 0 ==> new.list@ == old.list@ && new.cursor() == old.cursor()
}

/// What a worker result does to the app, and what it asks for.
pub open spec fn update_applied(old: App, upd: Update, new: App, eff: Seq<SpecEffect>) -> bool {
    match upd {
        Update::Connected { cookie, list } => {
            &&& new.cookie@ == cookie@
            &&& deduped_into(old, list@, new)
            &&& new.screens() == to_list(old.screens())
            &&& new == (App {
                loading: false,
                cookie: new.cookie,
                error: None,
                list: new.list,
                list_cursor: new.list_cursor,
                seen: new.seen,
                stack: new.stack,
                ..old
            })
            &&& eff == seq![SpecEffect::SaveZhihuCookie(cookie@)]
        },
        Update::List(list) => {
            &&& old.list_source == ListSource::Recommend ==> deduped_into(old, list@, new)
            &&& old.list_source != ListSource::Recommend ==> new.list@ == list@ && new.cursor()
                == 0 && new.seen == old.seen
            &&& new.screens() == to_list(old.screens())
            &&& new == (App {
                loading: false,
                error: None,
                list: new.list,
                list_cursor: new.list_cursor,
                seen: new.seen,
                stack: new.stack,
                ..old
            })
            &&& eff.len() == 0
        },
        Update::Details(d) => {
            let mid = App { loading: false, error: None, details: d, detail_idx: 0, detail_scroll: 0, ..old };
            &&& new.screens() == after_push(old.screens(), Screen::Detail)
            &&& new.image_paths@.len() == 0
            &&& new.image_owner@.len() == 0
            &&& new == (App {
                stack: new.stack,
                image_paths: new.image_paths,
                image_owner: new.image_owner,
                ..mid
            })
            &&& eff == image_fetch(mid)
        },
        Update::ImagesReady { answer_id, paths } => {
            &&& eff.len() == 0
            &&& if old.detail_idx < old.details@.len() && old.details@[old.detail_idx as int].answer_id@
                == answer_id@ {
                new == (App { loading: false, image_paths: paths, image_owner: answer_id, ..old })
            } else {
                new == (App { loading: false, ..old })
            }
        },
        Update::Comments(c) => {
            &&& new.screens() == after_push(old.screens(), Screen::Comments)
            &&& new == (App {
                loading: false,
                error: None,
                comments: c,
                comment_scroll: 0,
                stack: new.stack,
                ..old
            })
            &&& eff.len() == 0
        },
        Update::ConnectFailed(e) => {
            &&& new.screens() == after_replace(old.screens(), Screen::Login)
            &&& new == (App { loading: false, error: Some(e), stack: new.stack, ..old })
            &&& eff.len() == 0
        },
        Update::Error(e) => new == (App { loading: false, error: Some(e), ..old }) && eff.len()
            == 0,
    }
}

fn show_list(app: &mut App)
    requires
        old(app).wf(),
    ensures
        final(app).wf(),
        final(app).screens() == to_list(old(app).screens()),
        App::only_stack_changed(*old(app), *final(app)),
{
    let top = *app.screen();
    if top == Screen::List {
    } else if top == Screen::Login {
        app.replace(Screen::List);
    } else {
        app.push(Screen::List);
    }
}

/// Apply a result from the network worker.
pub fn apply_update(app: &mut App, upd: Update) -> (eff: Vec<Effect>)
    requires
        old(app).wf(),
    ensures
        final(app).wf(),
        update_applied(*old(app), upd, *final(app), effect_views(eff@)),
{
    let none: Vec<Effect> = Vec::new();
    proof {
        assert(effect_views(none@) =~= Seq::<SpecEffect>::empty());
    }
    app.loading = false;
    match upd {
        Update::Connected { cookie, list } => {
            app.cookie = cookie.clone();
            app.error = None;
            app.apply_list_deduped(list);
            show_list(app);
            let mut eff: Vec<Effect> = Vec::new();
            eff.push(Effect::SaveZhihuCookie(cookie));
            assert(effect_views(eff@) =~= seq![SpecEffect::SaveZhihuCookie(cookie@)]);
            eff
        },
        Update::List(list) => {
            app.error = None;
            if matches!(app.list_source, ListSource::Recommend) {
                app.apply_list_deduped(list);
            } else {
                app.set_list(list);
            }
            show_list(app);
            none
        },
        Update::Details(d) => {
            app.error = None;
            app.details = d;
            app.detail_idx = 0;
            app.detail_scroll = 0;
            app.push(Screen::Detail);
            request_images(app)
        },
        Update::ImagesReady { answer_id, paths } => {
            if app.detail_idx < app.details.len() && app.details[app.detail_idx].answer_id
                == answer_id {
                app.image_paths = paths;
                app.image_owner = answer_id;
            }
            none
        },
        Update::Comments(c) => {
            app.error = None;
            app.comments = c;
            app.comment_scroll = 0;
            app.push(Screen::Comments);
            none
        },
        Update::ConnectFailed(e) => {
            app.error = Some(e);
            app.replace(Screen::Login);
            none
        },
        Update::Error(e) => {
            app.error = Some(e);
            none
        },
    }
}

/// The file extension an image downloaded from `url` is saved with: the part
/// of its path after the last `.`, in lower case, when it is one to four
/// ASCII letters or digits; else `jpg`.
pub open spec fn url_ext_spec(url: Seq<char>) -> Seq<char> {
    let ext = url_path_ext(url);
    if short_alnum(ext) {
        crate::text::ascii_lower(ext)
    } else {
        "jpg"@
    }
}

/// The part of a URL's path (before any `?` or `#`) after its last `.`.
pub open spec fn url_path_ext(url: Seq<char>) -> Seq<char> {
    let path = url.subrange(0, crate::text::stop_index(url, seq!['?', '#'], 0));
    match crate::book::library::last_index_of(path, '.') {
        Some(d) => path.subrange(d + 1, path.len() as int),
        None => path,
    }
}

/// One to four ASCII letters or digits.
pub open spec fn short_alnum(e: Seq<char>) -> bool {
    e.len() > 0 && e.len() <= 4 && forall|k: int| 0 <= k < e.len() ==> #[trigger] crate::text::is_ascii_alnum(e[k])
}

/// The file extension an image downloaded from `url` is saved with.
pub fn url_ext(url: &str) -> (r: String)
    ensures
        r@ == url_ext_spec(url@),
{
    let u = crate::text::chars_of(url);
    let mut stops: Vec<char> = Vec::new();
    stops.push('?');
    stops.push('#');
    assert(stops@ =~= seq!['?', '#']);
    let path = crate::text::take_until_any(&u, &stops, 0);
    let ext = match crate::book::library::last_index_of_exec(&path, '.') {
        Some(d) => crate::text::copy_range(&path, d + 1, path.len()),
        None => crate::text::copy_range(&path, 0, path.len()),
    };
    assert(ext@ == url_path_ext(url@));
    let mut ok = ext.len() > 0 && ext.len() <= 4;
    let mut k: usize = 0;
    while k < ext.len()
        invariant
            k <= ext@.len(),
            ok == (ext@.len() > 0 && ext@.len() <= 4 && forall|m: int| 0 <= m < k ==> #[trigger] crate::text::is_ascii_alnum(ext@[m])),
        decreases ext@.len() - k,
    {
        if !crate::text::ascii_alnum(ext[k]) {
            ok = false;
        }
        k += 1;
    }
    if ok {
        crate::text::string_of(crate::text::ascii_lower_chars(&ext).as_slice())
    } else {
        crate::text::string_of(crate::text::chars_of("jpg").as_slice())
    }
}

/// The file name the `number`th downloaded image of an answer is saved
/// under: the number with at least two digits, a dot, and the extension
/// taken from its URL.
pub fn cached_image_name(number: usize, url: &str) -> (r: String)
    ensures
        r@ == (if number < 10 { "0"@ } else { Seq::empty() }) + crate::text::decimal(number as nat) + "."@
            + url_ext_spec(url@),
{
    let mut out: Vec<char> = Vec::new();
    if number < 10 {
        out.push('0');
    }
    let ghost z = out@;
    crate::text::append_chars(&mut out, &crate::text::decimal_chars(number as u64));
    let ghost zd = out@;
    out.push('.');
    crate::text::append_chars(&mut out, &crate::text::chars_of(url_ext(url).as_str()));
    proof {
        reveal_strlit("0");
        reveal_strlit(".");
    }
    assert(z =~= (if number < 10 { "0"@ } else { Seq::empty() }));
    assert(out@ =~= zd + "."@ + url_ext_spec(url@));
    crate::text::string_of(out.as_slice())
}

/// The boss key hides the reader, and pressing it again brings the reader
/// back exactly as it was; neither press asks for any work.
pub proof fn law_boss_key_twice_restores(
    a: App,
    b: App,
    c: App,
    k1: Key,
    k2: Key,
    e1: Seq<SpecEffect>,
    e2: Seq<SpecEffect>,
)
    requires
        (k1 matches Key::Char(x) && spec_is_boss_key(x)),
        (k2 matches Key::Char(y) && spec_is_boss_key(y)),
        key_step(a, k1, b, e1),
        key_step(b, k2, c, e2),
    ensures
        b.boss_mode == !a.boss_mode,
        c == a,
        e1.len() == 0,
        e2.len() == 0,
{
}

/// While the reader is hidden, every key but the boss key is swallowed:
/// nothing changes and nothing is asked for.
pub proof fn law_hidden_swallows_keys(a: App, k: Key, b: App, e: Seq<SpecEffect>)
    requires
        a.boss_mode,
        !(k matches Key::Char(x) && spec_is_boss_key(x)),
        key_step(a, k, b, e),
    ensures
        b == a,
        e.len() == 0,
{
}

/// On a list or an answer, with no command being typed, `c` switches the
/// camouflage and a second `c` switches it back (clearing any error).
pub proof fn law_camouflage_twice_restores(a: App, b: App, c: App, e1: Seq<SpecEffect>, e2: Seq<SpecEffect>)
    requires
        !a.boss_mode,
        a.command@.len() == 0,
        a.screens().last() == Screen::Detail || a.screens().last() == Screen::List,
        key_step(a, Key::Char('c'), b, e1),
        key_step(b, Key::Char('c'), c, e2),
    ensures
        b.camouflage == !a.camouflage,
        c == (App { error: None, ..a }),
        e1.len() == 0,
        e2.len() == 0,
{
    assert(b.stack == a.stack);
    assert(b.screens() == a.screens());
}

} // verus!
