use vstd::prelude::*;

pub mod html;
pub mod hupu;
pub mod linuxdo;
pub mod nga;
pub mod stock;
pub mod tieba;
pub mod v2ex;
pub mod yahoo;
pub mod zhihu;

use vstd::string::StringExecFns;

verus! {

/// The sites the reader can browse.
#[derive(Debug, Clone, Copy, PartialEq, Eq, Structural)]
pub enum Platform {
    Zhihu,
    V2ex,
    Hupu,
    Nga,
    LinuxDo,
    Tieba,
}

/// All platforms, in landing-page picker order.
pub open spec fn platform_order() -> Seq<Platform> {
    seq![
        Platform::Zhihu,
        Platform::V2ex,
        Platform::Hupu,
        Platform::Nga,
        Platform::LinuxDo,
        Platform::Tieba,
    ]
}

/// The name a platform is shown under.
pub open spec fn label_spec(p: Platform) -> Seq<char> {
    match p {
        Platform::Zhihu => "知乎"@,
        Platform::V2ex => "V2EX"@,
        Platform::Hupu => "虎扑"@,
        Platform::Nga => "NGA"@,
        Platform::LinuxDo => "Linux.do"@,
        Platform::Tieba => "贴吧"@,
    }
}

impl Platform {
    /// All platforms, in landing-page picker order.
    pub const ALL: [Platform; 6] = [
        Platform::Zhihu,
        Platform::V2ex,
        Platform::Hupu,
        Platform::Nga,
        Platform::LinuxDo,
        Platform::Tieba,
    ];

    /// Human label shown in the (non-camouflaged) status line.
    pub fn label(self) -> (s: &'static str)
        ensures
            s@ == label_spec(self),
    {
        match self {
            Platform::Zhihu => "知乎",
            Platform::V2ex => "V2EX",
            Platform::Hupu => "虎扑",
            Platform::Nga => "NGA",
            Platform::LinuxDo => "Linux.do",
            Platform::Tieba => "贴吧",
        }
    }

    /// Whether this platform needs a user-supplied cookie.
    pub fn needs_cookie(self) -> (b: bool)
        ensures
            b == (self == Platform::Zhihu || self == Platform::Nga || self == Platform::LinuxDo
                || self == Platform::Tieba),
    {
        match self {
            Platform::Zhihu | Platform::Nga | Platform::LinuxDo | Platform::Tieba => true,
            _ => false,
        }
    }
}

/// A single answer (or forum thread) rendered for the detail screen.
#[derive(Debug, Clone)]
pub struct DetailView {
    pub author: String,
    pub voteup: i64,
    /// Already converted from HTML to text.
    pub body: String,
    /// Ordered image URLs extracted from the body.
    pub images: Vec<String>,
    pub answer_id: String,
}

/// A row in a list screen.
#[derive(Debug, Clone)]
pub struct ListEntry {
    pub title: String,
    pub subtitle: String,
    /// Token used to open this row: Zhihu question id, or a forum topic URL/tid.
    pub open_token: Option<String>,
    /// The exact answer this row previewed, when the feed already carried it.
    pub detail: Option<DetailView>,
}

/// A comment for the comments screen.
#[derive(Debug, Clone)]
pub struct CommentView {
    pub author: String,
    pub body: String,
    pub like_count: i64,
    pub child_count: i64,
}

/// A list row that opens `url` and shows `title`.
pub open spec fn is_link_row(e: ListEntry, title: Seq<char>, url: Seq<char>) -> bool {
    &&& e.title@ == title
    &&& e.subtitle@.len() == 0
    &&& e.open_token matches Some(t) && t@ == url
    &&& e.detail is None
}

/// The single row a cookie-gated forum shows while no cookie is configured.
pub fn cookie_prompt_entry(p: Platform) -> (e: ListEntry)
    ensures
        e.title@ == label_spec(p) + " 未配置 cookie(回车去配置)"@,
        e.subtitle@.len() == 0,
        e.open_token is None,
        e.detail is None,
{
    let title = String::from_str(p.label()).concat(" 未配置 cookie(回车去配置)");
    ListEntry { title, subtitle: String::new(), open_token: None, detail: None }
}

} // verus!
