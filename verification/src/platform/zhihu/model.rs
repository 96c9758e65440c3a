use vstd::prelude::*;

verus! {

/// The hot list: `data[].target` holds a title, an excerpt and a link.
#[derive(Debug, Clone, Default)]
pub struct HotListResponse {
    pub data: Vec<HotItem>,
}

#[derive(Debug, Clone, Default)]
pub struct HotItem {
    pub target: HotTarget,
}

#[derive(Debug, Clone, Default)]
pub struct HotTarget {
    pub title_area: TextArea,
    pub excerpt_area: TextArea,
    pub link: LinkArea,
}

#[derive(Debug, Clone, Default)]
pub struct TextArea {
    pub text: String,
}

#[derive(Debug, Clone, Default)]
pub struct LinkArea {
    pub url: String,
}

/// Search results: only items of type `search_result` carry an answer object.
#[derive(Debug, Clone, Default)]
pub struct SearchResponse {
    pub data: Vec<SearchItem>,
}

#[derive(Debug, Clone, Default)]
pub struct SearchItem {
    /// The item's `type`.
    pub kind: String,
    pub highlight: Option<Highlight>,
    pub object: Option<SearchObject>,
}

/// The highlighted title of a search result, with `<em>` tags.
#[derive(Debug, Clone, Default)]
pub struct Highlight {
    pub title: String,
}

#[derive(Debug, Clone, Default)]
pub struct SearchObject {
    /// The object's `type`.
    pub kind: String,
    pub title: String,
    pub question: Option<SearchQuestion>,
}

#[derive(Debug, Clone, Default)]
pub struct SearchQuestion {
    pub id: String,
    pub name: String,
}

/// The answers of a question: `data[].target` is an answer.
#[derive(Debug, Clone, Default)]
pub struct AnswersResponse {
    pub data: Vec<AnswerFeed>,
}

#[derive(Debug, Clone, Default)]
pub struct AnswerFeed {
    pub target: Answer,
}

/// One answer: its id, its HTML content, its vote count and its author.
#[derive(Debug, Clone, Default)]
pub struct Answer {
    pub id: String,
    pub content: String,
    pub voteup_count: i64,
    pub author: Author,
}

#[derive(Debug, Clone, Default)]
pub struct Author {
    pub name: String,
}

/// The root comments of an answer.
#[derive(Debug, Clone, Default)]
pub struct CommentResponse {
    pub data: Vec<Comment>,
}

/// One comment: its id, its HTML content, its likes, its number of replies
/// and its author.
#[derive(Debug, Clone, Default)]
pub struct Comment {
    pub id: String,
    pub content: String,
    pub like_count: i64,
    pub child_comment_count: i64,
    pub author: CommentAuthor,
}

#[derive(Debug, Clone, Default)]
pub struct CommentAuthor {
    pub name: String,
}

} // verus!
