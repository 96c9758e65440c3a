use vstd::prelude::*;

use crate::platform::html::{
    attr_at, attr_of, first_match_content, first_match_text_and_images, nodes_view,
    select_subtrees, selected_subtrees, subtree_text, subtrees_view, text_of, SpecHtmlNode,
};
use crate::platform::{is_link_row, DetailView, ListEntry};
use crate::text::{
    append_chars, chars_of, starts_with, starts_with_str, stop_index, string_of, strs, take_until_any,
    trim, trim_chars,
};

verus! {

/// The topic links of the front page.
pub open spec fn topic_link_selector() -> Seq<char> {
    "#Main .box .cell.item .topic-link"@
}

/// The row of one topic link: its text, trimmed, and its `href` cut at the
/// first `#` or `?`; `None` when either is empty.
pub open spec fn topic_row(sub: Seq<SpecHtmlNode>) -> Option<(Seq<char>, Seq<char>)> {
    let title = trim(subtree_text(sub));
    let href = trim(
        match (if sub.len() > 0 { attr_at(sub[0], 0) } else { None }) {
            Some(h) => h,
            None => Seq::empty(),
        },
    );
    let token = href.subrange(0, stop_index(href, seq!['#', '?'], 0));
    if title.len() == 0 || token.len() == 0 {
        None
    } else {
        Some((title, token))
    }
}

pub open spec fn topic_rows(subs: Seq<Seq<SpecHtmlNode>>) -> Seq<(Seq<char>, Seq<char>)>
    decreases subs.len(),
{
    if subs.len() == 0 {
        Seq::empty()
    } else {
        topic_rows(subs.drop_last()) + match topic_row(subs.last()) {
            Some(r) => seq![r],
            None => Seq::empty(),
        }
    }
}

/// The rows of a V2EX front page: one per topic link with a title and a link.
pub open spec fn v2ex_rows(raw: Seq<char>) -> Seq<(Seq<char>, Seq<char>)> {
    match selected_subtrees(raw, topic_link_selector(), seq!["href"@]) {
        Some(subs) => topic_rows(subs),
        None => Seq::empty(),
    }
}

/// Reads the topic list of a V2EX front page.
pub fn parse_list(html: &str) -> (rows: Vec<ListEntry>)
    ensures
        rows@.len() == v2ex_rows(html@).len(),
        forall|i: int|
            0 <= i < rows@.len() ==> is_link_row(
                #[trigger] rows@[i],
                v2ex_rows(html@)[i].0,
                v2ex_rows(html@)[i].1,
            ),
{
    let mut names: Vec<String> = Vec::new();
    names.push(String::from_str("href"));
    assert(strs(names@) =~= seq!["href"@]);
    let mut rows: Vec<ListEntry> = Vec::new();
    let found = select_subtrees(html, "#Main .box .cell.item .topic-link", &names);
    let subs = match found {
        Some(v) => v,
        None => {
            return rows;
        },
    };
    let ghost views = subtrees_view(subs@);
    let mut stops: Vec<char> = Vec::new();
    stops.push('#');
    stops.push('?');
    assert(stops@ =~= seq!['#', '?']);
    let mut i: usize = 0;
    while i < subs.len()
        invariant
            i <= subs@.len(),
            views == subtrees_view(subs@),
            views == match selected_subtrees(html@, topic_link_selector(), seq!["href"@]) {
                Some(s) => s,
                None => Seq::empty(),
            },
            stops@ == seq!['#', '?'],
            rows@.len() == topic_rows(views.take(i as int)).len(),
            forall|k: int|
                0 <= k < rows@.len() ==> is_link_row(
                    #[trigger] rows@[k],
                    topic_rows(views.take(i as int))[k].0,
                    topic_rows(views.take(i as int))[k].1,
                ),
        decreases subs@.len() - i,
    {
        let sub = &subs[i];
        assert(views.take(i + 1).drop_last() =~= views.take(i as int));
        assert(views.take(i + 1).last() == nodes_view(sub@));
        let text = text_of(sub);
        let title = trim_chars(&text);
        let href_raw: Vec<char> = if sub.len() > 0 {
            match attr_of(&sub[0], 0) {
                Some(h) => chars_of(h.as_str()),
                None => Vec::new(),
            }
        } else {
            Vec::new()
        };
        let href = trim_chars(&href_raw);
        let token = take_until_any(&href, &stops, 0);
        if title.len() > 0 && token.len() > 0 {
            rows.push(ListEntry {
                title: string_of(title.as_slice()),
                subtitle: String::new(),
                open_token: Some(string_of(token.as_slice())),
                detail: None,
            });
        }
        i += 1;
    }
    assert(views.take(subs@.len() as int) =~= views);
    rows
}

/// The topic body of a V2EX page: the text and images inside `#Main`.
pub fn parse_detail(html: &str) -> (d: DetailView)
    ensures
        d.author@.len() == 0,
        d.voteup == 0,
        d.body@ == first_match_content(html@, "#Main"@).0,
        strs(d.images@) == first_match_content(html@, "#Main"@).1,
        d.answer_id@.len() == 0,
{
    let (body, images) = first_match_text_and_images(html, "#Main");
    DetailView { author: String::new(), voteup: 0, body, images, answer_id: String::new() }
}

/// The front-page tabs that "load more" walks through in turn.
pub open spec fn v2ex_tabs() -> Seq<Seq<char>> {
    seq!["all"@, "tech"@, "creative"@, "play"@, "apple"@, "jobs"@, "deals"@, "qna"@]
}

fn v2ex_tab(k: usize) -> (r: &'static str)
    requires
        k < 8,
    ensures
        r@ == v2ex_tabs()[k as int],
{
    if k == 0 {
        "all"
    } else if k == 1 {
        "tech"
    } else if k == 2 {
        "creative"
    } else if k == 3 {
        "play"
    } else if k == 4 {
        "apple"
    } else if k == 5 {
        "jobs"
    } else if k == 6 {
        "deals"
    } else {
        "qna"
    }
}

/// The page of front-page tab number `tab`, counted round the tabs.
pub fn list_url(tab: usize) -> (r: String)
    ensures
        r@ == "https://www.v2ex.com/?tab="@ + v2ex_tabs()[(tab % 8) as int],
{
    let mut out = chars_of("https://www.v2ex.com/?tab=");
    let t = chars_of(v2ex_tab(tab % 8));
    append_chars(&mut out, &t);
    string_of(out.as_slice())
}

/// The page of a topic: its token as is when it is a full URL, else the
/// token under the site.
pub fn detail_url(token: &str) -> (r: String)
    ensures
        r@ == if starts_with(token@, "http"@) {
            token@
        } else {
            "https://www.v2ex.com"@ + token@
        },
{
    let t = chars_of(token);
    if starts_with_str(&t, "http") {
        return string_of(t.as_slice());
    }
    let mut out = chars_of("https://www.v2ex.com");
    append_chars(&mut out, &t);
    string_of(out.as_slice())
}

} // verus!
