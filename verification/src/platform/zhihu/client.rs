use vstd::prelude::*;
use vstd::string::StringSliceAdditionalSpecFns;

use crate::platform::html::{
    fragment_nodes, image_attrs, image_text_fold, text_fold, to_text_and_images,
};
use crate::platform::zhihu::cookie::{field, spec_field};
use crate::platform::zhihu::model::{
    Answer, AnswersResponse, Comment, CommentResponse, HotListResponse, SearchItem, SearchResponse,
};
use crate::platform::{CommentView, DetailView, ListEntry};
use crate::text::{
    append_chars, eq_str, strs, trim, chars_of, digits_from, find_pat, find_pat_from, replace_all,
    replace_chars, string_of, take_digits,
};

verus! {

/// The numeric question id in a Zhihu URL such as
/// `https://www.zhihu.com/question/123456`: the digits right after the first
/// `/question/`; none for other links (articles, videos, ...).
pub open spec fn spec_question_id(url: Seq<char>) -> Option<Seq<char>> {
    match find_pat_from(url, "/question/"@, 0) {
        None => None,
        Some(j) => {
            let id = digits_from(url, j + "/question/"@.len());
            if id.len() == 0 {
                None
            } else {
                Some(id)
            }
        },
    }
}

/// Extract a numeric question id from a Zhihu URL.
pub fn question_id_from_url(url: &str) -> (r: Option<String>)
    ensures
        r is Some <==> spec_question_id(url@) is Some,
        r matches Some(id) ==> id@ == spec_question_id(url@)->0,
{
    let u = chars_of(url);
    let pat = chars_of("/question/");
    let n = u.len();
    match find_pat(&u, &pat, 0) {
        None => None,
        Some(j) => {
            let id = take_digits(&u, j + pat.len());
            if id.len() == 0 {
                None
            } else {
                Some(string_of(id.as_slice()))
            }
        },
    }
}

/// `s` without `<em>` and `</em>` tags (first every `<em>` is removed, then
/// every `</em>`).
pub open spec fn spec_strip_em(s: Seq<char>) -> Seq<char> {
    replace_all(replace_all(s, "<em>"@, Seq::empty()), "</em>"@, Seq::empty())
}

pub fn strip_em(s: &str) -> (r: String)
    ensures
        r@ == spec_strip_em(s@),
{
    let v = chars_of(s);
    let open = chars_of("<em>");
    let close = chars_of("</em>");
    proof {
        reveal_strlit("<em>");
        reveal_strlit("</em>");
    }
    let a = replace_chars(&v, &open, &Vec::new());
    let b = replace_chars(&a, &close, &Vec::new());
    string_of(b.as_slice())
}

/// Bytes left as they are by percent-encoding: ASCII letters, digits and `-_.~`.
pub open spec fn is_unreserved(b: u8) -> bool {
    (97 <= b <= 122) || (65 <= b <= 90) || (48 <= b <= 57) || b == 45 || b == 95 || b == 46 || b
        == 126
}

/// Upper-case hexadecimal digit.
pub open spec fn hex_upper(d: nat) -> char {
    if d < 10 {
        (48 + d) as char
    } else {
        (55 + d) as char
    }
}

/// Percent-encoding of bytes: unreserved bytes as characters, others as `%XX`.
pub open spec fn percent_encode(bs: Seq<u8>) -> Seq<char>
    decreases bs.len(),
{
    if bs.len() == 0 {
        Seq::empty()
    } else {
        let b = bs.last();
        percent_encode(bs.drop_last()) + if is_unreserved(b) {
            seq![b as char]
        } else {
            seq!['%', hex_upper((b / 16) as nat), hex_upper((b % 16) as nat)]
        }
    }
}

fn hex_digit(d: u8) -> (c: char)
    requires
        d < 16,
    ensures
        c == hex_upper(d as nat),
{
    if d < 10 {
        (48u8 + d) as char
    } else {
        (55u8 + d) as char
    }
}

/// Percent-encode the UTF-8 bytes of `s`.
pub fn urlencode(s: &str) -> (r: String)
    ensures
        r@ == percent_encode(s.spec_bytes()),
{
    let bs = s.as_bytes();
    let mut out: Vec<char> = Vec::new();
    let mut i: usize = 0;
    while i < bs.len()
        invariant
            i <= bs@.len(),
            out@ == percent_encode(bs@.take(i as int)),
        decreases bs@.len() - i,
    {
        let b = bs[i];
        proof {
            assert(bs@.take(i + 1).drop_last() =~= bs@.take(i as int));
        }
        if (97 <= b && b <= 122) || (65 <= b && b <= 90) || (48 <= b && b <= 57) || b == 45 || b
            == 95 || b == 46 || b == 126 {
            out.push(b as char);
        } else {
            out.push('%');
            out.push(hex_digit(b / 16));
            out.push(hex_digit(b % 16));
        }
        i = i + 1;
    }
    assert(bs@.take(bs@.len() as int) =~= bs@);
    string_of(out.as_slice())
}

/// A list row as shown: title, subtitle and what opening it asks for.
pub open spec fn row_view(e: ListEntry) -> (Seq<char>, Seq<char>, Option<Seq<char>>) {
    (
        e.title@,
        e.subtitle@,
        match e.open_token {
            Some(t) => Some(t@),
            None => None,
        },
    )
}

/// The hot-list rows: each item with a title, its excerpt as subtitle,
/// opening the question its link names (if it names one).
pub open spec fn hot_rows(items: Seq<crate::platform::zhihu::model::HotItem>) -> Seq<(Seq<char>, Seq<char>, Option<Seq<char>>)>
    decreases items.len(),
{
    if items.len() == 0 {
        Seq::empty()
    } else {
        let t = items.last().target;
        hot_rows(items.drop_last()) + if t.title_area.text@.len() == 0 {
            Seq::empty()
        } else {
            seq![(t.title_area.text@, t.excerpt_area.text@, spec_question_id(t.link.url@))]
        }
    }
}

/// Whether a hot-list item has a title.
pub open spec fn hot_item_titled(it: crate::platform::zhihu::model::HotItem) -> bool {
    it.target.title_area.text@.len() > 0
}

/// The hot list keeps exactly the items that have a title, whatever their
/// excerpt, in order: one row per titled item, titled by it, with its excerpt
/// as subtitle and the question its link names; every row has a title.
pub proof fn law_hot_rows_keep_titled_items(items: Seq<crate::platform::zhihu::model::HotItem>)
    ensures
        hot_rows(items).len() == items.filter(|it: crate::platform::zhihu::model::HotItem| hot_item_titled(it)).len(),
        forall|k: int| 0 <= k < hot_rows(items).len() ==> (#[trigger] hot_rows(items)[k]).0.len() > 0,
        (forall|k: int| 0 <= k < items.len() ==> hot_item_titled(#[trigger] items[k])) ==> hot_rows(items)
            == Seq::new(
            items.len(),
            |k: int|
                (
                    items[k].target.title_area.text@,
                    items[k].target.excerpt_area.text@,
                    spec_question_id(items[k].target.link.url@),
                ),
        ),
    decreases items.len(),
{
    reveal(Seq::filter);
    if items.len() > 0 {
        let init = items.drop_last();
        law_hot_rows_keep_titled_items(init);
        let prev = hot_rows(init);
        let r = hot_rows(items);
        assert forall|k: int| 0 <= k < r.len() implies (#[trigger] r[k]).0.len() > 0 by {
            if k < prev.len() {
                assert(r[k] == prev[k]);
            }
        }
        if forall|k: int| 0 <= k < items.len() ==> hot_item_titled(#[trigger] items[k]) {
            assert forall|k: int| 0 <= k < init.len() implies hot_item_titled(#[trigger] init[k]) by {
                assert(init[k] == items[k]);
            }
            assert(hot_item_titled(items[items.len() - 1]));
            let want = Seq::new(
                items.len(),
                |k: int|
                    (
                        items[k].target.title_area.text@,
                        items[k].target.excerpt_area.text@,
                        spec_question_id(items[k].target.link.url@),
                    ),
            );
            assert(r =~= want);
        }
    }
}

/// The rows of the hot list.
pub fn hot_entries(resp: &HotListResponse) -> (r: Vec<ListEntry>)
    ensures
        r@.map_values(|e: ListEntry| row_view(e)) == hot_rows(resp.data@),
        forall|i: int| 0 <= i < r@.len() ==> (#[trigger] r@[i]).detail is None,
{
    let items = &resp.data;
    let mut out: Vec<ListEntry> = Vec::new();
    let mut i: usize = 0;
    assert(out@.map_values(|e: ListEntry| row_view(e)) =~= hot_rows(items@.take(0)));
    while i < items.len()
        invariant
            i <= items@.len(),
            out@.map_values(|e: ListEntry| row_view(e)) == hot_rows(items@.take(i as int)),
            forall|k: int| 0 <= k < out@.len() ==> (#[trigger] out@[k]).detail is None,
        decreases items@.len() - i,
    {
        assert(items@.take(i + 1).drop_last() =~= items@.take(i as int));
        let t = &items[i].target;
        if !t.title_area.text.as_str().is_empty() {
            let ghost before = out@.map_values(|e: ListEntry| row_view(e));
            let e = ListEntry {
                title: t.title_area.text.clone(),
                subtitle: t.excerpt_area.text.clone(),
                open_token: question_id_from_url(t.link.url.as_str()),
                detail: None,
            };
            out.push(e);
            assert(out@.map_values(|e: ListEntry| row_view(e)) =~= before.push(row_view(e)));
        }
        i += 1;
    }
    assert(items@.take(items@.len() as int) =~= items@);
    out
}

/// The raw title of a search result: its highlighted title when not empty,
/// else its question's name when not empty, else the object's title.
pub open spec fn search_raw_title(it: SearchItem) -> Seq<char> {
    let obj = it.object->0;
    match it.highlight {
        Some(h) if h.title@.len() > 0 => h.title@,
        _ => match obj.question {
            Some(q) if q.name@.len() > 0 => q.name@,
            _ => obj.title@,
        },
    }
}

/// The row of a search item: only results of type `search_result` with an
/// object and a title (without `<em>` tags) that is not empty; it opens the
/// question when one with an id is given.
pub open spec fn search_row(it: SearchItem) -> Option<(Seq<char>, Seq<char>, Option<Seq<char>>)> {
    if it.kind@ != "search_result"@ || it.object is None {
        None
    } else {
        let title = spec_strip_em(search_raw_title(it));
        if title.len() == 0 {
            None
        } else {
            Some((
                title,
                Seq::empty(),
                match it.object->0.question {
                    Some(q) if q.id@.len() > 0 => Some(q.id@),
                    _ => None,
                },
            ))
        }
    }
}

pub open spec fn search_rows(items: Seq<SearchItem>) -> Seq<(Seq<char>, Seq<char>, Option<Seq<char>>)>
    decreases items.len(),
{
    if items.len() == 0 {
        Seq::empty()
    } else {
        search_rows(items.drop_last()) + match search_row(items.last()) {
            Some(r) => seq![r],
            None => Seq::empty(),
        }
    }
}

fn search_row_exec(it: &SearchItem) -> (r: Option<ListEntry>)
    ensures
        match r {
            Some(e) => search_row(*it) == Some(row_view(e)) && e.detail is None,
            None => search_row(*it) is None,
        },
{
    if !eq_str(&chars_of(it.kind.as_str()), "search_result") {
        return None;
    }
    let obj = match &it.object {
        Some(o) => o,
        None => {
            return None;
        },
    };
    let raw: &String = match &it.highlight {
        Some(h) if !h.title.as_str().is_empty() => &h.title,
        _ => match &obj.question {
            Some(q) if !q.name.as_str().is_empty() => &q.name,
            _ => &obj.title,
        },
    };
    let title = strip_em(raw.as_str());
    if title.as_str().is_empty() {
        return None;
    }
    let token: Option<String> = match &obj.question {
        Some(q) if !q.id.as_str().is_empty() => Some(q.id.clone()),
        _ => None,
    };
    Some(ListEntry { title, subtitle: String::new(), open_token: token, detail: None })
}

/// The rows of a search reply.
pub fn search_entries(resp: &SearchResponse) -> (r: Vec<ListEntry>)
    ensures
        r@.map_values(|e: ListEntry| row_view(e)) == search_rows(resp.data@),
        forall|i: int| 0 <= i < r@.len() ==> (#[trigger] r@[i]).detail is None,
{
    let items = &resp.data;
    let mut out: Vec<ListEntry> = Vec::new();
    let mut i: usize = 0;
    assert(out@.map_values(|e: ListEntry| row_view(e)) =~= search_rows(items@.take(0)));
    while i < items.len()
        invariant
            i <= items@.len(),
            out@.map_values(|e: ListEntry| row_view(e)) == search_rows(items@.take(i as int)),
            forall|k: int| 0 <= k < out@.len() ==> (#[trigger] out@[k]).detail is None,
        decreases items@.len() - i,
    {
        assert(items@.take(i + 1).drop_last() =~= items@.take(i as int));
        match search_row_exec(&items[i]) {
            Some(e) => {
                let ghost before = out@.map_values(|e: ListEntry| row_view(e));
                out.push(e);
                assert(out@.map_values(|e: ListEntry| row_view(e)) =~= before.push(row_view(e)));
            },
            None => {},
        }
        i += 1;
    }
    assert(items@.take(items@.len() as int) =~= items@);
    out
}

/// An answer as shown: its author, votes, its text with `【图N】` markers,
/// the URLs of its images, and its id.
pub open spec fn answer_shown(d: DetailView, a: Answer) -> bool {
    &&& d.author@ == a.author.name@
    &&& d.voteup == a.voteup_count
    &&& d.body@ == trim(image_text_fold(fragment_nodes(a.content@, image_attrs())).0)
    &&& strs(d.images@) == image_text_fold(fragment_nodes(a.content@, image_attrs())).1
    &&& d.answer_id@ == a.id@
}

/// The answers of a question reply, in order.
pub fn answer_views(resp: &AnswersResponse) -> (r: Vec<DetailView>)
    ensures
        r@.len() == resp.data@.len(),
        forall|i: int| 0 <= i < r@.len() ==> answer_shown(#[trigger] r@[i], resp.data@[i].target),
{
    let mut out: Vec<DetailView> = Vec::new();
    let mut i: usize = 0;
    while i < resp.data.len()
        invariant
            i <= resp.data@.len(),
            out@.len() == i,
            forall|k: int| 0 <= k < i ==> answer_shown(#[trigger] out@[k], resp.data@[k].target),
        decreases resp.data@.len() - i,
    {
        let a = &resp.data[i].target;
        let (body, images) = to_text_and_images(a.content.as_str());
        out.push(DetailView {
            author: a.author.name.clone(),
            voteup: a.voteup_count,
            body,
            images,
            answer_id: a.id.clone(),
        });
        i += 1;
    }
    out
}

/// A comment as shown: its author, text, likes and replies.
pub open spec fn comment_shown(v: CommentView, c: Comment) -> bool {
    &&& v.author@ == c.author.name@
    &&& v.body@ == trim(text_fold(fragment_nodes(c.content@, Seq::empty())))
    &&& v.like_count == c.like_count
    &&& v.child_count == c.child_comment_count
}

/// The comments of an answer reply, in order.
pub fn comment_views(resp: &CommentResponse) -> (r: Vec<CommentView>)
    ensures
        r@.len() == resp.data@.len(),
        forall|i: int| 0 <= i < r@.len() ==> comment_shown(#[trigger] r@[i], resp.data@[i]),
{
    let mut out: Vec<CommentView> = Vec::new();
    let mut i: usize = 0;
    while i < resp.data.len()
        invariant
            i <= resp.data@.len(),
            out@.len() == i,
            forall|k: int| 0 <= k < i ==> comment_shown(#[trigger] out@[k], resp.data@[k]),
        decreases resp.data@.len() - i,
    {
        let c = &resp.data[i];
        out.push(CommentView {
            author: c.author.name.clone(),
            body: crate::platform::zhihu::html::to_text(c.content.as_str()),
            like_count: c.like_count,
            child_count: c.child_comment_count,
        });
        i += 1;
    }
    out
}

/// The API path of the hot list.
pub open spec fn hot_list_path() -> Seq<char> {
    "/api/v3/feed/topstory/hot-lists/total?limit=50&desktop=true"@
}

/// The API path of the hot list.
pub fn hot_list_api_path() -> (s: &'static str)
    ensures
        s@ == hot_list_path(),
{
    "/api/v3/feed/topstory/hot-lists/total?limit=50&desktop=true"
}

/// The API path of a search for `query`.
pub fn search_path(query: &str) -> (r: String)
    ensures
        r@ == "/api/v4/search_v3?t=general&q="@ + percent_encode(query.spec_bytes()) + "&offset=0&limit=20"@,
{
    let mut out = chars_of("/api/v4/search_v3?t=general&q=");
    append_chars(&mut out, &chars_of(urlencode(query).as_str()));
    append_chars(&mut out, &chars_of("&offset=0&limit=20"));
    string_of(out.as_slice())
}

/// The API path of the answers of a question.
pub fn answers_path(question_id: &str) -> (r: String)
    ensures
        r@ == "/api/v4/questions/"@ + question_id@ + "/feeds?include=data%5B%2A%5D.content&limit=10&offset=0"@,
{
    let mut out = chars_of("/api/v4/questions/");
    append_chars(&mut out, &chars_of(question_id));
    append_chars(&mut out, &chars_of("/feeds?include=data%5B%2A%5D.content&limit=10&offset=0"));
    string_of(out.as_slice())
}

/// The API path of the root comments of an answer.
pub fn comments_path(answer_id: &str) -> (r: String)
    ensures
        r@ == "/api/v4/comment_v5/answers/"@ + answer_id@ + "/root_comment?order_by=score&limit=100"@,
{
    let mut out = chars_of("/api/v4/comment_v5/answers/");
    append_chars(&mut out, &chars_of(answer_id));
    append_chars(&mut out, &chars_of("/root_comment?order_by=score&limit=100"));
    string_of(out.as_slice())
}

/// The `d_c0` field a Zhihu client needs from the cookie; an error telling
/// the user to copy the cookie again when it is missing.
pub fn cookie_d_c0(cookie: &str) -> (r: Result<String, String>)
    ensures
        spec_field(cookie@, "d_c0"@) is Some <==> r is Ok,
        r matches Ok(v) ==> v@ == spec_field(cookie@, "d_c0"@)->0,
        r matches Err(e) ==> e@ == "cookie missing d_c0 — re-copy it from the browser"@,
{
    match field(cookie, "d_c0") {
        Some(v) => Ok(v),
        None => Err(string_of(chars_of("cookie missing d_c0 — re-copy it from the browser").as_slice())),
    }
}

} // verus!
