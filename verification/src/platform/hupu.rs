use vstd::prelude::*;

use crate::platform::html::{
    attr_at, attr_of, first_match_content, first_match_text_and_images, nested_view, select_nested,
    selected_nested, subtree_text, text_of, SpecHtmlNode,
};
use crate::platform::{is_link_row, DetailView, ListEntry};
use crate::text::{
    append_chars, ascii_alnum, chars_of, is_ascii_alnum, rstrip_pat, rstrip_pat_chars, starts_with,
    starts_with_str, string_of, strs, trim, trim_chars,
};

verus! {

/// First index at or after `j` that is not an ASCII letter, digit or `_`.
pub open spec fn skip_word(s: Seq<char>, j: int) -> int
    decreases s.len() - j,
{
    if 0 <= j < s.len() && (is_ascii_alnum(s[j]) || s[j] == '_') {
        skip_word(s, j + 1)
    } else {
        j
    }
}

pub proof fn lemma_skip_word(s: Seq<char>, j: int)
    requires
        0 <= j,
    ensures
        j <= skip_word(s, j),
        j <= s.len() ==> skip_word(s, j) <= s.len(),
    decreases s.len() - j,
{
    if 0 <= j < s.len() && (is_ascii_alnum(s[j]) || s[j] == '_') {
        lemma_skip_word(s, j + 1);
    }
}

/// `s[i..]` without the dynamic CSS-class tokens Hupu mixes into its pages: a
/// `__` followed by word characters is dropped; a `"` or space right after
/// such a token is kept.
pub open spec fn demangle_from(s: Seq<char>, i: int) -> Seq<char>
    decreases s.len() - i,
{
    if i < 0 || i >= s.len() {
        Seq::empty()
    } else if s[i] == '_' && i + 1 < s.len() && s[i + 1] == '_' {
        let j = skip_word(s, i + 2);
        proof {
            lemma_skip_word(s, i + 2);
        }
        if j < s.len() && (s[j] == '"' || s[j] == ' ') {
            seq![s[j]] + demangle_from(s, j + 1)
        } else {
            demangle_from(s, j)
        }
    } else {
        seq![s[i]] + demangle_from(s, i + 1)
    }
}

/// Remove Hupu's CSS-mangling tokens (`__abc"` / `__abc `) from a page.
pub fn strip_css_mangle(s: &str) -> (r: String)
    ensures
        r@ == demangle_from(s@, 0),
{
    let v = chars_of(s);
    let n = v.len();
    let mut out: Vec<char> = Vec::new();
    let mut i: usize = 0;
    while i < n
        invariant
            n == v@.len(),
            i <= n,
            out@ + demangle_from(v@, i as int) == demangle_from(v@, 0),
        decreases n - i,
    {
        let ghost o = out@;
        if v[i] == '_' && i + 1 < n && v[i + 1] == '_' {
            let mut j = i + 2;
            proof {
                lemma_skip_word(v@, i + 2);
            }
            while j < n && (ascii_alnum(v[j]) || v[j] == '_')
                invariant
                    n == v@.len(),
                    i + 2 <= j <= n,
                    skip_word(v@, i + 2) == skip_word(v@, j as int),
                decreases n - j,
            {
                j = j + 1;
            }
            if j < n && (v[j] == '"' || v[j] == ' ') {
                out.push(v[j]);
                assert(o + (seq![v@[j as int]] + demangle_from(v@, j + 1)) =~= out@ + demangle_from(v@, j + 1));
                i = j + 1;
            } else {
                i = j;
            }
        } else {
            out.push(v[i]);
            assert(o + (seq![v@[i as int]] + demangle_from(v@, i + 1)) =~= out@ + demangle_from(v@, i + 1));
            i = i + 1;
        }
    }
    assert(out@ + demangle_from(v@, i as int) =~= out@);
    string_of(out.as_slice())
}

/// The thread links of a board page, and the title inside each.
pub open spec fn thread_link_selector() -> Seq<char> {
    ".text-list-model .list-item a"@
}

pub open spec fn thread_title_selector() -> Seq<char> {
    ".t-title"@
}

/// The row of one thread link: the text of its title, trimmed, and its
/// `href`, trimmed and made to start with `/` unless it is a full URL; `None`
/// when either is empty.
pub open spec fn thread_row(link: (Seq<SpecHtmlNode>, Option<Seq<SpecHtmlNode>>)) -> Option<(Seq<char>, Seq<char>)> {
    let title = match link.1 {
        Some(t) => trim(subtree_text(t)),
        None => Seq::empty(),
    };
    let href0 = trim(
        match (if link.0.len() > 0 { attr_at(link.0[0], 0) } else { None }) {
            Some(h) => h,
            None => Seq::empty(),
        },
    );
    let href = if href0.len() > 0 && !starts_with(href0, "http"@) && !starts_with(href0, "/"@) {
        "/"@ + href0
    } else {
        href0
    };
    if title.len() == 0 || href.len() == 0 {
        None
    } else {
        Some((title, href))
    }
}

pub open spec fn thread_rows(links: Seq<(Seq<SpecHtmlNode>, Option<Seq<SpecHtmlNode>>)>) -> Seq<(Seq<char>, Seq<char>)>
    decreases links.len(),
{
    if links.len() == 0 {
        Seq::empty()
    } else {
        thread_rows(links.drop_last()) + match thread_row(links.last()) {
            Some(r) => seq![r],
            None => Seq::empty(),
        }
    }
}

/// The rows of a Hupu board page.
pub open spec fn hupu_rows(raw: Seq<char>) -> Seq<(Seq<char>, Seq<char>)> {
    match selected_nested(raw, thread_link_selector(), thread_title_selector(), seq!["href"@]) {
        Some(links) => thread_rows(links),
        None => Seq::empty(),
    }
}

/// Reads the thread list of a Hupu board page.
pub fn parse_list(html: &str) -> (rows: Vec<ListEntry>)
    ensures
        rows@.len() == hupu_rows(html@).len(),
        forall|i: int|
            0 <= i < rows@.len() ==> is_link_row(
                #[trigger] rows@[i],
                hupu_rows(html@)[i].0,
                hupu_rows(html@)[i].1,
            ),
{
    let mut names: Vec<String> = Vec::new();
    names.push(String::from_str("href"));
    assert(strs(names@) =~= seq!["href"@]);
    let mut rows: Vec<ListEntry> = Vec::new();
    let links = match select_nested(html, ".text-list-model .list-item a", ".t-title", &names) {
        Some(v) => v,
        None => {
            return rows;
        },
    };
    let ghost views = nested_view(links@);
    let mut i: usize = 0;
    while i < links.len()
        invariant
            i <= links@.len(),
            views == nested_view(links@),
            views == match selected_nested(html@, thread_link_selector(), thread_title_selector(), seq!["href"@]) {
                Some(s) => s,
                None => Seq::empty(),
            },
            rows@.len() == thread_rows(views.take(i as int)).len(),
            forall|k: int|
                0 <= k < rows@.len() ==> is_link_row(
                    #[trigger] rows@[k],
                    thread_rows(views.take(i as int))[k].0,
                    thread_rows(views.take(i as int))[k].1,
                ),
        decreases links@.len() - i,
    {
        let (outer, inner) = &links[i];
        assert(views.take(i + 1).drop_last() =~= views.take(i as int));
        let title: Vec<char> = match inner {
            Some(t) => {
                let text = text_of(t);
                trim_chars(&text)
            },
            None => Vec::new(),
        };
        let href_raw: Vec<char> = if outer.len() > 0 {
            match attr_of(&outer[0], 0) {
                Some(h) => chars_of(h.as_str()),
                None => Vec::new(),
            }
        } else {
            Vec::new()
        };
        let href0 = trim_chars(&href_raw);
        let href = if href0.len() > 0 && !starts_with_str(&href0, "http") && !starts_with_str(&href0, "/") {
            let mut h = chars_of("/");
            append_chars(&mut h, &href0);
            h
        } else {
            href0
        };
        if title.len() > 0 && href.len() > 0 {
            rows.push(ListEntry {
                title: string_of(title.as_slice()),
                subtitle: String::new(),
                open_token: Some(string_of(href.as_slice())),
                detail: None,
            });
        }
        i += 1;
    }
    assert(views.take(links@.len() as int) =~= views);
    rows
}

/// The post body of a Hupu thread page, read after its CSS-mangling tokens are
/// removed.
pub open spec fn hupu_post_selector() -> Seq<char> {
    ".index_bbs-post-web-body-left-wrapper"@
}

/// Reads the first post of a Hupu thread page: the text and images of its body.
pub fn parse_detail(html: &str) -> (d: DetailView)
    ensures
        d.author@.len() == 0,
        d.voteup == 0,
        d.body@ == first_match_content(demangle_from(html@, 0), hupu_post_selector()).0,
        strs(d.images@) == first_match_content(demangle_from(html@, 0), hupu_post_selector()).1,
        d.answer_id@.len() == 0,
{
    let cleaned = strip_css_mangle(html);
    let (body, images) = first_match_text_and_images(cleaned.as_str(), ".index_bbs-post-web-body-left-wrapper");
    DetailView { author: String::new(), voteup: 0, body, images, answer_id: String::new() }
}

/// The aggregation boards that "load more" walks through in turn (the list
/// pages have no paging of their own).
pub open spec fn hupu_boards() -> Seq<Seq<char>> {
    seq![
        "all-gambia"@,
        "all-nba"@,
        "all-digital"@,
        "all-soccer"@,
        "all-ent"@,
        "all-game"@,
        "all-cba"@,
        "all-selling"@,
    ]
}

fn hupu_board(k: usize) -> (r: &'static str)
    requires
        k < 8,
    ensures
        r@ == hupu_boards()[k as int],
{
    if k == 0 {
        "all-gambia"
    } else if k == 1 {
        "all-nba"
    } else if k == 2 {
        "all-digital"
    } else if k == 3 {
        "all-soccer"
    } else if k == 4 {
        "all-ent"
    } else if k == 5 {
        "all-game"
    } else if k == 6 {
        "all-cba"
    } else {
        "all-selling"
    }
}

/// The page of board number `board`, counted round the boards.
pub fn list_url(board: usize) -> (r: String)
    ensures
        r@ == "https://bbs.hupu.com/"@ + hupu_boards()[(board % 8) as int],
{
    let mut out = chars_of("https://bbs.hupu.com/");
    let b = chars_of(hupu_board(board % 8));
    append_chars(&mut out, &b);
    string_of(out.as_slice())
}

/// The page of a thread: the token as is when it is a full URL, else under the
/// site, always ending in a single `.html`.
pub fn detail_url(token: &str) -> (r: String)
    ensures
        r@ == rstrip_pat(
            if starts_with(token@, "http"@) {
                token@
            } else {
                "https://bbs.hupu.com"@ + token@
            },
            ".html"@,
        ) + ".html"@,
{
    let t = chars_of(token);
    let url = if starts_with_str(&t, "http") {
        t
    } else {
        let mut out = chars_of("https://bbs.hupu.com");
        append_chars(&mut out, &t);
        out
    };
    let suffix = chars_of(".html");
    let mut stripped = rstrip_pat_chars(&url, &suffix);
    append_chars(&mut stripped, &suffix);
    string_of(stripped.as_slice())
}

} // verus!
