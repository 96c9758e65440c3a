use vstd::prelude::*;

use crate::platform::html::{
    fragment_nodes, image_attrs, image_text_fold, select_inner_html, selected_inner_html,
    to_text_and_images,
};
use crate::platform::{is_link_row, DetailView, ListEntry};
use crate::text::{
    append_chars, chars_of, decimal, decimal_chars, starts_with, starts_with_str, string_of, strs,
    trim, trim_chars, trim_str,
};

verus! {

/// One thread of the Tieba home feed, as the feed's JSON gives it (absent
/// fields are empty).
#[derive(Debug, Clone, Default)]
pub struct FeedItem {
    pub title: String,
    pub fname: String,
    pub forum_name: String,
    pub forumname: String,
    pub thread_id: String,
    pub tid: String,
    pub detail_url: String,
    pub url: String,
    pub abs: String,
    pub summary: String,
    pub content: String,
}

/// The `data` object of the feed.
#[derive(Debug, Clone, Default)]
pub struct HotMessageData {
    pub info: Vec<FeedItem>,
}

/// The whole feed reply: `no` is 0 on success, `error` says why not.
#[derive(Debug, Clone, Default)]
pub struct HotMessageResponse {
    pub no: i64,
    pub error: String,
    pub data: HotMessageData,
}

/// The site that relative links are resolved against.
pub open spec fn tieba_base() -> Seq<char> {
    "https://tieba.baidu.com"@
}

/// The first of `cands` that is not blank, trimmed; empty if all are.
pub open spec fn first_nonblank(cands: Seq<Seq<char>>) -> Seq<char>
    decreases cands.len(),
{
    if cands.len() == 0 {
        Seq::empty()
    } else if trim(cands[0]).len() > 0 {
        trim(cands[0])
    } else {
        first_nonblank(cands.drop_first())
    }
}

fn first_nonblank_of(cands: &Vec<&String>) -> (r: String)
    ensures
        r@ == first_nonblank(cands@.map_values(|s: &String| s@)),
{
    let ghost all = cands@.map_values(|s: &String| s@);
    let mut k: usize = 0;
    assert(all.subrange(0, all.len() as int) =~= all);
    while k < cands.len()
        invariant
            k <= cands@.len(),
            all == cands@.map_values(|s: &String| s@),
            first_nonblank(all) == first_nonblank(all.subrange(k as int, all.len() as int)),
        decreases cands@.len() - k,
    {
        let ghost rest = all.subrange(k as int, all.len() as int);
        assert(rest.drop_first() =~= all.subrange(k + 1, all.len() as int));
        let t = trim_str(cands[k].as_str());
        if !t.as_str().is_empty() {
            return t;
        }
        k += 1;
    }
    String::new()
}

/// The forum of a feed item: `fname`, `forum_name` or `forumname`.
pub open spec fn forum_name_spec(it: FeedItem) -> Seq<char> {
    first_nonblank(seq![it.fname@, it.forum_name@, it.forumname@])
}

/// The thread title of a feed item: `title`, `summary`, `abs` or `content`.
pub open spec fn thread_title_spec(it: FeedItem) -> Seq<char> {
    first_nonblank(seq![it.title@, it.summary@, it.abs@, it.content@])
}

/// The thread id of a feed item: `thread_id` or `tid`.
pub open spec fn thread_id_spec(it: FeedItem) -> Seq<char> {
    first_nonblank(seq![it.thread_id@, it.tid@])
}

/// A link made absolute against the site.
pub open spec fn absolutize_spec(url: Seq<char>) -> Seq<char> {
    if starts_with(url, "http://"@) || starts_with(url, "https://"@) {
        url
    } else if starts_with(url, "/"@) {
        tieba_base() + url
    } else {
        tieba_base() + "/"@ + url
    }
}

/// The thread page of a feed item: its own link, made absolute, or else the
/// page of its thread id; empty if it has neither.
pub open spec fn detail_url_spec(it: FeedItem) -> Seq<char> {
    let own = first_nonblank(seq![it.detail_url@, it.url@]);
    if own.len() > 0 {
        absolutize_spec(own)
    } else if thread_id_spec(it).len() > 0 {
        tieba_base() + "/p/"@ + thread_id_spec(it)
    } else {
        Seq::empty()
    }
}

pub fn forum_name(it: &FeedItem) -> (r: String)
    ensures
        r@ == forum_name_spec(*it),
{
    let v: Vec<&String> = vec![&it.fname, &it.forum_name, &it.forumname];
    assert(v@.map_values(|s: &String| s@) =~= seq![it.fname@, it.forum_name@, it.forumname@]);
    first_nonblank_of(&v)
}

pub fn thread_title(it: &FeedItem) -> (r: String)
    ensures
        r@ == thread_title_spec(*it),
{
    let v: Vec<&String> = vec![&it.title, &it.summary, &it.abs, &it.content];
    assert(v@.map_values(|s: &String| s@) =~= seq![it.title@, it.summary@, it.abs@, it.content@]);
    first_nonblank_of(&v)
}

pub fn thread_id(it: &FeedItem) -> (r: String)
    ensures
        r@ == thread_id_spec(*it),
{
    let v: Vec<&String> = vec![&it.thread_id, &it.tid];
    assert(v@.map_values(|s: &String| s@) =~= seq![it.thread_id@, it.tid@]);
    first_nonblank_of(&v)
}

/// Makes a link absolute against `https://tieba.baidu.com`.
pub fn absolutize(url: &str) -> (r: String)
    ensures
        r@ == absolutize_spec(url@),
{
    let u = chars_of(url);
    if starts_with_str(&u, "http://") || starts_with_str(&u, "https://") {
        return string_of(u.as_slice());
    }
    let mut out = chars_of("https://tieba.baidu.com");
    if !starts_with_str(&u, "/") {
        out.push('/');
        assert(out@ =~= tieba_base() + "/"@) by {
            reveal_strlit("/");
        }
    }
    append_chars(&mut out, &u);
    string_of(out.as_slice())
}

pub fn detail_url(it: &FeedItem) -> (r: String)
    ensures
        r@ == detail_url_spec(*it),
{
    let v: Vec<&String> = vec![&it.detail_url, &it.url];
    assert(v@.map_values(|s: &String| s@) =~= seq![it.detail_url@, it.url@]);
    let own = first_nonblank_of(&v);
    if !own.as_str().is_empty() {
        return absolutize(own.as_str());
    }
    let tid = thread_id(it);
    if tid.as_str().is_empty() {
        return String::new();
    }
    let mut out = chars_of("https://tieba.baidu.com/p/");
    assert(out@ =~= tieba_base() + "/p/"@) by {
        reveal_strlit("https://tieba.baidu.com/p/");
        reveal_strlit("https://tieba.baidu.com");
        reveal_strlit("/p/");
    }
    let t = chars_of(tid.as_str());
    append_chars(&mut out, &t);
    string_of(out.as_slice())
}

/// The decimal text of a signed integer.
pub open spec fn signed_decimal(n: int) -> Seq<char> {
    if n < 0 {
        seq!['-'] + decimal((-n) as nat)
    } else {
        decimal(n as nat)
    }
}

pub fn i64_decimal(n: i64) -> (r: Vec<char>)
    ensures
        r@ == signed_decimal(n as int),
{
    if n < 0 {
        let m: u64 = ((-(n + 1)) as u64) + 1;
        let mut r: Vec<char> = Vec::new();
        r.push('-');
        let d = decimal_chars(m);
        append_chars(&mut r, &d);
        r
    } else {
        decimal_chars(n as u64)
    }
}

/// The list row of a feed item, `《forum》- title` and its thread link, or
/// `None` when its forum, title or link is empty.
pub open spec fn feed_row(it: FeedItem) -> Option<(Seq<char>, Seq<char>)> {
    let forum = forum_name_spec(it);
    let title = thread_title_spec(it);
    let url = detail_url_spec(it);
    if forum.len() == 0 || title.len() == 0 || url.len() == 0 {
        None
    } else {
        Some(("《"@ + forum + "》- "@ + title, url))
    }
}

/// The rows of the feed items that have one, in order.
pub open spec fn feed_rows(items: Seq<FeedItem>) -> Seq<(Seq<char>, Seq<char>)>
    decreases items.len(),
{
    if items.len() == 0 {
        Seq::empty()
    } else {
        feed_rows(items.drop_last()) + match feed_row(items.last()) {
            Some(r) => seq![r],
            None => Seq::empty(),
        }
    }
}

/// The message of a feed reply that reports an error.
pub open spec fn feed_error(resp: HotMessageResponse) -> Seq<char> {
    "贴吧首页推送接口返回异常: "@ + if resp.error@.len() == 0 {
        "no="@ + signed_decimal(resp.no as int)
    } else {
        resp.error@
    }
}

/// The rows of the Tieba home feed: an error when the reply reports one, else
/// one row per thread that has a forum, a title and a link.
pub fn parse_list(resp: &HotMessageResponse) -> (r: Result<Vec<ListEntry>, String>)
    ensures
        resp.no != 0 <==> r is Err,
        r matches Err(e) ==> e@ == feed_error(*resp),
        r matches Ok(rows) ==> rows@.len() == feed_rows(resp.data.info@).len() && forall|i: int|
            0 <= i < rows@.len() ==> is_link_row(
                #[trigger] rows@[i],
                feed_rows(resp.data.info@)[i].0,
                feed_rows(resp.data.info@)[i].1,
            ),
{
    if resp.no != 0 {
        let mut msg = chars_of("贴吧首页推送接口返回异常: ");
        if resp.error.as_str().is_empty() {
            let tag = chars_of("no=");
            append_chars(&mut msg, &tag);
            let d = i64_decimal(resp.no);
            append_chars(&mut msg, &d);
        } else {
            let e = chars_of(resp.error.as_str());
            append_chars(&mut msg, &e);
        }
        return Err(string_of(msg.as_slice()));
    }
    let items = &resp.data.info;
    let mut out: Vec<ListEntry> = Vec::new();
    let mut i: usize = 0;
    while i < items.len()
        invariant
            i <= items@.len(),
            out@.len() == feed_rows(items@.take(i as int)).len(),
            forall|k: int|
                0 <= k < out@.len() ==> is_link_row(
                    #[trigger] out@[k],
                    feed_rows(items@.take(i as int))[k].0,
                    feed_rows(items@.take(i as int))[k].1,
                ),
        decreases items@.len() - i,
    {
        let it = &items[i];
        let forum = forum_name(it);
        let title = thread_title(it);
        let url = detail_url(it);
        assert(items@.take(i + 1).drop_last() =~= items@.take(i as int));
        if !(forum.as_str().is_empty() || title.as_str().is_empty() || url.as_str().is_empty()) {
            let mut t = chars_of("《");
            let f = chars_of(forum.as_str());
            append_chars(&mut t, &f);
            let mid = chars_of("》- ");
            append_chars(&mut t, &mid);
            let tt = chars_of(title.as_str());
            append_chars(&mut t, &tt);
            out.push(ListEntry {
                title: string_of(t.as_slice()),
                subtitle: String::new(),
                open_token: Some(url),
                detail: None,
            });
        }
        i += 1;
    }
    assert(items@.take(items@.len() as int) =~= items@);
    Ok(out)
}

/// The selectors tried in turn for the posts of a thread page.
pub open spec fn post_selectors() -> Seq<Seq<char>> {
    seq![".i"@, ".s_post"@, ".content"@, "#pblist .list"@, ".pb_content"@]
}

fn post_selector(j: usize) -> (r: &'static str)
    requires
        j < 5,
    ensures
        r@ == post_selectors()[j as int],
{
    if j == 0 {
        ".i"
    } else if j == 1 {
        ".s_post"
    } else if j == 2 {
        ".content"
    } else if j == 3 {
        "#pblist .list"
    } else {
        ".pb_content"
    }
}

/// The line that separates post `idx` (from 0) from the ones before it.
pub open spec fn post_separator(idx: nat) -> Seq<char> {
    "\n\n── #"@ + decimal(idx + 1) + " ──\n"@
}

/// Adds post `idx` (given by its inner HTML) to the body and images: its text
/// and images, unless it has neither; a separator goes before it when the body is not empty.
pub open spec fn add_post(acc: (Seq<char>, Seq<Seq<char>>), idx: nat, inner: Seq<char>) -> (
    Seq<char>,
    Seq<Seq<char>>,
) {
    let (body, images) = acc;
    let (t, imgs) = image_text_fold(fragment_nodes(inner, image_attrs()));
    let text = trim(trim(t));
    if text.len() == 0 && imgs.len() == 0 {
        acc
    } else {
        ((if body.len() > 0 { body + post_separator(idx) } else { body }) + text, images + imgs)
    }
}

/// The body and images after the first `k` posts of one selector.
pub open spec fn add_posts(acc: (Seq<char>, Seq<Seq<char>>), subs: Seq<Seq<char>>, k: int) -> (
    Seq<char>,
    Seq<Seq<char>>,
)
    decreases k,
{
    if k <= 0 || k > subs.len() {
        acc
    } else {
        add_post(add_posts(acc, subs, k - 1), (k - 1) as nat, subs[k - 1])
    }
}

/// The posts of the page under the selectors from `j` on: a selector whose
/// posts make a body that is not blank ends the search.
pub open spec fn scan_selectors(
    acc: (Seq<char>, Seq<Seq<char>>),
    results: Seq<Option<Seq<Seq<char>>>>,
    j: int,
) -> (Seq<char>, Seq<Seq<char>>)
    decreases results.len() - j,
{
    if j < 0 || j >= results.len() {
        acc
    } else {
        match results[j] {
            None => scan_selectors(acc, results, j + 1),
            Some(subs) => if subs.len() == 0 {
                scan_selectors(acc, results, j + 1)
            } else {
                let next = add_posts(acc, subs, subs.len() as int);
                if trim(next.0).len() > 0 {
                    next
                } else {
                    scan_selectors(next, results, j + 1)
                }
            },
        }
    }
}

/// The inner HTML of what each post selector selects in the page.
pub open spec fn post_results(raw: Seq<char>) -> Seq<Option<Seq<Seq<char>>>> {
    Seq::new(5, |j: int| selected_inner_html(raw, post_selectors()[j]))
}

/// The text shown when no post could be read from the page.
pub open spec fn tieba_fallback(token: Seq<char>) -> Seq<char> {
    "贴吧原帖链接："@ + token
        + "\n\n当前环境下贴吧正文页容易触发安全验证，列表采集正常时可先复制链接到浏览器查看。"@
}

/// The body of a thread page: its posts, or the fallback text.
pub open spec fn tieba_body(raw: Seq<char>, token: Seq<char>) -> Seq<char> {
    let body = scan_selectors((Seq::empty(), Seq::empty()), post_results(raw), 0).0;
    if trim(body).len() == 0 {
        trim(tieba_fallback(token))
    } else {
        trim(body)
    }
}

/// Appends the strings of `extra` to `v`.
fn extend_strings(v: &mut Vec<String>, extra: &Vec<String>)
    ensures
        strs(final(v)@) == strs(old(v)@) + strs(extra@),
{
    let mut m: usize = 0;
    while m < extra.len()
        invariant
            m <= extra@.len(),
            strs(v@) == strs(old(v)@) + strs(extra@.take(m as int)),
        decreases extra@.len() - m,
    {
        let ghost before = strs(v@);
        v.push(extra[m].clone());
        assert(strs(v@) =~= before.push(extra@[m as int]@));
        assert(strs(extra@.take(m + 1)) =~= strs(extra@.take(m as int)).push(extra@[m as int]@));
        m += 1;
    }
    assert(extra@.take(extra@.len() as int) =~= extra@);
}

fn add_post_exec(body: &mut Vec<char>, images: &mut Vec<String>, idx: usize, inner: &String)
    requires
        idx < u64::MAX,
    ensures
        (final(body)@, strs(final(images)@)) == add_post(
            (old(body)@, strs(old(images)@)),
            idx as nat,
            inner@,
        ),
{
    let (t, imgs) = to_text_and_images(inner.as_str());
    let text = trim_chars(&chars_of(t.as_str()));
    if text.len() == 0 && imgs.len() == 0 {
        return;
    }
    if body.len() > 0 {
        let sep1 = chars_of("\n\n── #");
        append_chars(body, &sep1);
        let d = decimal_chars(idx as u64 + 1);
        append_chars(body, &d);
        let sep2 = chars_of(" ──\n");
        append_chars(body, &sep2);
    }
    append_chars(body, &text);
    extend_strings(images, &imgs);
}

/// Reads the posts of a Tieba thread page: the first of the post selectors
/// whose posts give a body that is not blank wins; each post is its text and
/// images, posts after the first headed by `── #n ──`. Without any, the body
/// tells the reader to open `token` in a browser.
pub fn parse_detail(html: &str, token: &str) -> (d: DetailView)
    ensures
        d.author@.len() == 0,
        d.voteup == 0,
        d.body@ == tieba_body(html@, token@),
        strs(d.images@) == scan_selectors((Seq::empty(), Seq::empty()), post_results(html@), 0).1,
        d.answer_id@ == token@,
{
    let ghost results = post_results(html@);
    let mut body: Vec<char> = Vec::new();
    let mut images: Vec<String> = Vec::new();
    let mut j: usize = 0;
    let ghost target = scan_selectors((Seq::empty(), Seq::empty()), results, 0);
    assert(strs(images@) =~= Seq::<Seq<char>>::empty());
    while j < 5
        invariant_except_break
            j <= 5,
            results == post_results(html@),
            scan_selectors((body@, strs(images@)), results, j as int) == target,
        ensures
            (body@, strs(images@)) == target,
        decreases 5 - j,
    {
        let css = post_selector(j);
        let found = select_inner_html(html, css);
        assert(results[j as int] == selected_inner_html(html@, post_selectors()[j as int]));
        match found {
            None => {},
            Some(subs) => {
                if subs.len() > 0 {
                    let ghost acc0 = (body@, strs(images@));
                    let ghost views = strs(subs@);
                    let mut k: usize = 0;
                    while k < subs.len()
                        invariant
                            k <= subs@.len(),
                            views == strs(subs@),
                            (body@, strs(images@)) == add_posts(acc0, views, k as int),
                        decreases subs@.len() - k,
                    {
                        add_post_exec(&mut body, &mut images, k, &subs[k]);
                        k += 1;
                    }
                    let b = trim_chars(&body);
                    if b.len() > 0 {
                        assert(scan_selectors(acc0, results, j as int) == (body@, strs(images@)));
                        break;
                    }
                }
            },
        }
        j += 1;
    }
    let ghost acc = (body@, strs(images@));
    assert(acc == target);
    let trimmed = trim_chars(&body);
    let final_body = if trimmed.len() == 0 {
        let mut msg = chars_of("贴吧原帖链接：");
        let t = chars_of(token);
        append_chars(&mut msg, &t);
        let tail = chars_of("\n\n当前环境下贴吧正文页容易触发安全验证，列表采集正常时可先复制链接到浏览器查看。");
        append_chars(&mut msg, &tail);
        trim_chars(&msg)
    } else {
        trimmed
    };
    DetailView {
        author: String::new(),
        voteup: 0,
        body: string_of(final_body.as_slice()),
        images,
        answer_id: string_of(chars_of(token).as_slice()),
    }
}

/// The thread id a thread link names: what follows its first `/p/`, up to
/// a `?`, `#` or `/`; none without `/p/`.
pub open spec fn link_tid(token: Seq<char>) -> Option<Seq<char>> {
    match crate::text::find_pat_from(token, "/p/"@, 0) {
        None => None,
        Some(j) => Some(token.subrange(j + 3, crate::text::stop_index(token, seq!['?', '#', '/'], j + 3))),
    }
}

/// The page a thread is read from: the mobile page of its thread id, or the
/// link itself when it names no id.
pub open spec fn mobile_url_spec(token: Seq<char>) -> Seq<char> {
    match link_tid(token) {
        Some(tid) => if tid.len() > 0 {
            "https://tieba.baidu.com/mo/q/m?kz="@ + tid + "&word=&has_received=1"@
        } else {
            token
        },
        None => token,
    }
}

/// The page a thread is read from.
pub fn mobile_url(token: &str) -> (r: String)
    ensures
        r@ == mobile_url_spec(token@),
{
    let t = chars_of(token);
    let pat = chars_of("/p/");
    proof {
        reveal_strlit("/p/");
    }
    assert(pat@.len() == 3);
    match crate::text::find_pat(&t, &pat, 0) {
        None => string_of(t.as_slice()),
        Some(j) => {
            let n = t.len();
            assert(j + 3 <= n);
            let mut stops: Vec<char> = Vec::new();
            stops.push('?');
            stops.push('#');
            stops.push('/');
            assert(stops@ =~= seq!['?', '#', '/']);
            proof {
                crate::text::lemma_stop_index(t@, stops@, j + 3);
            }
            let tid = crate::text::take_until_any(&t, &stops, j + 3);
            if tid.len() == 0 {
                string_of(t.as_slice())
            } else {
                let mut out = chars_of("https://tieba.baidu.com/mo/q/m?kz=");
                append_chars(&mut out, &tid);
                append_chars(&mut out, &chars_of("&word=&has_received=1"));
                string_of(out.as_slice())
            }
        },
    }
}

} // verus!
