use vstd::prelude::*;

use crate::platform::html::{image_attrs, image_text_fold, fragment_nodes, to_text_and_images};
use crate::platform::{is_link_row, DetailView, ListEntry};
use crate::text::{
    match_at, matches_at, rstrip_pat, rstrip_pat_chars,
    append_chars, chars_of, decimal, decimal_chars, eq_str, replace_all, replace_chars, string_of,
    strs, trim, trim_chars, utf8_lossy, utf8_lossy_of,
};
use crate::xml::{events_view, read_xml_events, xml_events, SpecXmlEvent, XmlEvent};

verus! {

/// One `<item>` of an RSS feed.
pub struct RssItem {
    pub title: String,
    pub link: String,
    pub description: String,
}

/// What the feed reader has gathered so far.
pub struct RssScan {
    pub in_item: bool,
    /// The tag whose text is being read.
    pub cur: Seq<char>,
    pub title: Seq<char>,
    pub link: Seq<char>,
    pub desc: Seq<char>,
    /// Finished items: title, link, description.
    pub items: Seq<(Seq<char>, Seq<char>, Seq<char>)>,
}

/// Adds text read inside an item to the field its tag names.
pub open spec fn add_rss_field(st: RssScan, txt: Seq<char>) -> RssScan {
    if st.cur == "title"@ {
        RssScan { title: st.title + txt, ..st }
    } else if st.cur == "link"@ {
        RssScan { link: st.link + txt, ..st }
    } else if st.cur == "description"@ {
        RssScan { desc: st.desc + txt, ..st }
    } else {
        st
    }
}

/// One reader event of a feed: `<item>` starts an item, the text of its
/// `<title>`, `<link>` and `<description>` fills it, `</item>` ends it.
pub open spec fn rss_step(st: RssScan, e: SpecXmlEvent) -> RssScan {
    match e {
        SpecXmlEvent::Tag(false, name, _) => {
            let n = utf8_lossy_of(name);
            if n == "item"@ {
                RssScan { in_item: true, cur: n, title: Seq::empty(), link: Seq::empty(), desc: Seq::empty(), ..st }
            } else {
                RssScan { cur: n, ..st }
            }
        },
        SpecXmlEvent::Text(t) => if st.in_item {
            add_rss_field(st, match t { Some(v) => v, None => Seq::empty() })
        } else {
            st
        },
        SpecXmlEvent::CData(b) => if st.in_item {
            add_rss_field(st, utf8_lossy_of(b))
        } else {
            st
        },
        SpecXmlEvent::End(name) => {
            if utf8_lossy_of(name) == "item"@ && st.in_item {
                RssScan {
                    in_item: false,
                    cur: Seq::empty(),
                    items: st.items.push((st.title, st.link, st.desc)),
                    ..st
                }
            } else {
                RssScan { cur: Seq::empty(), ..st }
            }
        },
        _ => st,
    }
}

pub open spec fn rss_fold(es: Seq<SpecXmlEvent>) -> RssScan
    decreases es.len(),
{
    if es.len() == 0 {
        RssScan {
            in_item: false,
            cur: Seq::empty(),
            title: Seq::empty(),
            link: Seq::empty(),
            desc: Seq::empty(),
            items: Seq::empty(),
        }
    } else {
        rss_step(rss_fold(es.drop_last()), es.last())
    }
}

/// The items of an RSS feed.
pub open spec fn rss_items(rss: Seq<char>) -> Seq<(Seq<char>, Seq<char>, Seq<char>)> {
    rss_fold(xml_events(rss, true)).items
}

pub open spec fn item_view(it: RssItem) -> (Seq<char>, Seq<char>, Seq<char>) {
    (it.title@, it.link@, it.description@)
}

fn add_field_exec(cur: &Vec<char>, txt: &Vec<char>, title: &mut Vec<char>, link: &mut Vec<char>, desc: &mut Vec<char>)
    ensures
        ({
            let st = RssScan {
                in_item: true,
                cur: cur@,
                title: old(title)@,
                link: old(link)@,
                desc: old(desc)@,
                items: Seq::empty(),
            };
            let after = add_rss_field(st, txt@);
            &&& final(title)@ == after.title
            &&& final(link)@ == after.link
            &&& final(desc)@ == after.desc
        }),
{
    if eq_str(cur, "title") {
        append_chars(title, txt);
    } else if eq_str(cur, "link") {
        append_chars(link, txt);
    } else if eq_str(cur, "description") {
        append_chars(desc, txt);
    }
}

/// Reads the items of an RSS feed.
pub fn parse_items(rss: &str) -> (r: Vec<RssItem>)
    ensures
        r@.map_values(|it: RssItem| item_view(it)) == rss_items(rss@),
{
    let events = read_xml_events(rss, true);
    let ghost es = events_view(events@);
    let mut in_item = false;
    let mut cur: Vec<char> = Vec::new();
    let mut title: Vec<char> = Vec::new();
    let mut link: Vec<char> = Vec::new();
    let mut desc: Vec<char> = Vec::new();
    let mut items: Vec<RssItem> = Vec::new();
    let mut i: usize = 0;
    assert(es.take(0) =~= Seq::<SpecXmlEvent>::empty());
    assert(items@.map_values(|it: RssItem| item_view(it)) =~= Seq::<(Seq<char>, Seq<char>, Seq<char>)>::empty());
    while i < events.len()
        invariant
            i <= events@.len(),
            es == events_view(events@),
            es == xml_events(rss@, true),
            rss_fold(es.take(i as int)) == (RssScan {
                in_item,
                cur: cur@,
                title: title@,
                link: link@,
                desc: desc@,
                items: items@.map_values(|it: RssItem| item_view(it)),
            }),
        decreases events@.len() - i,
    {
        assert(es.take(i + 1).drop_last() =~= es.take(i as int));
        assert(es.take(i + 1).last() == crate::xml::event_view(events@[i as int]));
        match &events[i] {
            XmlEvent::Tag(empty, name, _) => {
                if !*empty {
                    let n = chars_of(utf8_lossy(name.as_slice()).as_str());
                    if eq_str(&n, "item") {
                        in_item = true;
                        title = Vec::new();
                        link = Vec::new();
                        desc = Vec::new();
                    }
                    cur = n;
                }
            },
            XmlEvent::Text(t) => {
                if in_item {
                    let txt = match t {
                        Some(v) => chars_of(v.as_str()),
                        None => Vec::new(),
                    };
                    add_field_exec(&cur, &txt, &mut title, &mut link, &mut desc);
                }
            },
            XmlEvent::CData(b) => {
                if in_item {
                    let txt = chars_of(utf8_lossy(b.as_slice()).as_str());
                    add_field_exec(&cur, &txt, &mut title, &mut link, &mut desc);
                }
            },
            XmlEvent::End(name) => {
                let n = chars_of(utf8_lossy(name.as_slice()).as_str());
                if eq_str(&n, "item") && in_item {
                    let ghost before = items@.map_values(|it: RssItem| item_view(it));
                    items.push(RssItem {
                        title: string_of(title.as_slice()),
                        link: string_of(link.as_slice()),
                        description: string_of(desc.as_slice()),
                    });
                    assert(items@.map_values(|it: RssItem| item_view(it)) =~= before.push((title@, link@, desc@)));
                    in_item = false;
                }
                cur = Vec::new();
            },
            XmlEvent::Other => {},
        }
        i += 1;
    }
    assert(es.take(events@.len() as int) =~= es);
    items
}

/// The rows of a feed: the items that have a title and a link.
pub open spec fn feed_rows(items: Seq<(Seq<char>, Seq<char>, Seq<char>)>) -> Seq<(Seq<char>, Seq<char>)>
    decreases items.len(),
{
    if items.len() == 0 {
        Seq::empty()
    } else {
        let it = items.last();
        feed_rows(items.drop_last()) + if it.0.len() == 0 || it.1.len() == 0 {
            Seq::empty()
        } else {
            seq![(it.0, it.1)]
        }
    }
}

/// Reads the topic list of the Linux.do feed: one row per item with a title
/// and a link.
pub fn parse_list(rss: &str) -> (rows: Vec<ListEntry>)
    ensures
        rows@.len() == feed_rows(rss_items(rss@)).len(),
        forall|i: int|
            0 <= i < rows@.len() ==> is_link_row(
                #[trigger] rows@[i],
                feed_rows(rss_items(rss@))[i].0,
                feed_rows(rss_items(rss@))[i].1,
            ),
{
    let items = parse_items(rss);
    let ghost its = items@.map_values(|it: RssItem| item_view(it));
    let mut rows: Vec<ListEntry> = Vec::new();
    let mut i: usize = 0;
    while i < items.len()
        invariant
            i <= items@.len(),
            its == items@.map_values(|it: RssItem| item_view(it)),
            rows@.len() == feed_rows(its.take(i as int)).len(),
            forall|k: int|
                0 <= k < rows@.len() ==> is_link_row(
                    #[trigger] rows@[k],
                    feed_rows(its.take(i as int))[k].0,
                    feed_rows(its.take(i as int))[k].1,
                ),
        decreases items@.len() - i,
    {
        assert(its.take(i + 1).drop_last() =~= its.take(i as int));
        let it = &items[i];
        if !(it.title.as_str().is_empty() || it.link.as_str().is_empty()) {
            rows.push(ListEntry {
                title: it.title.clone(),
                subtitle: String::new(),
                open_token: Some(it.link.clone()),
                detail: None,
            });
        }
        i += 1;
    }
    assert(its.take(items@.len() as int) =~= its);
    rows
}

/// A topic description without the "read the whole topic" link the feed
/// appends.
pub open spec fn clean_desc_spec(d: Seq<char>) -> Seq<char> {
    replace_all(replace_all(d, "<p><a href=\"\">阅读完整话题</a></p>"@, Seq::empty()), "阅读完整话题"@, Seq::empty())
}

pub fn clean_desc(d: &str) -> (r: String)
    ensures
        r@ == clean_desc_spec(d@),
{
    let s = chars_of(d);
    let p1 = chars_of("<p><a href=\"\">阅读完整话题</a></p>");
    let p2 = chars_of("阅读完整话题");
    let empty: Vec<char> = Vec::new();
    proof {
        reveal_strlit("<p><a href=\"\">阅读完整话题</a></p>");
        reveal_strlit("阅读完整话题");
    }
    let a = replace_chars(&s, &p1, &empty);
    let b = replace_chars(&a, &p2, &empty);
    string_of(b.as_slice())
}

/// The text and images of one post's description.
pub open spec fn post_content(desc: Seq<char>) -> (Seq<char>, Seq<Seq<char>>) {
    let r = image_text_fold(fragment_nodes(clean_desc_spec(desc), image_attrs()));
    (trim(r.0), r.1)
}

/// The replies of a topic, newest last in the feed, in reading order: the
/// items before the last one, from the one just before it backwards.
pub open spec fn replies_of(items: Seq<(Seq<char>, Seq<char>, Seq<char>)>) -> Seq<(Seq<char>, Seq<char>, Seq<char>)> {
    items.subrange(0, items.len() - 1).reverse()
}

/// The body and images after the first `k` replies.
pub open spec fn replies_text(replies: Seq<(Seq<char>, Seq<char>, Seq<char>)>, k: int) -> (Seq<char>, Seq<Seq<char>>)
    decreases k,
{
    if k <= 0 || k > replies.len() {
        (Seq::empty(), Seq::empty())
    } else {
        let (b, im) = replies_text(replies, k - 1);
        let (t, i2) = post_content(replies[k - 1].2);
        (b + "\n\n── #"@ + decimal(k as nat) + " ──\n"@ + t, im + i2)
    }
}

/// The body of a topic feed: the main post (the feed's last item), then each
/// reply headed by `── #n ──`.
pub open spec fn topic_body(items: Seq<(Seq<char>, Seq<char>, Seq<char>)>) -> (Seq<char>, Seq<Seq<char>>) {
    let (mt, mi) = post_content(items.last().2);
    let (rt, ri) = replies_text(replies_of(items), items.len() - 1);
    (trim(mt + rt), mi + ri)
}

/// Reads a Linux.do topic from its RSS feed into one view: the main post,
/// then the replies; the number of replies as the vote count.
pub fn parse_detail(rss: &str) -> (r: Vec<DetailView>)
    ensures
        r@.len() == 1,
        r@[0].author@.len() == 0,
        r@[0].answer_id@.len() == 0,
        rss_items(rss@).len() == 0 ==> r@[0].voteup == 0 && r@[0].body@.len() == 0 && r@[0].images@.len() == 0,
        rss_items(rss@).len() > 0 ==> {
            &&& r@[0].voteup == (rss_items(rss@).len() - 1) as i64
            &&& r@[0].body@ == topic_body(rss_items(rss@)).0
            &&& strs(r@[0].images@) == topic_body(rss_items(rss@)).1
        },
{
    let items = parse_items(rss);
    let ghost its = items@.map_values(|it: RssItem| item_view(it));
    let mut out: Vec<DetailView> = Vec::new();
    if items.len() == 0 {
        out.push(DetailView {
            author: String::new(),
            voteup: 0,
            body: String::new(),
            images: Vec::new(),
            answer_id: String::new(),
        });
        return out;
    }
    let n = items.len();
    let main = &items[n - 1];
    let (mt, mut images) = to_text_and_images(clean_desc(main.description.as_str()).as_str());
    let mut body = chars_of(mt.as_str());
    let ghost reps = replies_of(its);
    let ghost base_body = body@;
    let ghost base_imgs = strs(images@);
    let mut k: usize = 0;
    while k < n - 1
        invariant
            n == items@.len(),
            n >= 1,
            k <= n - 1,
            its == items@.map_values(|it: RssItem| item_view(it)),
            reps == replies_of(its),
            body@ == base_body + replies_text(reps, k as int).0,
            strs(images@) == base_imgs + replies_text(reps, k as int).1,
        decreases n - 1 - k,
    {
        let it = &items[n - 2 - k];
        assert(reps[k as int] == its[n - 2 - k]);
        let (t, im) = to_text_and_images(clean_desc(it.description.as_str()).as_str());
        let a = chars_of("\n\n── #");
        append_chars(&mut body, &a);
        let d = decimal_chars(k as u64 + 1);
        append_chars(&mut body, &d);
        let b = chars_of(" ──\n");
        append_chars(&mut body, &b);
        let tc = chars_of(t.as_str());
        append_chars(&mut body, &tc);
        let ghost before = strs(images@);
        let mut m: usize = 0;
        while m < im.len()
            invariant
                m <= im@.len(),
                strs(images@) == before + strs(im@).take(m as int),
            decreases im@.len() - m,
        {
            let ghost b2 = strs(images@);
            images.push(im[m].clone());
            assert(strs(images@) =~= b2.push(im@[m as int]@));
            assert(strs(im@).take(m + 1) =~= strs(im@).take(m as int).push(im@[m as int]@));
            m += 1;
        }
        assert(strs(im@).take(im@.len() as int) =~= strs(im@));
        proof {
            assert(body@ =~= base_body + replies_text(reps, k + 1).0);
            assert(strs(images@) =~= base_imgs + replies_text(reps, k + 1).1);
        }
        k += 1;
    }
    let voteup = #[verifier::truncate] ((n - 1) as i64);
    out.push(DetailView {
        author: String::new(),
        voteup,
        body: string_of(trim_chars(&body).as_slice()),
        images,
        answer_id: String::new(),
    });
    out
}

/// The feed of a topic: the token itself when it already names a feed, else
/// the topic page without trailing slashes, with `.rss` appended.
pub fn detail_url(token: &str) -> (r: String)
    ensures
        r@ == if token@.len() >= 4 && match_at(token@, token@.len() - 4, ".rss"@) {
            token@
        } else {
            rstrip_pat(token@, "/"@) + ".rss"@
        },
{
    let t = chars_of(token);
    let rss = chars_of(".rss");
    if t.len() >= 4 && matches_at(&t, t.len() - 4, &rss) {
        return string_of(t.as_slice());
    }
    let slash = chars_of("/");
    let mut out = rstrip_pat_chars(&t, &slash);
    append_chars(&mut out, &rss);
    string_of(out.as_slice())
}

} // verus!
