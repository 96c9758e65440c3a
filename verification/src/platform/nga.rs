use vstd::prelude::*;

use crate::platform::{is_link_row, DetailView, ListEntry};
use crate::text::{
    stop_index, take_until_any, decimal, decimal_chars, eq_str, strs, utf8_lossy, utf8_lossy_of,
};
use crate::xml::{events_view, read_xml_events, xml_events, SpecXmlEvent, XmlEvent};
use crate::text::{
    append_chars, chars_of, find_pat, find_pat_from, lemma_find_pat_from, lstrip_pat,
    lstrip_pat_chars, starts_with, starts_with_str, string_of, trim, trim_chars, copy_range,
};

verus! {

/// The text of `s[i..]` outside BBCode tokens, when `depth` brackets are open
/// at `i`: every `[` opens one, a `]` closes one when any is open.
pub open spec fn bbcode_from(s: Seq<char>, i: int, depth: nat) -> Seq<char>
    decreases s.len() - i,
{
    if i < 0 || i >= s.len() {
        Seq::empty()
    } else if s[i] == '[' {
        bbcode_from(s, i + 1, depth + 1)
    } else if s[i] == ']' && depth > 0 {
        bbcode_from(s, i + 1, (depth - 1) as nat)
    } else if depth == 0 {
        seq![s[i]] + bbcode_from(s, i + 1, 0)
    } else {
        bbcode_from(s, i + 1, depth)
    }
}

/// Drop every BBCode token: `[tag]`, `[/tag]`, smileys `[s:..:..]`; keep the text.
pub fn clean_bbcode(s: &str) -> (r: String)
    ensures
        r@ == bbcode_from(s@, 0, 0),
{
    let v = chars_of(s);
    let mut out: Vec<char> = Vec::new();
    let mut depth: usize = 0;
    let mut i: usize = 0;
    while i < v.len()
        invariant
            i <= v@.len(),
            depth <= i,
            out@ + bbcode_from(v@, i as int, depth as nat) == bbcode_from(v@, 0, 0),
        decreases v@.len() - i,
    {
        let ch = v[i];
        if ch == '[' {
            depth = depth + 1;
        } else if ch == ']' && depth > 0 {
            depth = depth - 1;
        } else if depth == 0 {
            let ghost o = out@;
            out.push(ch);
            assert(o + (seq![ch] + bbcode_from(v@, i + 1, 0)) =~= out@ + bbcode_from(v@, i + 1, 0));
        }
        i = i + 1;
    }
    assert(out@ + bbcode_from(v@, i as int, depth as nat) =~= out@);
    string_of(out.as_slice())
}

/// Text outside BBCode never holds an opening bracket.
pub proof fn law_clean_bbcode_has_no_open_bracket(s: Seq<char>, i: int, depth: nat)
    ensures
        !bbcode_from(s, i, depth).contains('['),
    decreases s.len() - i,
{
    if 0 <= i < s.len() {
        if s[i] == '[' {
            law_clean_bbcode_has_no_open_bracket(s, i + 1, depth + 1);
        } else if s[i] == ']' && depth > 0 {
            law_clean_bbcode_has_no_open_bracket(s, i + 1, (depth - 1) as nat);
        } else if depth == 0 {
            law_clean_bbcode_has_no_open_bracket(s, i + 1, 0);
            let r = bbcode_from(s, i, depth);
            let rest = bbcode_from(s, i + 1, 0);
            assert(r == seq![s[i]] + rest);
            if r.contains('[') {
                let k = choose|k: int| 0 <= k < r.len() && r[k] == '[';
                if k > 0 {
                    assert(rest[k - 1] == '[');
                }
            }
        } else {
            law_clean_bbcode_has_no_open_bracket(s, i + 1, depth);
        }
    }
}

/// The attachment prefix of NGA image paths.
pub open spec fn nga_attachments() -> Seq<char> {
    "https://img.nga.178.com/attachments/"@
}

/// URL of an `[img]` path: kept when it is already an http(s) URL, else put
/// under the attachment CDN without its leading `./` and `/`.
pub open spec fn nga_image_url(raw: Seq<char>) -> Seq<char> {
    if starts_with(raw, "http://"@) || starts_with(raw, "https://"@) {
        raw
    } else {
        nga_attachments() + lstrip_pat(lstrip_pat(raw, "./"@), "/"@)
    }
}

/// Image URLs of the `[img]...[/img]` blocks of `s[i..]`, in order; blocks
/// with an empty (trimmed) path are skipped; an unclosed `[img]` ends the scan.
pub open spec fn nga_images_from(s: Seq<char>, i: int) -> Seq<Seq<char>>
    decreases s.len() - i,
{
    if i < 0 {
        Seq::empty()
    } else {
        match find_pat_from(s, "[img]"@, i) {
            None => Seq::empty(),
            Some(o) => match find_pat_from(s, "[/img]"@, o + 5) {
                None => Seq::empty(),
                Some(c) => {
                    proof {
                        reveal_strlit("[img]");
                        reveal_strlit("[/img]");
                        lemma_find_pat_from(s, "[img]"@, i);
                        lemma_find_pat_from(s, "[/img]"@, o + 5);
                    }
                    let raw = trim(s.subrange(o + 5, c));
                    let rest = nga_images_from(s, c + 6);
                    if raw.len() == 0 {
                        rest
                    } else {
                        seq![nga_image_url(raw)] + rest
                    }
                },
            },
        }
    }
}

fn nga_url(raw: &Vec<char>) -> (r: Vec<char>)
    ensures
        r@ == nga_image_url(raw@),
{
    if starts_with_str(raw, "http://") || starts_with_str(raw, "https://") {
        raw.clone()
    } else {
        let dot = chars_of("./");
        let slash = chars_of("/");
        let a = lstrip_pat_chars(raw, &dot);
        let b = lstrip_pat_chars(&a, &slash);
        let mut r = chars_of("https://img.nga.178.com/attachments/");
        append_chars(&mut r, &b);
        r
    }
}

/// Scan `[img]..[/img]`, strip leading `./`, absolutize to the NGA attachment
/// CDN unless the path is already an absolute http(s) URL.
pub fn extract_nga_images(s: &str) -> (r: Vec<String>)
    ensures
        crate::text::strs(r@) == nga_images_from(s@, 0),
{
    let v = chars_of(s);
    let open = chars_of("[img]");
    let close = chars_of("[/img]");
    proof {
        reveal_strlit("[img]");
        reveal_strlit("[/img]");
    }
    let mut urls: Vec<String> = Vec::new();
    let mut i: usize = 0;
    let n = v.len();
    assert(open@.len() == 5 && close@.len() == 6);
    loop
        invariant
            n == v@.len(),
            open@ == "[img]"@,
            close@ == "[/img]"@,
            open@.len() == 5,
            close@.len() == 6,
            crate::text::strs(urls@) + nga_images_from(v@, i as int) == nga_images_from(v@, 0),
        ensures
            crate::text::strs(urls@) == nga_images_from(v@, 0),
        decreases v@.len() + 7 - i,
    {
        let o = match find_pat(&v, &open, i) {
            None => {
                assert(nga_images_from(v@, i as int) =~= Seq::<Seq<char>>::empty());
                assert(crate::text::strs(urls@) + Seq::<Seq<char>>::empty() =~= crate::text::strs(urls@));
                break;
            },
            Some(o) => o,
        };
        let c = match find_pat(&v, &close, o + open.len()) {
            None => {
                assert(nga_images_from(v@, i as int) =~= Seq::<Seq<char>>::empty());
                assert(crate::text::strs(urls@) + Seq::<Seq<char>>::empty() =~= crate::text::strs(urls@));
                break;
            },
            Some(c) => c,
        };
        let inner = copy_range(&v, o + open.len(), c);
        let raw = trim_chars(&inner);
        assert(nga_images_from(v@, i as int) == if raw@.len() == 0 {
            nga_images_from(v@, c + 6)
        } else {
            seq![nga_image_url(raw@)] + nga_images_from(v@, c + 6)
        });
        if raw.len() > 0 {
            let u = string_of(nga_url(&raw).as_slice());
            proof {
                assert(crate::text::strs(urls@.push(u)) =~= crate::text::strs(urls@).push(u@));
                assert(crate::text::strs(urls@).push(u@) + nga_images_from(v@, c + 6) =~= crate::text::strs(urls@) + (seq![u@] + nga_images_from(v@, c + 6)));
            }
            urls.push(u);
        }
        i = c + close.len();
    }
    urls
}

/// What the thread-list reader has gathered so far.
pub struct ListScan {
    pub in_item: bool,
    /// The leaf tag being read inside an `<item>`.
    pub cur: Seq<char>,
    pub tid: Seq<char>,
    pub subject: Seq<char>,
    pub replies: Seq<char>,
    /// Finished rows: title and thread link.
    pub rows: Seq<(Seq<char>, Seq<char>)>,
}

pub open spec fn list_scan_start() -> ListScan {
    ListScan {
        in_item: false,
        cur: Seq::empty(),
        tid: Seq::empty(),
        subject: Seq::empty(),
        replies: Seq::empty(),
        rows: Seq::empty(),
    }
}

/// Adds text read inside an `<item>` to the field its leaf tag names.
pub open spec fn add_field(st: ListScan, txt: Seq<char>) -> ListScan {
    if st.cur == "tid"@ {
        ListScan { tid: st.tid + txt, ..st }
    } else if st.cur == "subject"@ {
        ListScan { subject: st.subject + txt, ..st }
    } else if st.cur == "replies"@ {
        ListScan { replies: st.replies + txt, ..st }
    } else {
        st
    }
}

/// The row of a finished `<item>`: `[replies] subject` (no replies count reads
/// as 0) and the thread's read link.
pub open spec fn thread_row(st: ListScan) -> (Seq<char>, Seq<char>) {
    let r = trim(st.replies);
    (
        "["@ + (if r.len() == 0 { "0"@ } else { r }) + "] "@ + trim(st.subject),
        "/read.php?tid="@ + trim(st.tid),
    )
}

/// One reader event of the thread list: `<item>` starts a row, the text of
/// `<tid>`, `<subject>` and `<replies>` inside it fills the row, `</item>`
/// ends it, and it is kept when it has a thread id.
pub open spec fn list_step(st: ListScan, e: SpecXmlEvent) -> ListScan {
    match e {
        SpecXmlEvent::Tag(false, name, _) => {
            let n = utf8_lossy_of(name);
            if n == "item"@ {
                ListScan { in_item: true, tid: Seq::empty(), subject: Seq::empty(), replies: Seq::empty(), ..st }
            } else if st.in_item {
                ListScan { cur: n, ..st }
            } else {
                st
            }
        },
        SpecXmlEvent::Text(t) => if st.in_item {
            add_field(st, match t { Some(v) => v, None => Seq::empty() })
        } else {
            st
        },
        SpecXmlEvent::CData(b) => if st.in_item {
            add_field(st, utf8_lossy_of(b))
        } else {
            st
        },
        SpecXmlEvent::End(name) => {
            let n = utf8_lossy_of(name);
            if n == "item"@ {
                if st.tid.len() > 0 {
                    ListScan { in_item: false, rows: st.rows.push(thread_row(st)), ..st }
                } else {
                    ListScan { in_item: false, ..st }
                }
            } else if st.in_item {
                ListScan { cur: Seq::empty(), ..st }
            } else {
                st
            }
        },
        _ => st,
    }
}

pub open spec fn list_fold(es: Seq<SpecXmlEvent>) -> ListScan
    decreases es.len(),
{
    if es.len() == 0 {
        list_scan_start()
    } else {
        list_step(list_fold(es.drop_last()), es.last())
    }
}

/// The rows of an NGA thread list in its XML form.
pub open spec fn nga_rows(xml: Seq<char>) -> Seq<(Seq<char>, Seq<char>)> {
    list_fold(xml_events(xml, true)).rows
}

fn list_field_add(
    cur: &Vec<char>,
    txt: &Vec<char>,
    tid: &mut Vec<char>,
    subject: &mut Vec<char>,
    replies: &mut Vec<char>,
)
    ensures
        ({
            let st = ListScan {
                in_item: true,
                cur: cur@,
                tid: old(tid)@,
                subject: old(subject)@,
                replies: old(replies)@,
                rows: Seq::empty(),
            };
            let after = add_field(st, txt@);
            &&& final(tid)@ == after.tid
            &&& final(subject)@ == after.subject
            &&& final(replies)@ == after.replies
        }),
{
    if eq_str(cur, "tid") {
        append_chars(tid, txt);
    } else if eq_str(cur, "subject") {
        append_chars(subject, txt);
    } else if eq_str(cur, "replies") {
        append_chars(replies, txt);
    }
}

/// Reads the thread list of an NGA board in its XML form: one row per `<item>`
/// with a thread id, titled `[replies] subject`, opening `/read.php?tid=..`.
pub fn parse_list(xml: &str) -> (rows: Vec<ListEntry>)
    ensures
        rows@.len() == nga_rows(xml@).len(),
        forall|i: int|
            0 <= i < rows@.len() ==> is_link_row(#[trigger] rows@[i], nga_rows(xml@)[i].0, nga_rows(xml@)[i].1),
{
    let events = read_xml_events(xml, true);
    let ghost es = events_view(events@);
    let mut in_item = false;
    let mut cur: Vec<char> = Vec::new();
    let mut tid: Vec<char> = Vec::new();
    let mut subject: Vec<char> = Vec::new();
    let mut replies: Vec<char> = Vec::new();
    let mut rows: Vec<ListEntry> = Vec::new();
    let ghost mut row_specs: Seq<(Seq<char>, Seq<char>)> = Seq::empty();
    let mut i: usize = 0;
    while i < events.len()
        invariant
            i <= events@.len(),
            es == events_view(events@),
            es == xml_events(xml@, true),
            list_fold(es.take(i as int)) == (ListScan {
                in_item,
                cur: cur@,
                tid: tid@,
                subject: subject@,
                replies: replies@,
                rows: row_specs,
            }),
            rows@.len() == row_specs.len(),
            forall|k: int| 0 <= k < rows@.len() ==> is_link_row(#[trigger] rows@[k], row_specs[k].0, row_specs[k].1),
        decreases events@.len() - i,
    {
        assert(es.take(i + 1).drop_last() =~= es.take(i as int));
        assert(es.take(i + 1).last() == crate::xml::event_view(events@[i as int]));
        match &events[i] {
            XmlEvent::Tag(empty, name, _) => {
                if !*empty {
                    let n = chars_of(utf8_lossy(name.as_slice()).as_str());
                    if eq_str(&n, "item") {
                        in_item = true;
                        tid = Vec::new();
                        subject = Vec::new();
                        replies = Vec::new();
                    } else if in_item {
                        cur = n;
                    }
                }
            },
            XmlEvent::Text(t) => {
                if in_item {
                    let txt = match t {
                        Some(v) => chars_of(v.as_str()),
                        None => Vec::new(),
                    };
                    list_field_add(&cur, &txt, &mut tid, &mut subject, &mut replies);
                }
            },
            XmlEvent::CData(b) => {
                if in_item {
                    let txt = chars_of(utf8_lossy(b.as_slice()).as_str());
                    list_field_add(&cur, &txt, &mut tid, &mut subject, &mut replies);
                }
            },
            XmlEvent::End(name) => {
                let n = chars_of(utf8_lossy(name.as_slice()).as_str());
                if eq_str(&n, "item") {
                    in_item = false;
                    if tid.len() > 0 {
                        let ghost st = ListScan {
                            in_item: true,
                            cur: cur@,
                            tid: tid@,
                            subject: subject@,
                            replies: replies@,
                            rows: row_specs,
                        };
                        let r = trim_chars(&replies);
                        let mut title = chars_of("[");
                        if r.len() == 0 {
                            title.push('0');
                        } else {
                            append_chars(&mut title, &r);
                        }
                        let close = chars_of("] ");
                        append_chars(&mut title, &close);
                        let subj = trim_chars(&subject);
                        append_chars(&mut title, &subj);
                        let mut link = chars_of("/read.php?tid=");
                        let t = trim_chars(&tid);
                        append_chars(&mut link, &t);
                        proof {
                            reveal_strlit("[");
                            reveal_strlit("0");
                            assert(title@ =~= thread_row(st).0);
                            assert(link@ =~= thread_row(st).1);
                            row_specs = row_specs.push(thread_row(st));
                        }
                        rows.push(ListEntry {
                            title: string_of(title.as_slice()),
                            subtitle: String::new(),
                            open_token: Some(string_of(link.as_slice())),
                            detail: None,
                        });
                    }
                } else if in_item {
                    cur = Vec::new();
                }
            },
            XmlEvent::Other => {},
        }
        i += 1;
    }
    assert(es.take(events@.len() as int) =~= es);
    rows
}

/// What the thread reader has gathered so far.
pub struct DetailScan {
    pub in_item: bool,
    pub in_content: bool,
    pub content: Seq<char>,
    /// The BBCode of each finished floor, in order.
    pub floors: Seq<Seq<char>>,
}

/// One reader event of a thread: `<item>` starts a floor, the text of its
/// `<content>` is gathered, `</item>` ends the floor.
pub open spec fn detail_step(st: DetailScan, e: SpecXmlEvent) -> DetailScan {
    match e {
        SpecXmlEvent::Tag(false, name, _) => {
            let n = utf8_lossy_of(name);
            if n == "item"@ {
                DetailScan { in_item: true, content: Seq::empty(), ..st }
            } else if st.in_item && n == "content"@ {
                DetailScan { in_content: true, ..st }
            } else {
                st
            }
        },
        SpecXmlEvent::Text(t) => if st.in_content {
            DetailScan { content: st.content + match t { Some(v) => v, None => Seq::empty() }, ..st }
        } else {
            st
        },
        SpecXmlEvent::CData(b) => if st.in_content {
            DetailScan { content: st.content + utf8_lossy_of(b), ..st }
        } else {
            st
        },
        SpecXmlEvent::End(name) => {
            let n = utf8_lossy_of(name);
            if n == "content"@ {
                DetailScan { in_content: false, ..st }
            } else if n == "item"@ {
                DetailScan { in_item: false, floors: st.floors.push(st.content), ..st }
            } else {
                st
            }
        },
        _ => st,
    }
}

pub open spec fn detail_fold(es: Seq<SpecXmlEvent>) -> DetailScan
    decreases es.len(),
{
    if es.len() == 0 {
        DetailScan { in_item: false, in_content: false, content: Seq::empty(), floors: Seq::empty() }
    } else {
        detail_step(detail_fold(es.drop_last()), es.last())
    }
}

/// The floors of an NGA thread in its XML form.
pub open spec fn nga_floors(xml: Seq<char>) -> Seq<Seq<char>> {
    detail_fold(xml_events(xml, true)).floors
}

/// The images of the first `k` floors, in order.
pub open spec fn floors_images(floors: Seq<Seq<char>>, k: int) -> Seq<Seq<char>>
    decreases k,
{
    if k <= 0 || k > floors.len() {
        Seq::empty()
    } else {
        floors_images(floors, k - 1) + nga_images_from(floors[k - 1], 0)
    }
}

/// The text of the first `k` floors: the first as is, each later one headed
/// by `── #n ──`, n counting the replies from 1.
pub open spec fn floors_text(floors: Seq<Seq<char>>, k: int) -> Seq<char>
    decreases k,
{
    if k <= 0 || k > floors.len() {
        Seq::empty()
    } else {
        let text = trim(bbcode_from(floors[k - 1], 0, 0));
        floors_text(floors, k - 1) + if k == 1 {
            text
        } else {
            "\n\n── #"@ + decimal((k - 1) as nat) + " ──\n"@ + text
        }
    }
}

/// The lines `【图1】` .. `【图n】`, each on a line of its own.
pub open spec fn image_lines(n: nat) -> Seq<char>
    decreases n,
{
    if n == 0 {
        Seq::empty()
    } else {
        image_lines((n - 1) as nat) + "\n【图"@ + decimal(n) + "】"@
    }
}

/// The body of an NGA thread: its floors, then one marker line per image.
pub open spec fn nga_body(floors: Seq<Seq<char>>) -> Seq<char> {
    trim(floors_text(floors, floors.len() as int) + image_lines(floors_images(floors, floors.len() as int).len()))
}

/// Reads an NGA thread in its XML form into one view: the floors' text
/// without BBCode, replies headed by `── #n ──`, then a `【图n】` line per
/// image; the images of all floors; the number of floors as the vote count.
pub fn parse_detail(xml: &str) -> (r: Vec<DetailView>)
    ensures
        r@.len() == 1,
        r@[0].author@.len() == 0,
        r@[0].voteup == nga_floors(xml@).len() as i64,
        r@[0].body@ == nga_body(nga_floors(xml@)),
        strs(r@[0].images@) == floors_images(nga_floors(xml@), nga_floors(xml@).len() as int),
        r@[0].answer_id@.len() == 0,
{
    let events = read_xml_events(xml, true);
    let ghost es = events_view(events@);
    let mut in_item = false;
    let mut in_content = false;
    let mut content: Vec<char> = Vec::new();
    let mut floors: Vec<String> = Vec::new();
    let mut i: usize = 0;
    assert(strs(floors@) =~= Seq::<Seq<char>>::empty());
    assert(es.take(0) =~= Seq::<SpecXmlEvent>::empty());
    while i < events.len()
        invariant
            i <= events@.len(),
            es == events_view(events@),
            es == xml_events(xml@, true),
            detail_fold(es.take(i as int)) == (DetailScan {
                in_item,
                in_content,
                content: content@,
                floors: strs(floors@),
            }),
        decreases events@.len() - i,
    {
        assert(es.take(i + 1).drop_last() =~= es.take(i as int));
        assert(es.take(i + 1).last() == crate::xml::event_view(events@[i as int]));
        match &events[i] {
            XmlEvent::Tag(empty, name, _) => {
                if !*empty {
                    let n = chars_of(utf8_lossy(name.as_slice()).as_str());
                    if eq_str(&n, "item") {
                        in_item = true;
                        content = Vec::new();
                    } else if in_item && eq_str(&n, "content") {
                        in_content = true;
                    }
                }
            },
            XmlEvent::Text(t) => {
                if in_content {
                    match t {
                        Some(v) => {
                            let cs = chars_of(v.as_str());
                            append_chars(&mut content, &cs);
                        },
                        None => {
                            assert(content@ + Seq::<char>::empty() =~= content@);
                        },
                    }
                }
            },
            XmlEvent::CData(b) => {
                if in_content {
                    let cs = chars_of(utf8_lossy(b.as_slice()).as_str());
                    append_chars(&mut content, &cs);
                }
            },
            XmlEvent::End(name) => {
                let n = chars_of(utf8_lossy(name.as_slice()).as_str());
                if eq_str(&n, "content") {
                    in_content = false;
                } else if eq_str(&n, "item") {
                    in_item = false;
                    let ghost before = strs(floors@);
                    floors.push(string_of(content.as_slice()));
                    assert(strs(floors@) =~= before.push(content@));
                }
            },
            XmlEvent::Other => {},
        }
        i += 1;
    }
    assert(es.take(events@.len() as int) =~= es);
    let ghost fl = strs(floors@);
    let mut images: Vec<String> = Vec::new();
    let mut body: Vec<char> = Vec::new();
    let mut k: usize = 0;
    while k < floors.len()
        invariant
            k <= floors@.len(),
            fl == strs(floors@),
            strs(images@) == floors_images(fl, k as int),
            body@ == floors_text(fl, k as int),
        decreases floors@.len() - k,
    {
        let raw = floors[k].as_str();
        let imgs = extract_nga_images(raw);
        let ghost before = strs(images@);
        let mut m: usize = 0;
        while m < imgs.len()
            invariant
                m <= imgs@.len(),
                strs(images@) == before + strs(imgs@).take(m as int),
            decreases imgs@.len() - m,
        {
            let ghost b2 = strs(images@);
            images.push(imgs[m].clone());
            assert(strs(images@) =~= b2.push(imgs@[m as int]@));
            assert(strs(imgs@).take(m + 1) =~= strs(imgs@).take(m as int).push(imgs@[m as int]@));
            m += 1;
        }
        assert(strs(imgs@).take(imgs@.len() as int) =~= strs(imgs@));
        let cleaned = clean_bbcode(raw);
        let text = trim_chars(&chars_of(cleaned.as_str()));
        if k > 0 {
            let a = chars_of("\n\n── #");
            append_chars(&mut body, &a);
            let d = decimal_chars(k as u64);
            append_chars(&mut body, &d);
            let b = chars_of(" ──\n");
            append_chars(&mut body, &b);
        }
        append_chars(&mut body, &text);
        k += 1;
    }
    let mut m: usize = 0;
    assert(body@ =~= floors_text(fl, fl.len() as int) + image_lines(0));
    while m < images.len()
        invariant
            m <= images@.len(),
            body@ == floors_text(fl, fl.len() as int) + image_lines(m as nat),
        decreases images@.len() - m,
    {
        let a = chars_of("\n【图");
        append_chars(&mut body, &a);
        let d = decimal_chars(m as u64 + 1);
        append_chars(&mut body, &d);
        let b = chars_of("】");
        append_chars(&mut body, &b);
        m += 1;
    }
    let count = #[verifier::truncate] (floors.len() as i64);
    let mut out: Vec<DetailView> = Vec::new();
    out.push(DetailView {
        author: String::new(),
        voteup: count,
        body: string_of(trim_chars(&body).as_slice()),
        images,
        answer_id: String::new(),
    });
    out
}

/// The thread id in an NGA read link: what follows the first `tid=`, up to
/// the next `tid=` or `&`; `None` when it is empty or there is none.
pub open spec fn nga_tid_spec(token: Seq<char>) -> Option<Seq<char>> {
    match find_pat_from(token, "tid="@, 0) {
        None => None,
        Some(p) => {
            let end = match find_pat_from(token, "tid="@, p + 4) {
                Some(q) => q,
                None => token.len() as int,
            };
            let piece = token.subrange(p + 4, end);
            let tid = piece.subrange(0, stop_index(piece, seq!['&'], 0));
            if tid.len() == 0 {
                None
            } else {
                Some(tid)
            }
        },
    }
}

/// The thread id of an NGA read link.
pub fn nga_tid(token: &str) -> (r: Option<String>)
    ensures
        match r {
            Some(t) => nga_tid_spec(token@) == Some(t@),
            None => nga_tid_spec(token@) is None,
        },
{
    let t = chars_of(token);
    let pat = chars_of("tid=");
    proof {
        reveal_strlit("tid=");
    }
    assert(pat@.len() == 4);
    let found = find_pat(&t, &pat, 0);
    let p = match found {
        Some(p) => p,
        None => {
            return None;
        },
    };
    assert(found == Some(p));
    let tl = t.len();
    assert(p + 4 <= tl);
    let end = match find_pat(&t, &pat, p + 4) {
        Some(q) => q,
        None => t.len(),
    };
    let piece = copy_range(&t, p + 4, end);
    let mut stops: Vec<char> = Vec::new();
    stops.push('&');
    assert(stops@ =~= seq!['&']);
    let tid = take_until_any(&piece, &stops, 0);
    assert(piece@.subrange(0, stop_index(piece@, seq!['&'], 0)) == tid@);
    if tid.len() == 0 {
        None
    } else {
        Some(string_of(tid.as_slice()))
    }
}

/// The XML thread list of the default board, page `page` (0 reads as 1).
pub fn list_url(page: u32) -> (r: String)
    ensures
        r@ == "https://bbs.nga.cn/thread.php?fid=-7&page="@ + decimal(if page == 0 { 1nat } else { page as nat })
            + "&lite=xml"@,
{
    let p: u32 = if page == 0 { 1 } else { page };
    let mut out = chars_of("https://bbs.nga.cn/thread.php?fid=-7&page=");
    let d = decimal_chars(p as u64);
    append_chars(&mut out, &d);
    let tail = chars_of("&lite=xml");
    append_chars(&mut out, &tail);
    string_of(out.as_slice())
}

/// The XML form of thread `tid`.
pub fn detail_url(tid: &str) -> (r: String)
    ensures
        r@ == "https://bbs.nga.cn/read.php?tid="@ + tid@ + "&lite=xml"@,
{
    let mut out = chars_of("https://bbs.nga.cn/read.php?tid=");
    let t = chars_of(tid);
    append_chars(&mut out, &t);
    let tail = chars_of("&lite=xml");
    append_chars(&mut out, &tail);
    string_of(out.as_slice())
}

/// The text of NGA's XML pages, which declare GB18030 (a superset of GBK).
pub fn gbk_to_string(bytes: &[u8]) -> (r: String)
    ensures
        r@ == crate::encoding::gb18030_with_bom_sniffing(bytes@),
{
    crate::encoding::decode_gb18030(bytes)
}

} // verus!
