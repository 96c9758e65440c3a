use vstd::prelude::*;

use super::Chapter;
use crate::text::{
    append_chars, ascii_lower, ascii_lower_chars, chars_of, contains_char, decimal, eq_str, join,
    join_chars, lines, lines_of, replace_all, replace_chars, split_at_pat, split_pat, starts_with,
    starts_with_str, string_of, trim, trim_chars, vviews,
};

verus! {

/// A line that opens a chapter: `第…章/节/回/卷/部`, `chapter …`, `part …`, or
/// one of the fixed front/back-matter titles; at most 80 characters.
pub open spec fn spec_is_heading(line: Seq<char>) -> bool {
    if line.len() == 0 || line.len() > 80 {
        false
    } else {
        let chinese = line[0] == '第' && (line.contains('章') || line.contains('节') || line.contains(
            '回',
        ) || line.contains('卷') || line.contains('部'));
        let lower = ascii_lower(line);
        let western = starts_with(lower, "chapter "@) || starts_with(lower, "part "@);
        chinese || western || line == "序言"@ || line == "序章"@ || line == "尾声"@ || line
            == "后记"@
    }
}

pub fn is_heading(line: &Vec<char>) -> (b: bool)
    ensures
        b == spec_is_heading(line@),
{
    if line.len() == 0 || line.len() > 80 {
        return false;
    }
    let chinese = line[0] == '第' && (contains_char(line, '章') || contains_char(line, '节')
        || contains_char(line, '回') || contains_char(line, '卷') || contains_char(line, '部'));
    let lower = ascii_lower_chars(line);
    let western = starts_with_str(&lower, "chapter ") || starts_with_str(&lower, "part ");
    chinese || western || eq_str(line, "序言") || eq_str(line, "序章") || eq_str(line, "尾声")
        || eq_str(line, "后记")
}

/// The pieces, each trimmed, without the ones that are then empty.
pub open spec fn trimmed_nonempty(pieces: Seq<Seq<char>>) -> Seq<Seq<char>>
    decreases pieces.len(),
{
    if pieces.len() == 0 {
        Seq::empty()
    } else {
        let prev = trimmed_nonempty(pieces.drop_last());
        let t = trim(pieces.last());
        if t.len() > 0 {
            prev.push(t)
        } else {
            prev
        }
    }
}

/// Paragraphs of a text: its blank-line separated blocks, trimmed, without
/// empty ones.
pub open spec fn spec_paragraphs(text: Seq<char>) -> Seq<Seq<char>> {
    trimmed_nonempty(split_pat(text, "\n\n"@))
}

fn trimmed_nonempty_of(pieces: &Vec<Vec<char>>) -> (r: Vec<Vec<char>>)
    ensures
        vviews(r@) == trimmed_nonempty(vviews(pieces@)),
{
    let mut r: Vec<Vec<char>> = Vec::new();
    let mut i: usize = 0;
    while i < pieces.len()
        invariant
            i <= pieces@.len(),
            vviews(r@) == trimmed_nonempty(vviews(pieces@).take(i as int)),
        decreases pieces@.len() - i,
    {
        let t = trim_chars(&pieces[i]);
        proof {
            assert(vviews(pieces@).take(i + 1).drop_last() =~= vviews(pieces@).take(i as int));
        }
        if t.len() > 0 {
            proof {
                assert(vviews(r@.push(t)) =~= vviews(r@).push(t@));
            }
            r.push(t);
        }
        i = i + 1;
    }
    assert(vviews(pieces@).take(pieces@.len() as int) =~= vviews(pieces@));
    r
}

/// Blank-line separated paragraphs of a text.
pub fn paragraph_chars(text: &Vec<char>) -> (r: Vec<Vec<char>>)
    ensures
        vviews(r@) == spec_paragraphs(text@),
{
    let sep = chars_of("\n\n");
    proof {
        reveal_strlit("\n\n");
    }
    let pieces = split_at_pat(text, &sep);
    trimmed_nonempty_of(&pieces)
}

/// Strings made of character vectors.
fn strings_of(v: &Vec<Vec<char>>) -> (r: Vec<String>)
    ensures
        crate::text::strs(r@) == vviews(v@),
{
    let mut r: Vec<String> = Vec::new();
    let mut i: usize = 0;
    while i < v.len()
        invariant
            i <= v@.len(),
            crate::text::strs(r@) == vviews(v@).take(i as int),
        decreases v@.len() - i,
    {
        let s = string_of(v[i].as_slice());
        proof {
            assert(crate::text::strs(r@.push(s)) =~= crate::text::strs(r@).push(s@));
            assert(vviews(v@).take(i + 1) =~= vviews(v@).take(i as int).push(v@[i as int]@));
        }
        r.push(s);
        i = i + 1;
    }
    assert(vviews(v@).take(v@.len() as int) =~= vviews(v@));
    r
}

/// Blank-line separated paragraphs of a text, trimmed, without empty ones.
pub fn paragraphs_from_text(text: &str) -> (r: Vec<String>)
    ensures
        crate::text::strs(r@) == spec_paragraphs(text@),
{
    let t = chars_of(text);
    let ps = paragraph_chars(&t);
    strings_of(&ps)
}

/// A chapter as a mathematical value.
pub struct SpecChapter {
    pub title: Seq<char>,
    pub paragraphs: Seq<Seq<char>>,
    pub images: Seq<Seq<char>>,
}

pub open spec fn chapter_view(c: Chapter) -> SpecChapter {
    SpecChapter {
        title: c.title@,
        paragraphs: crate::text::strs(c.paragraphs@),
        images: crate::text::strs(c.images@),
    }
}

pub open spec fn chapter_views(cs: Seq<Chapter>) -> Seq<SpecChapter> {
    cs.map_values(|c: Chapter| chapter_view(c))
}

/// Title of the `n`-th chapter when the text names none: `第 n 章`.
pub open spec fn numbered_title(n: nat) -> Seq<char> {
    "第 "@ + decimal(n) + " 章"@
}

/// `chapters` after closing a chapter titled `title` made of `lines`: its
/// paragraphs are the blank-line separated blocks of the lines; a chapter
/// without any is dropped; an empty title is replaced by its number.
pub open spec fn pushed_chapter(chapters: Seq<SpecChapter>, title: Seq<char>, lines: Seq<Seq<char>>) -> Seq<SpecChapter> {
    let ps = spec_paragraphs(join(lines, "\n"@));
    if ps.len() == 0 {
        chapters
    } else {
        chapters.push(
            SpecChapter {
                title: if title.len() == 0 {
                    numbered_title((chapters.len() + 1) as nat)
                } else {
                    title
                },
                paragraphs: ps,
                images: Seq::empty(),
            },
        )
    }
}

/// Close a chapter made of `lines`.
pub fn push_chapter(chapters: &mut Vec<Chapter>, title: &Vec<char>, lines: &Vec<Vec<char>>)
    ensures
        chapter_views(final(chapters)@) == pushed_chapter(chapter_views(old(chapters)@), title@, vviews(lines@)),
        final(chapters)@.len() <= old(chapters)@.len() + 1,
{
    let nl = chars_of("\n");
    let joined = join_chars(lines, &nl);
    let ps = paragraph_chars(&joined);
    if ps.len() > 0 {
        let t = if title.len() == 0 {
            let mut t = chars_of("第 ");
            let num = crate::text::decimal_chars_wide(chapters.len() as u128 + 1);
            append_chars(&mut t, &num);
            let tail = chars_of(" 章");
            append_chars(&mut t, &tail);
            t
        } else {
            title.clone()
        };
        let c = Chapter { title: string_of(t.as_slice()), paragraphs: strings_of(&ps), images: Vec::new() };
        proof {
            assert(crate::text::strs(c.images@) =~= Seq::<Seq<char>>::empty());
        }
        chapters.push(c);
        assert(chapter_views(final(chapters)@) =~= chapter_views(old(chapters)@).push(chapter_view(c)));
    }
}

} // verus!

verus! {

/// State of the chapter split while lines are read: the chapters closed so
/// far, the title and lines of the open chapter, and whether any heading
/// was seen.
pub struct SplitState {
    pub chapters: Seq<SpecChapter>,
    pub title: Seq<char>,
    pub current: Seq<Seq<char>>,
    pub found: bool,
}

/// Reading one line: a heading closes the open chapter and opens another; a
/// text line joins the open chapter; a blank line is kept once after text.
pub open spec fn split_step(st: SplitState, line: Seq<char>) -> SplitState {
    let l = trim(line);
    if spec_is_heading(l) {
        SplitState {
            chapters: if st.current.len() > 0 {
                pushed_chapter(st.chapters, st.title, st.current)
            } else {
                st.chapters
            },
            title: l,
            current: Seq::empty(),
            found: true,
        }
    } else if l.len() > 0 {
        SplitState { current: st.current.push(l), ..st }
    } else if st.current.len() > 0 && st.current.last().len() > 0 {
        SplitState { current: st.current.push(Seq::empty()), ..st }
    } else {
        st
    }
}

pub open spec fn split_scan(ls: Seq<Seq<char>>) -> SplitState
    decreases ls.len(),
{
    if ls.len() == 0 {
        SplitState { chapters: Seq::empty(), title: Seq::empty(), current: Seq::empty(), found: false }
    } else {
        split_step(split_scan(ls.drop_last()), ls.last())
    }
}

/// Chapters of a plain text. Without any heading the whole text is one
/// chapter named after `default_title`, made of its blank-line separated
/// paragraphs (or a notice when there are none).
pub open spec fn spec_split_text(text: Seq<char>, default_title: Seq<char>) -> Seq<SpecChapter> {
    let normalized = replace_all(text, "\r"@, Seq::empty());
    let st = split_scan(lines(normalized));
    if !st.found {
        let compact = spec_paragraphs(normalized);
        seq![
            SpecChapter {
                title: "第一章 · "@ + default_title,
                paragraphs: if compact.len() == 0 {
                    seq!["(本书没有可显示的正文)"@]
                } else {
                    compact
                },
                images: Seq::empty(),
            },
        ]
    } else if st.current.len() > 0 {
        pushed_chapter(st.chapters, st.title, st.current)
    } else {
        st.chapters
    }
}

/// Every chapter has at least one paragraph.
pub open spec fn all_have_text(cs: Seq<SpecChapter>) -> bool {
    forall|i: int| 0 <= i < cs.len() ==> (#[trigger] cs[i]).paragraphs.len() > 0
}

proof fn lemma_pushed_has_text(chapters: Seq<SpecChapter>, title: Seq<char>, lines: Seq<Seq<char>>)
    requires
        all_have_text(chapters),
    ensures
        all_have_text(pushed_chapter(chapters, title, lines)),
{
}

proof fn lemma_scan_has_text(ls: Seq<Seq<char>>)
    ensures
        all_have_text(split_scan(ls).chapters),
    decreases ls.len(),
{
    if ls.len() > 0 {
        let st = split_scan(ls.drop_last());
        lemma_scan_has_text(ls.drop_last());
        if st.current.len() > 0 {
            lemma_pushed_has_text(st.chapters, st.title, st.current);
        }
    }
}

/// Splitting a text never gives a chapter without paragraphs.
pub proof fn law_split_chapters_have_text(text: Seq<char>, default_title: Seq<char>)
    ensures
        all_have_text(spec_split_text(text, default_title)),
{
    let normalized = replace_all(text, "\r"@, Seq::empty());
    let st = split_scan(lines(normalized));
    lemma_scan_has_text(lines(normalized));
    if st.found && st.current.len() > 0 {
        lemma_pushed_has_text(st.chapters, st.title, st.current);
    }
}

/// A line of at most 80 characters that starts with `第` and holds one of
/// `章`, `节`, `回`, `卷`, `部` is a heading; reading it (trimmed) while
/// splitting opens a chapter titled by it.
pub proof fn law_chinese_numbered_heading(st: SplitState, line: Seq<char>)
    requires
        ({
            let l = trim(line);
            &&& 0 < l.len() <= 80
            &&& l[0] == '第'
            &&& l.contains('章') || l.contains('节') || l.contains('回') || l.contains('卷')
                || l.contains('部')
        }),
    ensures
        spec_is_heading(trim(line)),
        split_step(st, line).title == trim(line),
        split_step(st, line).found,
        split_step(st, line).current.len() == 0,
{
}

/// Split a plain text into chapters at its heading lines.
pub fn split_text(text: &str, default_title: &str) -> (r: Vec<Chapter>)
    ensures
        chapter_views(r@) == spec_split_text(text@, default_title@),
{
    let raw = chars_of(text);
    let cr = chars_of("\r");
    proof {
        reveal_strlit("\r");
    }
    let normalized = replace_chars(&raw, &cr, &Vec::new());
    let ls = lines_of(&normalized);
    let mut chapters: Vec<Chapter> = Vec::new();
    let mut title: Vec<char> = Vec::new();
    let mut current: Vec<Vec<char>> = Vec::new();
    let mut found = false;
    let mut i: usize = 0;
    proof {
        assert(chapter_views(chapters@) =~= Seq::<SpecChapter>::empty());
        assert(vviews(current@) =~= Seq::<Seq<char>>::empty());
        assert(vviews(ls@).take(0) =~= Seq::<Seq<char>>::empty());
    }
    while i < ls.len()
        invariant
            i <= ls@.len(),
            chapters@.len() + current@.len() <= i,
            split_scan(vviews(ls@).take(i as int)) == (SplitState {
                chapters: chapter_views(chapters@),
                title: title@,
                current: vviews(current@),
                found,
            }),
        decreases ls@.len() - i,
    {
        proof {
            assert(vviews(ls@).take(i + 1).drop_last() =~= vviews(ls@).take(i as int));
            assert(vviews(ls@).take(i + 1).last() == ls@[i as int]@);
        }
        let line = trim_chars(&ls[i]);
        if is_heading(&line) {
            if current.len() > 0 {
                push_chapter(&mut chapters, &title, &current);
            }
            title = line;
            current = Vec::new();
            found = true;
            proof {
                assert(vviews(current@) =~= Seq::<Seq<char>>::empty());
            }
        } else if line.len() > 0 {
            proof {
                assert(vviews(current@.push(line)) =~= vviews(current@).push(line@));
            }
            current.push(line);
        } else if current.len() > 0 && current[current.len() - 1].len() > 0 {
            let e: Vec<char> = Vec::new();
            proof {
                assert(vviews(current@.push(e)) =~= vviews(current@).push(Seq::empty()));
                assert(vviews(current@).last() == current@.last()@);
            }
            current.push(e);
        }
        i = i + 1;
    }
    proof {
        assert(vviews(ls@).take(ls@.len() as int) =~= vviews(ls@));
    }
    if !found {
        let compact = paragraph_chars(&normalized);
        let mut t = chars_of("第一章 · ");
        let d = chars_of(default_title);
        append_chars(&mut t, &d);
        let paragraphs = if compact.len() == 0 {
            let mut ps: Vec<String> = Vec::new();
            ps.push(string_of(chars_of("(本书没有可显示的正文)").as_slice()));
            proof {
                assert(crate::text::strs(ps@) =~= seq!["(本书没有可显示的正文)"@]);
            }
            ps
        } else {
            strings_of(&compact)
        };
        let c = Chapter { title: string_of(t.as_slice()), paragraphs, images: Vec::new() };
        let mut r: Vec<Chapter> = Vec::new();
        r.push(c);
        proof {
            assert(crate::text::strs(c.images@) =~= Seq::<Seq<char>>::empty());
            assert(chapter_views(r@) =~= seq![chapter_view(c)]);
        }
        return r;
    }
    if current.len() > 0 {
        push_chapter(&mut chapters, &title, &current);
    }
    chapters
}

} // verus!
