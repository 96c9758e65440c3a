use vstd::prelude::*;
use vstd::string::StrSliceExecFns;

pub mod archive;
pub mod chapters;
pub mod epub;
pub mod files;
pub mod formats;
pub mod library;
pub mod mobi;

pub use self::chapters::{is_heading, paragraphs_from_text, push_chapter, split_text};

verus! {

/// One chapter of a book: a title and its paragraphs of text.
#[derive(Debug, Clone, PartialEq)]
pub struct Chapter {
    pub title: String,
    pub paragraphs: Vec<String>,
    /// Local paths of the images the chapter's `【图片N】` markers refer to.
    pub images: Vec<String>,
}

/// A parsed book.
#[derive(Debug, Clone, PartialEq)]
pub struct Book {
    pub id: String,
    pub path: String,
    pub title: String,
    pub format: String,
    pub chapters: Vec<Chapter>,
    pub error: Option<String>,
}

/// Where a reader stopped: a chapter and a character offset inside it.
#[derive(Debug, Clone, Copy, Default, PartialEq, Eq, Structural)]
pub struct ReadingPosition {
    pub chapter: usize,
    pub offset: usize,
}

/// Sum of the character lengths of the first `k` paragraphs.
pub open spec fn lens_before(ps: Seq<String>, k: int) -> nat
    decreases k,
{
    if k <= 0 || ps.len() == 0 {
        0
    } else if k > ps.len() {
        lens_before(ps, ps.len() as int)
    } else {
        lens_before(ps, k - 1) + ps[k - 1]@.len()
    }
}

/// Characters of a chapter: its paragraphs joined by two-character breaks.
pub open spec fn chapter_chars(c: Chapter) -> nat {
    let n = c.paragraphs@.len();
    if n == 0 {
        0
    } else {
        lens_before(c.paragraphs@, n as int) + 2 * (n - 1) as nat
    }
}

/// Characters of the first `k` chapters.
pub open spec fn chapters_before(cs: Seq<Chapter>, k: int) -> nat
    decreases k,
{
    if k <= 0 || cs.len() == 0 {
        0
    } else if k > cs.len() {
        chapters_before(cs, cs.len() as int)
    } else {
        chapters_before(cs, k - 1) + chapter_chars(cs[k - 1])
    }
}

/// Characters before paragraph `p` of a chapter, each earlier paragraph
/// followed by its two-character break.
pub open spec fn paragraph_start(ps: Seq<String>, p: int) -> nat {
    let k = if p > ps.len() {
        ps.len() as int
    } else {
        p
    };
    if k <= 0 {
        0
    } else {
        lens_before(ps, k) + 2 * k as nat
    }
}

/// Number of characters before a chapter/paragraph/offset location.
pub open spec fn spec_read_count(b: Book, chapter: int, paragraph: int, offset: int) -> nat {
    let before = chapters_before(b.chapters@, chapter);
    if chapter >= b.chapters@.len() {
        before
    } else {
        let ps = b.chapters@[chapter].paragraphs@;
        let within = if paragraph < ps.len() {
            if offset < ps[paragraph]@.len() {
                offset as nat
            } else {
                ps[paragraph]@.len()
            }
        } else {
            0
        };
        before + paragraph_start(ps, paragraph) + within
    }
}

/// The (paragraph, offset) that `remaining` characters into paragraph `i` onward land on.
pub open spec fn position_from(ps: Seq<String>, i: int, remaining: int) -> (int, int)
    decreases ps.len() - i,
{
    if i < 0 || i >= ps.len() {
        (if ps.len() > 0 { ps.len() - 1 } else { 0 }, if ps.len() > 0 { ps.last()@.len() as int } else { 0 })
    } else if remaining <= ps[i]@.len() {
        (i, remaining)
    } else {
        position_from(ps, i + 1, if remaining - (ps[i]@.len() + 2) > 0 { remaining - (ps[i]@.len() + 2) } else { 0 })
    }
}

/// The paragraph and offset inside it for a character offset into a chapter.
pub open spec fn spec_position(b: Book, chapter: int, offset: int) -> (int, int) {
    if chapter < 0 || chapter >= b.chapters@.len() {
        (0, 0)
    } else {
        let c = b.chapters@[chapter];
        let cc = chapter_chars(c) as int;
        position_from(c.paragraphs@, 0, if offset < cc { offset } else { cc })
    }
}

proof fn lemma_lens_before_step(ps: Seq<String>, k: int)
    requires
        0 <= k < ps.len(),
    ensures
        lens_before(ps, k + 1) == lens_before(ps, k) + ps[k]@.len(),
{
}

proof fn lemma_lens_before_mono(ps: Seq<String>, j: int, k: int)
    requires
        0 <= j <= k <= ps.len(),
    ensures
        lens_before(ps, j) <= lens_before(ps, k),
    decreases k - j,
{
    if j < k {
        lemma_lens_before_mono(ps, j, k - 1);
    }
}

impl Chapter {
    pub fn char_count(&self) -> (n: usize)
        requires
            chapter_chars(*self) <= usize::MAX,
        ensures
            n == chapter_chars(*self),
    {
        let ps = &self.paragraphs;
        let mut total: usize = 0;
        let mut i: usize = 0;
        while i < ps.len()
            invariant
                i <= ps@.len(),
                chapter_chars(*self) <= usize::MAX,
                ps == &self.paragraphs,
                total == lens_before(ps@, i as int),
            decreases ps@.len() - i,
        {
            proof {
                lemma_lens_before_step(ps@, i as int);
                lemma_lens_before_mono(ps@, i as int + 1, ps@.len() as int);
            }
            total = total + ps[i].as_str().unicode_len();
            i = i + 1;
        }
        if ps.len() == 0 {
            0
        } else {
            total + (ps.len() - 1) * 2
        }
    }
}

proof fn lemma_chapters_before_step(cs: Seq<Chapter>, k: int)
    requires
        0 <= k < cs.len(),
    ensures
        chapters_before(cs, k + 1) == chapters_before(cs, k) + chapter_chars(cs[k]),
{
}

proof fn lemma_chapters_before_mono(cs: Seq<Chapter>, j: int, k: int)
    requires
        0 <= j <= k,
    ensures
        chapters_before(cs, j) <= chapters_before(cs, k),
    decreases k - j,
{
    if j < k {
        if k > cs.len() {
            if j < cs.len() {
                lemma_chapters_before_mono(cs, j, cs.len() as int);
            }
        } else {
            lemma_chapters_before_mono(cs, j, k - 1);
        }
    }
}

impl Book {
    pub fn chapter_count(&self) -> (n: usize)
        ensures
            n == self.chapters@.len(),
    {
        self.chapters.len()
    }

    pub fn char_count(&self) -> (n: usize)
        requires
            chapters_before(self.chapters@, self.chapters@.len() as int) <= usize::MAX,
        ensures
            n == chapters_before(self.chapters@, self.chapters@.len() as int),
    {
        self.chars_before_chapter(self.chapters.len())
    }

    /// Characters of the first `k` chapters.
    fn chars_before_chapter(&self, k: usize) -> (n: usize)
        requires
            k <= self.chapters@.len(),
            chapters_before(self.chapters@, k as int) <= usize::MAX,
        ensures
            n == chapters_before(self.chapters@, k as int),
    {
        let mut total: usize = 0;
        let mut i: usize = 0;
        while i < k
            invariant
                i <= k <= self.chapters@.len(),
                chapters_before(self.chapters@, k as int) <= usize::MAX,
                total == chapters_before(self.chapters@, i as int),
            decreases k - i,
        {
            proof {
                lemma_chapters_before_step(self.chapters@, i as int);
                lemma_chapters_before_mono(self.chapters@, i as int + 1, k as int);
            }
            total = total + self.chapters[i].char_count();
            i = i + 1;
        }
        total
    }

    /// Number of characters before a chapter/paragraph location.
    pub fn read_count(&self, chapter: usize, paragraph: usize, offset: usize) -> (n: usize)
        requires
            spec_read_count(*self, chapter as int, paragraph as int, offset as int) <= usize::MAX,
        ensures
            n == spec_read_count(*self, chapter as int, paragraph as int, offset as int),
    {
        let k = if chapter < self.chapters.len() {
            chapter
        } else {
            self.chapters.len()
        };
        proof {
            if chapter >= self.chapters@.len() && self.chapters@.len() > 0 {
                assert(chapters_before(self.chapters@, chapter as int) == chapters_before(
                    self.chapters@,
                    self.chapters@.len() as int,
                ));
            }
            if self.chapters@.len() == 0 {
                assert(chapters_before(self.chapters@, chapter as int) == 0);
            }
        }
        let before_chapter = self.chars_before_chapter(k);
        if chapter >= self.chapters.len() {
            return before_chapter;
        }
        let ps = &self.chapters[chapter].paragraphs;
        let pk = if paragraph < ps.len() {
            paragraph
        } else {
            ps.len()
        };
        let mut before_paragraph: usize = 0;
        let mut i: usize = 0;
        while i < pk
            invariant
                i <= pk <= ps@.len(),
                pk == if paragraph < ps@.len() { paragraph as int } else { ps@.len() as int },
                before_chapter + paragraph_start(ps@, pk as int) <= usize::MAX,
                before_paragraph == lens_before(ps@, i as int) + 2 * i,
            decreases pk - i,
        {
            proof {
                lemma_lens_before_step(ps@, i as int);
                lemma_lens_before_mono(ps@, i as int + 1, pk as int);
            }
            before_paragraph = before_paragraph + ps[i].as_str().unicode_len() + 2;
            i = i + 1;
        }
        let within = if paragraph < ps.len() {
            let len = ps[paragraph].as_str().unicode_len();
            if offset < len {
                offset
            } else {
                len
            }
        } else {
            0
        };
        before_chapter + before_paragraph + within
    }

    /// Paragraph index and offset inside it for a character offset into a chapter.
    pub fn position_for_offset(&self, chapter: usize, offset: usize) -> (r: (usize, usize))
        requires
            chapter < self.chapters@.len() ==> chapter_chars(self.chapters@[chapter as int]) + 2
                <= usize::MAX,
        ensures
            (r.0 as int, r.1 as int) == spec_position(*self, chapter as int, offset as int),
    {
        if chapter >= self.chapters.len() {
            return (0, 0);
        }
        let current = &self.chapters[chapter];
        let cc = current.char_count();
        let mut remaining = if offset < cc {
            offset
        } else {
            cc
        };
        let ps = &current.paragraphs;
        let ghost start = remaining as int;
        assert(spec_position(*self, chapter as int, offset as int) == position_from(ps@, 0, start));
        let mut i: usize = 0;
        while i < ps.len()
            invariant
                i <= ps@.len(),
                chapter < self.chapters@.len(),
                ps == &self.chapters@[chapter as int].paragraphs,
                chapter_chars(self.chapters@[chapter as int]) + 2 <= usize::MAX,
                position_from(ps@, i as int, remaining as int) == position_from(ps@, 0, start),
                spec_position(*self, chapter as int, offset as int) == position_from(ps@, 0, start),
                lens_before(ps@, i as int) <= chapter_chars(self.chapters@[chapter as int]),
            decreases ps@.len() - i,
        {
            proof {
                lemma_lens_before_step(ps@, i as int);
                lemma_lens_before_mono(ps@, i as int + 1, ps@.len() as int);
            }
            let len = ps[i].as_str().unicode_len();
            if remaining <= len {
                assert(position_from(ps@, i as int, remaining as int) == (i as int, remaining as int));
                return (i, remaining);
            }
            remaining = remaining.saturating_sub(len + 2);
            i = i + 1;
        }
        if ps.len() == 0 {
            (0, 0)
        } else {
            (ps.len() - 1, ps[ps.len() - 1].as_str().unicode_len())
        }
    }
}

proof fn lemma_position_walk(ps: Seq<String>, i: int, p: int, o: int)
    requires
        0 <= i <= p < ps.len(),
        0 <= o <= ps[p]@.len(),
    ensures
        position_from(ps, i, lens_before(ps, p) - lens_before(ps, i) + 2 * (p - i) + o) == (p, o),
    decreases p - i,
{
    lemma_lens_before_mono(ps, i, p);
    if i < p {
        lemma_lens_before_step(ps, i);
        lemma_lens_before_mono(ps, i + 1, p);
        lemma_position_walk(ps, i + 1, p, o);
    }
}

/// Reading position round trip: the characters counted before a paragraph
/// and offset, taken as an offset into that chapter, lead back to the same
/// paragraph and offset.
pub proof fn law_position_inverts_read_count(b: Book, c: int, p: int, o: int)
    requires
        0 <= c < b.chapters@.len(),
        0 <= p < b.chapters@[c].paragraphs@.len(),
        0 <= o <= b.chapters@[c].paragraphs@[p]@.len(),
    ensures
        spec_position(b, c, spec_read_count(b, c, p, o) - chapters_before(b.chapters@, c)) == (p, o),
{
    let ps = b.chapters@[c].paragraphs@;
    lemma_position_walk(ps, 0, p, o);
    lemma_lens_before_step(ps, p);
    lemma_lens_before_mono(ps, p + 1, ps.len() as int);
}

} // verus!
