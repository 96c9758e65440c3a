use vstd::prelude::*;

use crate::text::{append_chars, chars_of, string_of};

verus! {

/// The display width of a character on a terminal: ASCII is one column,
/// anything else is counted as two.
pub open spec fn char_cols(c: char) -> nat {
    if (c as u32) < 128 {
        1
    } else {
        2
    }
}

/// `s[i..]` cut to one display line within `cols` columns of which `w` are
/// used: it ends at the first line break or where the next character would
/// not fit, and `…` marks the cut.
pub open spec fn one_line_from(s: Seq<char>, i: int, w: nat, cols: nat) -> Seq<char>
    decreases s.len() - i,
{
    if i < 0 || i >= s.len() {
        Seq::empty()
    } else if s[i] == '\n' || s[i] == '\r' {
        seq!['…']
    } else if w + char_cols(s[i]) > cols {
        seq!['…']
    } else {
        seq![s[i]] + one_line_from(s, i + 1, w + char_cols(s[i]), cols)
    }
}

/// The terminal columns a text takes.
pub open spec fn text_cols(s: Seq<char>) -> nat
    decreases s.len(),
{
    if s.len() == 0 {
        0
    } else {
        char_cols(s[0]) + text_cols(s.drop_first())
    }
}

proof fn lemma_one_line_from(s: Seq<char>, i: int, w: nat, cols: nat)
    requires
        w <= cols,
    ensures
        !one_line_from(s, i, w, cols).contains('\n'),
        !one_line_from(s, i, w, cols).contains('\r'),
        text_cols(one_line_from(s, i, w, cols)) + w <= cols + 2,
    decreases s.len() - i,
{
    let r = one_line_from(s, i, w, cols);
    if i < 0 || i >= s.len() {
    } else if s[i] == '\n' || s[i] == '\r' || w + char_cols(s[i]) > cols {
        assert(r == seq!['…']);
        assert(r.drop_first() =~= Seq::<char>::empty());
        assert(char_cols('…') == 2);
        assert(text_cols(Seq::<char>::empty()) == 0);
        assert(text_cols(r) == 2);
    } else {
        let rest = one_line_from(s, i + 1, w + char_cols(s[i]), cols);
        lemma_one_line_from(s, i + 1, w + char_cols(s[i]), cols);
        assert(r == seq![s[i]] + rest);
        assert(r.drop_first() =~= rest);
        assert(r[0] == s[i]);
        assert(text_cols(r) == char_cols(s[i]) + text_cols(rest));
        assert forall|k: int| 0 <= k < r.len() implies r[k] != '\n' && r[k] != '\r' by {
            if k > 0 {
                assert(r[k] == rest[k - 1]);
            }
        }
    }
}

/// What `one_line` gives is one line: it holds no line break, and it takes at
/// most `cols` columns besides the two of a closing `…`.
pub proof fn law_one_line_fits(s: Seq<char>, cols: nat)
    ensures
        !one_line_from(s, 0, 0, cols).contains('\n'),
        !one_line_from(s, 0, 0, cols).contains('\r'),
        text_cols(one_line_from(s, 0, 0, cols)) <= cols + 2,
{
    lemma_one_line_from(s, 0, 0, cols);
}

/// Truncates to a single display line of at most `cols` terminal columns,
/// cutting at the first newline and appending `…` if clipped; non-ASCII
/// characters count as two columns.
pub fn one_line(s: &str, cols: usize) -> (r: String)
    ensures
        r@ == one_line_from(s@, 0, 0, cols as nat),
{
    let cs = chars_of(s);
    let mut out: Vec<char> = Vec::new();
    let mut w: usize = 0;
    let mut i: usize = 0;
    while i < cs.len()
        invariant
            cs@ == s@,
            i <= cs@.len(),
            w <= cols,
            out@ + one_line_from(cs@, i as int, w as nat, cols as nat) == one_line_from(cs@, 0, 0, cols as nat),
        decreases cs@.len() - i,
    {
        let ch = cs[i];
        let ghost o = out@;
        if ch == '\n' || ch == '\r' {
            out.push('…');
            assert(out@ =~= o + one_line_from(cs@, i as int, w as nat, cols as nat));
            return string_of(out.as_slice());
        }
        let cw: usize = if (ch as u32) < 128 { 1 } else { 2 };
        if cw > cols - w {
            out.push('…');
            assert(out@ =~= o + one_line_from(cs@, i as int, w as nat, cols as nat));
            return string_of(out.as_slice());
        }
        out.push(ch);
        w += cw;
        assert(o + one_line_from(cs@, i as int, (w - cw) as nat, cols as nat) =~= out@ + one_line_from(
            cs@,
            i + 1,
            w as nat,
            cols as nat,
        ));
        i += 1;
    }
    assert(out@ + one_line_from(cs@, i as int, w as nat, cols as nat) =~= out@);
    string_of(out.as_slice())
}

/// How a to-do row of the camouflaged list is marked.
#[derive(Debug, Clone, Copy, PartialEq, Eq, Structural)]
pub enum TodoMark {
    /// Above the cursor: `☒`, dimmed.
    Done,
    /// At the cursor: `◐`, highlighted.
    Current,
    /// Below the cursor: `☐`.
    Pending,
}

/// The mark of row `i` when the cursor is at `cursor`.
pub fn todo_mark(i: usize, cursor: usize) -> (m: TodoMark)
    ensures
        m == if i < cursor {
            TodoMark::Done
        } else if i == cursor {
            TodoMark::Current
        } else {
            TodoMark::Pending
        },
{
    if i < cursor {
        TodoMark::Done
    } else if i == cursor {
        TodoMark::Current
    } else {
        TodoMark::Pending
    }
}

/// The width left for a row's subtitle on a screen `width` columns wide: ten
/// columns less, at least twenty.
pub fn subtitle_cols(width: u16) -> (r: usize)
    ensures
        r == if width >= 30 { width - 10 } else { 20 },
{
    let w = width as usize;
    let rest = if w > 10 { w - 10 } else { 0 };
    if rest > 20 {
        rest
    } else {
        20
    }
}

/// The look of one piece of a decoy transcript line.
#[derive(Debug, Clone, Copy, PartialEq, Eq, Structural)]
pub enum Tone {
    Plain,
    Bold,
    Dim,
    Gray,
    Red,
    Green,
    Pink,
    /// A removed diff line: light text on dark red.
    Removed,
    /// An added diff line: light text on dark green.
    Added,
    /// A `● ` bullet in gray, red or green.
    BulletGray,
    BulletRed,
    BulletGreen,
}

/// A piece of a decoy line.
pub struct Piece {
    pub text: String,
    pub tone: Tone,
}

pub open spec fn piece_view(p: Piece) -> (Seq<char>, Tone) {
    (p.text@, p.tone)
}

pub open spec fn line_view(l: Vec<Piece>) -> Seq<(Seq<char>, Tone)> {
    l@.map_values(|p: Piece| piece_view(p))
}

pub open spec fn lines_view(ls: Seq<Vec<Piece>>) -> Seq<Seq<(Seq<char>, Tone)>> {
    ls.map_values(|l: Vec<Piece>| line_view(l))
}

/// `s` padded with spaces to at least 64 characters.
pub open spec fn pad64(s: Seq<char>) -> Seq<char> {
    if s.len() >= 64 {
        s
    } else {
        s + Seq::new((64 - s.len()) as nat, |i: int| ' ')
    }
}

fn padded(s: &str) -> (r: String)
    ensures
        r@ == pad64(s@),
{
    let mut cs = chars_of(s);
    let n = cs.len();
    while cs.len() < 64
        invariant
            n == s@.len(),
            cs@.len() >= n,
            n >= 64 ==> cs@.len() == n,
            n < 64 ==> cs@.len() <= 64,
            cs@ == s@ + Seq::new((cs@.len() - n) as nat, |i: int| ' '),
        decreases 64 - cs@.len(),
    {
        cs.push(' ');
        assert(cs@ =~= s@ + Seq::new((cs@.len() - n) as nat, |i: int| ' '));
    }
    assert(Seq::new(0nat, |i: int| ' ') =~= Seq::<char>::empty());
    assert(n >= 64 ==> cs@ =~= s@);
    assert(n < 64 ==> cs@ =~= s@ + Seq::new((64 - n) as nat, |i: int| ' '));
    string_of(cs.as_slice())
}

fn piece(text: &str, tone: Tone) -> (p: Piece)
    ensures
        piece_view(p) == (text@, tone),
{
    Piece { text: string_of(chars_of(text).as_slice()), tone }
}

/// The remote that the decoy transcript pushes to.
pub open spec fn decoy_repo() -> Seq<char> {
    "http://gitlab.internal:3000/web/admin-portal.git"@
}

/// The decoy transcript block number `k` (of seven, in turn).
pub open spec fn decoy_spec(k: nat) -> Seq<Seq<(Seq<char>, Tone)>> {
    if k == 0 {
        seq![seq![("● "@, Tone::BulletGray), ("Changes look consistent. Committing:"@, Tone::Gray)]]
    } else if k == 1 {
        seq![
            seq![
                ("● "@, Tone::BulletRed),
                ("Bash"@, Tone::Bold),
                ("(git add -u && git commit -m \"preserve dark CTA button backgrounds…\")"@, Tone::Plain),
            ],
            seq![("  ⎿  "@, Tone::Dim), ("Error: Exit code 1"@, Tone::Red)],
            seq![("     [dev 2b88b813] preserve dark CTA button backgrounds on hover across admin"@, Tone::Pink)],
            seq![("      18 files changed, 34 insertions(+), 34 deletions(-)"@, Tone::Dim)],
            seq![("  … +16 lines (ctrl+o to expand)"@, Tone::Dim)],
        ]
    } else if k == 2 {
        seq![
            seq![
                ("● "@, Tone::BulletGreen),
                ("Bash"@, Tone::Bold),
                ("(git diff app/dashboard/profile/page.tsx | head -60)"@, Tone::Plain),
            ],
            seq![("  ⎿  diff --git a/app/dashboard/profile/page.tsx"@, Tone::Dim)],
            seq![("     index 10c01820..7c3faab1 100644"@, Tone::Dim)],
            seq![("  … +57 lines (ctrl+o to expand)"@, Tone::Dim)],
        ]
    } else if k == 3 || k == 5 {
        seq![
            seq![
                ("● "@, Tone::BulletRed),
                ("Bash"@, Tone::Bold),
                (if k == 3 {
                    "(git pull --rebase && git push)"@
                } else {
                    "(sleep 5 && git push 2>&1; git status)"@
                }, Tone::Plain),
            ],
            seq![("  ⎿  "@, Tone::Dim), (if k == 3 { "Error: Exit code 1"@ } else { "Error: Exit code 128"@ }, Tone::Red)],
            seq![("     fatal: unable to access '"@ + decoy_repo() + "/': Empty reply from server"@, Tone::Pink)],
        ]
    } else if k == 4 {
        seq![
            seq![("● "@, Tone::BulletGreen), ("Update"@, Tone::Bold), (" components/PriceForm.tsx"@, Tone::Plain)],
            seq![("  ⎿  Updated with 2 additions and 1 removal"@, Tone::Dim)],
            seq![("       +   const [loading, setLoading] = useState(false)"@, Tone::Green)],
            seq![("       -   onClose={() => setOpen(false)}"@, Tone::Red)],
        ]
    } else {
        seq![
            seq![("● "@, Tone::BulletGreen), ("Update"@, Tone::Bold), ("(app/admin/finance/page.tsx)"@, Tone::Plain)],
            seq![("  ⎿  Added 2 lines, removed 4 lines"@, Tone::Dim)],
            seq![(pad64("    367 -        styles: {"@), Tone::Removed)],
            seq![(pad64("    368 -          root: { maxWidth: 360 },"@), Tone::Removed)],
            seq![(pad64("    369 -          body: { maxHeight: \"40vh\", overflowY: \"auto\" },"@), Tone::Removed)],
            seq![(pad64("    370 -        },"@), Tone::Removed)],
            seq![(pad64("    367 +        overlayStyle: { maxWidth: 360 },"@), Tone::Added)],
            seq![(pad64("    368 +        overlayInnerStyle: { maxHeight: \"40vh\", overflowY: \"auto\" },"@), Tone::Added)],
        ]
    }
}

/// The decoy transcript block shown before to-do group `i + 1`: seven
/// blocks in turn, made to look like a coding session.
pub fn decoy_block(i: usize) -> (r: Vec<Vec<Piece>>)
    ensures
        lines_view(r@) == decoy_spec((i % 7) as nat),
{
    let k = i % 7;
    let mut out: Vec<Vec<Piece>> = Vec::new();
    if k == 0 {
        out.push(vec![piece("● ", Tone::BulletGray), piece("Changes look consistent. Committing:", Tone::Gray)]);
    } else if k == 1 {
        out.push(vec![
            piece("● ", Tone::BulletRed),
            piece("Bash", Tone::Bold),
            piece("(git add -u && git commit -m \"preserve dark CTA button backgrounds…\")", Tone::Plain),
        ]);
        out.push(vec![piece("  ⎿  ", Tone::Dim), piece("Error: Exit code 1", Tone::Red)]);
        out.push(vec![piece("     [dev 2b88b813] preserve dark CTA button backgrounds on hover across admin", Tone::Pink)]);
        out.push(vec![piece("      18 files changed, 34 insertions(+), 34 deletions(-)", Tone::Dim)]);
        out.push(vec![piece("  … +16 lines (ctrl+o to expand)", Tone::Dim)]);
    } else if k == 2 {
        out.push(vec![
            piece("● ", Tone::BulletGreen),
            piece("Bash", Tone::Bold),
            piece("(git diff app/dashboard/profile/page.tsx | head -60)", Tone::Plain),
        ]);
        out.push(vec![piece("  ⎿  diff --git a/app/dashboard/profile/page.tsx", Tone::Dim)]);
        out.push(vec![piece("     index 10c01820..7c3faab1 100644", Tone::Dim)]);
        out.push(vec![piece("  … +57 lines (ctrl+o to expand)", Tone::Dim)]);
    } else if k == 3 || k == 5 {
        let cmd = if k == 3 { "(git pull --rebase && git push)" } else { "(sleep 5 && git push 2>&1; git status)" };
        let code = if k == 3 { "Error: Exit code 1" } else { "Error: Exit code 128" };
        out.push(vec![piece("● ", Tone::BulletRed), piece("Bash", Tone::Bold), piece(cmd, Tone::Plain)]);
        out.push(vec![piece("  ⎿  ", Tone::Dim), piece(code, Tone::Red)]);
        let mut fatal = chars_of("     fatal: unable to access '");
        append_chars(&mut fatal, &chars_of("http://gitlab.internal:3000/web/admin-portal.git"));
        append_chars(&mut fatal, &chars_of("/': Empty reply from server"));
        out.push(vec![Piece { text: string_of(fatal.as_slice()), tone: Tone::Pink }]);
    } else if k == 4 {
        out.push(vec![
            piece("● ", Tone::BulletGreen),
            piece("Update", Tone::Bold),
            piece(" components/PriceForm.tsx", Tone::Plain),
        ]);
        out.push(vec![piece("  ⎿  Updated with 2 additions and 1 removal", Tone::Dim)]);
        out.push(vec![piece("       +   const [loading, setLoading] = useState(false)", Tone::Green)]);
        out.push(vec![piece("       -   onClose={() => setOpen(false)}", Tone::Red)]);
    } else {
        out.push(vec![
            piece("● ", Tone::BulletGreen),
            piece("Update", Tone::Bold),
            piece("(app/admin/finance/page.tsx)", Tone::Plain),
        ]);
        out.push(vec![piece("  ⎿  Added 2 lines, removed 4 lines", Tone::Dim)]);
        out.push(vec![Piece { text: padded("    367 -        styles: {"), tone: Tone::Removed }]);
        out.push(vec![Piece { text: padded("    368 -          root: { maxWidth: 360 },"), tone: Tone::Removed }]);
        out.push(vec![Piece { text: padded("    369 -          body: { maxHeight: \"40vh\", overflowY: \"auto\" },"), tone: Tone::Removed }]);
        out.push(vec![Piece { text: padded("    370 -        },"), tone: Tone::Removed }]);
        out.push(vec![Piece { text: padded("    367 +        overlayStyle: { maxWidth: 360 },"), tone: Tone::Added }]);
        out.push(vec![Piece { text: padded("    368 +        overlayInnerStyle: { maxHeight: \"40vh\", overflowY: \"auto\" },"), tone: Tone::Added }]);
    }
    assert(lines_view(out@) =~~= decoy_spec(k as nat));
    out
}

/// A line of the camouflaged detail screen.
#[derive(Debug, Clone, PartialEq)]
pub enum BodyLine {
    /// A line of the answer's text.
    Text(String),
    Blank,
    /// The decoy transcript block with this index.
    Decoy(usize),
}

pub enum SpecBodyLine {
    Text(Seq<char>),
    Blank,
    Decoy(nat),
}

pub open spec fn body_line_view(l: BodyLine) -> SpecBodyLine {
    match l {
        BodyLine::Text(t) => SpecBodyLine::Text(t@),
        BodyLine::Blank => SpecBodyLine::Blank,
        BodyLine::Decoy(i) => SpecBodyLine::Decoy(i as nat),
    }
}

pub open spec fn body_lines_view(v: Seq<BodyLine>) -> Seq<SpecBodyLine> {
    v.map_values(|l: BodyLine| body_line_view(l))
}

/// The layout so far: lines, decoy blocks used, and whether the last text
/// line was blank.
pub open spec fn camo_step(acc: (Seq<SpecBodyLine>, nat, bool), line: Seq<char>) -> (Seq<SpecBodyLine>, nat, bool) {
    if line.len() == 0 {
        if !acc.2 {
            (acc.0 + seq![SpecBodyLine::Blank, SpecBodyLine::Decoy(acc.1), SpecBodyLine::Blank], acc.1 + 1, true)
        } else {
            (acc.0, acc.1, true)
        }
    } else {
        (acc.0.push(SpecBodyLine::Text(line)), acc.1, false)
    }
}

pub open spec fn camo_fold(ls: Seq<Seq<char>>) -> (Seq<SpecBodyLine>, nat, bool)
    decreases ls.len(),
{
    if ls.len() == 0 {
        (Seq::empty(), 0, true)
    } else {
        camo_step(camo_fold(ls.drop_last()), ls.last())
    }
}

/// The camouflaged body of an answer: its lines in order, with a decoy
/// transcript block (numbered from 0) set between blank lines where each
/// paragraph ends; runs of blank lines give one block.
pub fn camouflaged_body(body: &str) -> (r: Vec<BodyLine>)
    ensures
        body_lines_view(r@) == camo_fold(crate::text::split_char(body@, '\n')).0,
{
    let parts = crate::text::split_chars_at(&chars_of(body), '\n');
    let ghost ls = crate::text::vviews(parts@);
    let mut out: Vec<BodyLine> = Vec::new();
    let mut block: usize = 0;
    let mut prev_blank = true;
    let mut i: usize = 0;
    assert(ls.take(0) =~= Seq::<Seq<char>>::empty());
    assert(body_lines_view(out@) =~= Seq::<SpecBodyLine>::empty());
    while i < parts.len()
        invariant
            i <= parts@.len(),
            ls == crate::text::vviews(parts@),
            block <= i,
            camo_fold(ls.take(i as int)) == (body_lines_view(out@), block as nat, prev_blank),
        decreases parts@.len() - i,
    {
        assert(ls.take(i + 1).drop_last() =~= ls.take(i as int));
        assert(ls.take(i + 1).last() == parts@[i as int]@);
        let ghost before = body_lines_view(out@);
        if parts[i].len() == 0 {
            if !prev_blank {
                out.push(BodyLine::Blank);
                out.push(BodyLine::Decoy(block));
                out.push(BodyLine::Blank);
                assert(body_lines_view(out@) =~= before + seq![
                    SpecBodyLine::Blank,
                    SpecBodyLine::Decoy(block as nat),
                    SpecBodyLine::Blank,
                ]);
                block += 1;
            }
            prev_blank = true;
        } else {
            out.push(BodyLine::Text(string_of(parts[i].as_slice())));
            assert(body_lines_view(out@) =~= before.push(SpecBodyLine::Text(parts@[i as int]@)));
            prev_blank = false;
        }
        i += 1;
    }
    assert(ls.take(parts@.len() as int) =~= ls);
    out
}

} // verus!
