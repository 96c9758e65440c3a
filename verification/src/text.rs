use vstd::prelude::*;
use vstd::std_specs::iter::IteratorSpec;
use vstd::utf8::{decode_utf8, valid_utf8};

verus! {

broadcast use vstd::string::group_string_axioms;

/// The characters of a string slice, in order.
pub fn chars_of(s: &str) -> (v: Vec<char>)
    ensures
        v@ == s@,
{
    let mut v: Vec<char> = Vec::new();
    let mut it = s.chars();
    let ghost all = s@;
    loop
        invariant
            it.remaining() == all.skip(v@.len() as int),
            v@ == all.take(v@.len() as int),
            v@.len() <= all.len(),
            all == s@,
        ensures
            v@ == s@,
        decreases all.len() - v@.len(),
    {
        match it.next() {
            Some(c) => {
                v.push(c);
                assert(all.take(v@.len() as int) =~= all.take(v@.len() - 1).push(c));
                assert(all.skip(v@.len() as int) =~= all.skip(v@.len() - 1).drop_first());
            },
            None => {
                assert(all.take(v@.len() as int) =~= all);
                break;
            },
        }
    }
    v
}

} // verus!

verus! {

/// `String: FromIterator<char>` (through `Iterator::collect`): the string holds
/// exactly the given characters, in order.
#[verifier::external_body]
pub(crate) fn string_of(v: &[char]) -> (s: String)
    ensures
        s@ == v@,
{
    v.iter().collect()
}

/// Unicode `White_Space`, the set that `char::is_whitespace` documents.
pub open spec fn is_ws(c: char) -> bool {
    let u = c as u32;
    ||| 0x9 <= u <= 0xd
    ||| u == 0x20
    ||| u == 0x85
    ||| u == 0xa0
    ||| u == 0x1680
    ||| 0x2000 <= u <= 0x200a
    ||| u == 0x2028
    ||| u == 0x2029
    ||| u == 0x202f
    ||| u == 0x205f
    ||| u == 0x3000
}

pub fn is_whitespace(c: char) -> (b: bool)
    ensures
        b == is_ws(c),
{
    let u = c as u32;
    (0x9 <= u && u <= 0xd) || u == 0x20 || u == 0x85 || u == 0xa0 || u == 0x1680 || (0x2000 <= u
        && u <= 0x200a) || u == 0x2028 || u == 0x2029 || u == 0x202f || u == 0x205f || u == 0x3000
}

/// First index at or after `i` (and before `hi`) that holds no whitespace; `hi` if none.
pub open spec fn ltrim_idx(s: Seq<char>, i: int, hi: int) -> int
    decreases hi - i,
{
    if i < hi && is_ws(s[i]) {
        ltrim_idx(s, i + 1, hi)
    } else {
        i
    }
}

/// Smallest `e` in `lo..=j` such that `s[e..j]` is all whitespace.
pub open spec fn rtrim_idx(s: Seq<char>, lo: int, j: int) -> int
    decreases j - lo,
{
    if lo < j && is_ws(s[j - 1]) {
        rtrim_idx(s, lo, j - 1)
    } else {
        j
    }
}

/// `str::trim`: the sequence without leading and trailing whitespace.
pub open spec fn trim(s: Seq<char>) -> Seq<char> {
    let a = ltrim_idx(s, 0, s.len() as int);
    s.subrange(a, rtrim_idx(s, a, s.len() as int))
}

pub proof fn lemma_ltrim_bounds(s: Seq<char>, i: int, hi: int)
    requires
        i <= hi,
    ensures
        i <= ltrim_idx(s, i, hi) <= hi,
        forall|k: int| i <= k < ltrim_idx(s, i, hi) ==> is_ws(#[trigger] s[k]),
        ltrim_idx(s, i, hi) < hi ==> !is_ws(s[ltrim_idx(s, i, hi)]),
    decreases hi - i,
{
    if i < hi && is_ws(s[i]) {
        lemma_ltrim_bounds(s, i + 1, hi);
    }
}

pub proof fn lemma_rtrim_bounds(s: Seq<char>, lo: int, j: int)
    requires
        lo <= j,
    ensures
        lo <= rtrim_idx(s, lo, j) <= j,
        forall|k: int| rtrim_idx(s, lo, j) <= k < j ==> is_ws(#[trigger] s[k]),
        rtrim_idx(s, lo, j) > lo ==> !is_ws(s[rtrim_idx(s, lo, j) - 1]),
    decreases j - lo,
{
    if lo < j && is_ws(s[j - 1]) {
        lemma_rtrim_bounds(s, lo, j - 1);
    }
}

/// A sequence that is empty or starts and ends with a character that is not
/// whitespace is its own trim.
pub proof fn lemma_trim_of_clean(u: Seq<char>)
    requires
        u.len() > 0 ==> !is_ws(u[0]) && !is_ws(u.last()),
    ensures
        trim(u) == u,
{
    let m = u.len() as int;
    if m > 0 {
        assert(ltrim_idx(u, 0, m) == 0);
        assert(rtrim_idx(u, 0, m) == m);
    }
    assert(trim(u) =~= u);
}

/// Trimming twice is trimming once: a trimmed sequence is empty or starts and
/// ends with a character that is not whitespace.
pub proof fn lemma_trim_idempotent(s: Seq<char>)
    ensures
        trim(trim(s)) == trim(s),
        trim(s).len() > 0 ==> !is_ws(trim(s)[0]) && !is_ws(trim(s).last()),
{
    let n = s.len() as int;
    lemma_ltrim_bounds(s, 0, n);
    let a = ltrim_idx(s, 0, n);
    lemma_rtrim_bounds(s, a, n);
    let b = rtrim_idx(s, a, n);
    let t = trim(s);
    assert(t =~= s.subrange(a, b));
    let m = t.len() as int;
    if m == 0 {
        assert(trim(t) =~= t);
    } else {
        assert(t[0] == s[a]);
        assert(t.last() == s[b - 1]);
        assert(ltrim_idx(t, 0, m) == 0);
        assert(rtrim_idx(t, 0, m) == m);
        assert(trim(t) =~= t);
    }
}

/// Bounds of the trimmed part of `s[lo..hi]`.
pub fn trim_bounds(s: &Vec<char>, lo: usize, hi: usize) -> (r: (usize, usize))
    requires
        lo <= hi <= s@.len(),
    ensures
        r.0 == ltrim_idx(s@, lo as int, hi as int),
        r.1 == rtrim_idx(s@, r.0 as int, hi as int),
        lo <= r.0 <= r.1 <= hi,
{
    let mut a = lo;
    while a < hi && is_whitespace(s[a])
        invariant
            lo <= a <= hi <= s@.len(),
            ltrim_idx(s@, lo as int, hi as int) == ltrim_idx(s@, a as int, hi as int),
        decreases hi - a,
    {
        a = a + 1;
    }
    let mut b = hi;
    while b > a && is_whitespace(s[b - 1])
        invariant
            a <= b <= hi <= s@.len(),
            rtrim_idx(s@, a as int, hi as int) == rtrim_idx(s@, a as int, b as int),
        decreases b - a,
    {
        b = b - 1;
    }
    (a, b)
}

/// A copy of `s[a..b]`.
pub fn copy_range(s: &Vec<char>, a: usize, b: usize) -> (r: Vec<char>)
    requires
        a <= b <= s@.len(),
    ensures
        r@ == s@.subrange(a as int, b as int),
{
    let mut r: Vec<char> = Vec::new();
    let mut i = a;
    while i < b
        invariant
            a <= i <= b <= s@.len(),
            r@ == s@.subrange(a as int, i as int),
        decreases b - i,
    {
        r.push(s[i]);
        assert(s@.subrange(a as int, i + 1) =~= s@.subrange(a as int, i as int).push(s@[i as int]));
        i = i + 1;
    }
    r
}

/// `str::trim` on characters.
pub fn trim_chars(s: &Vec<char>) -> (r: Vec<char>)
    ensures
        r@ == trim(s@),
{
    let (a, b) = trim_bounds(s, 0, s.len());
    copy_range(s, a, b)
}

/// `str::trim` on a string slice.
pub fn trim_str(s: &str) -> (r: String)
    ensures
        r@ == trim(s@),
{
    let v = chars_of(s);
    let t = trim_chars(&v);
    string_of(t.as_slice())
}

} // verus!

verus! {

/// Equality of two character vectors.
pub fn chars_eq(a: &Vec<char>, b: &Vec<char>) -> (r: bool)
    ensures
        r == (a@ == b@),
{
    if a.len() != b.len() {
        return false;
    }
    let mut i: usize = 0;
    while i < a.len()
        invariant
            a@.len() == b@.len(),
            0 <= i <= a@.len(),
            forall|k: int| 0 <= k < i ==> a@[k] == b@[k],
        decreases a@.len() - i,
    {
        if a[i] != b[i] {
            return false;
        }
        i = i + 1;
    }
    assert(a@ =~= b@);
    true
}

/// Whether the characters equal those of `lit`.
pub fn eq_str(a: &Vec<char>, lit: &str) -> (r: bool)
    ensures
        r == (a@ == lit@),
{
    let b = chars_of(lit);
    chars_eq(a, &b)
}

/// First index at or after `i` that holds whitespace.
pub open spec fn find_ws(s: Seq<char>, i: int) -> Option<int>
    decreases s.len() - i,
{
    if i < 0 || i >= s.len() {
        None
    } else if is_ws(s[i]) {
        Some(i)
    } else {
        find_ws(s, i + 1)
    }
}

pub fn find_whitespace(s: &Vec<char>) -> (r: Option<usize>)
    ensures
        r matches Some(j) ==> find_ws(s@, 0) == Some(j as int) && j < s@.len(),
        r is None ==> find_ws(s@, 0) is None,
{
    let mut i: usize = 0;
    while i < s.len()
        invariant
            0 <= i <= s@.len(),
            find_ws(s@, 0) == find_ws(s@, i as int),
        decreases s@.len() - i,
    {
        if is_whitespace(s[i]) {
            return Some(i);
        }
        i = i + 1;
    }
    None
}

} // verus!

verus! {

/// `String::push`: the string gains `c` at its end.
#[verifier::external_body]
pub(crate) fn push_char(s: &mut String, c: char)
    ensures
        final(s)@ == old(s)@.push(c),
{
    s.push(c);
}

/// `String::pop`: removes and returns the last character, if any.
#[verifier::external_body]
pub(crate) fn pop_char(s: &mut String) -> (r: Option<char>)
    ensures
        old(s)@.len() == 0 ==> r is None && final(s)@ == old(s)@,
        old(s)@.len() > 0 ==> r == Some(old(s)@.last()) && final(s)@ == old(s)@.drop_last(),
{
    s.pop()
}

/// The views of a sequence of strings.
pub open spec fn strs(v: Seq<String>) -> Seq<Seq<char>> {
    v.map_values(|s: String| s@)
}

/// A copy of a vector of strings.
pub fn clone_strings(v: &Vec<String>) -> (r: Vec<String>)
    ensures
        strs(r@) == strs(v@),
{
    let mut r: Vec<String> = Vec::new();
    let mut i: usize = 0;
    while i < v.len()
        invariant
            i <= v@.len(),
            strs(r@) == strs(v@.take(i as int)),
        decreases v@.len() - i,
    {
        r.push(v[i].clone());
        assert(strs(v@.take(i + 1)) =~= strs(v@.take(i as int)).push(v@[i as int]@));
        assert(strs(r@) =~= strs(v@.take(i as int)).push(v@[i as int]@));
        i = i + 1;
    }
    assert(v@.take(v@.len() as int) =~= v@);
    r
}

} // verus!

verus! {

/// The views of a sequence of character vectors.
pub open spec fn vviews(v: Seq<Vec<char>>) -> Seq<Seq<char>> {
    v.map_values(|x: Vec<char>| x@)
}

/// `s[start..]` split at every `c` found at or after `i` (`str::split` with a
/// char pattern, scanning from `i` in a piece that began at `start`).
pub open spec fn split_char_acc(s: Seq<char>, c: char, i: int, start: int) -> Seq<Seq<char>>
    decreases s.len() - i,
{
    if i >= s.len() {
        seq![s.subrange(start, s.len() as int)]
    } else if s[i] == c {
        seq![s.subrange(start, i)] + split_char_acc(s, c, i + 1, i + 1)
    } else {
        split_char_acc(s, c, i + 1, start)
    }
}

/// `str::split(c)` for a char `c`.
pub open spec fn split_char(s: Seq<char>, c: char) -> Seq<Seq<char>> {
    split_char_acc(s, c, 0, 0)
}

pub fn split_chars_at(s: &Vec<char>, c: char) -> (r: Vec<Vec<char>>)
    ensures
        vviews(r@) == split_char(s@, c),
{
    let mut r: Vec<Vec<char>> = Vec::new();
    let mut start: usize = 0;
    let mut i: usize = 0;
    while i < s.len()
        invariant
            start <= i <= s@.len(),
            vviews(r@) + split_char_acc(s@, c, i as int, start as int) == split_char(s@, c),
        decreases s@.len() - i,
    {
        if s[i] == c {
            let piece = copy_range(s, start, i);
            proof {
                assert(vviews(r@.push(piece)) =~= vviews(r@).push(piece@));
                assert(vviews(r@).push(piece@) + split_char_acc(s@, c, i + 1, i + 1) =~= vviews(r@)
                    + (seq![piece@] + split_char_acc(s@, c, i + 1, i + 1)));
            }
            r.push(piece);
            start = i + 1;
        }
        i = i + 1;
    }
    let piece = copy_range(s, start, s.len());
    proof {
        assert(vviews(r@.push(piece)) =~= vviews(r@).push(piece@));
    }
    r.push(piece);
    r
}

/// `str::lines`: pieces between `'\n'`, without a last empty piece after a
/// final newline.
pub open spec fn lines(s: Seq<char>) -> Seq<Seq<char>> {
    if s.len() == 0 {
        Seq::empty()
    } else if s.last() == '\n' {
        split_char(s, '\n').drop_last()
    } else {
        split_char(s, '\n')
    }
}

pub fn lines_of(s: &Vec<char>) -> (r: Vec<Vec<char>>)
    ensures
        vviews(r@) == lines(s@),
{
    if s.len() == 0 {
        let r: Vec<Vec<char>> = Vec::new();
        assert(vviews(r@) =~= Seq::<Seq<char>>::empty());
        return r;
    }
    let mut r = split_chars_at(s, '\n');
    if s[s.len() - 1] == '\n' {
        proof {
            lemma_split_char_nonempty(s@, '\n', 0, 0);
        }
        let _ = r.pop();
        assert(vviews(r@) =~= split_char(s@, '\n').drop_last());
    }
    r
}

pub proof fn lemma_split_char_nonempty(s: Seq<char>, c: char, i: int, start: int)
    ensures
        split_char_acc(s, c, i, start).len() >= 1,
    decreases s.len() - i,
{
    if i < s.len() {
        if s[i] == c {
            lemma_split_char_nonempty(s, c, i + 1, i + 1);
        } else {
            lemma_split_char_nonempty(s, c, i + 1, start);
        }
    }
}

/// `pat` occurs in `s` at `i`.
pub open spec fn match_at(s: Seq<char>, i: int, pat: Seq<char>) -> bool {
    0 <= i && i + pat.len() <= s.len() && s.subrange(i, i + pat.len()) == pat
}

pub fn matches_at(s: &Vec<char>, i: usize, pat: &Vec<char>) -> (b: bool)
    ensures
        b == match_at(s@, i as int, pat@),
{
    if i > s.len() || pat.len() > s.len() - i {
        return false;
    }
    let n = s.len();
    let mut k: usize = 0;
    while k < pat.len()
        invariant
            n == s@.len(),
            i + pat@.len() <= n,
            k <= pat@.len(),
            forall|j: int| 0 <= j < k ==> s@[i + j] == pat@[j],
        decreases pat@.len() - k,
    {
        if s[i + k] != pat[k] {
            assert(s@.subrange(i as int, i + pat@.len())[k as int] != pat@[k as int]);
            return false;
        }
        k = k + 1;
    }
    assert(s@.subrange(i as int, i + pat@.len()) =~= pat@);
    true
}

/// `s[start..]` split at each leftmost non-overlapping occurrence of `pat`
/// found at or after `i` (`str::split` with a string pattern).
pub open spec fn split_pat_acc(s: Seq<char>, pat: Seq<char>, i: int, start: int) -> Seq<Seq<char>>
    decreases s.len() - i,
{
    if i >= s.len() || pat.len() == 0 {
        seq![s.subrange(start, s.len() as int)]
    } else if match_at(s, i, pat) {
        seq![s.subrange(start, i)] + split_pat_acc(s, pat, i + pat.len(), i + pat.len())
    } else {
        split_pat_acc(s, pat, i + 1, start)
    }
}

/// `str::split(pat)` for a non-empty string pattern.
pub open spec fn split_pat(s: Seq<char>, pat: Seq<char>) -> Seq<Seq<char>> {
    split_pat_acc(s, pat, 0, 0)
}

pub fn split_at_pat(s: &Vec<char>, pat: &Vec<char>) -> (r: Vec<Vec<char>>)
    requires
        pat@.len() > 0,
    ensures
        vviews(r@) == split_pat(s@, pat@),
{
    let mut r: Vec<Vec<char>> = Vec::new();
    let mut start: usize = 0;
    let mut i: usize = 0;
    while i < s.len()
        invariant
            pat@.len() > 0,
            start <= i,
            start <= s@.len(),
            vviews(r@) + split_pat_acc(s@, pat@, i as int, start as int) == split_pat(s@, pat@),
        decreases s@.len() - i,
    {
        if matches_at(s, i, pat) {
            let piece = copy_range(s, start, i);
            proof {
                assert(vviews(r@.push(piece)) =~= vviews(r@).push(piece@));
                assert(vviews(r@).push(piece@) + split_pat_acc(s@, pat@, i + pat@.len(), i
                    + pat@.len()) =~= vviews(r@) + (seq![piece@] + split_pat_acc(
                    s@,
                    pat@,
                    i + pat@.len(),
                    i + pat@.len(),
                )));
            }
            r.push(piece);
            start = i + pat.len();
            i = i + pat.len();
        } else {
            i = i + 1;
        }
    }
    let piece = copy_range(s, start, s.len());
    proof {
        assert(vviews(r@.push(piece)) =~= vviews(r@).push(piece@));
    }
    r.push(piece);
    r
}

/// `s[i..]` with every leftmost non-overlapping occurrence of `pat` replaced by `rep`.
pub open spec fn replace_from(s: Seq<char>, pat: Seq<char>, rep: Seq<char>, i: int) -> Seq<char>
    decreases s.len() - i,
{
    if i < 0 || i >= s.len() {
        Seq::empty()
    } else if pat.len() > 0 && match_at(s, i, pat) {
        rep + replace_from(s, pat, rep, i + pat.len())
    } else {
        seq![s[i]] + replace_from(s, pat, rep, i + 1)
    }
}

/// `str::replace(pat, rep)` for a non-empty pattern.
pub open spec fn replace_all(s: Seq<char>, pat: Seq<char>, rep: Seq<char>) -> Seq<char> {
    replace_from(s, pat, rep, 0)
}

pub fn replace_chars(s: &Vec<char>, pat: &Vec<char>, rep: &Vec<char>) -> (r: Vec<char>)
    requires
        pat@.len() > 0,
    ensures
        r@ == replace_all(s@, pat@, rep@),
{
    let mut r: Vec<char> = Vec::new();
    let mut i: usize = 0;
    while i < s.len()
        invariant
            pat@.len() > 0,
            r@ + replace_from(s@, pat@, rep@, i as int) == replace_all(s@, pat@, rep@),
        decreases s@.len() - i,
    {
        if matches_at(s, i, pat) {
            let mut k: usize = 0;
            let ghost r0 = r@;
            while k < rep.len()
                invariant
                    k <= rep@.len(),
                    r@ == r0 + rep@.take(k as int),
                decreases rep@.len() - k,
            {
                r.push(rep[k]);
                assert(rep@.take(k + 1) =~= rep@.take(k as int).push(rep@[k as int]));
                k = k + 1;
            }
            assert(rep@.take(rep@.len() as int) =~= rep@);
            assert(r0 + (rep@ + replace_from(s@, pat@, rep@, i + pat@.len())) =~= r@ + replace_from(
                s@,
                pat@,
                rep@,
                i + pat@.len(),
            ));
            i = i + pat.len();
        } else {
            let ghost r0 = r@;
            r.push(s[i]);
            assert(r0 + (seq![s@[i as int]] + replace_from(s@, pat@, rep@, i + 1)) =~= r@
                + replace_from(s@, pat@, rep@, i + 1));
            i = i + 1;
        }
    }
    assert(r@ + replace_from(s@, pat@, rep@, i as int) =~= r@);
    r
}

/// `pieces` joined with `sep` between consecutive pieces (`[T]::join`).
pub open spec fn join(pieces: Seq<Seq<char>>, sep: Seq<char>) -> Seq<char>
    decreases pieces.len(),
{
    if pieces.len() == 0 {
        Seq::empty()
    } else if pieces.len() == 1 {
        pieces[0]
    } else {
        join(pieces.drop_last(), sep) + sep + pieces.last()
    }
}

pub fn join_chars(pieces: &Vec<Vec<char>>, sep: &Vec<char>) -> (r: Vec<char>)
    ensures
        r@ == join(vviews(pieces@), sep@),
{
    let mut r: Vec<char> = Vec::new();
    let mut i: usize = 0;
    while i < pieces.len()
        invariant
            i <= pieces@.len(),
            r@ == join(vviews(pieces@).take(i as int), sep@),
        decreases pieces@.len() - i,
    {
        let ghost r0 = r@;
        if i > 0 {
            append_chars(&mut r, sep);
        }
        append_chars(&mut r, &pieces[i]);
        proof {
            let t = vviews(pieces@).take(i + 1);
            assert(t.drop_last() =~= vviews(pieces@).take(i as int));
            if i == 0 {
                assert(r@ =~= t[0]);
            }
        }
        i = i + 1;
    }
    assert(vviews(pieces@).take(pieces@.len() as int) =~= vviews(pieces@));
    r
}

/// Append the characters of `b` to `a`.
pub fn append_chars(a: &mut Vec<char>, b: &Vec<char>)
    ensures
        final(a)@ == old(a)@ + b@,
{
    let mut k: usize = 0;
    while k < b.len()
        invariant
            k <= b@.len(),
            a@ == old(a)@ + b@.take(k as int),
        decreases b@.len() - k,
    {
        a.push(b[k]);
        assert(b@.take(k + 1) =~= b@.take(k as int).push(b@[k as int]));
        k = k + 1;
    }
    assert(b@.take(b@.len() as int) =~= b@);
}

} // verus!

verus! {

/// The character of a decimal digit.
pub open spec fn digit_char(d: nat) -> char {
    (48 + d) as char
}

/// Decimal representation of a natural number, without leading zeros.
pub open spec fn decimal(n: nat) -> Seq<char>
    decreases n,
{
    if n < 10 {
        seq![digit_char(n)]
    } else {
        decimal(n / 10).push(digit_char(n % 10))
    }
}

pub fn decimal_chars(n: u64) -> (r: Vec<char>)
    ensures
        r@ == decimal(n as nat),
    decreases n,
{
    let d = (n % 10) as u8;
    let c = (48u8 + d) as char;
    if n < 10 {
        let mut r: Vec<char> = Vec::new();
        r.push(c);
        assert(r@ =~= seq![digit_char(n as nat)]);
        r
    } else {
        let mut r = decimal_chars(n / 10);
        r.push(c);
        r
    }
}

/// ASCII lowercase of one character (`char::to_ascii_lowercase`).
pub open spec fn ascii_lower_char(c: char) -> char {
    if 'A' <= c <= 'Z' {
        ((c as u32) + 32) as char
    } else {
        c
    }
}

/// `str::to_ascii_lowercase`.
pub open spec fn ascii_lower(s: Seq<char>) -> Seq<char> {
    s.map_values(|c: char| ascii_lower_char(c))
}

/// ASCII uppercase of one character (`char::to_ascii_uppercase`).
pub open spec fn ascii_upper_char(c: char) -> char {
    if 'a' <= c <= 'z' {
        ((c as u32) - 32) as char
    } else {
        c
    }
}

/// `str::to_ascii_uppercase`.
pub open spec fn ascii_upper(s: Seq<char>) -> Seq<char> {
    s.map_values(|c: char| ascii_upper_char(c))
}

/// Every character is ASCII.
pub open spec fn all_ascii(s: Seq<char>) -> bool {
    forall|i: int| 0 <= i < s.len() ==> (#[trigger] s[i] as u32) < 128
}

pub fn all_ascii_chars(s: &Vec<char>) -> (b: bool)
    ensures
        b == all_ascii(s@),
{
    let mut i: usize = 0;
    while i < s.len()
        invariant
            i <= s@.len(),
            forall|k: int| 0 <= k < i ==> (#[trigger] s@[k] as u32) < 128,
        decreases s@.len() - i,
    {
        if (s[i] as u32) >= 128 {
            return false;
        }
        i += 1;
    }
    true
}

pub fn ascii_upper_chars(s: &Vec<char>) -> (r: Vec<char>)
    ensures
        r@ == ascii_upper(s@),
{
    let mut r: Vec<char> = Vec::new();
    let mut i: usize = 0;
    while i < s.len()
        invariant
            i <= s@.len(),
            r@ == ascii_upper(s@.take(i as int)),
        decreases s@.len() - i,
    {
        let c = s[i];
        let u = if 'a' <= c && c <= 'z' { ((c as u8) - 32) as char } else { c };
        r.push(u);
        i += 1;
        assert(ascii_upper(s@.take(i as int)) =~= ascii_upper(s@.take(i - 1)).push(ascii_upper_char(c)));
    }
    assert(s@.take(s@.len() as int) =~= s@);
    r
}

pub fn to_ascii_lower_char(c: char) -> (r: char)
    ensures
        r == ascii_lower_char(c),
{
    if 'A' <= c && c <= 'Z' {
        ((c as u8) + 32) as char
    } else {
        c
    }
}

pub fn ascii_lower_chars(s: &Vec<char>) -> (r: Vec<char>)
    ensures
        r@ == ascii_lower(s@),
{
    let mut r: Vec<char> = Vec::new();
    let mut i: usize = 0;
    while i < s.len()
        invariant
            i <= s@.len(),
            r@ == ascii_lower(s@.take(i as int)),
        decreases s@.len() - i,
    {
        r.push(to_ascii_lower_char(s[i]));
        assert(ascii_lower(s@.take(i + 1)) =~= ascii_lower(s@.take(i as int)).push(
            ascii_lower_char(s@[i as int]),
        ));
        i = i + 1;
    }
    assert(s@.take(s@.len() as int) =~= s@);
    r
}

/// ASCII decimal digit (`char::is_ascii_digit`).
pub open spec fn is_digit(c: char) -> bool {
    '0' <= c <= '9'
}

/// ASCII letter or digit (`char::is_ascii_alphanumeric`).
pub open spec fn is_ascii_alnum(c: char) -> bool {
    ('0' <= c <= '9') || ('a' <= c <= 'z') || ('A' <= c <= 'Z')
}

pub fn ascii_alnum(c: char) -> (b: bool)
    ensures
        b == is_ascii_alnum(c),
{
    ('0' <= c && c <= '9') || ('a' <= c && c <= 'z') || ('A' <= c && c <= 'Z')
}

/// `s` begins with `p`.
pub open spec fn starts_with(s: Seq<char>, p: Seq<char>) -> bool {
    p.len() <= s.len() && s.take(p.len() as int) == p
}

pub fn starts_with_chars(s: &Vec<char>, p: &Vec<char>) -> (b: bool)
    ensures
        b == starts_with(s@, p@),
{
    let b = matches_at(s, 0, p);
    assert(s@.subrange(0, p@.len() as int) =~= s@.take(p@.len() as int));
    b
}

pub fn starts_with_str(s: &Vec<char>, p: &str) -> (b: bool)
    ensures
        b == starts_with(s@, p@),
{
    let pv = chars_of(p);
    starts_with_chars(s, &pv)
}

pub fn contains_char(s: &Vec<char>, c: char) -> (b: bool)
    ensures
        b == s@.contains(c),
{
    let mut i: usize = 0;
    while i < s.len()
        invariant
            i <= s@.len(),
            forall|j: int| 0 <= j < i ==> s@[j] != c,
        decreases s@.len() - i,
    {
        if s[i] == c {
            assert(s@[i as int] == c);
            return true;
        }
        i = i + 1;
    }
    false
}

/// Characters of a string.
pub fn chars_of_string(s: &String) -> (v: Vec<char>)
    ensures
        v@ == s@,
{
    chars_of(s.as_str())
}

} // verus!

verus! {

/// First index at or after `i` holding `c`.
pub open spec fn find_char_from(s: Seq<char>, c: char, i: int) -> Option<int>
    decreases s.len() - i,
{
    if i < 0 || i >= s.len() {
        None
    } else if s[i] == c {
        Some(i)
    } else {
        find_char_from(s, c, i + 1)
    }
}

pub proof fn lemma_find_char_from(s: Seq<char>, c: char, i: int)
    requires
        0 <= i,
    ensures
        find_char_from(s, c, i) matches Some(j) ==> i <= j < s.len() && s[j] == c && forall|k: int|
            i <= k < j ==> s[k] != c,
        find_char_from(s, c, i) is None ==> forall|k: int| i <= k < s.len() ==> s[k] != c,
    decreases s.len() - i,
{
    if i < s.len() && s[i] != c {
        lemma_find_char_from(s, c, i + 1);
    }
}

pub fn find_char(s: &Vec<char>, c: char, from: usize) -> (r: Option<usize>)
    ensures
        r matches Some(j) ==> find_char_from(s@, c, from as int) == Some(j as int) && from <= j
            < s@.len(),
        r is None ==> find_char_from(s@, c, from as int) is None,
{
    let mut i = from;
    while i < s.len()
        invariant
            from <= i,
            find_char_from(s@, c, from as int) == find_char_from(s@, c, i as int),
        decreases s@.len() - i,
    {
        if s[i] == c {
            return Some(i);
        }
        i = i + 1;
    }
    None
}

/// First index at or after `i` where `pat` occurs.
pub open spec fn find_pat_from(s: Seq<char>, pat: Seq<char>, i: int) -> Option<int>
    decreases s.len() - i,
{
    if i < 0 || i >= s.len() {
        None
    } else if match_at(s, i, pat) {
        Some(i)
    } else {
        find_pat_from(s, pat, i + 1)
    }
}

pub proof fn lemma_find_pat_from(s: Seq<char>, pat: Seq<char>, i: int)
    requires
        0 <= i,
    ensures
        find_pat_from(s, pat, i) matches Some(j) ==> i <= j < s.len() && match_at(s, j, pat),
    decreases s.len() - i,
{
    if i < s.len() && !match_at(s, i, pat) {
        lemma_find_pat_from(s, pat, i + 1);
    }
}

pub fn find_pat(s: &Vec<char>, pat: &Vec<char>, from: usize) -> (r: Option<usize>)
    ensures
        r matches Some(j) ==> find_pat_from(s@, pat@, from as int) == Some(j as int) && from <= j
            && j + pat@.len() <= s@.len(),
        r is None ==> find_pat_from(s@, pat@, from as int) is None,
{
    let mut i = from;
    while i < s.len()
        invariant
            from <= i,
            find_pat_from(s@, pat@, from as int) == find_pat_from(s@, pat@, i as int),
        decreases s@.len() - i,
    {
        if matches_at(s, i, pat) {
            return Some(i);
        }
        i = i + 1;
    }
    None
}

/// `s` without all leading and trailing `c` (`str::trim_matches(c)`).
pub open spec fn strip_char(s: Seq<char>, c: char) -> Seq<char> {
    let a = lstrip_idx(s, c, 0);
    s.subrange(a, rstrip_idx(s, c, a, s.len() as int))
}

pub open spec fn lstrip_idx(s: Seq<char>, c: char, i: int) -> int
    decreases s.len() - i,
{
    if 0 <= i < s.len() && s[i] == c {
        lstrip_idx(s, c, i + 1)
    } else {
        i
    }
}

pub open spec fn rstrip_idx(s: Seq<char>, c: char, lo: int, j: int) -> int
    decreases j - lo,
{
    if lo < j && s[j - 1] == c {
        rstrip_idx(s, c, lo, j - 1)
    } else {
        j
    }
}

pub fn strip_char_chars(s: &Vec<char>, c: char) -> (r: Vec<char>)
    ensures
        r@ == strip_char(s@, c),
{
    let mut a: usize = 0;
    while a < s.len() && s[a] == c
        invariant
            a <= s@.len(),
            lstrip_idx(s@, c, 0) == lstrip_idx(s@, c, a as int),
        decreases s@.len() - a,
    {
        a = a + 1;
    }
    let mut b = s.len();
    while b > a && s[b - 1] == c
        invariant
            a <= b <= s@.len(),
            rstrip_idx(s@, c, a as int, s@.len() as int) == rstrip_idx(s@, c, a as int, b as int),
        decreases b - a,
    {
        b = b - 1;
    }
    copy_range(s, a, b)
}

/// The leading ASCII digits of `s[i..]`.
pub open spec fn digits_from(s: Seq<char>, i: int) -> Seq<char>
    decreases s.len() - i,
{
    if i < 0 || i >= s.len() || !is_digit(s[i]) {
        Seq::empty()
    } else {
        seq![s[i]] + digits_from(s, i + 1)
    }
}

pub fn take_digits(s: &Vec<char>, from: usize) -> (r: Vec<char>)
    ensures
        r@ == digits_from(s@, from as int),
{
    let mut j = from;
    while j < s.len() && '0' <= s[j] && s[j] <= '9'
        invariant
            from <= j,
            j <= s@.len() || j == from,
            digits_from(s@, from as int) == s@.subrange(from as int, j as int) + digits_from(s@, j as int) || from > s@.len(),
            forall|k: int| from <= k < j ==> is_digit(#[trigger] s@[k]),
        decreases s@.len() - j,
    {
        proof {
            assert(s@.subrange(from as int, j + 1) =~= s@.subrange(from as int, j as int).push(s@[j as int]));
            assert(s@.subrange(from as int, j as int) + digits_from(s@, j as int) =~= s@.subrange(from as int, j + 1) + digits_from(s@, j + 1));
        }
        j = j + 1;
    }
    if from >= s.len() {
        return Vec::new();
    }
    copy_range(s, from, j)
}

} // verus!

verus! {

/// `s` without every leading copy of a non-empty `pat` (`str::trim_start_matches`).
pub open spec fn lstrip_pat(s: Seq<char>, pat: Seq<char>) -> Seq<char>
    decreases s.len(),
{
    if pat.len() > 0 && starts_with(s, pat) {
        lstrip_pat(s.skip(pat.len() as int), pat)
    } else {
        s
    }
}

pub proof fn lemma_starts_with_skip(s: Seq<char>, i: int, pat: Seq<char>)
    requires
        0 <= i <= s.len(),
    ensures
        starts_with(s.skip(i), pat) == match_at(s, i, pat),
{
    if i + pat.len() <= s.len() {
        assert(s.skip(i).take(pat.len() as int) =~= s.subrange(i, i + pat.len()));
    }
}

pub fn lstrip_pat_chars(s: &Vec<char>, pat: &Vec<char>) -> (r: Vec<char>)
    ensures
        r@ == lstrip_pat(s@, pat@),
{
    let mut i: usize = 0;
    let n = s.len();
    assert(s@.skip(0) =~= s@);
    while i < n && pat.len() > 0 && matches_at(s, i, pat)
        invariant
            n == s@.len(),
            i <= n,
            lstrip_pat(s@, pat@) == lstrip_pat(s@.skip(i as int), pat@),
        decreases n - i,
    {
        proof {
            lemma_starts_with_skip(s@, i as int, pat@);
            assert(s@.skip(i as int).skip(pat@.len() as int) =~= s@.skip(i + pat@.len()));
        }
        i = i + pat.len();
    }
    proof {
        lemma_starts_with_skip(s@, i as int, pat@);
    }
    let r = copy_range(s, i, n);
    assert(r@ =~= s@.skip(i as int));
    r
}

} // verus!

verus! {

/// The value of a string of ASCII decimal digits.
pub open spec fn digits_value(s: Seq<char>) -> nat
    decreases s.len(),
{
    if s.len() == 0 {
        0
    } else {
        digits_value(s.drop_last()) * 10 + ((s.last() as nat) - 48) as nat
    }
}

/// `s` without one leading `+`.
pub open spec fn strip_plus(s: Seq<char>) -> Seq<char> {
    if s.len() > 0 && s[0] == '+' {
        s.drop_first()
    } else {
        s
    }
}

/// Every character of `s` is an ASCII digit.
pub open spec fn digits_only(s: Seq<char>) -> bool {
    forall|k: int| 0 <= k < s.len() ==> is_digit(#[trigger] s[k])
}

/// What `str::parse::<usize>` gives: an optional leading `+`, then at least one
/// ASCII digit and nothing else, of a value that fits in `usize`.
pub open spec fn parse_usize_spec(s: Seq<char>) -> Option<nat> {
    let body = strip_plus(s);
    if body.len() > 0 && digits_only(body) && digits_value(body) <= usize::MAX {
        Some(digits_value(body))
    } else {
        None
    }
}

proof fn lemma_digits_value_grows(s: Seq<char>, i: int, j: int)
    requires
        0 <= i <= j <= s.len(),
        forall|k: int| 0 <= k < s.len() ==> is_digit(#[trigger] s[k]),
    ensures
        digits_value(s.take(i)) <= digits_value(s.take(j)),
    decreases j - i,
{
    if i < j {
        lemma_digits_value_grows(s, i, j - 1);
        assert(s.take(j).drop_last() =~= s.take(j - 1));
    }
}

/// Parses a decimal `usize` as `str::parse::<usize>` does.
pub fn parse_usize(s: &Vec<char>) -> (r: Option<usize>)
    ensures
        match r {
            Some(v) => parse_usize_spec(s@) == Some(v as nat),
            None => parse_usize_spec(s@) is None,
        },
{
    let start: usize = if s.len() > 0 && s[0] == '+' { 1 } else { 0 };
    let ghost body = strip_plus(s@);
    assert(body =~= s@.subrange(start as int, s@.len() as int));
    if start >= s.len() {
        return None;
    }
    let mut i = start;
    let mut v: usize = 0;
    while i < s.len()
        invariant
            start <= i <= s@.len(),
            body =~= s@.subrange(start as int, s@.len() as int),
            body == strip_plus(s@),
            forall|k: int| 0 <= k < i - start ==> is_digit(#[trigger] body[k]),
            v as nat == digits_value(body.take(i - start)),
        decreases s@.len() - i,
    {
        let c = s[i];
        assert(body[i - start] == c);
        if !('0' <= c && c <= '9') {
            assert(!is_digit(body[i - start]));
            return None;
        }
        let d = (c as u32 - 48) as usize;
        assert(body.take(i - start + 1).drop_last() =~= body.take(i - start));
        assert(body.take(i - start + 1).last() == c);
        assert(digits_value(body.take(i - start + 1)) == v * 10 + d);
        if v > (usize::MAX - d) / 10 {
            proof {
                assert(v * 10 + d > usize::MAX) by (nonlinear_arith)
                    requires
                        v > (usize::MAX - d) / 10,
                        d <= 9,
                ;
                if digits_only(body) {
                    lemma_digits_value_grows(body, i - start + 1, body.len() as int);
                    assert(body.take(body.len() as int) =~= body);
                }
            }
            return None;
        }
        assert(v * 10 + d <= usize::MAX) by (nonlinear_arith)
            requires
                v <= (usize::MAX - d) / 10,
                d <= 9,
        ;
        v = v * 10 + d;
        i += 1;
    }
    assert(body.take(body.len() as int) =~= body);
    Some(v)
}

} // verus!

verus! {

/// Whether `char::is_alphanumeric` holds of a character (Unicode letters and
/// numbers).
pub uninterp spec fn unicode_alphanumeric(c: char) -> bool;

/// `char::is_alphanumeric`. Its documentation gives the ASCII case: the ASCII
/// letters and digits are alphanumeric and no other ASCII character is; of
/// the rest of Unicode nothing is stated.
#[verifier::external_body]
pub(crate) fn is_alphanumeric(c: char) -> (b: bool)
    ensures
        b == unicode_alphanumeric(c),
        (c as u32) < 128 ==> (b == is_ascii_alnum(c)),
{
    c.is_alphanumeric()
}

/// What `String::from_utf8_lossy` makes of a byte sequence.
pub uninterp spec fn utf8_lossy_of(bytes: Seq<u8>) -> Seq<char>;

/// `String::from_utf8_lossy`: the bytes read as UTF-8, each invalid sequence
/// replaced by U+FFFD; valid UTF-8 is read as it is. Which replacement
/// characters invalid input gets is left unsaid.
#[verifier::external_body]
pub(crate) fn utf8_lossy(bytes: &[u8]) -> (s: String)
    ensures
        s@ == utf8_lossy_of(bytes@),
        valid_utf8(bytes@) ==> s@ == decode_utf8(bytes@),
{
    String::from_utf8_lossy(bytes).into_owned()
}

} // verus!

verus! {

/// Index of the first character at or after `i` that is one of `stops`, or
/// the length of `s`.
pub open spec fn stop_index(s: Seq<char>, stops: Seq<char>, i: int) -> int
    decreases s.len() - i,
{
    if i < 0 || i >= s.len() {
        s.len() as int
    } else if stops.contains(s[i]) {
        i
    } else {
        stop_index(s, stops, i + 1)
    }
}

pub proof fn lemma_stop_index(s: Seq<char>, stops: Seq<char>, i: int)
    requires
        0 <= i <= s.len(),
    ensures
        i <= stop_index(s, stops, i) <= s.len(),
    decreases s.len() - i,
{
    if i < s.len() && !stops.contains(s[i]) {
        lemma_stop_index(s, stops, i + 1);
    }
}

/// The characters of `s` from `i` up to the first of `stops`.
pub fn take_until_any(s: &Vec<char>, stops: &Vec<char>, from: usize) -> (r: Vec<char>)
    requires
        from <= s@.len(),
    ensures
        r@ == s@.subrange(from as int, stop_index(s@, stops@, from as int)),
{
    let mut i = from;
    while i < s.len()
        invariant
            from <= i <= s@.len(),
            stop_index(s@, stops@, from as int) == stop_index(s@, stops@, i as int),
        ensures
            from <= i <= s@.len(),
            stop_index(s@, stops@, from as int) == i,
        decreases s@.len() - i,
    {
        let mut hit = false;
        let mut k: usize = 0;
        while k < stops.len()
            invariant
                i < s@.len(),
                k <= stops@.len(),
                hit == (exists|m: int| 0 <= m < k && stops@[m] == s@[i as int]),
            decreases stops@.len() - k,
        {
            if stops[k] == s[i] {
                hit = true;
            }
            k += 1;
        }
        if hit {
            assert(stops@.contains(s@[i as int]));
            break;
        }
        i += 1;
    }
    copy_range(s, from, i)
}

/// `s` without every trailing copy of a non-empty `pat` (`str::trim_end_matches`).
pub open spec fn rstrip_pat(s: Seq<char>, pat: Seq<char>) -> Seq<char>
    decreases s.len(),
{
    if pat.len() > 0 && s.len() >= pat.len() && s.subrange(s.len() - pat.len(), s.len() as int) == pat {
        rstrip_pat(s.subrange(0, s.len() - pat.len()), pat)
    } else {
        s
    }
}

pub fn rstrip_pat_chars(s: &Vec<char>, pat: &Vec<char>) -> (r: Vec<char>)
    ensures
        r@ == rstrip_pat(s@, pat@),
{
    let mut end = s.len();
    if pat.len() == 0 {
        return copy_range(s, 0, end);
    }
    assert(s@.subrange(0, end as int) =~= s@);
    while end >= pat.len() && matches_at(s, end - pat.len(), pat)
        invariant
            end <= s@.len(),
            pat@.len() > 0,
            rstrip_pat(s@, pat@) == rstrip_pat(s@.subrange(0, end as int), pat@),
        decreases end,
    {
        proof {
            let t = s@.subrange(0, end as int);
            assert(t.subrange(t.len() - pat@.len(), t.len() as int) =~= pat@);
            assert(t.subrange(0, t.len() - pat@.len()) =~= s@.subrange(0, end - pat@.len()));
        }
        end = end - pat.len();
    }
    proof {
        let t = s@.subrange(0, end as int);
        if end >= pat@.len() {
            assert(s@.subrange(end - pat@.len(), end as int) =~= t.subrange(t.len() - pat@.len(), t.len() as int));
        }
    }
    copy_range(s, 0, end)
}

} // verus!

verus! {

/// What `std::str::from_utf8` makes of a byte sequence: its characters when it
/// is valid UTF-8, else nothing.
pub open spec fn utf8_decoding(bytes: Seq<u8>) -> Option<Seq<char>> {
    if valid_utf8(bytes) {
        Some(decode_utf8(bytes))
    } else {
        None
    }
}

/// `std::str::from_utf8`, the result copied into a `String`: as its
/// documentation says, it succeeds exactly on valid UTF-8.
#[verifier::external_body]
pub(crate) fn utf8_decode(bytes: &[u8]) -> (r: Option<String>)
    ensures
        match r {
            Some(s) => utf8_decoding(bytes@) == Some(s@),
            None => utf8_decoding(bytes@) is None,
        },
{
    std::str::from_utf8(bytes).ok().map(String::from)
}

} // verus!

verus! {

/// The decimal digits of a 128-bit number.
pub fn decimal_chars_wide(n: u128) -> (r: Vec<char>)
    ensures
        r@ == decimal(n as nat),
    decreases n,
{
    let d = (n % 10) as u8;
    let c = (48u8 + d) as char;
    if n < 10 {
        let mut r: Vec<char> = Vec::new();
        r.push(c);
        assert(r@ =~= seq![digit_char(n as nat)]);
        r
    } else {
        let mut r = decimal_chars_wide(n / 10);
        r.push(c);
        r
    }
}

} // verus!

verus! {

/// Unicode upper case of a string, as `str::to_uppercase` computes it.
pub uninterp spec fn unicode_upper(s: Seq<char>) -> Seq<char>;

/// Unicode lower case of a string, as `str::to_lowercase` computes it.
pub uninterp spec fn unicode_lower(s: Seq<char>) -> Seq<char>;

/// `str::to_uppercase`; the result is named, not described.
#[verifier::external_body]
pub(crate) fn str_to_uppercase(s: &str) -> (r: String)
    ensures
        r@ == unicode_upper(s@),
{
    s.to_uppercase()
}

/// `str::to_lowercase`; the result is named, not described.
#[verifier::external_body]
pub(crate) fn str_to_lowercase(s: &str) -> (r: String)
    ensures
        r@ == unicode_lower(s@),
{
    s.to_lowercase()
}

} // verus!

verus! {

/// A copy of `bytes[a..b]`.
pub fn copy_bytes(bytes: &[u8], a: usize, b: usize) -> (r: Vec<u8>)
    requires
        a <= b <= bytes@.len(),
    ensures
        r@ == bytes@.subrange(a as int, b as int),
{
    let mut r: Vec<u8> = Vec::new();
    let mut i = a;
    while i < b
        invariant
            a <= i <= b <= bytes@.len(),
            r@ == bytes@.subrange(a as int, i as int),
        decreases b - i,
    {
        r.push(bytes[i]);
        i += 1;
        assert(r@ =~= bytes@.subrange(a as int, i as int));
    }
    r
}

} // verus!
