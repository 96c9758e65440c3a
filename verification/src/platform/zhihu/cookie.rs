use vstd::prelude::*;

use crate::text::{
    chars_of, chars_eq, find_char, find_char_from, split_char, split_chars_at, string_of,
    strip_char, strip_char_chars, trim, trim_chars, vviews, copy_range,
};

verus! {

/// The value of the first `name=value` pair among `pairs` (each trimmed; the
/// key compared after trimming; the value trimmed, then stripped of
/// surrounding double quotes). Only the first `=` separates key from value.
pub open spec fn field_in(pairs: Seq<Seq<char>>, name: Seq<char>) -> Option<Seq<char>>
    decreases pairs.len(),
{
    if pairs.len() == 0 {
        None
    } else {
        let p = trim(pairs[0]);
        match find_char_from(p, '=', 0) {
            Some(j) if trim(p.take(j)) == name => Some(strip_char(trim(p.skip(j + 1)), '"')),
            _ => field_in(pairs.drop_first(), name),
        }
    }
}

/// A cookie field's value in a raw `Cookie:` header string.
pub open spec fn spec_field(cookie: Seq<char>, name: Seq<char>) -> Option<Seq<char>> {
    field_in(split_char(cookie, ';'), name)
}

/// Extract a cookie field's value from a raw `Cookie:` header string.
/// Surrounding double-quotes are stripped; only the first `=` separates key
/// from value, so values containing `=` are preserved intact.
pub fn field(cookie: &str, name: &str) -> (r: Option<String>)
    ensures
        r is Some <==> spec_field(cookie@, name@) is Some,
        r matches Some(v) ==> v@ == spec_field(cookie@, name@)->0,
{
    let c = chars_of(cookie);
    let n = chars_of(name);
    let pairs = split_chars_at(&c, ';');
    let mut i: usize = 0;
    assert(vviews(pairs@).skip(0) =~= vviews(pairs@));
    while i < pairs.len()
        invariant
            i <= pairs@.len(),
            spec_field(cookie@, name@) == field_in(vviews(pairs@).skip(i as int), n@),
            n@ == name@,
        decreases pairs@.len() - i,
    {
        let ghost rest = vviews(pairs@).skip(i as int);
        proof {
            assert(rest[0] == pairs@[i as int]@);
            assert(rest.drop_first() =~= vviews(pairs@).skip(i + 1));
        }
        let p = trim_chars(&pairs[i]);
        if let Some(j) = find_char(&p, '=', 0) {
            let k = copy_range(&p, 0, j);
            let kt = trim_chars(&k);
            assert(k@ =~= p@.take(j as int));
            if chars_eq(&kt, &n) {
                let v = copy_range(&p, j + 1, p.len());
                assert(v@ =~= p@.skip(j + 1));
                let vt = trim_chars(&v);
                let vs = strip_char_chars(&vt, '"');
                return Some(string_of(vs.as_slice()));
            }
        }
        i = i + 1;
    }
    assert(vviews(pairs@).skip(i as int) =~= Seq::<Seq<char>>::empty());
    None
}

} // verus!
