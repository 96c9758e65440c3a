use vstd::prelude::*;
use vstd::string::StringSliceAdditionalSpecFns;
use vstd::utf8::encode_utf8;

use crate::text::{
    append_chars, chars_of, copy_range, eq_str, join, join_chars, split_char, split_chars_at,
    stop_index, string_of, take_until_any, trim, trim_chars, utf8_decode, utf8_decoding, utf8_lossy,
    utf8_lossy_of, vviews,
};
use crate::xml::{events_view, read_xml_events, xml_events, SpecXmlEvent, XmlEvent};

verus! {

/// The value of an ASCII hexadecimal digit.
pub open spec fn hex_value(b: u8) -> Option<u8> {
    if 48 <= b <= 57 {
        Some((b - 48) as u8)
    } else if 97 <= b <= 102 {
        Some((b - 87) as u8)
    } else if 65 <= b <= 70 {
        Some((b - 55) as u8)
    } else {
        None
    }
}

/// The value of an ASCII hexadecimal digit.
pub fn hex(value: u8) -> (r: Option<u8>)
    ensures
        r == hex_value(value),
{
    if 48 <= value && value <= 57 {
        Some(value - 48)
    } else if 97 <= value && value <= 102 {
        Some(value - 87)
    } else if 65 <= value && value <= 70 {
        Some(value - 55)
    } else {
        None
    }
}

/// `bs[i..]` with each `%XY` (two hexadecimal digits, not at the very end of
/// the input) replaced by the byte it names.
pub open spec fn pct_decode_from(bs: Seq<u8>, i: int) -> Seq<u8>
    decreases bs.len() - i,
{
    if i < 0 || i >= bs.len() {
        Seq::empty()
    } else if bs[i] == 37 && i + 2 < bs.len() && hex_value(bs[i + 1]) is Some && hex_value(
        bs[i + 2],
    ) is Some {
        seq![(hex_value(bs[i + 1])->0 * 16 + hex_value(bs[i + 2])->0) as u8] + pct_decode_from(bs, i + 3)
    } else {
        seq![bs[i]] + pct_decode_from(bs, i + 1)
    }
}

/// Decodes the percent escapes of a link, reading the bytes as UTF-8 with
/// invalid sequences replaced.
pub fn percent_decode(value: &str) -> (r: String)
    ensures
        r@ == utf8_lossy_of(pct_decode_from(encode_utf8(value@), 0)),
{
    let bytes = value.as_bytes();
    let n = bytes.len();
    let mut out: Vec<u8> = Vec::new();
    let mut i: usize = 0;
    while i < n
        invariant
            n == bytes@.len(),
            bytes@ == value.spec_bytes(),
            i <= n,
            out@ + pct_decode_from(bytes@, i as int) == pct_decode_from(bytes@, 0),
        decreases n - i,
    {
        let ghost o = out@;
        if bytes[i] == 37 && n - i > 2 {
            let a = hex(bytes[i + 1]);
            let b = hex(bytes[i + 2]);
            if a.is_some() && b.is_some() {
                let v = a.unwrap() * 16 + b.unwrap();
                out.push(v);
                assert(o + pct_decode_from(bytes@, i as int) =~= out@ + pct_decode_from(bytes@, i + 3));
                i += 3;
                continue;
            }
        }
        out.push(bytes[i]);
        assert(o + pct_decode_from(bytes@, i as int) =~= out@ + pct_decode_from(bytes@, i + 1));
        i += 1;
    }
    assert(out@ + pct_decode_from(bytes@, n as int) =~= out@);
    utf8_lossy(out.as_slice())
}

/// The local part of an XML name: after its last `:`; empty when the name is
/// not UTF-8.
pub open spec fn local_name_spec(name: Seq<u8>) -> Seq<char> {
    match utf8_decoding(name) {
        Some(s) => {
            let parts = split_char(s, ':');
            parts[parts.len() - 1]
        },
        None => Seq::empty(),
    }
}

/// The local part of an XML name.
pub fn local_name(name: &[u8]) -> (r: Vec<char>)
    ensures
        r@ == local_name_spec(name@),
{
    match utf8_decode(name) {
        Some(s) => {
            let cs = chars_of(s.as_str());
            let parts = split_chars_at(&cs, ':');
            proof {
                crate::text::lemma_split_char_nonempty(cs@, ':', 0, 0);
            }
            let k = parts.len() - 1;
            copy_range(&parts[k], 0, parts[k].len())
        },
        None => Vec::new(),
    }
}

/// The index after the ASCII letters of `s` from `j` on.
pub open spec fn skip_alpha(s: Seq<char>, j: int) -> int
    decreases s.len() - j,
{
    if 0 <= j < s.len() && (('a' <= s[j] <= 'z') || ('A' <= s[j] <= 'Z')) {
        skip_alpha(s, j + 1)
    } else {
        j
    }
}

/// The index after the ASCII digits and `-` of `s` from `j` on.
pub open spec fn skip_number(s: Seq<char>, j: int) -> int
    decreases s.len() - j,
{
    if 0 <= j < s.len() && (('0' <= s[j] <= '9') || s[j] == '-') {
        skip_number(s, j + 1)
    } else {
        j
    }
}

pub proof fn lemma_skips(s: Seq<char>, j: int)
    requires
        0 <= j <= s.len(),
    ensures
        j <= skip_alpha(s, j) <= s.len(),
        j <= skip_number(s, j) <= s.len(),
    decreases s.len() - j,
{
    if j < s.len() {
        lemma_skips(s, j + 1);
    }
}

/// The plain text of RTF source from `i` on: braces are dropped, a control
/// word is dropped with its numeric argument and one following space, and
/// `\par` and `\line` become newlines.
pub open spec fn rtf_from(s: Seq<char>, i: int) -> Seq<char>
    decreases s.len() - i,
{
    if i < 0 || i >= s.len() {
        Seq::empty()
    } else if s[i] == '{' || s[i] == '}' {
        rtf_from(s, i + 1)
    } else if s[i] == '\\' {
        proof {
            lemma_skips(s, i + 1);
            lemma_skips(s, skip_alpha(s, i + 1));
        }
        let j = skip_alpha(s, i + 1);
        let k = skip_number(s, j);
        let word = s.subrange(i + 1, j);
        let m = if k < s.len() && s[k] == ' ' { k + 1 } else { k };
        (if word == "par"@ || word == "line"@ { seq!['\n'] } else { Seq::empty() }) + rtf_from(s, m)
    } else {
        seq![s[i]] + rtf_from(s, i + 1)
    }
}

/// Reduces RTF source to its text.
pub fn strip_rtf(raw: &str) -> (r: String)
    ensures
        r@ == rtf_from(raw@, 0),
{
    let s = chars_of(raw);
    let n = s.len();
    let mut out: Vec<char> = Vec::new();
    let mut i: usize = 0;
    while i < n
        invariant
            n == s@.len(),
            i <= n,
            out@ + rtf_from(s@, i as int) == rtf_from(s@, 0),
        decreases n - i,
    {
        let ghost o = out@;
        let ch = s[i];
        if ch == '{' || ch == '}' {
            i += 1;
        } else if ch == '\\' {
            proof {
                lemma_skips(s@, i + 1);
            }
            let mut j = i + 1;
            while j < n && (('a' <= s[j] && s[j] <= 'z') || ('A' <= s[j] && s[j] <= 'Z'))
                invariant
                    n == s@.len(),
                    i + 1 <= j <= n,
                    skip_alpha(s@, i + 1) == skip_alpha(s@, j as int),
                decreases n - j,
            {
                j += 1;
            }
            proof {
                lemma_skips(s@, j as int);
            }
            let mut k = j;
            while k < n && (('0' <= s[k] && s[k] <= '9') || s[k] == '-')
                invariant
                    n == s@.len(),
                    j <= k <= n,
                    skip_number(s@, j as int) == skip_number(s@, k as int),
                decreases n - k,
            {
                k += 1;
            }
            let word = copy_range(&s, i + 1, j);
            if eq_str(&word, "par") || eq_str(&word, "line") {
                out.push('\n');
            }
            let m = if k < n && s[k] == ' ' { k + 1 } else { k };
            assert(o + rtf_from(s@, i as int) =~= out@ + rtf_from(s@, m as int));
            i = m;
        } else {
            out.push(ch);
            assert(o + rtf_from(s@, i as int) =~= out@ + rtf_from(s@, i + 1));
            i += 1;
        }
    }
    assert(out@ + rtf_from(s@, n as int) =~= out@);
    string_of(out.as_slice())
}

/// The text of an XML document: each text node, trimmed, when not blank,
/// and with `paragraphs` a blank line after each `</p>`, `</para>` and
/// `</section>`.
pub open spec fn xml_text_step(out: Seq<char>, e: SpecXmlEvent, paragraphs: bool) -> Seq<char> {
    match e {
        SpecXmlEvent::Text(t) => {
            let text = match t {
                Some(v) => v,
                None => Seq::empty(),
            };
            if trim(text).len() > 0 {
                out + trim(text)
            } else {
                out
            }
        },
        SpecXmlEvent::End(name) => {
            let n = local_name_spec(name);
            if paragraphs && (n == "p"@ || n == "para"@ || n == "section"@) {
                out + "\n\n"@
            } else {
                out
            }
        },
        _ => out,
    }
}

pub open spec fn xml_text_fold(es: Seq<SpecXmlEvent>, paragraphs: bool) -> Seq<char>
    decreases es.len(),
{
    if es.len() == 0 {
        Seq::empty()
    } else {
        xml_text_step(xml_text_fold(es.drop_last(), paragraphs), es.last(), paragraphs)
    }
}

/// The text of an XML document (FB2, DOCX, ODT and plain XML books).
pub fn xml_text(raw: &str, paragraphs: bool) -> (r: String)
    ensures
        r@ == xml_text_fold(xml_events(raw@, true), paragraphs),
{
    let events = read_xml_events(raw, true);
    let ghost es = events_view(events@);
    let mut out: Vec<char> = Vec::new();
    let mut i: usize = 0;
    while i < events.len()
        invariant
            i <= events@.len(),
            es == events_view(events@),
            out@ == xml_text_fold(es.take(i as int), paragraphs),
        decreases events@.len() - i,
    {
        assert(es.take(i + 1).drop_last() =~= es.take(i as int));
        assert(es.take(i + 1).last() == crate::xml::event_view(events@[i as int]));
        match &events[i] {
            XmlEvent::Text(t) => {
                let text = match t {
                    Some(v) => chars_of(v.as_str()),
                    None => Vec::new(),
                };
                let tt = trim_chars(&text);
                if tt.len() > 0 {
                    append_chars(&mut out, &tt);
                }
            },
            XmlEvent::End(name) => {
                if paragraphs {
                    let n = local_name(name.as_slice());
                    if eq_str(&n, "p") || eq_str(&n, "para") || eq_str(&n, "section") {
                        let br = chars_of("\n\n");
                        append_chars(&mut out, &br);
                    }
                }
            },
            _ => {},
        }
        i += 1;
    }
    assert(es.take(events@.len() as int) =~= es);
    string_of(out.as_slice())
}

/// The value of attribute `key` (by local name) among `attrs`: the last one
/// that could be unescaped.
pub open spec fn attr_value(attrs: Seq<(Seq<u8>, Option<Seq<char>>)>, key: Seq<char>) -> Option<Seq<char>>
    decreases attrs.len(),
{
    if attrs.len() == 0 {
        None
    } else {
        let last = attrs.last();
        if local_name_spec(last.0) == key && last.1 is Some {
            last.1
        } else {
            attr_value(attrs.drop_last(), key)
        }
    }
}

/// The value of attribute `key` among the attributes of a tag.
pub fn attribute_value(attrs: &Vec<(Vec<u8>, Option<String>)>, key: &str) -> (r: Option<String>)
    ensures
        crate::xml::opt_chars(r) == attr_value(
            attrs@.map_values(|a: (Vec<u8>, Option<String>)| crate::xml::attr_pair_view(a)),
            key@,
        ),
{
    let ghost all = attrs@.map_values(|a: (Vec<u8>, Option<String>)| crate::xml::attr_pair_view(a));
    let k = chars_of(key);
    let mut i = attrs.len();
    assert(all.take(all.len() as int) =~= all);
    while i > 0
        invariant
            i <= attrs@.len(),
            k@ == key@,
            all == attrs@.map_values(|a: (Vec<u8>, Option<String>)| crate::xml::attr_pair_view(a)),
            attr_value(all, key@) == attr_value(all.take(i as int), key@),
        decreases i,
    {
        let ghost pre = all.take(i as int);
        assert(pre.drop_last() =~= all.take(i - 1));
        assert(pre.last() == all[i - 1]);
        let (name, value) = &attrs[i - 1];
        let n = local_name(name.as_slice());
        if crate::text::chars_eq(&n, &k) {
            match value {
                Some(v) => {
                    return Some(v.clone());
                },
                None => {},
            }
        }
        i -= 1;
    }
    assert(all.take(0) =~= Seq::<(Seq<u8>, Option<Seq<char>>)>::empty());
    None
}

/// The value of `attribute` on the first `element` tag (by local name) of an
/// XML document, if it has one.
pub open spec fn first_attr_from(es: Seq<SpecXmlEvent>, element: Seq<char>, attribute: Seq<char>, i: int) -> Option<Seq<char>>
    decreases es.len() - i,
{
    if i < 0 || i >= es.len() {
        None
    } else {
        match es[i] {
            SpecXmlEvent::Tag(_, name, attrs) => if local_name_spec(name) == element {
                attr_value(attrs, attribute)
            } else {
                first_attr_from(es, element, attribute, i + 1)
            },
            _ => first_attr_from(es, element, attribute, i + 1),
        }
    }
}

/// The value of `attribute` on the first `element` tag of an XML document.
pub fn first_xml_attribute(raw: &str, element: &str, attribute: &str) -> (r: Option<String>)
    ensures
        crate::xml::opt_chars(r) == first_attr_from(xml_events(raw@, true), element@, attribute@, 0),
{
    let events = read_xml_events(raw, true);
    let ghost es = events_view(events@);
    let el = chars_of(element);
    let mut i: usize = 0;
    while i < events.len()
        invariant
            i <= events@.len(),
            es == events_view(events@),
            es == xml_events(raw@, true),
            el@ == element@,
            first_attr_from(es, element@, attribute@, 0) == first_attr_from(es, element@, attribute@, i as int),
        decreases events@.len() - i,
    {
        assert(es[i as int] == crate::xml::event_view(events@[i as int]));
        match &events[i] {
            XmlEvent::Tag(_, name, attrs) => {
                let n = local_name(name.as_slice());
                if crate::text::chars_eq(&n, &el) {
                    return attribute_value(attrs, attribute);
                }
            },
            _ => {},
        }
        i += 1;
    }
    None
}

/// One path component applied to a normalized path: empty and `.` parts
/// change nothing, `..` drops the last component, others are appended.
pub open spec fn normalize_step(acc: Seq<Seq<char>>, part: Seq<char>) -> Seq<Seq<char>> {
    if part.len() == 0 || part == "."@ {
        acc
    } else if part == ".."@ {
        if acc.len() > 0 {
            acc.drop_last()
        } else {
            acc
        }
    } else {
        acc.push(part)
    }
}

pub open spec fn normalize_parts(parts: Seq<Seq<char>>) -> Seq<Seq<char>>
    decreases parts.len(),
{
    if parts.len() == 0 {
        Seq::empty()
    } else {
        normalize_step(normalize_parts(parts.drop_last()), parts.last())
    }
}

fn normalize_exec(parts: &Vec<Vec<char>>) -> (r: Vec<Vec<char>>)
    ensures
        vviews(r@) == normalize_parts(vviews(parts@)),
{
    let ghost ps = vviews(parts@);
    let mut acc: Vec<Vec<char>> = Vec::new();
    let mut i: usize = 0;
    assert(vviews(acc@) =~= normalize_parts(ps.take(0)));
    while i < parts.len()
        invariant
            i <= parts@.len(),
            ps == vviews(parts@),
            vviews(acc@) == normalize_parts(ps.take(i as int)),
        decreases parts@.len() - i,
    {
        assert(ps.take(i + 1).drop_last() =~= ps.take(i as int));
        let part = &parts[i];
        let ghost before = vviews(acc@);
        if part.len() == 0 || eq_str(part, ".") {
        } else if eq_str(part, "..") {
            if acc.len() > 0 {
                acc.pop();
                assert(vviews(acc@) =~= before.drop_last());
            }
        } else {
            let c = copy_range(part, 0, part.len());
            assert(c@ =~= part@);
            acc.push(c);
            assert(vviews(acc@) =~= before.push(part@));
        }
        i += 1;
    }
    assert(ps.take(parts@.len() as int) =~= ps);
    acc
}

/// The directory part of a path inside an archive: its components but the
/// last, joined by `/` (empty and `.` components left out).
pub open spec fn parent_dir_spec(path: Seq<char>) -> Seq<char> {
    let comps = normalize_parts(split_char(path, '/'));
    join(if comps.len() > 0 { comps.drop_last() } else { comps }, "/"@)
}

/// The directory part of a path inside an archive.
pub fn parent_dir(path: &str) -> (r: String)
    ensures
        r@ == parent_dir_spec(path@),
{
    let cs = chars_of(path);
    let parts = split_chars_at(&cs, '/');
    let mut comps = normalize_exec(&parts);
    let ghost all = vviews(comps@);
    if comps.len() > 0 {
        comps.pop();
        assert(vviews(comps@) =~= all.drop_last());
    }
    let sep = chars_of("/");
    let joined = join_chars(&comps, &sep);
    string_of(joined.as_slice())
}

/// The archive path that `href` (relative to directory `base`) names: cut at
/// `#` or `?`, joined to `base` unless absolute, with `.` and `..` resolved
/// and backslashes turned into slashes.
pub open spec fn zip_path_spec(base: Seq<char>, href: Seq<char>) -> Seq<char> {
    let h = href.subrange(0, stop_index(href, seq!['#', '?'], 0));
    let joined = if h.len() > 0 && h[0] == '/' { h } else { base + "/"@ + h };
    crate::text::replace_all(join(normalize_parts(split_char(joined, '/')), "/"@), seq!['\\'], seq!['/'])
}

/// The archive path that a link inside a book names.
pub fn zip_path(base: &str, href: &str) -> (r: String)
    ensures
        r@ == zip_path_spec(base@, href@),
{
    let hc = chars_of(href);
    let mut stops: Vec<char> = Vec::new();
    stops.push('#');
    stops.push('?');
    assert(stops@ =~= seq!['#', '?']);
    proof {
        crate::text::lemma_stop_index(hc@, stops@, 0);
    }
    let h = take_until_any(&hc, &stops, 0);
    let joined = if h.len() > 0 && h[0] == '/' {
        h
    } else {
        let mut j = chars_of(base);
        let slash = chars_of("/");
        append_chars(&mut j, &slash);
        append_chars(&mut j, &h);
        j
    };
    let parts = split_chars_at(&joined, '/');
    let comps = normalize_exec(&parts);
    let sep = chars_of("/");
    let path = join_chars(&comps, &sep);
    let mut back: Vec<char> = Vec::new();
    back.push('\\');
    let mut fwd: Vec<char> = Vec::new();
    fwd.push('/');
    assert(back@ =~= seq!['\\']);
    assert(fwd@ =~= seq!['/']);
    let fixed = crate::text::replace_chars(&path, &back, &fwd);
    string_of(fixed.as_slice())
}

} // verus!
