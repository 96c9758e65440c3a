use vstd::prelude::*;

use crate::book::chapters::{chapter_view, chapter_views, spec_split_text, split_text, SpecChapter};
use crate::book::epub::{mobi_fold, mobi_html_to_text};
use crate::book::Chapter;
use crate::platform::html::fragment_nodes;
use crate::text::{
    chars_of, chars_of_string, decimal, decimal_chars, find_char, find_char_from, find_pat, find_pat_from,
    is_alphanumeric, lemma_find_char_from, lemma_find_pat_from, parse_usize, parse_usize_spec,
    string_of, strs, trim, unicode_alphanumeric, utf8_lossy, utf8_lossy_of,
};

verus! {

/// Appends `n` bytes, each copied from `d` positions before the current end
/// of `out`; later copies may read bytes the earlier ones appended.
pub open spec fn copy_back(out: Seq<u8>, d: int, n: nat) -> Seq<u8>
    decreases n,
{
    if n == 0 {
        out
    } else {
        copy_back(out.push(out[out.len() - d]), d, (n - 1) as nat)
    }
}

/// One PalmDoc (LZ77) decoding step at input position `i`: the next input
/// position and the output after the step.
pub open spec fn palm_step(data: Seq<u8>, i: int, out: Seq<u8>) -> (int, Seq<u8>) {
    let b = data[i];
    if b == 0 || (9 <= b && b <= 127) {
        // a literal byte
        (i + 1, out.push(b))
    } else if b <= 8 {
        // the next `b` bytes are literals
        let end = if i + 1 + b <= data.len() { i + 1 + b } else { data.len() as int };
        (end, out + data.subrange(i + 1, end))
    } else if b <= 191 {
        // a back reference: 11 bits of distance, 3 bits of length
        if i + 1 >= data.len() {
            (data.len() as int, out)
        } else {
            let pair = b * 256 + data[i + 1];
            let distance = (pair % 16384) / 8;
            let length = pair % 8 + 3;
            if distance == 0 || distance > out.len() {
                (i + 2, out)
            } else {
                (i + 2, copy_back(out, distance, length as nat))
            }
        }
    } else {
        // a space followed by the byte with its top bit cleared
        (i + 1, out.push(32u8).push((b - 128) as u8))
    }
}

/// The output of decoding `data` from position `i` on, after `out`.
pub open spec fn palm_from(data: Seq<u8>, i: int, out: Seq<u8>) -> Seq<u8>
    decreases data.len() - i,
{
    if i < 0 || i >= data.len() {
        out
    } else {
        let (j, o) = palm_step(data, i, out);
        if j <= i {
            out
        } else {
            palm_from(data, j, o)
        }
    }
}

/// The PalmDoc decompression of a whole record.
pub open spec fn palmdoc(data: Seq<u8>) -> Seq<u8> {
    palm_from(data, 0, Seq::empty())
}

proof fn lemma_palm_plain(data: Seq<u8>, i: int)
    requires
        0 <= i <= data.len(),
        forall|k: int| 0 <= k < data.len() ==> #[trigger] data[k] == 0 || (9 <= data[k] && data[k] <= 127),
    ensures
        palm_from(data, i, data.take(i)) == data,
    decreases data.len() - i,
{
    if i == data.len() {
        assert(data.take(i) =~= data);
    } else {
        assert(data.take(i).push(data[i]) =~= data.take(i + 1));
        lemma_palm_plain(data, i + 1);
    }
}

/// A record made only of plain bytes (zero, tab, line breaks and printable
/// ASCII) decodes to itself.
pub proof fn law_palmdoc_plain_text(data: Seq<u8>)
    requires
        forall|k: int| 0 <= k < data.len() ==> #[trigger] data[k] == 0 || (9 <= data[k] && data[k] <= 127),
    ensures
        palmdoc(data) == data,
{
    assert(data.take(0) =~= Seq::<u8>::empty());
    lemma_palm_plain(data, 0);
}

proof fn lemma_palm_prefix(data: Seq<u8>, i: int, m: int)
    requires
        0 <= i <= m <= data.len(),
        forall|k: int| 0 <= k < m ==> #[trigger] data[k] == 0 || (9 <= data[k] && data[k] <= 127),
    ensures
        palm_from(data, i, data.take(i)) == palm_from(data, m, data.take(m)),
    decreases m - i,
{
    if i < m {
        assert(data.take(i).push(data[i]) =~= data.take(i + 1));
        lemma_palm_prefix(data, i + 1, m);
    }
}

/// Copying `n` bytes from `d` back appends `n` bytes, each equal to the byte
/// `d` positions before it.
proof fn lemma_copy_back(s: Seq<u8>, d: int, n: nat)
    requires
        1 <= d <= s.len(),
    ensures
        copy_back(s, d, n).len() == s.len() + n,
        copy_back(s, d, n).take(s.len() as int) == s,
        forall|k: int| 0 <= k < n ==> #[trigger] copy_back(s, d, n)[s.len() + k] == copy_back(s, d, n)[s.len() + k - d],
    decreases n,
{
    if n > 0 {
        let s2 = s.push(s[s.len() - d]);
        lemma_copy_back(s2, d, (n - 1) as nat);
        let r = copy_back(s, d, n);
        assert(r == copy_back(s2, d, (n - 1) as nat));
        assert(r.take(s2.len() as int) == s2);
        assert(r.take(s.len() as int) =~= s) by {
            assert forall|k: int| 0 <= k < s.len() implies r[k] == s[k] by {
                assert(r.take(s2.len() as int)[k] == s2[k]);
            }
        }
        assert forall|k: int| 0 <= k < n implies #[trigger] r[s.len() + k] == r[s.len() + k - d] by {
            if k == 0 {
                assert(r.take(s2.len() as int)[s.len() as int] == s2[s.len() as int]);
                assert(r.take(s2.len() as int)[s.len() - d] == s2[s.len() - d]);
            } else {
                assert(r[s2.len() + (k - 1)] == r[s2.len() + (k - 1) - d]);
            }
        }
    }
}

/// A back reference after plain text: `lit` (plain bytes) followed by the two
/// bytes `0x80 | d >> 5`, `(d & 31) << 3 | (n - 3)` decodes to `lit` and then
/// `n` more bytes, each a copy of the byte `d` positions before it; the
/// distance is the 11 bits after the two marker bits, the length the low 3
/// bits plus three.
pub proof fn law_palmdoc_back_reference(lit: Seq<u8>, d: int, n: int)
    requires
        forall|k: int| 0 <= k < lit.len() ==> #[trigger] lit[k] == 0 || (9 <= lit[k] && lit[k] <= 127),
        1 <= d <= lit.len(),
        d < 2048,
        3 <= n <= 10,
    ensures
        ({
            let data = lit + seq![(128 + d / 32) as u8, ((d % 32) * 8 + (n - 3)) as u8];
            let out = palmdoc(data);
            &&& out.len() == lit.len() + n
            &&& out.take(lit.len() as int) == lit
            &&& forall|k: int| 0 <= k < n ==> #[trigger] out[lit.len() + k] == out[lit.len() + k - d]
        }),
{
    let b0 = (128 + d / 32) as u8;
    let b1 = ((d % 32) * 8 + (n - 3)) as u8;
    let data = lit + seq![b0, b1];
    let m = lit.len() as int;
    assert forall|k: int| 0 <= k < m implies #[trigger] data[k] == 0 || (9 <= data[k] && data[k] <= 127) by {
        assert(data[k] == lit[k]);
    }
    lemma_palm_prefix(data, 0, m);
    assert(data.take(0) =~= Seq::<u8>::empty());
    assert(data.take(m) =~= lit);
    assert(data[m] == b0 && data[m + 1] == b1);
    assert(b0 as int == 128 + d / 32 && b1 as int == (d % 32) * 8 + (n - 3)) by {
        assert(0 <= d / 32 <= 63 && 0 <= d % 32 <= 31);
    }
    let pair = b0 * 256 + b1;
    assert((pair % 16384) / 8 == d && pair % 8 + 3 == n) by (nonlinear_arith)
        requires
            pair == (128 + d / 32) * 256 + (d % 32) * 8 + (n - 3),
            1 <= d < 2048,
            3 <= n <= 10,
    {
        assert(d == (d / 32) * 32 + d % 32);
        assert(0 <= d % 32 < 32);
        assert(pair == 2 * 16384 + ((d / 32) * 256 + (d % 32) * 8 + (n - 3)));
    }
    let step = palm_step(data, m, lit);
    assert(step == (m + 2, copy_back(lit, d, n as nat)));
    assert(palm_from(data, m, lit) == palm_from(data, m + 2, copy_back(lit, d, n as nat)));
    lemma_copy_back(lit, d, n as nat);
}

/// Decompresses one PalmDoc-compressed MOBI text record. Malformed back
/// references (distance zero or before the start of the output) are skipped.
pub fn decompress_palmdoc(data: &[u8]) -> (out: Vec<u8>)
    ensures
        out@ == palmdoc(data@),
{
    let mut output: Vec<u8> = Vec::new();
    let mut index: usize = 0;
    let n = data.len();
    while index < n
        invariant
            n == data@.len(),
            index <= n,
            palm_from(data@, index as int, output@) == palmdoc(data@),
        decreases n - index,
    {
        let ghost i0 = index as int;
        let ghost out0 = output@;
        let ghost step = palm_step(data@, i0, out0);
        let byte = data[index];
        index += 1;
        if byte == 0 || (9 <= byte && byte <= 127) {
            output.push(byte);
        } else if byte <= 8 {
            let rem = n - index;
            let take: usize = if (byte as usize) < rem { byte as usize } else { rem };
            let end = index + take;
            let start = index;
            while index < end
                invariant
                    n == data@.len(),
                    start <= index <= end <= n,
                    output@ == out0 + data@.subrange(start as int, index as int),
                decreases end - index,
            {
                output.push(data[index]);
                index += 1;
                proof {
                    assert(data@.subrange(start as int, index as int) =~= data@.subrange(
                        start as int,
                        index - 1,
                    ).push(data@[index - 1]));
                }
            }
        } else if byte <= 191 {
            if index < n {
                let pair: usize = (byte as usize) * 256 + (data[index] as usize);
                index += 1;
                let distance = (pair % 16384) / 8;
                let length = pair % 8 + 3;
                if distance != 0 && distance <= output.len() {
                    let mut k: usize = 0;
                    while k < length
                        invariant
                            0 < distance <= output@.len(),
                            k <= length,
                            copy_back(output@, distance as int, (length - k) as nat) == copy_back(
                                out0,
                                distance as int,
                                length as nat,
                            ),
                        decreases length - k,
                    {
                        let v = output[output.len() - distance];
                        output.push(v);
                        k += 1;
                    }
                }
            }
        } else {
            output.push(32u8);
            output.push(byte - 128);
        }
        proof {
            assert(step.0 == index as int);
            assert(step.1 =~= output@);
        }
    }
    output
}

/// How the text records of a MOBI file are stored.
#[derive(Debug, Clone, Copy, PartialEq, Eq, Structural)]
pub enum MobiCompression {
    /// Plain bytes.
    No,
    /// PalmDoc LZ77 compression.
    PalmDoc,
}

/// The text records that hold the book: those after the header record, at
/// most `record_count` of them.
pub open spec fn text_records(records: Seq<Seq<u8>>, record_count: nat) -> Seq<Seq<u8>> {
    let avail = if records.len() > 0 { (records.len() - 1) as nat } else { 0 };
    let n = if record_count < avail { record_count } else { avail };
    if records.len() == 0 {
        Seq::empty()
    } else {
        records.subrange(1, 1 + n as int)
    }
}

/// The decoded bytes of a sequence of text records, one after the other.
pub open spec fn decoded_records(compression: MobiCompression, rs: Seq<Seq<u8>>) -> Seq<u8>
    decreases rs.len(),
{
    if rs.len() == 0 {
        Seq::empty()
    } else {
        decoded_records(compression, rs.drop_last()) + match compression {
            MobiCompression::No => rs.last(),
            MobiCompression::PalmDoc => palmdoc(rs.last()),
        }
    }
}

/// The text bytes of a MOBI book: its text records decoded, concatenated and cut
/// to the text length that the header gives.
pub open spec fn mobi_text_spec(
    compression: MobiCompression,
    records: Seq<Seq<u8>>,
    record_count: nat,
    text_length: nat,
) -> Seq<u8> {
    let all = decoded_records(compression, text_records(records, record_count));
    if all.len() <= text_length {
        all
    } else {
        all.take(text_length as int)
    }
}

/// The raw byte views of a sequence of records.
pub open spec fn byte_views(v: Seq<Vec<u8>>) -> Seq<Seq<u8>> {
    v.map_values(|r: Vec<u8>| r@)
}

/// The text bytes of a MOBI book stored without compression or with PalmDoc.
pub fn mobi_text_bytes(
    compression: MobiCompression,
    records: &Vec<Vec<u8>>,
    record_count: usize,
    text_length: usize,
) -> (out: Vec<u8>)
    ensures
        out@ == mobi_text_spec(compression, byte_views(records@), record_count as nat, text_length as nat),
{
    let ghost rs = text_records(byte_views(records@), record_count as nat);
    let avail: usize = if records.len() > 0 { records.len() - 1 } else { 0 };
    let n: usize = if record_count < avail { record_count } else { avail };
    let mut content: Vec<u8> = Vec::new();
    let mut k: usize = 0;
    while k < n
        invariant
            n <= avail,
            avail == (if records@.len() > 0 { records@.len() - 1 } else { 0 }),
            rs == (if records@.len() == 0 { Seq::empty() } else { byte_views(records@).subrange(1, 1 + n) }),
            k <= n,
            content@ == decoded_records(compression, rs.take(k as int)),
        decreases n - k,
    {
        let record = &records[k + 1];
        match compression {
            MobiCompression::No => {
                let mut j: usize = 0;
                let ghost before = content@;
                while j < record.len()
                    invariant
                        j <= record@.len(),
                        content@ == before + record@.take(j as int),
                    decreases record@.len() - j,
                {
                    content.push(record[j]);
                    j += 1;
                    assert(record@.take(j as int) =~= record@.take(j - 1).push(record@[j - 1]));
                }
                assert(record@.take(record@.len() as int) =~= record@);
            },
            MobiCompression::PalmDoc => {
                let d = decompress_palmdoc(record.as_slice());
                let ghost before = content@;
                let mut j: usize = 0;
                while j < d.len()
                    invariant
                        j <= d@.len(),
                        content@ == before + d@.take(j as int),
                    decreases d@.len() - j,
                {
                    content.push(d[j]);
                    j += 1;
                    assert(d@.take(j as int) =~= d@.take(j - 1).push(d@[j - 1]));
                }
                assert(d@.take(d@.len() as int) =~= d@);
            },
        }
        proof {
            assert(rs.take(k + 1).drop_last() =~= rs.take(k as int));
            assert(rs.take(k + 1).last() == records@[k + 1]@);
        }
        k += 1;
    }
    assert(byte_views(records@).len() == records@.len());
    assert(rs.len() == n);
    assert(rs.take(n as int) =~= rs);
    if content.len() > text_length {
        content.truncate(text_length);
    }
    content
}

/// The text of a MOBI book stored without compression or with PalmDoc, its
/// bytes read as UTF-8 with invalid sequences replaced.
pub fn mobi_text(
    compression: MobiCompression,
    records: &Vec<Vec<u8>>,
    record_count: usize,
    text_length: usize,
) -> (text: String)
    ensures
        text@ == utf8_lossy_of(
            mobi_text_spec(compression, byte_views(records@), record_count as nat, text_length as nat),
        ),
{
    let bytes = mobi_text_bytes(compression, records, record_count, text_length);
    utf8_lossy(&bytes)
}

/// The file extension of an image, told by its leading magic bytes.
pub open spec fn image_extension_spec(bytes: Seq<u8>) -> Option<Seq<char>> {
    if bytes.len() >= 3 && bytes[0] == 0xffu8 && bytes[1] == 0xd8u8 && bytes[2] == 0xffu8 {
        Some(seq!['j', 'p', 'g'])
    } else if bytes.len() >= 8 && bytes[0] == 0x89u8 && bytes[1] == 0x50u8 && bytes[2] == 0x4eu8
        && bytes[3] == 0x47u8 && bytes[4] == 0x0du8 && bytes[5] == 0x0au8 && bytes[6] == 0x1au8
        && bytes[7] == 0x0au8 {
        Some(seq!['p', 'n', 'g'])
    } else if bytes.len() >= 6 && bytes[0] == 0x47u8 && bytes[1] == 0x49u8 && bytes[2] == 0x46u8
        && bytes[3] == 0x38u8 && (bytes[4] == 0x37u8 || bytes[4] == 0x39u8) && bytes[5] == 0x61u8 {
        Some(seq!['g', 'i', 'f'])
    } else if bytes.len() >= 2 && bytes[0] == 0x42u8 && bytes[1] == 0x4du8 {
        Some(seq!['b', 'm', 'p'])
    } else {
        None
    }
}

/// The file extension of an image (JPEG, PNG, GIF or BMP), or `None`.
pub fn image_extension(bytes: &[u8]) -> (r: Option<&'static str>)
    ensures
        match r {
            Some(e) => image_extension_spec(bytes@) == Some(e@),
            None => image_extension_spec(bytes@) is None,
        },
{
    let n = bytes.len();
    if n >= 3 && bytes[0] == 0xff && bytes[1] == 0xd8 && bytes[2] == 0xff {
        proof {
            reveal_strlit("jpg");
        }
        Some("jpg")
    } else if n >= 8 && bytes[0] == 0x89 && bytes[1] == 0x50 && bytes[2] == 0x4e && bytes[3] == 0x47
        && bytes[4] == 0x0d && bytes[5] == 0x0a && bytes[6] == 0x1a && bytes[7] == 0x0a {
        proof {
            reveal_strlit("png");
        }
        Some("png")
    } else if n >= 6 && bytes[0] == 0x47 && bytes[1] == 0x49 && bytes[2] == 0x46 && bytes[3] == 0x38
        && (bytes[4] == 0x37 || bytes[4] == 0x39) && bytes[5] == 0x61 {
        proof {
            reveal_strlit("gif");
        }
        Some("gif")
    } else if n >= 2 && bytes[0] == 0x42 && bytes[1] == 0x4d {
        proof {
            reveal_strlit("bmp");
        }
        Some("bmp")
    } else {
        None
    }
}

/// The file name of the `number`th image of a MOBI book: the number, a dot
/// and the extension its bytes show (`img` when they show none).
pub fn mobi_image_name(number: usize, bytes: &[u8]) -> (r: String)
    ensures
        r@ == decimal(number as nat) + "."@ + match image_extension_spec(bytes@) {
            Some(e) => e,
            None => "img"@,
        },
{
    let mut out = decimal_chars(number as u64);
    let ghost d = out@;
    out.push('.');
    proof {
        reveal_strlit(".");
        reveal_strlit("img");
    }
    assert(out@ =~= d + "."@);
    let ext = match image_extension(bytes) {
        Some(e) => e,
        None => "img",
    };
    crate::text::append_chars(&mut out, &chars_of(ext));
    string_of(out.as_slice())
}

/// The number of alphanumeric characters in `s`.
pub open spec fn alnum_count(s: Seq<char>) -> nat
    decreases s.len(),
{
    if s.len() == 0 {
        0
    } else {
        alnum_count(s.drop_last()) + if unicode_alphanumeric(s.last()) { 1nat } else { 0nat }
    }
}

/// Whether `text` holds at least twenty alphanumeric characters, which is
/// taken to mean that a parser found real text in a book.
pub fn has_readable_text(text: &str) -> (b: bool)
    ensures
        b == (alnum_count(text@) >= 20),
{
    let chars = crate::text::chars_of(text);
    let mut count: usize = 0;
    let mut i: usize = 0;
    while i < chars.len()
        invariant
            chars@ == text@,
            i <= chars@.len(),
            count == alnum_count(chars@.take(i as int)),
            count < 20,
        decreases chars@.len() - i,
    {
        assert(chars@.take(i + 1).drop_last() =~= chars@.take(i as int));
        if is_alphanumeric(chars[i]) {
            count += 1;
            if count == 20 {
                proof {
                    lemma_alnum_count_grows(chars@, i + 1, chars@.len() as int);
                    assert(chars@.take(chars@.len() as int) =~= chars@);
                }
                return true;
            }
        }
        i += 1;
    }
    assert(chars@.take(chars@.len() as int) =~= chars@);
    false
}

proof fn lemma_alnum_count_grows(s: Seq<char>, i: int, j: int)
    requires
        0 <= i <= j <= s.len(),
    ensures
        alnum_count(s.take(i)) <= alnum_count(s.take(j)),
    decreases j - i,
{
    if i < j {
        lemma_alnum_count_grows(s, i, j - 1);
        assert(s.take(j).drop_last() =~= s.take(j - 1));
    }
}

/// The marker that opens a numbered image reference: `【图片`.
pub open spec fn image_mark() -> Seq<char> {
    seq!['【', '图', '片']
}

/// The marker of the `n`th image of a chapter: `【图片n】`.
pub open spec fn image_marker(n: nat) -> Seq<char> {
    image_mark() + decimal(n) + seq!['】']
}

/// What stands in for a reference to an image that does not exist: `[图片]`.
pub open spec fn missing_image_marker() -> Seq<char> {
    seq!['[', '图', '片', ']']
}

/// The book image that the reference number `num` names, if any (numbers
/// start at 1).
pub open spec fn referenced_image(num: Seq<char>, image_count: nat) -> Option<int> {
    match parse_usize_spec(num) {
        Some(n) => if 1 <= n && n - 1 < image_count {
            Some(n - 1)
        } else {
            None
        },
        None => None,
    }
}

/// Renumbers the image references of paragraph `p` from position `i` on:
/// each `【图片n】` naming an existing book image becomes the next chapter-local
/// marker and that image joins `local`; the others become `[图片]`. The text
/// from `i` on as rewritten, and `local` afterwards.
pub open spec fn attach_from(p: Seq<char>, i: int, images: Seq<Seq<char>>, local: Seq<Seq<char>>) -> (
    Seq<char>,
    Seq<Seq<char>>,
)
    decreases p.len() - i,
{
    if i < 0 || i > p.len() {
        (Seq::empty(), local)
    } else {
        match find_pat_from(p, image_mark(), i) {
            None => (p.subrange(i, p.len() as int), local),
            Some(pos) => match find_char_from(p, '】', pos + 3) {
                None => (p.subrange(i, p.len() as int), local),
                Some(end) => {
                    proof {
                        lemma_find_pat_from(p, image_mark(), i);
                        lemma_find_char_from(p, '】', pos + 3);
                    }
                    if end < i {
                        (Seq::empty(), local)
                    } else {
                        match referenced_image(p.subrange(pos + 3, end), images.len()) {
                            Some(k) => {
                                let (t, l) = attach_from(p, end + 1, images, local.push(images[k]));
                                (p.subrange(i, pos) + image_marker(local.len() + 1) + t, l)
                            },
                            None => {
                                let (t, l) = attach_from(p, end + 1, images, local);
                                (p.subrange(i, pos) + missing_image_marker() + t, l)
                            },
                        }
                    }
                },
            },
        }
    }
}

/// The paragraphs of a chapter with their image references renumbered, and
/// the chapter's images in the order of their markers.
pub open spec fn attach_paragraphs(ps: Seq<Seq<char>>, images: Seq<Seq<char>>, local: Seq<Seq<char>>) -> (
    Seq<Seq<char>>,
    Seq<Seq<char>>,
)
    decreases ps.len(),
{
    if ps.len() == 0 {
        (Seq::empty(), local)
    } else {
        let (first, l1) = attach_from(ps[0], 0, images, local);
        let (rest, l2) = attach_paragraphs(ps.drop_first(), images, l1);
        (seq![first] + rest, l2)
    }
}

fn attach_paragraph(p: &Vec<char>, images: &Vec<String>, local: &mut Vec<String>) -> (r: Vec<char>)
    ensures
        (r@, strs(final(local)@)) == attach_from(p@, 0, strs(images@), strs(old(local)@)),
{
    let ghost target = attach_from(p@, 0, strs(images@), strs(local@));
    let mut mark: Vec<char> = Vec::new();
    mark.push('【');
    mark.push('图');
    mark.push('片');
    assert(mark@ =~= image_mark());
    let mut out: Vec<char> = Vec::new();
    let mut cur: usize = 0;
    loop
        invariant
            mark@ == image_mark(),
            target == attach_from(p@, 0, strs(images@), strs(old(local)@)),
            cur <= p@.len(),
            (out@ + attach_from(p@, cur as int, strs(images@), strs(local@)).0, attach_from(
                p@,
                cur as int,
                strs(images@),
                strs(local@),
            ).1) == target,
        decreases p@.len() - cur,
    {
        let ghost rest = attach_from(p@, cur as int, strs(images@), strs(local@));
        let ghost out0 = out@;
        match find_pat(p, &mark, cur) {
            None => {
                let tail = crate::text::copy_range(p, cur, p.len());
                crate::text::append_chars(&mut out, &tail);
                assert(rest.0 == p@.subrange(cur as int, p@.len() as int));
                assert(out@ =~= out0 + rest.0);
                assert(rest.1 == strs(local@));
                assert(out@ == target.0);
                return out;
            },
            Some(pos) => {
                proof {
                    lemma_find_pat_from(p@, image_mark(), cur as int);
                }
                let plen = p.len();
                assert(pos + 3 <= plen);
                match find_char(p, '】', pos + 3) {
                    None => {
                        let tail = crate::text::copy_range(p, cur, p.len());
                        crate::text::append_chars(&mut out, &tail);
                        assert(rest.0 == p@.subrange(cur as int, p@.len() as int));
                        assert(out@ =~= out0 + rest.0);
                        assert(rest.1 == strs(local@));
                        assert(out@ == target.0);
                        return out;
                    },
                    Some(end) => {
                        let head = crate::text::copy_range(p, cur, pos);
                        crate::text::append_chars(&mut out, &head);
                        let num = crate::text::copy_range(p, pos + 3, end);
                        let parsed = parse_usize(&num);
                        let picked: Option<usize> = match parsed {
                            Some(n) => if 1 <= n && n - 1 < images.len() {
                                Some(n - 1)
                            } else {
                                None
                            },
                            None => None,
                        };
                        let ghost num_spec = p@.subrange(pos + 3, end as int);
                        match picked {
                            Some(k) => {
                                assert(referenced_image(num_spec, strs(images@).len()) == Some(k as int));
                                let local_index: u128 = local.len() as u128 + 1;
                                let mut marker = mark.clone();
                                let digits = crate::text::decimal_chars_wide(local_index);
                                crate::text::append_chars(&mut marker, &digits);
                                marker.push('】');
                                assert(marker@ =~= image_marker(strs(local@).len() + 1));
                                crate::text::append_chars(&mut out, &marker);
                                let ghost before = strs(local@);
                                local.push(images[k].clone());
                                assert(strs(local@) =~= before.push(strs(images@)[k as int]));
                            },
                            None => {
                                assert(referenced_image(num_spec, strs(images@).len()) is None);
                                let mut marker: Vec<char> = Vec::new();
                                marker.push('[');
                                marker.push('图');
                                marker.push('片');
                                marker.push(']');
                                assert(marker@ =~= missing_image_marker());
                                crate::text::append_chars(&mut out, &marker);
                            },
                        }
                        proof {
                            lemma_find_char_from(p@, '】', pos + 3);
                            let (t, l) = attach_from(p@, end + 1, strs(images@), strs(local@));
                            assert(out@ + t =~= out0 + rest.0);
                            assert(l == rest.1);
                        }
                        cur = end + 1;
                    },
                }
            },
        }
    }
}

/// What `attach_mobi_images` makes of one chapter: each `【图片n】` that names
/// one of the book's `images` becomes a chapter-local `【图片k】`, numbered from 1
/// in order of appearance, and the chapter's images become those named, in that
/// order; a reference to no image becomes `[图片]`.
pub open spec fn chapter_with_images(c: Chapter, images: Seq<Seq<char>>) -> (Seq<char>, Seq<Seq<char>>, Seq<Seq<char>>) {
    let (ps, local) = attach_paragraphs(strs(c.paragraphs@), images, Seq::empty());
    (c.title@, ps, local)
}

/// Replaces the book-wide image references of MOBI chapters by chapter-local
/// ones and gives each chapter the images it refers to.
pub fn attach_mobi_images(chapters: &mut Vec<Chapter>, images: Vec<String>)
    ensures
        final(chapters)@.len() == old(chapters)@.len(),
        forall|i: int|
            0 <= i < old(chapters)@.len() ==> chapter_with_images(#[trigger] old(chapters)@[i], strs(images@))
                == (final(chapters)@[i].title@, strs(final(chapters)@[i].paragraphs@), strs(
                final(chapters)@[i].images@,
            )),
{
    let mut result: Vec<Chapter> = Vec::new();
    let mut c: usize = 0;
    while c < chapters.len()
        invariant
            c <= chapters@.len(),
            chapters@ == old(chapters)@,
            result@.len() == c,
            forall|i: int|
                0 <= i < c ==> chapter_with_images(#[trigger] old(chapters)@[i], strs(images@)) == (
                    result@[i].title@,
                    strs(result@[i].paragraphs@),
                    strs(result@[i].images@),
                ),
        decreases chapters@.len() - c,
    {
        let chapter = &chapters[c];
        let ps = &chapter.paragraphs;
        let ghost all = strs(ps@);
        let mut local: Vec<String> = Vec::new();
        let mut out: Vec<String> = Vec::new();
        let mut j: usize = 0;
        proof {
            assert(all.subrange(0, all.len() as int) =~= all);
            assert(strs(out@) =~= Seq::<Seq<char>>::empty());
            assert(strs(local@) =~= Seq::<Seq<char>>::empty());
            assert(strs(out@) + attach_paragraphs(all, strs(images@), Seq::empty()).0 =~= attach_paragraphs(all, strs(images@), Seq::empty()).0);
        }
        while j < ps.len()
            invariant
                j <= ps@.len(),
                all == strs(ps@),
                ({
                    let (r, l) = attach_paragraphs(all.subrange(j as int, all.len() as int), strs(images@), strs(local@));
                    (strs(out@) + r, l) == attach_paragraphs(all, strs(images@), Seq::empty())
                }),
            decreases ps@.len() - j,
        {
            let chars = chars_of_string(&ps[j]);
            let ghost local0 = strs(local@);
            let ghost out0 = strs(out@);
            let rewritten = attach_paragraph(&chars, &images, &mut local);
            out.push(string_of(rewritten.as_slice()));
            proof {
                let rest = all.subrange(j as int, all.len() as int);
                assert(rest.drop_first() =~= all.subrange(j + 1, all.len() as int));
                assert(rest[0] == chars@);
                assert(strs(out@) =~= out0.push(rewritten@));
                let (r2, l2) = attach_paragraphs(all.subrange(j + 1, all.len() as int), strs(images@), strs(local@));
                assert(strs(out@) + r2 =~= out0 + attach_paragraphs(rest, strs(images@), local0).0);
            }
            j += 1;
        }
        proof {
            assert(all.subrange(ps@.len() as int, all.len() as int) =~= Seq::<Seq<char>>::empty());
            assert(strs(out@) =~= attach_paragraphs(all, strs(images@), Seq::empty()).0);
        }
        let title = chapter.title.clone();
        result.push(Chapter { title, paragraphs: out, images: local });
        c += 1;
    }
    *chapters = result;
}

/// A chapter after its image references are made chapter-local (as
/// [`chapter_with_images`] describes).
pub open spec fn attached_chapter(c: SpecChapter, images: Seq<Seq<char>>) -> SpecChapter {
    let (ps, local) = attach_paragraphs(c.paragraphs, images, Seq::empty());
    SpecChapter { title: c.title, paragraphs: ps, images: local }
}

/// The text of a MOBI book's HTML, with `【图片n】` for its first images.
pub open spec fn mobi_body_text(raw: Seq<char>, image_count: nat) -> Seq<char> {
    trim(mobi_fold(fragment_nodes(raw, Seq::empty()), image_count).0)
}

/// The chapters of a MOBI book from its HTML and the paths of its images:
/// its text split at headings, each chapter holding the images it refers to;
/// `None` when the text has fewer than twenty letters or digits (the book
/// is then read by other means).
pub fn mobi_chapters(raw: &str, images: Vec<String>, title: &str) -> (r: Option<Vec<Chapter>>)
    ensures
        r is None <==> alnum_count(mobi_body_text(raw@, images@.len() as nat)) < 20,
        r matches Some(cs) ==> chapter_views(cs@) == spec_split_text(
            mobi_body_text(raw@, images@.len() as nat),
            title@,
        ).map_values(|c: SpecChapter| attached_chapter(c, strs(images@))),
{
    let text = mobi_html_to_text(raw, images.len());
    if !has_readable_text(text.as_str()) {
        return None;
    }
    let ghost imgs = strs(images@);
    let mut chapters = split_text(text.as_str(), title);
    let ghost before = chapters@;
    attach_mobi_images(&mut chapters, images);
    proof {
        let target = spec_split_text(text@, title@).map_values(|c: SpecChapter| attached_chapter(c, imgs));
        assert forall|i: int| 0 <= i < chapters@.len() implies chapter_views(chapters@)[i] == target[i] by {
            assert(chapter_views(before)[i] == chapter_view(before[i]));
            assert(chapter_with_images(before[i], imgs) == (
                chapters@[i].title@,
                strs(chapters@[i].paragraphs@),
                strs(chapters@[i].images@),
            ));
        }
        assert(chapter_views(chapters@) =~= target);
    }
    Some(chapters)
}


/// A big-endian 16-bit number at `i`.
pub open spec fn be_u16(b: Seq<u8>, i: int) -> nat {
    (b[i] as nat) * 256 + (b[i + 1] as nat)
}

/// A big-endian 32-bit number at `i`.
pub open spec fn be_u32(b: Seq<u8>, i: int) -> nat {
    (b[i] as nat) * 16777216 + (b[i + 1] as nat) * 65536 + (b[i + 2] as nat) * 256 + (b[i + 3] as nat)
}

/// The number of records the PDB header of a MOBI file announces (bytes 76
/// and 77).
pub open spec fn pdb_record_count(b: Seq<u8>) -> nat {
    be_u16(b, 76)
}

/// The offset of the `k`th record in the PDB record table, which starts at
/// byte 78 and gives each record eight bytes: its offset, then its id.
pub open spec fn pdb_record_offset(b: Seq<u8>, k: int) -> nat {
    be_u32(b, 78 + 8 * k)
}

/// Whether every record that the PDB record table of a MOBI file describes
/// lies within the file. Each record but the last runs from its offset to the
/// next record's offset less the gap the table's trailing two bytes give
/// (empty when the gap is not smaller than that offset); the last runs to the
/// end of the file. A file too short to hold its table passes: it is refused
/// as unreadable before any record is cut out.
pub open spec fn mobi_records_in_range(b: Seq<u8>) -> bool {
    let n = pdb_record_count(b);
    let gap = be_u16(b, (78 + 8 * n) as int);
    b.len() >= 78 && b.len() >= 80 + 8 * n ==> {
        &&& forall|k: int|
            0 <= k && k + 1 < n && gap < #[trigger] pdb_record_offset(b, k + 1) ==> pdb_record_offset(b, k)
                <= pdb_record_offset(b, k + 1) - gap <= b.len()
        &&& n >= 1 ==> pdb_record_offset(b, n - 1) <= b.len()
    }
}

fn read_be_u16(b: &Vec<u8>, i: usize) -> (r: u64)
    requires
        i + 2 <= b@.len(),
    ensures
        r == be_u16(b@, i as int),
{
    let len = b.len();
    assert(i + 1 < len);
    (b[i] as u64) * 256 + (b[i + 1] as u64)
}

fn read_be_u32(b: &Vec<u8>, i: usize) -> (r: u64)
    requires
        i + 4 <= b@.len(),
    ensures
        r == be_u32(b@, i as int),
{
    let len = b.len();
    assert(i + 3 < len);
    (b[i] as u64) * 16777216 + (b[i + 1] as u64) * 65536 + (b[i + 2] as u64) * 256 + (b[i + 3] as u64)
}

/// Whether the records of a MOBI file lie within it (see
/// [`mobi_records_in_range`]).
pub fn mobi_records_fit(bytes: &Vec<u8>) -> (ok: bool)
    ensures
        ok == mobi_records_in_range(bytes@),
{
    let len = bytes.len();
    if len < 78 {
        return true;
    }
    let n = read_be_u16(bytes, 76) as usize;
    if len - 78 < 8 * n + 2 {
        return true;
    }
    let gap = read_be_u16(bytes, 78 + 8 * n);
    let ghost b = bytes@;
    let mut k: usize = 0;
    while k + 1 < n
        invariant
            b == bytes@,
            len == b.len(),
            n == pdb_record_count(b),
            gap == be_u16(b, 78 + 8 * n as int),
            len >= 80 + 8 * n,
            n <= 65535,
            k <= n,
            forall|j: int|
                0 <= j < k && gap < #[trigger] pdb_record_offset(b, j + 1) ==> pdb_record_offset(b, j)
                    <= pdb_record_offset(b, j + 1) - gap <= b.len(),
        decreases n - k,
    {
        let c = read_be_u32(bytes, 78 + 8 * k);
        let next = read_be_u32(bytes, 78 + 8 * (k + 1));
        if gap < next && !(c <= next - gap && next - gap <= len as u64) {
            assert(!(pdb_record_offset(b, k as int) <= pdb_record_offset(b, k + 1) - gap <= b.len()));
            return false;
        }
        k += 1;
    }
    if n >= 1 {
        read_be_u32(bytes, 78 + 8 * (n - 1)) <= len as u64
    } else {
        true
    }
}

/// How the text of a parsed MOBI file is stored: in records, plain or with
/// PalmDoc compression, or with Huffman compression.
#[derive(Debug, Clone, Copy, PartialEq, Eq, Structural)]
pub enum MobiStorage {
    No,
    PalmDoc,
    Huff,
}

/// What the reader takes from a parsed MOBI file: how its text is stored, the
/// contents of all its records, the text record count and text length its
/// PalmDoc header gives, and the contents of its image records.
pub struct MobiParts {
    pub storage: MobiStorage,
    pub records: Vec<Vec<u8>>,
    pub record_count: usize,
    pub text_length: usize,
    pub images: Vec<Vec<u8>>,
}

/// [`MobiParts`] as a mathematical value.
pub struct SpecMobiParts {
    pub storage: MobiStorage,
    pub records: Seq<Seq<u8>>,
    pub record_count: nat,
    pub text_length: nat,
    pub images: Seq<Seq<u8>>,
}

pub open spec fn mobi_parts_view(p: MobiParts) -> SpecMobiParts {
    SpecMobiParts {
        storage: p.storage,
        records: byte_views(p.records@),
        record_count: p.record_count as nat,
        text_length: p.text_length as nat,
        images: byte_views(p.images@),
    }
}

/// What `mobi::Mobi::new` makes of a file's bytes, or `None` where it returns
/// an error.
pub uninterp spec fn mobi_parts_of(bytes: Seq<u8>) -> Option<SpecMobiParts>;

/// Parses a MOBI file with `mobi::Mobi::new` and takes from it, one for one:
/// the compression its header gives, the contents of `raw_records()`, the
/// PalmDoc header's `record_count` and `text_length`, and the contents of
/// `image_records()`. `raw_records()` cuts each record out of the file at the
/// offsets of its record table without checking them, so the records must lie
/// within the file; the header reads and `image_records()` check their bounds.
/// How the crate reads the headers is not stated.
#[verifier::external_body]
fn read_mobi(bytes: &Vec<u8>) -> (r: Option<MobiParts>)
    requires
        mobi_records_in_range(bytes@),
    ensures
        match r {
            Some(p) => mobi_parts_of(bytes@) == Some(mobi_parts_view(p)),
            None => mobi_parts_of(bytes@) is None,
        },
{
    let book = mobi::Mobi::new(bytes).ok()?;
    let storage = match book.compression() {
        mobi::headers::Compression::No => MobiStorage::No,
        mobi::headers::Compression::PalmDoc => MobiStorage::PalmDoc,
        mobi::headers::Compression::Huff => MobiStorage::Huff,
    };
    let records = book.raw_records().records().iter().map(|r| r.content.to_vec()).collect();
    let images = book.image_records().iter().map(|r| r.content.to_vec()).collect();
    let palmdoc = &book.metadata.palmdoc;
    let (record_count, text_length) = (palmdoc.record_count as usize, palmdoc.text_length as usize);
    Some(MobiParts { storage, records, record_count, text_length, images })
}

/// The parts of a MOBI file: refused with "读取 MOBI 文件" when a record lies
/// outside the file or the `mobi` crate cannot parse it.
pub fn read_mobi_parts(bytes: &Vec<u8>) -> (r: Result<MobiParts, String>)
    ensures
        r is Ok <==> mobi_records_in_range(bytes@) && mobi_parts_of(bytes@) is Some,
        r matches Err(e) ==> e@ == "读取 MOBI 文件"@,
        r matches Ok(p) ==> mobi_parts_of(bytes@) == Some(mobi_parts_view(p)),
{
    if !mobi_records_fit(bytes) {
        return Err(String::from_str("读取 MOBI 文件"));
    }
    match read_mobi(bytes) {
        Some(p) => Ok(p),
        None => Err(String::from_str("读取 MOBI 文件")),
    }
}

/// The HTML text of a parsed MOBI book: its text records decoded, cut to the
/// text length and read as UTF-8 (with replacements); for Huffman
/// compression, the text decoded for it, `huff`.
pub open spec fn mobi_raw_text(p: SpecMobiParts, huff: Seq<char>) -> Seq<char> {
    match p.storage {
        MobiStorage::No => utf8_lossy_of(
            mobi_text_spec(MobiCompression::No, p.records, p.record_count, p.text_length),
        ),
        MobiStorage::PalmDoc => utf8_lossy_of(
            mobi_text_spec(MobiCompression::PalmDoc, p.records, p.record_count, p.text_length),
        ),
        MobiStorage::Huff => huff,
    }
}

/// The file names of a book's images, in order: the `k`th (from one) is
/// named as [`mobi_image_name`] says.
pub open spec fn mobi_image_names(images: Seq<Seq<u8>>) -> Seq<Seq<char>> {
    Seq::new(
        images.len(),
        |i: int|
            decimal((i + 1) as nat) + "."@ + match image_extension_spec(images[i]) {
                Some(e) => e,
                None => "img"@,
            },
    )
}

/// A MOBI book read from its file: its chapters (`None` when its text holds
/// too little to read, see [`mobi_chapters`]), each naming its images by the
/// file names of `assets`, and the images as (file name, bytes).
pub struct MobiBook {
    pub chapters: Option<Vec<Chapter>>,
    pub assets: Vec<(String, Vec<u8>)>,
}

pub open spec fn asset_views(v: Seq<(String, Vec<u8>)>) -> Seq<(Seq<char>, Seq<u8>)> {
    v.map_values(|a: (String, Vec<u8>)| (a.0@, a.1@))
}

/// A MOBI book from the parts of its file (and, for Huffman compression, the
/// text decoded for it): its images, named by number and kind, and the
/// chapters that [`mobi_chapters`] makes of its HTML text with those names.
pub fn mobi_book(parts: &MobiParts, huff_text: &str, title: &str) -> (b: MobiBook)
    ensures
        ({
            let p = mobi_parts_view(*parts);
            let raw = mobi_raw_text(p, huff_text@);
            let names = mobi_image_names(p.images);
            &&& asset_views(b.assets@) == Seq::new(names.len(), |i: int| (names[i], p.images[i]))
            &&& (b.chapters is None <==> alnum_count(mobi_body_text(raw, names.len())) < 20)
            &&& (b.chapters matches Some(cs) ==> chapter_views(cs@) == spec_split_text(
                mobi_body_text(raw, names.len()),
                title@,
            ).map_values(|c: SpecChapter| attached_chapter(c, names)))
        }),
{
    let ghost pv = mobi_parts_view(*parts);
    let raw = match parts.storage {
        MobiStorage::No => mobi_text(MobiCompression::No, &parts.records, parts.record_count, parts.text_length),
        MobiStorage::PalmDoc => mobi_text(MobiCompression::PalmDoc, &parts.records, parts.record_count, parts.text_length),
        MobiStorage::Huff => huff_text.to_string(),
    };
    assert(raw@ == mobi_raw_text(pv, huff_text@));
    let ghost names = mobi_image_names(pv.images);
    let mut assets: Vec<(String, Vec<u8>)> = Vec::new();
    let mut paths: Vec<String> = Vec::new();
    let mut k: usize = 0;
    while k < parts.images.len()
        invariant
            k <= parts.images@.len(),
            pv == mobi_parts_view(*parts),
            names == mobi_image_names(pv.images),
            assets@.len() == k,
            paths@.len() == k,
            forall|j: int| 0 <= j < k ==> (#[trigger] assets@[j]).0@ == names[j] && assets@[j].1@ == pv.images[j],
            forall|j: int| 0 <= j < k ==> (#[trigger] paths@[j])@ == names[j],
        decreases parts.images@.len() - k,
    {
        let name = mobi_image_name(k + 1, parts.images[k].as_slice());
        assert(name@ == names[k as int]);
        paths.push(name.clone());
        assets.push((name, parts.images[k].clone()));
        k += 1;
    }
    assert(asset_views(assets@) =~= Seq::new(names.len(), |i: int| (names[i], pv.images[i])));
    assert(strs(paths@) =~= names);
    let chapters = mobi_chapters(raw.as_str(), paths, title);
    MobiBook { chapters, assets }
}

} // verus!
