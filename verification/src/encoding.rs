use vstd::prelude::*;

verus! {

/// What `encoding_rs::UTF_8.decode` gives for a byte sequence: the text
/// (BOM sniffing first, malformed sequences replaced) and whether any
/// sequence was malformed.
pub uninterp spec fn utf8_with_bom_sniffing(bytes: Seq<u8>) -> (Seq<char>, bool);

/// What `encoding_rs::UTF_16LE.decode` gives for a byte sequence (BOM
/// sniffing first).
pub uninterp spec fn utf16le_with_bom_sniffing(bytes: Seq<u8>) -> Seq<char>;

/// What `encoding_rs::UTF_16BE.decode` gives for a byte sequence (BOM
/// sniffing first).
pub uninterp spec fn utf16be_with_bom_sniffing(bytes: Seq<u8>) -> Seq<char>;

/// What `encoding_rs::GBK.decode` gives for a byte sequence (BOM sniffing
/// first).
pub uninterp spec fn gbk_with_bom_sniffing(bytes: Seq<u8>) -> Seq<char>;

/// What `encoding_rs::GB18030.decode` gives for a byte sequence (BOM
/// sniffing first).
pub uninterp spec fn gb18030_with_bom_sniffing(bytes: Seq<u8>) -> Seq<char>;

/// `encoding_rs::UTF_8.decode`: the text and whether there were errors.
/// Nothing is stated of the decoder beyond naming its result.
#[verifier::external_body]
pub(crate) fn decode_utf8_sniffing(bytes: &[u8]) -> (r: (String, bool))
    ensures
        (r.0@, r.1) == utf8_with_bom_sniffing(bytes@),
{
    let (text, _, had_errors) = encoding_rs::UTF_8.decode(bytes);
    (text.into_owned(), had_errors)
}

/// `encoding_rs::UTF_16LE.decode`, the text only.
#[verifier::external_body]
pub(crate) fn decode_utf16le(bytes: &[u8]) -> (r: String)
    ensures
        r@ == utf16le_with_bom_sniffing(bytes@),
{
    encoding_rs::UTF_16LE.decode(bytes).0.into_owned()
}

/// `encoding_rs::UTF_16BE.decode`, the text only.
#[verifier::external_body]
pub(crate) fn decode_utf16be(bytes: &[u8]) -> (r: String)
    ensures
        r@ == utf16be_with_bom_sniffing(bytes@),
{
    encoding_rs::UTF_16BE.decode(bytes).0.into_owned()
}

/// `encoding_rs::GBK.decode`, the text only.
#[verifier::external_body]
pub(crate) fn decode_gbk(bytes: &[u8]) -> (r: String)
    ensures
        r@ == gbk_with_bom_sniffing(bytes@),
{
    encoding_rs::GBK.decode(bytes).0.into_owned()
}

/// `encoding_rs::GB18030.decode`, the text only.
#[verifier::external_body]
pub(crate) fn decode_gb18030(bytes: &[u8]) -> (r: String)
    ensures
        r@ == gb18030_with_bom_sniffing(bytes@),
{
    encoding_rs::GB18030.decode(bytes).0.into_owned()
}

} // verus!
