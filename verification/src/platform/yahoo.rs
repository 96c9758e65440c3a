use vstd::prelude::*;

use base64::Engine;

use crate::text::{copy_bytes, utf8_decode, utf8_decoding};

verus! {

/// `128^k`: the weight of the `k`th seven-bit group of a varint.
pub open spec fn base128(k: nat) -> nat
    decreases k,
{
    if k == 0 {
        1
    } else {
        128 * base128((k - 1) as nat)
    }
}

/// `2^64`, where `u64` arithmetic wraps.
pub open spec fn two64() -> nat {
    18446744073709551616
}

/// Reads the rest of a protobuf varint whose first `k` groups summed to
/// `acc`, the next group at `idx`: its value (kept to 64 bits) and the index
/// after it; `None` when the input ends first or more than ten groups go by.
pub open spec fn varint_from(bytes: Seq<u8>, idx: int, k: nat, acc: nat) -> Option<(nat, int)>
    decreases 10 - k,
{
    if k > 9 || idx < 0 || idx >= bytes.len() {
        None
    } else {
        let b = bytes[idx];
        let acc2 = acc + (b % 128) as nat * base128(k);
        if b < 128 {
            Some((acc2 % two64(), idx + 1))
        } else {
            varint_from(bytes, idx + 1, k + 1, acc2)
        }
    }
}

/// The varint at `start`: its value and the index after it.
pub open spec fn varint_at(bytes: Seq<u8>, start: int) -> Option<(nat, int)> {
    varint_from(bytes, start, 0, 0)
}

pub proof fn lemma_varint_from(bytes: Seq<u8>, idx: int, k: nat, acc: nat)
    ensures
        varint_from(bytes, idx, k, acc) matches Some((v, j)) ==> idx < j <= bytes.len() && v < two64(),
    decreases 10 - k,
{
    if !(k > 9 || idx < 0 || idx >= bytes.len()) && bytes[idx] >= 128 {
        lemma_varint_from(bytes, idx + 1, k + 1, acc + (bytes[idx] % 128) as nat * base128(k));
    }
}

proof fn lemma_base128_small(k: nat)
    requires
        k <= 9,
    ensures
        base128(k) <= 9223372036854775808,
        k == 9 ==> base128(k) == 9223372036854775808,
        k < 9 ==> 128 * base128(k) <= 9223372036854775808,
{
    reveal_with_fuel(base128, 10);
    assert(base128(9) == 9223372036854775808);
    if k < 9 {
        lemma_base128_grows(k + 1, 9);
    } else {
    }
    lemma_base128_grows(k, 9);
}

proof fn lemma_base128_grows(i: nat, j: nat)
    requires
        i <= j,
    ensures
        base128(i) <= base128(j),
    decreases j - i,
{
    if i < j {
        lemma_base128_grows(i, (j - 1) as nat);
    }
}

/// Reads a protobuf varint at `start`: its value and the index after it.
pub fn read_varint(bytes: &[u8], start: usize) -> (r: Option<(u64, usize)>)
    ensures
        match r {
            Some((v, j)) => varint_at(bytes@, start as int) == Some((v as nat, j as int)),
            None => varint_at(bytes@, start as int) is None,
        },
{
    let mut k: usize = 0;
    let mut value: u64 = 0;
    let mut mult: u64 = 1;
    let mut index = start;
    while index < bytes.len() && k <= 9
        invariant
            k <= 10,
            k <= 9 ==> mult == base128(k as nat),
            k <= 9 ==> value < mult,
            index == start + k,
            varint_at(bytes@, start as int) == varint_from(bytes@, index as int, k as nat, value as nat),
        decreases 10 - k,
    {
        let b = bytes[index];
        proof {
            lemma_base128_small(k as nat);
        }
        let low: u64 = (b % 128) as u64;
        if k < 9 {
            assert(value + low * mult < 128 * mult) by (nonlinear_arith)
                requires
                    value < mult,
                    low < 128,
            ;
            let next = value + low * mult;
            if b < 128 {
                assert(next as nat % two64() == next as nat);
                return Some((next, index + 1));
            }
            value = next;
            mult = mult * 128;
            assert(mult == base128((k + 1) as nat));
        } else {
            let bit: u64 = (b % 2) as u64;
            let next = value + bit * mult;
            assert((value + low * mult) as nat % two64() == value + bit * mult) by (nonlinear_arith)
                requires
                    value < mult,
                    mult == 9223372036854775808,
                    low < 128,
                    bit == low % 2,
                    two64() == 18446744073709551616nat,
            {
                assert(low * mult == (low / 2) * 18446744073709551616 + bit * mult);
            }
            if b < 128 {
                return Some((next, index + 1));
            }
            assert(varint_from(bytes@, index + 1, 10, (value + low * mult) as nat) is None);
            return None;
        }
        index += 1;
        k += 1;
    }
    None
}

/// The fields of a Yahoo streaming price message that this library reads.
/// The three decimal quantities are the bits of IEEE 754 single-precision
/// values (`f32::from_bits` reads them).
#[derive(Debug, Clone)]
pub struct YahooPricing {
    pub symbol: Option<String>,
    pub price_bits: Option<u32>,
    pub time: Option<u64>,
    pub exchange: Option<String>,
    pub quote_type: Option<u64>,
    pub market_hours: Option<u64>,
    pub change_percent_bits: Option<u32>,
    pub change_bits: Option<u32>,
    pub price_hint: Option<u64>,
}

/// The mathematical value of a [`YahooPricing`].
pub struct SpecPricing {
    pub symbol: Option<Seq<char>>,
    pub price_bits: Option<u32>,
    pub time: Option<u64>,
    pub exchange: Option<Seq<char>>,
    pub quote_type: Option<u64>,
    pub market_hours: Option<u64>,
    pub change_percent_bits: Option<u32>,
    pub change_bits: Option<u32>,
    pub price_hint: Option<u64>,
}

pub open spec fn opt_str(o: Option<String>) -> Option<Seq<char>> {
    match o {
        Some(s) => Some(s@),
        None => None,
    }
}

pub open spec fn pricing_view(p: YahooPricing) -> SpecPricing {
    SpecPricing {
        symbol: opt_str(p.symbol),
        price_bits: p.price_bits,
        time: p.time,
        exchange: opt_str(p.exchange),
        quote_type: p.quote_type,
        market_hours: p.market_hours,
        change_percent_bits: p.change_percent_bits,
        change_bits: p.change_bits,
        price_hint: p.price_hint,
    }
}

pub open spec fn empty_pricing() -> SpecPricing {
    SpecPricing {
        symbol: None,
        price_bits: None,
        time: None,
        exchange: None,
        quote_type: None,
        market_hours: None,
        change_percent_bits: None,
        change_bits: None,
        price_hint: None,
    }
}

/// The little-endian 32-bit value of the four bytes at `j`.
pub open spec fn le32(bytes: Seq<u8>, j: int) -> u32 {
    (bytes[j] + bytes[j + 1] * 256 + bytes[j + 2] * 65536 + bytes[j + 3] * 16777216) as u32
}

/// Records a varint field: 3 is the time, 6 the quote type, 7 the market
/// hours, 27 the price hint.
pub open spec fn set_varint_field(out: SpecPricing, field: nat, v: u64) -> SpecPricing {
    if field == 3 {
        SpecPricing { time: Some(v), ..out }
    } else if field == 6 {
        SpecPricing { quote_type: Some(v), ..out }
    } else if field == 7 {
        SpecPricing { market_hours: Some(v), ..out }
    } else {
        SpecPricing { price_hint: Some(v), ..out }
    }
}

/// Records a 32-bit field: 2 is the price, 8 the change in percent, 12 the
/// change.
pub open spec fn set_fixed32_field(out: SpecPricing, field: nat, bits: u32) -> SpecPricing {
    if field == 2 {
        SpecPricing { price_bits: Some(bits), ..out }
    } else if field == 8 {
        SpecPricing { change_percent_bits: Some(bits), ..out }
    } else {
        SpecPricing { change_bits: Some(bits), ..out }
    }
}

/// Decodes the protobuf fields from `i` on into `out`. Field 1 (symbol) and
/// 5 (exchange) are strings, kept when they are UTF-8; 2, 8 and 12 are 32-bit
/// floats; 3, 6, 7 and 27 are varints; other fields are skipped by their wire
/// type. Reading stops at the first field that is cut short or has an
/// unknown wire type.
pub open spec fn decode_from(bytes: Seq<u8>, i: int, out: SpecPricing) -> SpecPricing
    decreases bytes.len() - i,
{
    if i < 0 || i >= bytes.len() {
        out
    } else {
        match varint_at(bytes, i) {
            None => out,
            Some((key, j)) => {
                proof {
                    lemma_varint_from(bytes, i, 0, 0);
                }
                let field = key / 8;
                let wire = key % 8;
                if (field == 1 || field == 5) && wire == 2 {
                    match varint_at(bytes, j) {
                        None => out,
                        Some((l, k)) => {
                            proof {
                                lemma_varint_from(bytes, j, 0, 0);
                            }
                            if k + l > bytes.len() {
                                out
                            } else {
                                let next = match utf8_decoding(bytes.subrange(k, k + l)) {
                                    Some(t) => if field == 1 {
                                        SpecPricing { symbol: Some(t), ..out }
                                    } else {
                                        SpecPricing { exchange: Some(t), ..out }
                                    },
                                    None => out,
                                };
                                decode_from(bytes, k + l, next)
                            }
                        },
                    }
                } else if (field == 2 || field == 8 || field == 12) && wire == 5 {
                    if j + 4 > bytes.len() {
                        out
                    } else {
                        decode_from(bytes, j + 4, set_fixed32_field(out, field, le32(bytes, j)))
                    }
                } else if (field == 3 || field == 6 || field == 7 || field == 27) && wire == 0 {
                    match varint_at(bytes, j) {
                        None => out,
                        Some((v, k)) => {
                            proof {
                                lemma_varint_from(bytes, j, 0, 0);
                            }
                            decode_from(bytes, k, set_varint_field(out, field, v as u64))
                        },
                    }
                } else if wire == 0 {
                    match varint_at(bytes, j) {
                        None => out,
                        Some((_, k)) => {
                            proof {
                                lemma_varint_from(bytes, j, 0, 0);
                            }
                            decode_from(bytes, k, out)
                        },
                    }
                } else if wire == 1 {
                    if j + 8 > bytes.len() {
                        out
                    } else {
                        decode_from(bytes, j + 8, out)
                    }
                } else if wire == 2 {
                    match varint_at(bytes, j) {
                        None => out,
                        Some((l, k)) => {
                            proof {
                                lemma_varint_from(bytes, j, 0, 0);
                            }
                            if k + l > bytes.len() {
                                out
                            } else {
                                decode_from(bytes, k + l, out)
                            }
                        },
                    }
                } else if wire == 5 {
                    if j + 4 > bytes.len() {
                        out
                    } else {
                        decode_from(bytes, j + 4, out)
                    }
                } else {
                    out
                }
            },
        }
    }
}

/// A 32-bit field 8 (key byte `0x45`) is the change in percent and a 32-bit
/// field 12 (key byte `0x65`) the absolute change: decoding one sets that
/// field to the little-endian value of the next four bytes, leaves every
/// other field as it was, and goes on after them.
pub proof fn law_change_fields(bytes: Seq<u8>, i: int, out: SpecPricing)
    requires
        0 <= i,
        i + 5 <= bytes.len(),
    ensures
        ({
            let v = (bytes[i + 1] + bytes[i + 2] * 256 + bytes[i + 3] * 65536 + bytes[i + 4] * 16777216) as u32;
            &&& bytes[i] == 0x45 ==> decode_from(bytes, i, out) == decode_from(
                bytes,
                i + 5,
                SpecPricing { change_percent_bits: Some(v), ..out },
            )
            &&& bytes[i] == 0x65 ==> decode_from(bytes, i, out) == decode_from(
                bytes,
                i + 5,
                SpecPricing { change_bits: Some(v), ..out },
            )
        }),
{
    if bytes[i] == 0x45 || bytes[i] == 0x65 {
        assert(base128(0) == 1);
        assert(two64() > 0x65);
        assert(varint_at(bytes, i) == Some(((bytes[i] as nat), i + 1)));
    }
}

/// A message that is just one 32-bit field 8 or 12 gives that field alone.
pub proof fn law_single_change_field(bytes: Seq<u8>)
    requires
        bytes.len() == 5,
    ensures
        ({
            let v = (bytes[1] + bytes[2] * 256 + bytes[3] * 65536 + bytes[4] * 16777216) as u32;
            &&& bytes[0] == 0x45 ==> decode_from(bytes, 0, empty_pricing()) == SpecPricing {
                change_percent_bits: Some(v),
                ..empty_pricing()
            }
            &&& bytes[0] == 0x65 ==> decode_from(bytes, 0, empty_pricing()) == SpecPricing {
                change_bits: Some(v),
                ..empty_pricing()
            }
        }),
{
    law_change_fields(bytes, 0, empty_pricing());
}

/// Decodes the protobuf payload of a Yahoo streaming price message.
pub fn decode_pricing_bytes(bytes: &[u8]) -> (out: YahooPricing)
    ensures
        pricing_view(out) == decode_from(bytes@, 0, empty_pricing()),
{
    let mut out = YahooPricing {
        symbol: None,
        price_bits: None,
        time: None,
        exchange: None,
        quote_type: None,
        market_hours: None,
        change_percent_bits: None,
        change_bits: None,
        price_hint: None,
    };
    let n = bytes.len();
    let mut i: usize = 0;
    let ghost target = decode_from(bytes@, 0, empty_pricing());
    while i < n
        invariant_except_break
            n == bytes@.len(),
            i <= n,
            decode_from(bytes@, i as int, pricing_view(out)) == target,
        ensures
            pricing_view(out) == target,
        decreases n - i,
    {
        let ghost before = pricing_view(out);
        let (key, j) = match read_varint(bytes, i) {
            Some(p) => p,
            None => {
                break;
            },
        };
        proof {
            lemma_varint_from(bytes@, i as int, 0, 0);
        }
        let field = key / 8;
        let wire = key % 8;
        if (field == 1 || field == 5) && wire == 2 {
            let (l, k) = match read_varint(bytes, j) {
                Some(p) => p,
                None => {
                    break;
                },
            };
            proof {
                lemma_varint_from(bytes@, j as int, 0, 0);
            }
            if l > (n - k) as u64 {
                break;
            }
            let len = l as usize;
            let slice = copy_bytes(bytes, k, k + len);
            match utf8_decode(slice.as_slice()) {
                Some(t) => {
                    if field == 1 {
                        out.symbol = Some(t);
                    } else {
                        out.exchange = Some(t);
                    }
                },
                None => {},
            }
            i = k + len;
        } else if (field == 2 || field == 8 || field == 12) && wire == 5 {
            if n - j < 4 {
                break;
            }
            let bits: u32 = bytes[j] as u32 + bytes[j + 1] as u32 * 256 + bytes[j + 2] as u32 * 65536
                + bytes[j + 3] as u32 * 16777216;
            if field == 2 {
                out.price_bits = Some(bits);
            } else if field == 8 {
                out.change_percent_bits = Some(bits);
            } else {
                out.change_bits = Some(bits);
            }
            i = j + 4;
        } else if (field == 3 || field == 6 || field == 7 || field == 27) && wire == 0 {
            let (v, k) = match read_varint(bytes, j) {
                Some(p) => p,
                None => {
                    break;
                },
            };
            proof {
                lemma_varint_from(bytes@, j as int, 0, 0);
            }
            if field == 3 {
                out.time = Some(v);
            } else if field == 6 {
                out.quote_type = Some(v);
            } else if field == 7 {
                out.market_hours = Some(v);
            } else {
                out.price_hint = Some(v);
            }
            i = k;
        } else if wire == 0 {
            let (_, k) = match read_varint(bytes, j) {
                Some(p) => p,
                None => {
                    break;
                },
            };
            proof {
                lemma_varint_from(bytes@, j as int, 0, 0);
            }
            i = k;
        } else if wire == 1 {
            if j > n || n - j < 8 {
                break;
            }
            i = j + 8;
        } else if wire == 2 {
            let (l, k) = match read_varint(bytes, j) {
                Some(p) => p,
                None => {
                    break;
                },
            };
            proof {
                lemma_varint_from(bytes@, j as int, 0, 0);
            }
            if l > (n - k) as u64 {
                break;
            }
            i = k + l as usize;
        } else if wire == 5 {
            if j > n || n - j < 4 {
                break;
            }
            i = j + 4;
        } else {
            break;
        }
    }
    out
}

#[verifier::external_type_specification]
#[verifier::external_body]
pub struct ExBase64DecodeError(base64::DecodeError);

/// What the standard base64 engine (RFC 4648 alphabet, with padding) decodes
/// `s` to, or `None` where it reports an error.
pub uninterp spec fn base64_standard(s: Seq<char>) -> Option<Seq<u8>>;

/// `base64::engine::general_purpose::STANDARD.decode`. Nothing is stated of
/// which texts it accepts.
#[verifier::external_body]
fn base64_decode(s: &str) -> (r: Result<Vec<u8>, base64::DecodeError>)
    ensures
        match r {
            Ok(v) => base64_standard(s@) == Some(v@),
            Err(_) => base64_standard(s@) is None,
        },
{
    base64::engine::general_purpose::STANDARD.decode(s)
}

/// Decodes one base64-encoded Yahoo streaming price message; an error when
/// the text is not valid base64.
pub fn decode_pricing_message(encoded: &str) -> (r: Result<YahooPricing, String>)
    ensures
        base64_standard(encoded@) is None <==> r is Err,
        r matches Ok(p) ==> pricing_view(p) == decode_from(base64_standard(encoded@)->0, 0, empty_pricing()),
        r matches Err(e) ==> e@ == "base64 decode yahoo message"@,
{
    match base64_decode(encoded) {
        Ok(bytes) => Ok(decode_pricing_bytes(bytes.as_slice())),
        Err(_) => Err(String::from_str("base64 decode yahoo message")),
    }
}

/// The price update that a frame of the stream carries: only frames of type
/// `pricing` with a message that decodes count.
pub fn wire_pricing(msg_type: &str, message: Option<&str>) -> (r: Option<YahooPricing>)
    ensures
        r is Some <==> (msg_type@ == "pricing"@ && message is Some && base64_standard(message->0@) is Some),
        r matches Some(p) ==> pricing_view(p) == decode_from(base64_standard(message->0@)->0, 0, empty_pricing()),
{
    let t = crate::text::chars_of(msg_type);
    if !crate::text::eq_str(&t, "pricing") {
        return None;
    }
    match message {
        None => None,
        Some(m) => match decode_pricing_message(m) {
            Ok(p) => Some(p),
            Err(_) => None,
        },
    }
}

} // verus!
