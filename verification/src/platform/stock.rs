use vstd::prelude::*;

use crate::config::StockWatchItem;
use crate::text::{
    all_ascii, all_ascii_chars, ascii_lower, ascii_lower_chars, ascii_upper, ascii_upper_char, ascii_upper_chars, is_ws,
    lemma_trim_idempotent, lemma_trim_of_clean, append_chars, chars_eq, chars_of, copy_range, lstrip_idx, starts_with, starts_with_str,
    string_of, trim, trim_chars, is_digit, str_to_lowercase, str_to_uppercase, unicode_lower,
    unicode_upper,
};
use vstd::string::StringExecFns;
use vstd::string::StringSliceAdditionalSpecFns;

verus! {

/// Which exchange a stock code belongs to.
#[derive(Debug, Clone, Copy, PartialEq, Eq, Structural)]
pub enum Market {
    /// Chinese A-share: an all-digit code.
    AShare,
    Us,
}

/// Every character is an ASCII digit.
pub open spec fn all_digits(s: Seq<char>) -> bool {
    forall|i: int| 0 <= i < s.len() ==> is_digit(#[trigger] s[i])
}

pub fn all_digit_chars(s: &Vec<char>) -> (b: bool)
    ensures
        b == all_digits(s@),
{
    let mut i: usize = 0;
    while i < s.len()
        invariant
            i <= s@.len(),
            forall|k: int| 0 <= k < i ==> is_digit(#[trigger] s@[k]),
        decreases s@.len() - i,
    {
        if !('0' <= s[i] && s[i] <= '9') {
            return false;
        }
        i = i + 1;
    }
    true
}

pub open spec fn spec_market(code: Seq<char>) -> Market {
    if all_digits(code) {
        Market::AShare
    } else {
        Market::Us
    }
}

impl Market {
    pub fn detect(code: &str) -> (m: Market)
        ensures
            m == spec_market(code@),
    {
        let v = chars_of(code);
        if all_digit_chars(&v) {
            Market::AShare
        } else {
            Market::Us
        }
    }
}

/// A stock code as stored: trimmed; upper-cased unless it is an A-share code.
/// An ASCII code is upper-cased letter by letter (which is what
/// `str::to_uppercase` does to ASCII); any other by `str::to_uppercase`.
pub open spec fn spec_normalize(code: Seq<char>) -> Seq<char> {
    let t = trim(code);
    if all_digits(t) {
        t
    } else if all_ascii(t) {
        ascii_upper(t)
    } else {
        unicode_upper(t)
    }
}

pub fn normalize_code(code: &str) -> (r: String)
    ensures
        r@ == spec_normalize(code@),
{
    let t = trim_chars(&chars_of(code));
    if all_digit_chars(&t) {
        string_of(t.as_slice())
    } else if all_ascii_chars(&t) {
        string_of(ascii_upper_chars(&t).as_slice())
    } else {
        str_to_uppercase(string_of(t.as_slice()).as_str())
    }
}

/// Normalizing a code gives what normalizing it trimmed gives, and
/// normalizing an ASCII code twice gives what normalizing it once gives.
pub proof fn law_normalize_code_idempotent(code: Seq<char>)
    ensures
        spec_normalize(trim(code)) == spec_normalize(code),
        all_ascii(trim(code)) ==> spec_normalize(spec_normalize(code)) == spec_normalize(code),
{
    let t = trim(code);
    lemma_trim_idempotent(code);
    if all_ascii(t) && !all_digits(t) {
        let n = ascii_upper(t);
        assert forall|i: int| 0 <= i < n.len() implies is_ws(#[trigger] n[i]) == is_ws(t[i]) by {}
        if n.len() > 0 {
            assert(n[0] == ascii_upper_char(t[0]));
            assert(n.last() == ascii_upper_char(t.last()));
        }
        lemma_trim_of_clean(n);
        let k = choose|k: int| 0 <= k < t.len() && !is_digit(t[k]);
        assert(!is_digit(n[k]));
        assert(all_ascii(n));
        assert(ascii_upper(n) =~= n);
    }
}

/// The symbol Sina's quote service knows a stock by: codes already carrying a
/// market prefix (`sh`, `sz`, `bj`, `gb_`, in any case) are lower-cased;
/// US symbols (also `.`-prefixed indexes) get `gb_`; A-share codes get `sh`
/// (Shanghai: starting with 6, 5 or 11) or `sz`.
pub open spec fn spec_sina_symbol(symbol: Seq<char>) -> Seq<char> {
    let s = lower_code(symbol);
    if starts_with(s, "sh"@) || starts_with(s, "sz"@) || starts_with(s, "bj"@) || starts_with(
        s,
        "gb_"@,
    ) {
        s
    } else if starts_with(symbol, "."@) {
        "gb_"@ + lower_code(symbol.skip(lstrip_dots(symbol)))
    } else if !all_digits(symbol) {
        "gb_"@ + s
    } else if starts_with(symbol, "6"@) || starts_with(symbol, "5"@) || starts_with(symbol, "11"@) {
        "sh"@ + symbol
    } else {
        "sz"@ + symbol
    }
}

/// A code in lower case: ASCII letter by letter (which is what
/// `str::to_lowercase` does to ASCII), anything else by `str::to_lowercase`.
pub open spec fn lower_code(s: Seq<char>) -> Seq<char> {
    if all_ascii(s) {
        ascii_lower(s)
    } else {
        unicode_lower(s)
    }
}

fn lower_code_exec(s: &str) -> (r: String)
    ensures
        r@ == lower_code(s@),
{
    let v = chars_of(s);
    if all_ascii_chars(&v) {
        string_of(ascii_lower_chars(&v).as_slice())
    } else {
        str_to_lowercase(s)
    }
}

/// Number of leading `.` characters.
pub open spec fn lstrip_dots(s: Seq<char>) -> int {
    crate::text::lstrip_idx(s, '.', 0)
}

pub fn to_sina_symbol(symbol: &str) -> (r: String)
    ensures
        r@ == spec_sina_symbol(symbol@),
{
    let sym = chars_of(symbol);
    let s = lower_code_exec(symbol);
    let sv = chars_of(s.as_str());
    if starts_with_str(&sv, "sh") || starts_with_str(&sv, "sz") || starts_with_str(&sv, "bj")
        || starts_with_str(&sv, "gb_") {
        return s;
    }
    if starts_with_str(&sym, ".") {
        let mut a: usize = 0;
        while a < sym.len() && sym[a] == '.'
            invariant
                a <= sym@.len(),
                lstrip_idx(sym@, '.', 0) == lstrip_idx(sym@, '.', a as int),
            decreases sym@.len() - a,
        {
            a = a + 1;
        }
        let rest = copy_range(&sym, a, sym.len());
        assert(rest@ =~= sym@.skip(a as int));
        let lower = lower_code_exec(string_of(rest.as_slice()).as_str());
        return String::from_str("gb_").concat(lower.as_str());
    }
    if !all_digit_chars(&sym) {
        return String::from_str("gb_").concat(s.as_str());
    }
    let is_sh = starts_with_str(&sym, "6") || starts_with_str(&sym, "5") || starts_with_str(&sym, "11");
    if is_sh {
        String::from_str("sh").concat(symbol)
    } else {
        String::from_str("sz").concat(symbol)
    }
}

/// Sina's symbol for an all-digit (A-share) code: `sh` and the code when it
/// starts with 6, 5 or 11 (Shanghai), else `sz` and the code (Shenzhen).
pub proof fn law_a_share_sina_symbol(code: Seq<char>)
    requires
        all_digits(code),
    ensures
        (starts_with(code, "6"@) || starts_with(code, "5"@) || starts_with(code, "11"@))
            ==> spec_sina_symbol(code) == "sh"@ + code,
        !(starts_with(code, "6"@) || starts_with(code, "5"@) || starts_with(code, "11"@))
            ==> spec_sina_symbol(code) == "sz"@ + code,
{
    reveal_strlit("sh");
    reveal_strlit("sz");
    reveal_strlit("bj");
    reveal_strlit("gb_");
    reveal_strlit(".");
    assert forall|i: int| 0 <= i < code.len() implies (#[trigger] code[i] as u32) < 128 by {
        assert(is_digit(code[i]));
    }
    let s = ascii_lower(code);
    if code.len() > 0 {
        assert(is_digit(code[0]));
        assert(s[0] == code[0]);
        assert forall|p: Seq<char>| p.len() > 0 && !is_digit(p[0]) implies !starts_with(s, p) by {
            if starts_with(s, p) {
                assert(s.take(p.len() as int)[0] == s[0]);
            }
        }
        assert(!is_digit("sh"@[0]) && !is_digit("sz"@[0]) && !is_digit("bj"@[0]) && !is_digit("gb_"@[0]));
        assert(!is_digit("."@[0]));
        if starts_with(code, "."@) {
            assert(code.take(1)[0] == code[0]);
        }
    }
}

/// Whether any item's normalized code is `code`.
pub open spec fn watches(items: Seq<StockWatchItem>, code: Seq<char>) -> bool {
    exists|i: int| 0 <= i < items.len() && spec_normalize(#[trigger] items[i].code@) == code
}

fn find_watch(items: &Vec<StockWatchItem>, code: &Vec<char>) -> (r: Option<usize>)
    ensures
        r matches Some(i) ==> i < items@.len() && spec_normalize(items@[i as int].code@) == code@,
        r is None ==> !watches(items@, code@),
{
    let mut i: usize = 0;
    while i < items.len()
        invariant
            i <= items@.len(),
            forall|k: int| 0 <= k < i ==> spec_normalize(#[trigger] items@[k].code@) != code@,
        decreases items@.len() - i,
    {
        let n = normalize_code(items[i].code.as_str());
        if chars_eq(&chars_of(n.as_str()), code) {
            return Some(i);
        }
        i = i + 1;
    }
    None
}

/// Add a stock to the watch list unless its normalized code is already on it.
/// Returns whether the list changed.
pub fn add_watch(items: &mut Vec<StockWatchItem>, code: &str) -> (added: bool)
    ensures
        added == !watches(old(items)@, spec_normalize(code@)),
        added ==> final(items)@.len() == old(items)@.len() + 1 && final(items)@.drop_last()
            == old(items)@ && final(items)@.last().code@ == spec_normalize(code@)
            && final(items)@.last().name@.len() == 0,
        !added ==> final(items)@ == old(items)@,
{
    let c = normalize_code(code);
    let cv = chars_of(c.as_str());
    match find_watch(items, &cv) {
        Some(i) => {
            assert(spec_normalize(items@[i as int].code@) == spec_normalize(code@));
            false
        },
        None => {
            let ghost before = items@;
            items.push(StockWatchItem { code: c, name: String::new() });
            assert(items@.drop_last() =~= before);
            true
        },
    }
}

/// Items whose normalized code differs from `code`.
pub open spec fn other_than(code: Seq<char>) -> spec_fn(StockWatchItem) -> bool {
    |it: StockWatchItem| spec_normalize(it.code@) != code
}

/// Remove every stock whose normalized code is `code` normalized.
pub fn delete_watch(items: &mut Vec<StockWatchItem>, code: &str)
    ensures
        final(items)@ == old(items)@.filter(other_than(spec_normalize(code@))),
        !watches(final(items)@, spec_normalize(code@)),
{
    let c = normalize_code(code);
    let cv = chars_of(c.as_str());
    let ghost keep = other_than(spec_normalize(code@));
    let mut kept: Vec<StockWatchItem> = Vec::new();
    let mut old_items: Vec<StockWatchItem> = Vec::new();
    std::mem::swap(&mut old_items, items);
    let ghost all = old_items@;
    for it in iter: old_items
        invariant
            iter.seq() == all,
            cv@ == spec_normalize(code@),
            keep == other_than(spec_normalize(code@)),
            kept@ == all.take(iter.index() as int).filter(keep),
    {
        let ghost idx = iter.index();
        let ghost k0 = kept@;
        proof {
            let t = all.take(idx + 1);
            assert(t.drop_last() =~= all.take(idx as int));
            assert(t.last() == it);
            reveal_with_fuel(Seq::<_>::filter, 1);
            assert(t.filter(keep) == if keep(it) { k0.push(it) } else { k0 });
        }
        let n = normalize_code(it.code.as_str());
        let nv = chars_of(n.as_str());
        let differs = !chars_eq(&nv, &cv);
        assert(differs == keep(it));
        if differs {
            kept.push(it);
        }
    }
    proof {
        assert(all.take(all.len() as int) =~= all);
        if watches(kept@, spec_normalize(code@)) {
            let i = choose|i: int| 0 <= i < kept@.len() && spec_normalize(#[trigger] kept@[i].code@) == spec_normalize(code@);
            all.lemma_filter_pred(keep, i);
        }
    }
    *items = kept;
}

/// The name a quote of a stock carries.
#[derive(Debug, Clone)]
pub struct QuoteName {
    pub symbol: String,
    pub name: String,
}

/// The name of the first quote for symbol `code`.
pub open spec fn quote_name_for(quotes: Seq<QuoteName>, code: Seq<char>, i: int) -> Option<Seq<char>>
    decreases quotes.len() - i,
{
    if i < 0 || i >= quotes.len() {
        None
    } else if quotes[i].symbol@ == code {
        Some(quotes[i].name@)
    } else {
        quote_name_for(quotes, code, i + 1)
    }
}

/// The watch list with each stock renamed after the first quote for it.
pub open spec fn synced(items: Seq<StockWatchItem>, quotes: Seq<QuoteName>) -> Seq<Seq<char>> {
    Seq::new(
        items.len(),
        |i: int|
            match quote_name_for(quotes, spec_normalize(items[i].code@), 0) {
                Some(n) => n,
                None => items[i].name@,
            },
    )
}

fn quote_name_exec<'a>(quotes: &'a Vec<QuoteName>, code: &Vec<char>) -> (r: Option<&'a String>)
    ensures
        match r {
            Some(n) => quote_name_for(quotes@, code@, 0) == Some(n@),
            None => quote_name_for(quotes@, code@, 0) is None,
        },
{
    let mut i: usize = 0;
    while i < quotes.len()
        invariant
            i <= quotes@.len(),
            quote_name_for(quotes@, code@, 0) == quote_name_for(quotes@, code@, i as int),
        decreases quotes@.len() - i,
    {
        if chars_eq(&chars_of(quotes[i].symbol.as_str()), code) {
            return Some(&quotes[i].name);
        }
        i += 1;
    }
    None
}

/// Renames the watched stocks after the quotes that came for them. Returns
/// whether any name changed.
pub fn sync_names(items: &mut Vec<StockWatchItem>, quotes: &Vec<QuoteName>) -> (changed: bool)
    ensures
        final(items)@.len() == old(items)@.len(),
        forall|i: int| 0 <= i < old(items)@.len() ==> (#[trigger] final(items)@[i]).code@ == old(items)@[i].code@,
        forall|i: int| 0 <= i < old(items)@.len() ==> (#[trigger] final(items)@[i]).name@ == synced(old(items)@, quotes@)[i],
        changed == exists|i: int| 0 <= i < old(items)@.len() && synced(old(items)@, quotes@)[i] != (#[trigger] old(items)@[i]).name@,
{
    let ghost orig = items@;
    let mut changed = false;
    let mut i: usize = 0;
    while i < items.len()
        invariant
            i <= items@.len(),
            items@.len() == orig.len(),
            forall|k: int| 0 <= k < orig.len() ==> (#[trigger] items@[k]).code@ == orig[k].code@,
            forall|k: int| 0 <= k < i ==> (#[trigger] items@[k]).name@ == synced(orig, quotes@)[k],
            forall|k: int| i <= k < orig.len() ==> (#[trigger] items@[k]) == orig[k],
            changed == exists|k: int| 0 <= k < i && synced(orig, quotes@)[k] != (#[trigger] orig[k]).name@,
        decreases items@.len() - i,
    {
        let code = normalize_code(items[i].code.as_str());
        let cv = chars_of(code.as_str());
        match quote_name_exec(quotes, &cv) {
            Some(n) => {
                if !chars_eq(&chars_of(items[i].name.as_str()), &chars_of(n.as_str())) {
                    let it = StockWatchItem { code: items[i].code.clone(), name: n.clone() };
                    items.set(i, it);
                    changed = true;
                }
            },
            None => {},
        }
        i += 1;
    }
    changed
}

/// The Sina quote page for the watch list: the Sina symbols of the codes,
/// joined by commas.
pub open spec fn sina_list_url_spec(codes: Seq<Seq<char>>) -> Seq<char> {
    "https://hq.sinajs.cn/list="@ + crate::text::join(
        Seq::new(codes.len(), |i: int| spec_sina_symbol(spec_normalize(codes[i]))),
        ","@,
    )
}

/// The Sina quote page for the watch list.
pub fn sina_list_url(items: &Vec<StockWatchItem>) -> (r: String)
    ensures
        r@ == sina_list_url_spec(items@.map_values(|it: StockWatchItem| it.code@)),
{
    let ghost codes = items@.map_values(|it: StockWatchItem| it.code@);
    let ghost syms = Seq::new(codes.len(), |i: int| spec_sina_symbol(spec_normalize(codes[i])));
    let mut pieces: Vec<Vec<char>> = Vec::new();
    let mut i: usize = 0;
    while i < items.len()
        invariant
            i <= items@.len(),
            codes == items@.map_values(|it: StockWatchItem| it.code@),
            syms == Seq::new(codes.len(), |i: int| spec_sina_symbol(spec_normalize(codes[i]))),
            crate::text::vviews(pieces@) == syms.take(i as int),
        decreases items@.len() - i,
    {
        let n = normalize_code(items[i].code.as_str());
        let sym = to_sina_symbol(n.as_str());
        let ghost before = crate::text::vviews(pieces@);
        pieces.push(chars_of(sym.as_str()));
        assert(crate::text::vviews(pieces@) =~= before.push(syms[i as int]));
        assert(syms.take(i + 1) =~= syms.take(i as int).push(syms[i as int]));
        i += 1;
    }
    assert(syms.take(items@.len() as int) =~= syms);
    let mut out = chars_of("https://hq.sinajs.cn/list=");
    let joined = crate::text::join_chars(&pieces, &chars_of(","));
    append_chars(&mut out, &joined);
    string_of(out.as_slice())
}

/// The fields of a Sina quote line: what stands between its first two double
/// quotes, split at commas; `None` when the line has fewer than two.
pub open spec fn sina_fields_spec(line: Seq<char>) -> Option<Seq<Seq<char>>> {
    match crate::text::find_char_from(line, '"', 0) {
        None => None,
        Some(a) => match crate::text::find_char_from(line, '"', a + 1) {
            None => None,
            Some(b) => Some(crate::text::split_char(line.subrange(a + 1, b), ',')),
        },
    }
}

/// The fields of a Sina quote line.
pub fn sina_quote_fields(line: &str) -> (r: Option<Vec<String>>)
    ensures
        match r {
            Some(v) => sina_fields_spec(line@) == Some(crate::text::strs(v@)),
            None => sina_fields_spec(line@) is None,
        },
{
    let l = chars_of(line);
    let a = match crate::text::find_char(&l, '"', 0) {
        Some(a) => a,
        None => {
            return None;
        },
    };
    let b = match crate::text::find_char(&l, '"', a + 1) {
        Some(b) => b,
        None => {
            return None;
        },
    };
    let data = copy_range(&l, a + 1, b);
    let parts = crate::text::split_chars_at(&data, ',');
    let mut out: Vec<String> = Vec::new();
    let mut i: usize = 0;
    while i < parts.len()
        invariant
            i <= parts@.len(),
            crate::text::strs(out@) == crate::text::vviews(parts@).take(i as int),
        decreases parts@.len() - i,
    {
        let ghost before = crate::text::strs(out@);
        out.push(string_of(parts[i].as_slice()));
        assert(crate::text::strs(out@) =~= before.push(parts@[i as int]@));
        assert(crate::text::vviews(parts@).take(i + 1) =~= crate::text::vviews(parts@).take(i as int).push(parts@[i as int]@));
        i += 1;
    }
    assert(crate::text::vviews(parts@).take(parts@.len() as int) =~= crate::text::vviews(parts@));
    Some(out)
}

/// The name shown for a quote: the quote's own name, unless it is just the
/// code, in which case a name saved with the watch list, if any.
pub fn display_name(quote_name: &str, code: &str, items: &Vec<StockWatchItem>) -> (r: String)
    ensures
        r@ == if quote_name@ != code@ {
            quote_name@
        } else {
            match first_watch_name(items@, code@, 0) {
                Some(n) => if n.len() > 0 { n } else { quote_name@ },
                None => quote_name@,
            }
        },
{
    let q = chars_of(quote_name);
    let c = chars_of(code);
    if !chars_eq(&q, &c) {
        return string_of(q.as_slice());
    }
    let mut i: usize = 0;
    while i < items.len()
        invariant
            i <= items@.len(),
            first_watch_name(items@, code@, 0) == first_watch_name(items@, code@, i as int),
            c@ == code@,
            q@ == quote_name@,
            quote_name@ == code@,
        decreases items@.len() - i,
    {
        let n = normalize_code(items[i].code.as_str());
        if chars_eq(&chars_of(n.as_str()), &c) {
            if items[i].name.as_str().is_empty() {
                return string_of(q.as_slice());
            }
            return items[i].name.clone();
        }
        i += 1;
    }
    string_of(q.as_slice())
}

/// The saved name of the first watched stock whose normalized code is `code`.
pub open spec fn first_watch_name(items: Seq<StockWatchItem>, code: Seq<char>, i: int) -> Option<Seq<char>>
    decreases items.len() - i,
{
    if i < 0 || i >= items.len() {
        None
    } else if spec_normalize(items[i].code@) == code {
        Some(items[i].name@)
    } else {
        first_watch_name(items, code, i + 1)
    }
}

/// `urlencoding::encode`: as its documentation says, every byte of the
/// UTF-8 text except ASCII letters, digits and `-`, `_`, `.`, `~` becomes
/// `%XX` with upper-case hexadecimal digits.
#[verifier::external_body]
fn url_encode(s: &str) -> (r: String)
    ensures
        r@ == crate::platform::zhihu::client::percent_encode(s.spec_bytes()),
{
    urlencoding::encode(s).into_owned()
}

/// The Yahoo chart query for a US stock, with pre- and post-market prices.
pub fn yahoo_chart_url(symbol: &str) -> (r: String)
    ensures
        r@ == "https://query1.finance.yahoo.com/v8/finance/chart/"@ + crate::platform::zhihu::client::percent_encode(
            symbol.spec_bytes(),
        ) + "?interval=1m&range=1d&includePrePost=true"@,
{
    let mut out = chars_of("https://query1.finance.yahoo.com/v8/finance/chart/");
    append_chars(&mut out, &chars_of(url_encode(symbol).as_str()));
    append_chars(&mut out, &chars_of("?interval=1m&range=1d&includePrePost=true"));
    string_of(out.as_slice())
}

/// The text of Sina's quote feed, which is served in GBK.
pub fn sina_text(bytes: &[u8]) -> (r: String)
    ensures
        r@ == crate::encoding::gbk_with_bom_sniffing(bytes@),
{
    crate::encoding::decode_gbk(bytes)
}

} // verus!
