//! Symbol normalisation, asset classification and trade-pair resolution for
//! the Dzengi book.
use vstd::prelude::*;
use crate::investment::model::{Currency, ExchangeInfo, SymbolInfo};
use crate::text::{
    ascii_lower, ascii_upper, lower_seq,
    chars_eq, concat3, has_suffix, contains, contains_seq, eq_ignore_ascii_case_lit, eq_ignore_case, eq_lit,
    from_chars, owned, strip_or, strip_suffix_len, strip_suffix_or, string_of_range, to_chars,
    to_upper, upper_seq,
};

verus! {

#[derive(Clone, Copy, Debug, PartialEq, Eq, Structural)]
pub enum AssetClass {
    Equity,
    Index,
    Commodity,
    Crypto,
    Fx,
    Other,
}

// ---------------------------------------------------------------------------
// Symbol normalisation
// ---------------------------------------------------------------------------

/// One trailing `.` removed (`TSM.` → `TSM`).
pub open spec fn normalize_spec(s: Seq<char>) -> Seq<char> {
    strip_or(s, seq!['.'])
}

/// Broker symbol with trailing `.`, `/USD_LEVERAGE` and `/USD` removed.
pub open spec fn lookup_base(s: Seq<char>) -> Seq<char> {
    strip_or(strip_or(normalize_spec(s), "/USD_LEVERAGE"@), "/USD"@)
}

/// Yahoo-style lookup key for a broker symbol.
pub open spec fn lookup_symbol_spec(symbol: Seq<char>) -> Seq<char> {
    let s = lookup_base(symbol);
    if s == "US500"@ || s == "SPX"@ || s == "SP500"@ || s == "SPX500"@ {
        "^GSPC"@
    } else if s == "US100"@ || s == "NDX"@ || s == "NAS100"@ || s == "USTEC"@ {
        "^NDX"@
    } else if s == "US30"@ || s == "DJIA"@ || s == "DOW"@ || s == "WALLSTREET30"@ {
        "^DJI"@
    } else if s == "DE40"@ || s == "DAX"@ || s == "GER40"@ {
        "^GDAXI"@
    } else if s == "UK100"@ || s == "FTSE"@ || s == "UK100GBP"@ {
        "^FTSE"@
    } else if s == "JP225"@ || s == "NI225"@ || s == "NIKKEI"@ {
        "^N225"@
    } else if s == "Gold"@ || s == "XAU"@ || s == "XAUm"@ || s == "XAUUSD"@ {
        "GC=F"@
    } else if s == "TON"@ || s == "TONCOIN"@ {
        "TON11419-USD"@
    } else {
        s
    }
}

proof fn lemma_no_suffix_in(b: Seq<char>, p: Seq<char>)
    requires
        p.len() > 0,
        p[0] == '/',
        forall|i: int| 0 <= i < b.len() ==> #[trigger] b[i] != '/',
    ensures
        !has_suffix(b, p),
{
    if has_suffix(b, p) {
        assert(b.subrange(b.len() - p.len(), b.len() as int)[0] == b[b.len() - p.len()]);
    }
}

/// The lookup base of a broker symbol drops one trailing `.`, then a
/// `/USD_LEVERAGE` or `/USD` quote suffix: for a plain name (no `/` or `.`),
/// the name itself, the name with `.`, `/USD` or `/USD_LEVERAGE` all have
/// the name as base, and so look up the same key.
pub proof fn lemma_lookup_base_suffixes(b: Seq<char>)
    requires
        forall|i: int| 0 <= i < b.len() ==> #[trigger] b[i] != '/' && b[i] != '.',
    ensures
        lookup_base(b) == b,
        lookup_base(b + "."@) == b,
        lookup_base(b + "/USD"@) == b,
        lookup_base(b + "/USD_LEVERAGE"@) == b,
        lookup_symbol_spec(b + "."@) == lookup_symbol_spec(b),
        lookup_symbol_spec(b + "/USD"@) == lookup_symbol_spec(b),
        lookup_symbol_spec(b + "/USD_LEVERAGE"@) == lookup_symbol_spec(b),
{
    reveal_strlit(".");
    reveal_strlit("/USD");
    reveal_strlit("/USD_LEVERAGE");
    let lev = "/USD_LEVERAGE"@;
    let usd = "/USD"@;
    assert(lev.len() == 13 && lev[0] == '/' && lev[12] == 'E' && lev[2] == 'S');
    assert(usd.len() == 4 && usd[0] == '/' && usd[3] == 'D');
    assert(seq!['.'] =~= "."@);
    // plain
    if b.len() > 0 {
        assert(b.subrange(b.len() - 1, b.len() as int)[0] == b[b.len() - 1]);
    }
    assert(!has_suffix(b, seq!['.']));
    lemma_no_suffix_in(b, lev);
    lemma_no_suffix_in(b, usd);
    // with a dot
    let bd = b + "."@;
    assert(bd.subrange(bd.len() - 1, bd.len() as int) =~= seq!['.']);
    assert(bd.subrange(0, bd.len() - 1) =~= b);
    // with /USD
    let bu = b + usd;
    assert(bu.subrange(bu.len() - 1, bu.len() as int)[0] == 'D');
    assert(!has_suffix(bu, seq!['.']));
    if has_suffix(bu, lev) {
        assert(bu.subrange(bu.len() - 13, bu.len() as int)[10] == bu[bu.len() - 3]);
        assert(bu[bu.len() - 3] == usd[1]);
    }
    assert(bu.subrange(bu.len() - 4, bu.len() as int) =~= usd);
    assert(bu.subrange(0, bu.len() - 4) =~= b);
    // with /USD_LEVERAGE
    let bl = b + lev;
    assert(bl.subrange(bl.len() - 1, bl.len() as int)[0] == 'E');
    assert(!has_suffix(bl, seq!['.']));
    assert(bl.subrange(bl.len() - 13, bl.len() as int) =~= lev);
    assert(bl.subrange(0, bl.len() - 13) =~= b);
}

/// Broker index and commodity aliases map to their Yahoo keys whatever the
/// suffix (`.`, `/USD_LEVERAGE`, `/USD`): S&P 500 to `^GSPC`, Nasdaq 100 to
/// `^NDX`, Dow to `^DJI`, DAX to `^GDAXI`, FTSE to `^FTSE`, Nikkei to
/// `^N225`, gold to `GC=F` and Toncoin to `TON11419-USD`; any other symbol
/// is looked up by its base as it is.
pub proof fn lemma_lookup_aliases(s: Seq<char>)
    ensures
        ({
            let b = lookup_base(s);
            &&& (b == "US500"@ || b == "SPX"@ || b == "SP500"@ || b == "SPX500"@) ==> lookup_symbol_spec(s) == "^GSPC"@
            &&& (b == "US100"@ || b == "NDX"@ || b == "NAS100"@ || b == "USTEC"@) ==> lookup_symbol_spec(s) == "^NDX"@
            &&& (b == "US30"@ || b == "DJIA"@ || b == "DOW"@ || b == "WALLSTREET30"@) ==> lookup_symbol_spec(s) == "^DJI"@
            &&& (b == "DE40"@ || b == "DAX"@ || b == "GER40"@) ==> lookup_symbol_spec(s) == "^GDAXI"@
            &&& (b == "UK100"@ || b == "FTSE"@ || b == "UK100GBP"@) ==> lookup_symbol_spec(s) == "^FTSE"@
            &&& (b == "JP225"@ || b == "NI225"@ || b == "NIKKEI"@) ==> lookup_symbol_spec(s) == "^N225"@
            &&& (b == "Gold"@ || b == "XAU"@ || b == "XAUm"@ || b == "XAUUSD"@) ==> lookup_symbol_spec(s) == "GC=F"@
            &&& (b == "TON"@ || b == "TONCOIN"@) ==> lookup_symbol_spec(s) == "TON11419-USD"@
            &&& !(b == "US500"@ || b == "SPX"@ || b == "SP500"@ || b == "SPX500"@ || b == "US100"@ || b == "NDX"@ || b == "NAS100"@ || b == "USTEC"@ || b == "US30"@ || b == "DJIA"@ || b == "DOW"@ || b == "WALLSTREET30"@ || b == "DE40"@ || b == "DAX"@ || b == "GER40"@ || b == "UK100"@ || b == "FTSE"@ || b == "UK100GBP"@ || b == "JP225"@ || b == "NI225"@ || b == "NIKKEI"@ || b == "Gold"@ || b == "XAU"@ || b == "XAUm"@ || b == "XAUUSD"@ || b == "TON"@ || b == "TONCOIN"@) ==> lookup_symbol_spec(s) == b
        }),
{
    reveal_strlit("US500");
    assert("US500"@.len() == 5 && "US500"@[0] == 'U' && "US500"@[1] == 'S' && "US500"@[2] == '5' && "US500"@[3] == '0' && "US500"@[4] == '0');
    reveal_strlit("SPX");
    assert("SPX"@.len() == 3 && "SPX"@[0] == 'S' && "SPX"@[1] == 'P' && "SPX"@[2] == 'X');
    reveal_strlit("SP500");
    assert("SP500"@.len() == 5 && "SP500"@[0] == 'S' && "SP500"@[1] == 'P' && "SP500"@[2] == '5' && "SP500"@[3] == '0' && "SP500"@[4] == '0');
    reveal_strlit("SPX500");
    assert("SPX500"@.len() == 6 && "SPX500"@[0] == 'S' && "SPX500"@[1] == 'P' && "SPX500"@[2] == 'X' && "SPX500"@[3] == '5' && "SPX500"@[4] == '0' && "SPX500"@[5] == '0');
    reveal_strlit("US100");
    assert("US100"@.len() == 5 && "US100"@[0] == 'U' && "US100"@[1] == 'S' && "US100"@[2] == '1' && "US100"@[3] == '0' && "US100"@[4] == '0');
    reveal_strlit("NDX");
    assert("NDX"@.len() == 3 && "NDX"@[0] == 'N' && "NDX"@[1] == 'D' && "NDX"@[2] == 'X');
    reveal_strlit("NAS100");
    assert("NAS100"@.len() == 6 && "NAS100"@[0] == 'N' && "NAS100"@[1] == 'A' && "NAS100"@[2] == 'S' && "NAS100"@[3] == '1' && "NAS100"@[4] == '0' && "NAS100"@[5] == '0');
    reveal_strlit("USTEC");
    assert("USTEC"@.len() == 5 && "USTEC"@[0] == 'U' && "USTEC"@[1] == 'S' && "USTEC"@[2] == 'T' && "USTEC"@[3] == 'E' && "USTEC"@[4] == 'C');
    reveal_strlit("US30");
    assert("US30"@.len() == 4 && "US30"@[0] == 'U' && "US30"@[1] == 'S' && "US30"@[2] == '3' && "US30"@[3] == '0');
    reveal_strlit("DJIA");
    assert("DJIA"@.len() == 4 && "DJIA"@[0] == 'D' && "DJIA"@[1] == 'J' && "DJIA"@[2] == 'I' && "DJIA"@[3] == 'A');
    reveal_strlit("DOW");
    assert("DOW"@.len() == 3 && "DOW"@[0] == 'D' && "DOW"@[1] == 'O' && "DOW"@[2] == 'W');
    reveal_strlit("WALLSTREET30");
    assert("WALLSTREET30"@.len() == 12 && "WALLSTREET30"@[0] == 'W' && "WALLSTREET30"@[1] == 'A' && "WALLSTREET30"@[2] == 'L' && "WALLSTREET30"@[3] == 'L' && "WALLSTREET30"@[4] == 'S' && "WALLSTREET30"@[5] == 'T' && "WALLSTREET30"@[6] == 'R' && "WALLSTREET30"@[7] == 'E' && "WALLSTREET30"@[8] == 'E' && "WALLSTREET30"@[9] == 'T' && "WALLSTREET30"@[10] == '3' && "WALLSTREET30"@[11] == '0');
    reveal_strlit("DE40");
    assert("DE40"@.len() == 4 && "DE40"@[0] == 'D' && "DE40"@[1] == 'E' && "DE40"@[2] == '4' && "DE40"@[3] == '0');
    reveal_strlit("DAX");
    assert("DAX"@.len() == 3 && "DAX"@[0] == 'D' && "DAX"@[1] == 'A' && "DAX"@[2] == 'X');
    reveal_strlit("GER40");
    assert("GER40"@.len() == 5 && "GER40"@[0] == 'G' && "GER40"@[1] == 'E' && "GER40"@[2] == 'R' && "GER40"@[3] == '4' && "GER40"@[4] == '0');
    reveal_strlit("UK100");
    assert("UK100"@.len() == 5 && "UK100"@[0] == 'U' && "UK100"@[1] == 'K' && "UK100"@[2] == '1' && "UK100"@[3] == '0' && "UK100"@[4] == '0');
    reveal_strlit("FTSE");
    assert("FTSE"@.len() == 4 && "FTSE"@[0] == 'F' && "FTSE"@[1] == 'T' && "FTSE"@[2] == 'S' && "FTSE"@[3] == 'E');
    reveal_strlit("UK100GBP");
    assert("UK100GBP"@.len() == 8 && "UK100GBP"@[0] == 'U' && "UK100GBP"@[1] == 'K' && "UK100GBP"@[2] == '1' && "UK100GBP"@[3] == '0' && "UK100GBP"@[4] == '0' && "UK100GBP"@[5] == 'G' && "UK100GBP"@[6] == 'B' && "UK100GBP"@[7] == 'P');
    reveal_strlit("JP225");
    assert("JP225"@.len() == 5 && "JP225"@[0] == 'J' && "JP225"@[1] == 'P' && "JP225"@[2] == '2' && "JP225"@[3] == '2' && "JP225"@[4] == '5');
    reveal_strlit("NI225");
    assert("NI225"@.len() == 5 && "NI225"@[0] == 'N' && "NI225"@[1] == 'I' && "NI225"@[2] == '2' && "NI225"@[3] == '2' && "NI225"@[4] == '5');
    reveal_strlit("NIKKEI");
    assert("NIKKEI"@.len() == 6 && "NIKKEI"@[0] == 'N' && "NIKKEI"@[1] == 'I' && "NIKKEI"@[2] == 'K' && "NIKKEI"@[3] == 'K' && "NIKKEI"@[4] == 'E' && "NIKKEI"@[5] == 'I');
    reveal_strlit("Gold");
    assert("Gold"@.len() == 4 && "Gold"@[0] == 'G' && "Gold"@[1] == 'o' && "Gold"@[2] == 'l' && "Gold"@[3] == 'd');
    reveal_strlit("XAU");
    assert("XAU"@.len() == 3 && "XAU"@[0] == 'X' && "XAU"@[1] == 'A' && "XAU"@[2] == 'U');
    reveal_strlit("XAUm");
    assert("XAUm"@.len() == 4 && "XAUm"@[0] == 'X' && "XAUm"@[1] == 'A' && "XAUm"@[2] == 'U' && "XAUm"@[3] == 'm');
    reveal_strlit("XAUUSD");
    assert("XAUUSD"@.len() == 6 && "XAUUSD"@[0] == 'X' && "XAUUSD"@[1] == 'A' && "XAUUSD"@[2] == 'U' && "XAUUSD"@[3] == 'U' && "XAUUSD"@[4] == 'S' && "XAUUSD"@[5] == 'D');
    reveal_strlit("TON");
    assert("TON"@.len() == 3 && "TON"@[0] == 'T' && "TON"@[1] == 'O' && "TON"@[2] == 'N');
    reveal_strlit("TONCOIN");
    assert("TONCOIN"@.len() == 7 && "TONCOIN"@[0] == 'T' && "TONCOIN"@[1] == 'O' && "TONCOIN"@[2] == 'N' && "TONCOIN"@[3] == 'C' && "TONCOIN"@[4] == 'O' && "TONCOIN"@[5] == 'I' && "TONCOIN"@[6] == 'N');
}

/// Strip one trailing `.` from a broker symbol (`TSM.` → `TSM`).
pub fn normalize_symbol(symbol: &str) -> (r: String)
    ensures
        r@ == normalize_spec(symbol@),
{
    let v = to_chars(symbol);
    let k = strip_suffix_len(v.as_slice(), ".");
    assert(seq!['.'] == "."@) by {
        reveal_strlit(".");
    }
    string_of_range(v.as_slice(), 0, k)
}

fn lookup_base_chars(symbol: &str) -> (r: Vec<char>)
    ensures
        r@ == lookup_base(symbol@),
{
    let v = to_chars(symbol);
    let a = strip_suffix_or(v.as_slice(), ".");
    assert(seq!['.'] == "."@) by {
        reveal_strlit(".");
    }
    let b = strip_suffix_or(a.as_slice(), "/USD_LEVERAGE");
    strip_suffix_or(b.as_slice(), "/USD")
}

/// Map exchange / leverage symbols to a lookup key (Yahoo, Finnhub, news):
/// `TSM.` → `TSM`, `TSM/USD_LEVERAGE` → `TSM`, `US500` → `^GSPC`.
pub fn lookup_symbol(symbol: &str) -> (r: String)
    ensures
        r@ == lookup_symbol_spec(symbol@),
{
    let s = lookup_base_chars(symbol);
    let s = s.as_slice();
    if eq_lit(s, "US500") || eq_lit(s, "SPX") || eq_lit(s, "SP500") || eq_lit(s, "SPX500") {
        owned("^GSPC")
    } else if eq_lit(s, "US100") || eq_lit(s, "NDX") || eq_lit(s, "NAS100") || eq_lit(s, "USTEC") {
        owned("^NDX")
    } else if eq_lit(s, "US30") || eq_lit(s, "DJIA") || eq_lit(s, "DOW") || eq_lit(
        s,
        "WALLSTREET30",
    ) {
        owned("^DJI")
    } else if eq_lit(s, "DE40") || eq_lit(s, "DAX") || eq_lit(s, "GER40") {
        owned("^GDAXI")
    } else if eq_lit(s, "UK100") || eq_lit(s, "FTSE") || eq_lit(s, "UK100GBP") {
        owned("^FTSE")
    } else if eq_lit(s, "JP225") || eq_lit(s, "NI225") || eq_lit(s, "NIKKEI") {
        owned("^N225")
    } else if eq_lit(s, "Gold") || eq_lit(s, "XAU") || eq_lit(s, "XAUm") || eq_lit(s, "XAUUSD") {
        owned("GC=F")
    } else if eq_lit(s, "TON") || eq_lit(s, "TONCOIN") {
        owned("TON11419-USD")
    } else {
        from_chars(s)
    }
}

/// `base/quote` trade pair name.
pub fn new_pair(base: &str, quote: &str) -> (r: String)
    ensures
        r@ == base@ + seq!['/'] + quote@,
{
    assert(seq!['/'] == "/"@) by {
        reveal_strlit("/");
    }
    concat3(base, "/", quote)
}

// ---------------------------------------------------------------------------
// Asset classification
// ---------------------------------------------------------------------------

/// Dzengi `assetType` (case-insensitive) → asset class.
pub open spec fn asset_class_from_dzengi_spec(asset_type: Seq<char>) -> Option<AssetClass> {
    let u = upper_seq(asset_type);
    if u == "EQUITY"@ {
        Some(AssetClass::Equity)
    } else if u == "INDEX"@ {
        Some(AssetClass::Index)
    } else if u == "COMMODITY"@ {
        Some(AssetClass::Commodity)
    } else if u == "CRYPTOCURRENCY"@ || u == "ICO"@ || u == "OPT_TOKENS"@ || u == "UTILITY_TOKENS"@ {
        Some(AssetClass::Crypto)
    } else if u == "CURRENCY"@ {
        Some(AssetClass::Fx)
    } else if u == "BOND"@ || u == "CREDIT"@ || u == "INTEREST_RATE"@ || u == "REAL_ESTATE"@ || u
        == "OTHER_ASSET"@ {
        Some(AssetClass::Other)
    } else {
        None
    }
}

proof fn lemma_upper_char(a: char, b: char)
    ensures
        ascii_upper(ascii_upper(a)) == ascii_upper(a),
        ascii_lower(a) == ascii_lower(b) ==> ascii_upper(a) == ascii_upper(b),
{
    assert('a' as u32 == 97 && 'z' as u32 == 122 && 'A' as u32 == 65 && 'Z' as u32 == 90) by {}
}

/// The class ignores ASCII case: types equal up to case get the same class
/// (`currency` in any case is `Fx`); there is none exactly when the
/// upper-cased type is off Dzengi's list.
pub proof fn lemma_asset_class_ignores_case(a: Seq<char>, b: Seq<char>)
    ensures
        asset_class_from_dzengi_spec(upper_seq(a)) == asset_class_from_dzengi_spec(a),
        eq_ignore_case(a, b) ==> asset_class_from_dzengi_spec(a) == asset_class_from_dzengi_spec(b),
        eq_ignore_case(a, "currency"@) ==> asset_class_from_dzengi_spec(a) == Some(AssetClass::Fx),
        asset_class_from_dzengi_spec(a) is None <==> !(upper_seq(a) == "EQUITY"@ || upper_seq(a)
            == "INDEX"@ || upper_seq(a) == "COMMODITY"@ || upper_seq(a) == "CRYPTOCURRENCY"@
            || upper_seq(a) == "ICO"@ || upper_seq(a) == "OPT_TOKENS"@ || upper_seq(a)
            == "UTILITY_TOKENS"@ || upper_seq(a) == "CURRENCY"@ || upper_seq(a) == "BOND"@
            || upper_seq(a) == "CREDIT"@ || upper_seq(a) == "INTEREST_RATE"@ || upper_seq(a)
            == "REAL_ESTATE"@ || upper_seq(a) == "OTHER_ASSET"@),
{
    assert forall|i: int| 0 <= i < a.len() implies #[trigger] upper_seq(upper_seq(a))[i] == upper_seq(a)[i] by {
        lemma_upper_char(a[i], a[i]);
    }
    assert(upper_seq(upper_seq(a)) =~= upper_seq(a));
    if eq_ignore_case(a, b) {
        assert(a.len() == lower_seq(a).len() && b.len() == lower_seq(b).len());
        assert forall|i: int| 0 <= i < a.len() implies #[trigger] upper_seq(a)[i] == upper_seq(b)[i] by {
            assert(lower_seq(a)[i] == lower_seq(b)[i]);
            lemma_upper_char(a[i], b[i]);
        }
        assert(upper_seq(a) =~= upper_seq(b));
    }
    if eq_ignore_case(a, "currency"@) {
        let c = "currency"@;
        assert(upper_seq(c) =~= "CURRENCY"@) by {
            reveal_strlit("currency");
            reveal_strlit("CURRENCY");
        }
        assert(a.len() == lower_seq(a).len() && c.len() == lower_seq(c).len());
        assert forall|i: int| 0 <= i < a.len() implies #[trigger] upper_seq(a)[i] == upper_seq(c)[i] by {
            assert(lower_seq(a)[i] == lower_seq(c)[i]);
            lemma_upper_char(a[i], c[i]);
        }
        assert(upper_seq(a) =~= upper_seq(c));
        reveal_strlit("EQUITY");
        reveal_strlit("INDEX");
        reveal_strlit("COMMODITY");
        reveal_strlit("CRYPTOCURRENCY");
        reveal_strlit("ICO");
        reveal_strlit("OPT_TOKENS");
        reveal_strlit("UTILITY_TOKENS");
        reveal_strlit("CURRENCY");
        assert(upper_seq(a) == "CURRENCY"@);
        assert(upper_seq(a).len() == 8);
    }
}

/// Each Dzengi asset type (any ASCII case) has its own class: equities,
/// indices and commodities each their own, the four token kinds crypto,
/// currencies FX, and bonds, credit, rates, real estate and other assets
/// `Other`.
pub proof fn lemma_asset_class_table(t: Seq<char>)
    ensures
        upper_seq(t) == "EQUITY"@ ==> asset_class_from_dzengi_spec(t) == Some(AssetClass::Equity),
        upper_seq(t) == "INDEX"@ ==> asset_class_from_dzengi_spec(t) == Some(AssetClass::Index),
        upper_seq(t) == "COMMODITY"@ ==> asset_class_from_dzengi_spec(t) == Some(
            AssetClass::Commodity,
        ),
        (upper_seq(t) == "CRYPTOCURRENCY"@ || upper_seq(t) == "ICO"@ || upper_seq(t)
            == "OPT_TOKENS"@ || upper_seq(t) == "UTILITY_TOKENS"@) ==> asset_class_from_dzengi_spec(
            t,
        ) == Some(AssetClass::Crypto),
        upper_seq(t) == "CURRENCY"@ ==> asset_class_from_dzengi_spec(t) == Some(AssetClass::Fx),
        (upper_seq(t) == "BOND"@ || upper_seq(t) == "CREDIT"@ || upper_seq(t) == "INTEREST_RATE"@
            || upper_seq(t) == "REAL_ESTATE"@ || upper_seq(t) == "OTHER_ASSET"@)
            ==> asset_class_from_dzengi_spec(t) == Some(AssetClass::Other),
{
    reveal_strlit("EQUITY");
    reveal_strlit("INDEX");
    reveal_strlit("COMMODITY");
    reveal_strlit("CRYPTOCURRENCY");
    reveal_strlit("ICO");
    reveal_strlit("OPT_TOKENS");
    reveal_strlit("UTILITY_TOKENS");
    reveal_strlit("CURRENCY");
    reveal_strlit("BOND");
    reveal_strlit("CREDIT");
    reveal_strlit("INTEREST_RATE");
    reveal_strlit("REAL_ESTATE");
    reveal_strlit("OTHER_ASSET");
    assert("EQUITY"@.len() == 6 && "EQUITY"@[0] == 'E');
    assert("INDEX"@.len() == 5 && "INDEX"@[0] == 'I');
    assert("COMMODITY"@.len() == 9 && "COMMODITY"@[0] == 'C');
    assert("CRYPTOCURRENCY"@.len() == 14 && "CRYPTOCURRENCY"@[0] == 'C');
    assert("ICO"@.len() == 3 && "ICO"@[0] == 'I');
    assert("OPT_TOKENS"@.len() == 10 && "OPT_TOKENS"@[0] == 'O');
    assert("UTILITY_TOKENS"@.len() == 14 && "UTILITY_TOKENS"@[0] == 'U');
    assert("CURRENCY"@.len() == 8 && "CURRENCY"@[0] == 'C');
    assert("BOND"@.len() == 4 && "BOND"@[0] == 'B');
    assert("CREDIT"@.len() == 6 && "CREDIT"@[0] == 'C');
    assert("INTEREST_RATE"@.len() == 13 && "INTEREST_RATE"@[0] == 'I');
    assert("REAL_ESTATE"@.len() == 11 && "REAL_ESTATE"@[0] == 'R');
    assert("OTHER_ASSET"@.len() == 11 && "OTHER_ASSET"@[0] == 'O');
}

/// A held symbol whose exchange-info row carries a Dzengi asset type with a
/// class is classified by that type, whatever its name suggests.
pub proof fn lemma_classify_uses_asset_type(symbol: Seq<char>, syms: Seq<SymbolInfo>, t: Seq<char>)
    requires
        find_symbol_info_spec(syms, symbol) matches Some(row) && row.asset_type matches Some(a) && a@
            == t,
        asset_class_from_dzengi_spec(t) is Some,
    ensures
        classify_asset_spec(symbol, syms).0 == asset_class_from_dzengi_spec(t)->0,
        upper_seq(t) == "COMMODITY"@ ==> classify_asset_spec(symbol, syms).0 == AssetClass::Commodity,
        upper_seq(t) == "EQUITY"@ ==> classify_asset_spec(symbol, syms).0 == AssetClass::Equity,
        upper_seq(t) == "INDEX"@ ==> classify_asset_spec(symbol, syms).0 == AssetClass::Index,
{
    lemma_asset_class_table(t);
}

pub fn asset_class_from_dzengi(asset_type: &str) -> (r: Option<AssetClass>)
    ensures
        r == asset_class_from_dzengi_spec(asset_type@),
{
    let v = to_chars(asset_type);
    let u = to_upper(v.as_slice());
    let u = u.as_slice();
    if eq_lit(u, "EQUITY") {
        Some(AssetClass::Equity)
    } else if eq_lit(u, "INDEX") {
        Some(AssetClass::Index)
    } else if eq_lit(u, "COMMODITY") {
        Some(AssetClass::Commodity)
    } else if eq_lit(u, "CRYPTOCURRENCY") || eq_lit(u, "ICO") || eq_lit(u, "OPT_TOKENS") || eq_lit(
        u,
        "UTILITY_TOKENS",
    ) {
        Some(AssetClass::Crypto)
    } else if eq_lit(u, "CURRENCY") {
        Some(AssetClass::Fx)
    } else if eq_lit(u, "BOND") || eq_lit(u, "CREDIT") || eq_lit(u, "INTEREST_RATE") || eq_lit(
        u,
        "REAL_ESTATE",
    ) || eq_lit(u, "OTHER_ASSET") {
        Some(AssetClass::Other)
    } else {
        None
    }
}

/// Asset class from well-known broker symbols when exchange info is silent.
pub open spec fn asset_class_fallback_spec(symbol: Seq<char>) -> AssetClass {
    let s = strip_or(normalize_spec(symbol), "/USD_LEVERAGE"@);
    if s == "US500"@ || s == "SPX"@ || s == "SP500"@ || s == "SPX500"@ || s == "US100"@ || s
        == "NDX"@ || s == "NAS100"@ || s == "USTEC"@ || s == "US30"@ || s == "DJIA"@ || s
        == "DOW"@ || s == "WALLSTREET30"@ || s == "DE40"@ || s == "DAX"@ || s == "GER40"@ || s
        == "UK100"@ || s == "FTSE"@ || s == "UK100GBP"@ || s == "JP225"@ || s == "NI225"@ || s
        == "NIKKEI"@ {
        AssetClass::Index
    } else if s == "Gold"@ || s == "Silver"@ || s == "XAU"@ || s == "XAUm"@ || s == "XAG"@ || s
        == "XAGm"@ || s == "XTI"@ || s == "XBR"@ || s == "XNG"@ {
        AssetClass::Commodity
    } else if s == "TON"@ || s == "BTC"@ || s == "ETH"@ || s == "BCH"@ || s == "LTC"@ || s
        == "XRP"@ {
        AssetClass::Crypto
    } else if s == "WMT"@ || s == "TSLA"@ || s == "IBM"@ || s == "GOOGL"@ || s == "SNE"@ || s
        == "SONY"@ || s == "TSM"@ {
        AssetClass::Equity
    } else {
        AssetClass::Other
    }
}

fn is_index_name(s: &[char]) -> (r: bool)
    ensures
        r == (s@ == "US500"@ || s@ == "SPX"@ || s@ == "SP500"@ || s@ == "SPX500"@ || s@ == "US100"@
            || s@ == "NDX"@ || s@ == "NAS100"@ || s@ == "USTEC"@ || s@ == "US30"@ || s@ == "DJIA"@
            || s@ == "DOW"@ || s@ == "WALLSTREET30"@ || s@ == "DE40"@ || s@ == "DAX"@ || s@
            == "GER40"@ || s@ == "UK100"@ || s@ == "FTSE"@ || s@ == "UK100GBP"@ || s@ == "JP225"@
            || s@ == "NI225"@ || s@ == "NIKKEI"@),
{
    eq_lit(s, "US500") || eq_lit(s, "SPX") || eq_lit(s, "SP500") || eq_lit(s, "SPX500") || eq_lit(
        s,
        "US100",
    ) || eq_lit(s, "NDX") || eq_lit(s, "NAS100") || eq_lit(s, "USTEC") || eq_lit(s, "US30")
        || eq_lit(s, "DJIA") || eq_lit(s, "DOW") || eq_lit(s, "WALLSTREET30") || eq_lit(s, "DE40")
        || eq_lit(s, "DAX") || eq_lit(s, "GER40") || eq_lit(s, "UK100") || eq_lit(s, "FTSE")
        || eq_lit(s, "UK100GBP") || eq_lit(s, "JP225") || eq_lit(s, "NI225") || eq_lit(s, "NIKKEI")
}

/// Classify a broker symbol by well-known names when exchange info does not
/// say (`Gold` → commodity, `US500` → index, `TON` → crypto).
pub fn asset_class_fallback(symbol: &str) -> (r: AssetClass)
    ensures
        r == asset_class_fallback_spec(symbol@),
{
    let v = to_chars(symbol);
    let a = strip_suffix_or(v.as_slice(), ".");
    assert(seq!['.'] == "."@) by {
        reveal_strlit(".");
    }
    let s = strip_suffix_or(a.as_slice(), "/USD_LEVERAGE");
    let s = s.as_slice();
    if is_index_name(s) {
        AssetClass::Index
    } else if eq_lit(s, "Gold") || eq_lit(s, "Silver") || eq_lit(s, "XAU") || eq_lit(s, "XAUm")
        || eq_lit(s, "XAG") || eq_lit(s, "XAGm") || eq_lit(s, "XTI") || eq_lit(s, "XBR") || eq_lit(
        s,
        "XNG",
    ) {
        AssetClass::Commodity
    } else if eq_lit(s, "TON") || eq_lit(s, "BTC") || eq_lit(s, "ETH") || eq_lit(s, "BCH") || eq_lit(
        s,
        "LTC",
    ) || eq_lit(s, "XRP") {
        AssetClass::Crypto
    } else if eq_lit(s, "WMT") || eq_lit(s, "TSLA") || eq_lit(s, "IBM") || eq_lit(s, "GOOGL")
        || eq_lit(s, "SNE") || eq_lit(s, "SONY") || eq_lit(s, "TSM") {
        AssetClass::Equity
    } else {
        AssetClass::Other
    }
}

// ---------------------------------------------------------------------------
// Symbol lookup in exchange info
// ---------------------------------------------------------------------------

/// The first listed symbol row named exactly `key`.
pub open spec fn first_with_symbol(syms: Seq<SymbolInfo>, key: Seq<char>) -> Option<SymbolInfo>
    decreases syms.len(),
{
    if syms.len() == 0 {
        None
    } else {
        match first_with_symbol(syms.drop_last(), key) {
            Some(s) => Some(s),
            None => if syms.last().symbol@ == key {
                Some(syms.last())
            } else {
                None
            },
        }
    }
}

/// Exchange-info row for a broker symbol: exact name first, then the name
/// without its trailing `.`.
pub open spec fn find_symbol_info_spec(syms: Seq<SymbolInfo>, symbol: Seq<char>) -> Option<
    SymbolInfo,
> {
    match first_with_symbol(syms, symbol) {
        Some(s) => Some(s),
        None => first_with_symbol(syms, normalize_spec(symbol)),
    }
}

pub(crate) fn first_index_with_symbol(syms: &[SymbolInfo], key: &[char]) -> (r: Option<usize>)
    ensures
        match r {
            Some(i) => i < syms@.len() && first_with_symbol(syms@, key@) == Some(syms@[i as int]),
            None => first_with_symbol(syms@, key@) is None,
        },
{
    let mut i: usize = 0;
    while i < syms.len()
        invariant
            i <= syms@.len(),
            first_with_symbol(syms@.subrange(0, i as int), key@) is None,
        decreases syms@.len() - i,
    {
        let ghost pre = syms@.subrange(0, i as int);
        let ghost next = syms@.subrange(0, i + 1);
        assert(next.drop_last() =~= pre);
        let sv = to_chars(syms[i].symbol.as_str());
        if chars_eq(sv.as_slice(), key) {
            proof {
                lemma_first_with_symbol_prefix(syms@, key@, i as int + 1);
            }
            return Some(i);
        }
        i = i + 1;
    }
    assert(syms@.subrange(0, syms@.len() as int) =~= syms@);
    None
}

/// A match in a prefix is the first match of the whole sequence.
proof fn lemma_first_with_symbol_prefix(syms: Seq<SymbolInfo>, key: Seq<char>, k: int)
    requires
        0 <= k <= syms.len(),
        first_with_symbol(syms.subrange(0, k), key) is Some,
    ensures
        first_with_symbol(syms, key) == first_with_symbol(syms.subrange(0, k), key),
    decreases syms.len() - k,
{
    if k < syms.len() {
        let next = syms.subrange(0, k + 1);
        assert(next.drop_last() =~= syms.subrange(0, k));
        lemma_first_with_symbol_prefix(syms, key, k + 1);
    } else {
        assert(syms.subrange(0, k) =~= syms);
    }
}

fn find_symbol_info(syms: &[SymbolInfo], symbol: &str) -> (r: Option<usize>)
    ensures
        match r {
            Some(i) => i < syms@.len() && find_symbol_info_spec(syms@, symbol@) == Some(
                syms@[i as int],
            ),
            None => find_symbol_info_spec(syms@, symbol@) is None,
        },
{
    let v = to_chars(symbol);
    match first_index_with_symbol(syms, v.as_slice()) {
        Some(i) => Some(i),
        None => {
            let k = strip_suffix_len(v.as_slice(), ".");
            assert(seq!['.'] == "."@) by {
                reveal_strlit(".");
            }
            let mut n: Vec<char> = Vec::new();
            let mut j: usize = 0;
            while j < k
                invariant
                    k <= v@.len(),
                    j <= k,
                    n@ == v@.subrange(0, j as int),
                decreases k - j,
            {
                n.push(v[j]);
                j = j + 1;
                assert(n@ =~= v@.subrange(0, j as int));
            }
            first_index_with_symbol(syms, n.as_slice())
        },
    }
}

/// Asset class and leverage flag of a held symbol.
///
/// The class is the row's Dzengi `assetType` when it names a known class,
/// otherwise [`asset_class_fallback_spec`]. The name is leveraged when the
/// row's `marketType` is `LEVERAGE` (any case) or the symbol contains
/// `_LEVERAGE`.
pub open spec fn classify_asset_spec(symbol: Seq<char>, syms: Seq<SymbolInfo>) -> (
    AssetClass,
    bool,
) {
    let info = find_symbol_info_spec(syms, symbol);
    let leverage = (match info {
        Some(s) => match s.market_type {
            Some(t) => eq_ignore_case(t@, "LEVERAGE"@),
            None => false,
        },
        None => false,
    }) || contains_seq(symbol, "_LEVERAGE"@);
    let from_info = match info {
        Some(s) => match s.asset_type {
            Some(t) => asset_class_from_dzengi_spec(t@),
            None => None,
        },
        None => None,
    };
    let class = match from_info {
        Some(c) => c,
        None => asset_class_fallback_spec(symbol),
    };
    (class, leverage)
}

/// Asset class and leverage flag from exchange info, with the symbol-name
/// fallback when the row is missing or silent.
pub fn classify_asset(symbol: &str, exchange_info: &ExchangeInfo) -> (r: (AssetClass, bool))
    ensures
        r == classify_asset_spec(symbol@, exchange_info.symbols@),
{
    let syms = exchange_info.symbols.as_slice();
    let info = find_symbol_info(syms, symbol);
    let lev_info = match info {
        Some(i) => match &syms[i].market_type {
            Some(t) => {
                let tv = to_chars(t.as_str());
                eq_ignore_ascii_case_lit(tv.as_slice(), "LEVERAGE")
            },
            None => false,
        },
        None => false,
    };
    let sv = to_chars(symbol);
    let pat = to_chars("_LEVERAGE");
    let leverage = lev_info || contains(sv.as_slice(), pat.as_slice());
    let from_info = match info {
        Some(i) => match &syms[i].asset_type {
            Some(t) => asset_class_from_dzengi(t.as_str()),
            None => None,
        },
        None => None,
    };
    let class = match from_info {
        Some(c) => c,
        None => asset_class_fallback(symbol),
    };
    (class, leverage)
}

// ---------------------------------------------------------------------------
// Trade-pair resolution
// ---------------------------------------------------------------------------

/// Which listed pairs may value a held asset, in order of preference.
#[derive(Clone, Copy, Debug, PartialEq, Eq, Structural)]
pub enum PairFilter {
    /// `asset/USD`.
    BaseUsd,
    /// `asset/*`.
    Base,
    /// `*/asset`.
    Quote,
    /// Any pair whose name contains the asset's name.
    Contains,
}

pub open spec fn pair_filter_holds(f: PairFilter, s: SymbolInfo, asset: Seq<char>) -> bool {
    match f {
        PairFilter::BaseUsd => s.base_asset@ == asset && s.quote_asset@ == "USD"@,
        PairFilter::Base => s.base_asset@ == asset,
        PairFilter::Quote => s.quote_asset@ == asset,
        PairFilter::Contains => contains_seq(s.symbol@, asset),
    }
}

/// UTF-8 length of a name, the key by which pairs are ranked.
pub open spec fn byte_len(s: Seq<char>) -> usize {
    vstd::utf8::encode_utf8(s).len() as usize
}

/// Among the rows that pass `f`, the first one with the shortest name
/// (`Iterator::min_by_key` keeps the first of equal keys).
pub open spec fn first_shortest(syms: Seq<SymbolInfo>, f: PairFilter, asset: Seq<char>) -> Option<
    SymbolInfo,
>
    decreases syms.len(),
{
    if syms.len() == 0 {
        None
    } else {
        let best = first_shortest(syms.drop_last(), f, asset);
        let last = syms.last();
        if pair_filter_holds(f, last, asset) && (match best {
            Some(b) => byte_len(last.symbol@) < byte_len(b.symbol@),
            None => true,
        }) {
            Some(last)
        } else {
            best
        }
    }
}

/// Trade pair used to value `asset`, and whether the asset is that pair's
/// base. `BYN` is always valued through `USD/BYN`; otherwise the shortest
/// `asset/USD`, then `asset/*`, then `*/asset`, then any pair whose name
/// contains the asset.
pub open spec fn resolve_trade_pair_spec(syms: Seq<SymbolInfo>, asset: Seq<char>) -> Option<
    (Seq<char>, bool),
> {
    if asset == "BYN"@ {
        Some(("USD/BYN"@, false))
    } else {
        match first_shortest(syms, PairFilter::BaseUsd, asset) {
            Some(s) => Some((s.symbol@, true)),
            None => match first_shortest(syms, PairFilter::Base, asset) {
                Some(s) => Some((s.symbol@, true)),
                None => match first_shortest(syms, PairFilter::Quote, asset) {
                    Some(s) => Some((s.symbol@, false)),
                    None => match first_shortest(syms, PairFilter::Contains, asset) {
                        Some(s) => Some((s.symbol@, s.base_asset@ == asset)),
                        None => None,
                    },
                },
            },
        }
    }
}

/// `first_shortest` finds a row exactly when some row passes the filter,
/// and what it finds is a listed row that passes it.
proof fn lemma_first_shortest_found(syms: Seq<SymbolInfo>, f: PairFilter, asset: Seq<char>)
    ensures
        first_shortest(syms, f, asset) is None <==> forall|i: int|
            0 <= i < syms.len() ==> !pair_filter_holds(f, #[trigger] syms[i], asset),
        first_shortest(syms, f, asset) matches Some(s) ==> pair_filter_holds(f, s, asset) && exists|i: int|
            0 <= i < syms.len() && #[trigger] syms[i] == s,
    decreases syms.len(),
{
    if syms.len() > 0 {
        let init = syms.drop_last();
        lemma_first_shortest_found(init, f, asset);
        assert forall|i: int| 0 <= i < init.len() implies init[i] == syms[i] by {}
        if first_shortest(syms, f, asset) is None {
            assert forall|i: int| 0 <= i < syms.len() implies !pair_filter_holds(f, #[trigger] syms[i], asset) by {
                if i < init.len() {
                    assert(init[i] == syms[i]);
                }
            }
        }
        if first_shortest(init, f, asset) is Some {
            let b = first_shortest(init, f, asset)->0;
            let j = choose|j: int| 0 <= j < init.len() && #[trigger] init[j] == b;
            assert(syms[j] == b);
        }
        assert(syms[syms.len() - 1] == syms.last());
    }
}

/// The pair chosen for a held asset: `BYN` always goes through `USD/BYN`;
/// otherwise there is none exactly when no listed pair has the asset as base
/// or quote or in its name, a chosen pair is always a listed one, and a
/// listed `asset/USD` pair wins (the first shortest of them).
pub proof fn lemma_trade_pair_is_listed(syms: Seq<SymbolInfo>, asset: Seq<char>)
    ensures
        asset == "BYN"@ ==> resolve_trade_pair_spec(syms, asset) == Some(("USD/BYN"@, false)),
        asset != "BYN"@ ==> (resolve_trade_pair_spec(syms, asset) is None <==> forall|i: int|
            0 <= i < syms.len() ==> !(#[trigger] syms[i].base_asset@ == asset || syms[i].quote_asset@
                == asset || contains_seq(syms[i].symbol@, asset))),
        asset != "BYN"@ ==> (resolve_trade_pair_spec(syms, asset) matches Some(p) ==> exists|i: int|
            0 <= i < syms.len() && (#[trigger] syms[i]).symbol@ == p.0),
        asset != "BYN"@ && (exists|i: int|
            0 <= i < syms.len() && (#[trigger] syms[i]).base_asset@ == asset && syms[i].quote_asset@
                == "USD"@) ==> resolve_trade_pair_spec(syms, asset) == Some(
            (first_shortest(syms, PairFilter::BaseUsd, asset)->0.symbol@, true),
        ),
{
    lemma_first_shortest_found(syms, PairFilter::BaseUsd, asset);
    lemma_first_shortest_found(syms, PairFilter::Base, asset);
    lemma_first_shortest_found(syms, PairFilter::Quote, asset);
    lemma_first_shortest_found(syms, PairFilter::Contains, asset);
    if asset != "BYN"@ {
        if exists|i: int|
            0 <= i < syms.len() && (#[trigger] syms[i]).base_asset@ == asset && syms[i].quote_asset@
                == "USD"@ {
            let i = choose|i: int|
                0 <= i < syms.len() && (#[trigger] syms[i]).base_asset@ == asset && syms[i].quote_asset@
                    == "USD"@;
            assert(pair_filter_holds(PairFilter::BaseUsd, syms[i], asset));
        }
        if resolve_trade_pair_spec(syms, asset) is None {
            assert forall|i: int| 0 <= i < syms.len() implies !(#[trigger] syms[i].base_asset@ == asset
                || syms[i].quote_asset@ == asset || contains_seq(syms[i].symbol@, asset)) by {
                assert(!pair_filter_holds(PairFilter::Base, syms[i], asset));
                assert(!pair_filter_holds(PairFilter::Quote, syms[i], asset));
                assert(!pair_filter_holds(PairFilter::Contains, syms[i], asset));
            }
        } else {
            if forall|i: int| 0 <= i < syms.len() ==> !(#[trigger] syms[i].base_asset@ == asset
                || syms[i].quote_asset@ == asset || contains_seq(syms[i].symbol@, asset)) {
                assert forall|i: int| 0 <= i < syms.len() implies !pair_filter_holds(PairFilter::BaseUsd, #[trigger] syms[i], asset) by {}
                assert forall|i: int| 0 <= i < syms.len() implies !pair_filter_holds(PairFilter::Base, #[trigger] syms[i], asset) by {}
                assert forall|i: int| 0 <= i < syms.len() implies !pair_filter_holds(PairFilter::Quote, #[trigger] syms[i], asset) by {}
                assert forall|i: int| 0 <= i < syms.len() implies !pair_filter_holds(PairFilter::Contains, #[trigger] syms[i], asset) by {}
            }
        }
    }
}

/// A resolved pair taken by its view.
pub open spec fn pair_view(r: Option<(String, bool)>) -> Option<(Seq<char>, bool)> {
    match r {
        Some(p) => Some((p.0@, p.1)),
        None => None,
    }
}

fn pair_filter_matches(f: PairFilter, s: &SymbolInfo, asset: &[char]) -> (r: bool)
    ensures
        r == pair_filter_holds(f, *s, asset@),
{
    match f {
        PairFilter::BaseUsd => {
            let b = to_chars(s.base_asset.as_str());
            let q = to_chars(s.quote_asset.as_str());
            chars_eq(b.as_slice(), asset) && eq_lit(q.as_slice(), "USD")
        },
        PairFilter::Base => {
            let b = to_chars(s.base_asset.as_str());
            chars_eq(b.as_slice(), asset)
        },
        PairFilter::Quote => {
            let q = to_chars(s.quote_asset.as_str());
            chars_eq(q.as_slice(), asset)
        },
        PairFilter::Contains => {
            let n = to_chars(s.symbol.as_str());
            contains(n.as_slice(), asset)
        },
    }
}

fn first_shortest_index(syms: &[SymbolInfo], f: PairFilter, asset: &[char]) -> (r: Option<usize>)
    ensures
        match r {
            Some(i) => i < syms@.len() && first_shortest(syms@, f, asset@) == Some(
                syms@[i as int],
            ),
            None => first_shortest(syms@, f, asset@) is None,
        },
{
    let mut best: Option<usize> = None;
    let mut best_len: usize = 0;
    let mut i: usize = 0;
    while i < syms.len()
        invariant
            i <= syms@.len(),
            match best {
                Some(b) => b < i && first_shortest(syms@.subrange(0, i as int), f, asset@) == Some(
                    syms@[b as int],
                ) && best_len == byte_len(syms@[b as int].symbol@),
                None => first_shortest(syms@.subrange(0, i as int), f, asset@) is None,
            },
        decreases syms@.len() - i,
    {
        let ghost next = syms@.subrange(0, i + 1);
        assert(next.drop_last() =~= syms@.subrange(0, i as int));
        assert(next.last() == syms@[i as int]);
        if pair_filter_matches(f, &syms[i], asset) {
            let len = syms[i].symbol.as_str().len();
            let better = match best {
                Some(_) => len < best_len,
                None => true,
            };
            if better {
                best = Some(i);
                best_len = len;
            }
        }
        i = i + 1;
    }
    assert(syms@.subrange(0, syms@.len() as int) =~= syms@);
    best
}

/// Resolve the trade pair that values a held asset; the second value says
/// whether the asset is that pair's base.
///
/// Tickers are quote-per-base, so when the asset is the quote the caller
/// inverts the price. `asset/USD` is preferred so valuation stays in USD.
pub fn resolve_trade_pair(info: &ExchangeInfo, asset: &str) -> (r: Option<(String, bool)>)
    ensures
        pair_view(r) == resolve_trade_pair_spec(info.symbols@, asset@),
{
    let a = to_chars(asset);
    let a = a.as_slice();
    if eq_lit(a, "BYN") {
        let p = owned("USD/BYN");
        return Some((p, false));
    }
    let syms = info.symbols.as_slice();
    if let Some(i) = first_shortest_index(syms, PairFilter::BaseUsd, a) {
        return Some((syms[i].symbol.clone(), true));
    }
    if let Some(i) = first_shortest_index(syms, PairFilter::Base, a) {
        return Some((syms[i].symbol.clone(), true));
    }
    if let Some(i) = first_shortest_index(syms, PairFilter::Quote, a) {
        return Some((syms[i].symbol.clone(), false));
    }
    match first_shortest_index(syms, PairFilter::Contains, a) {
        Some(i) => {
            let b = to_chars(syms[i].base_asset.as_str());
            let is_base = chars_eq(b.as_slice(), a);
            Some((syms[i].symbol.clone(), is_base))
        },
        None => None,
    }
}

// ---------------------------------------------------------------------------
// Display names
// ---------------------------------------------------------------------------

/// Name of `key` in a `(symbol, name)` table; a later row overrides an
/// earlier one with the same symbol, as when the table is collected into a
/// map.
pub open spec fn name_lookup(names: Seq<(String, String)>, key: Seq<char>) -> Option<Seq<char>>
    decreases names.len(),
{
    if names.len() == 0 {
        None
    } else if names.last().0@ == key {
        Some(names.last().1@)
    } else {
        name_lookup(names.drop_last(), key)
    }
}

/// Display name of a held symbol: its own entry, else (for
/// `X/USD_LEVERAGE`) the entry of `X`.
pub open spec fn resolve_asset_name_spec(names: Seq<(String, String)>, symbol: Seq<char>) -> Option<
    Seq<char>,
> {
    match name_lookup(names, symbol) {
        Some(n) => Some(n),
        None => if has_suffix(symbol, "/USD_LEVERAGE"@) {
            name_lookup(names, strip_or(symbol, "/USD_LEVERAGE"@))
        } else {
            None
        },
    }
}

pub open spec fn opt_string_view(r: Option<String>) -> Option<Seq<char>> {
    match r {
        Some(s) => Some(s@),
        None => None,
    }
}

fn lookup_name(names: &[(String, String)], key: &[char]) -> (r: Option<String>)
    ensures
        opt_string_view(r) == name_lookup(names@, key@),
{
    let mut found: Option<String> = None;
    let mut i: usize = 0;
    while i < names.len()
        invariant
            i <= names@.len(),
            opt_string_view(found) == name_lookup(names@.subrange(0, i as int), key@),
        decreases names@.len() - i,
    {
        let ghost next = names@.subrange(0, i + 1);
        assert(next.drop_last() =~= names@.subrange(0, i as int));
        assert(next.last() == names@[i as int]);
        let k = to_chars(names[i].0.as_str());
        if chars_eq(k.as_slice(), key) {
            found = Some(names[i].1.clone());
        }
        i = i + 1;
    }
    assert(names@.subrange(0, names@.len() as int) =~= names@);
    found
}

/// `(symbol, name)` rows of the currency list, in order.
pub fn name_table(currencies: &[Currency]) -> (r: Vec<(String, String)>)
    ensures
        r@.len() == currencies@.len(),
        forall|i: int|
            0 <= i < r@.len() ==> (#[trigger] r@[i]).0@ == currencies@[i].symbol@ && r@[i].1@
                == currencies@[i].name@,
{
    let mut r: Vec<(String, String)> = Vec::new();
    let mut i: usize = 0;
    while i < currencies.len()
        invariant
            i <= currencies@.len(),
            r@.len() == i,
            forall|j: int|
                0 <= j < i ==> (#[trigger] r@[j]).0@ == currencies@[j].symbol@ && r@[j].1@
                    == currencies@[j].name@,
        decreases currencies@.len() - i,
    {
        r.push((currencies[i].symbol.clone(), currencies[i].name.clone()));
        i = i + 1;
    }
    r
}

/// Display name of a held symbol from the `(symbol, name)` table; a
/// leveraged `X/USD_LEVERAGE` falls back to the name of `X`.
pub fn resolve_asset_name(names: &[(String, String)], symbol: &str) -> (r: Option<String>)
    ensures
        opt_string_view(r) == resolve_asset_name_spec(names@, symbol@),
{
    let v = to_chars(symbol);
    if let Some(n) = lookup_name(names, v.as_slice()) {
        return Some(n);
    }
    let k = strip_suffix_len(v.as_slice(), "/USD_LEVERAGE");
    proof {
        reveal_strlit("/USD_LEVERAGE");
        if has_suffix(v@, "/USD_LEVERAGE"@) {
            assert(v@.subrange(0, k as int).len() == v@.len() - 13);
        }
    }
    if k < v.len() {
        let mut base: Vec<char> = Vec::new();
        let mut j: usize = 0;
        while j < k
            invariant
                k <= v@.len(),
                j <= k,
                base@ == v@.subrange(0, j as int),
            decreases k - j,
        {
            base.push(v[j]);
            j = j + 1;
            assert(base@ =~= v@.subrange(0, j as int));
        }
        lookup_name(names, base.as_slice())
    } else {
        None
    }
}

} // verus!
