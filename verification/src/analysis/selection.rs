//! Research-block selection and symbol matching for `trading_analysis` and
//! `trading_positions`.
use vstd::prelude::*;
use crate::investment::routes::{
    asset_class_fallback, asset_class_fallback_spec, lookup_symbol, lookup_symbol_spec, AssetClass,
};
use crate::text::{eq_ignore_ascii_case, eq_ignore_case, lower_seq, owned, to_chars};

verus! {

/// Research blocks of `trading_analysis`.
#[derive(Clone, Copy, Debug, PartialEq, Eq, Structural)]
pub enum AnalysisInclude {
    Indicators,
    Earnings,
    Targets,
    News,
}

impl AnalysisInclude {
    /// Every block, in presentation order.
    pub fn all() -> (r: Vec<AnalysisInclude>)
        ensures
            r@ == seq![
                AnalysisInclude::News,
                AnalysisInclude::Targets,
                AnalysisInclude::Earnings,
                AnalysisInclude::Indicators,
            ],
    {
        vec![
            AnalysisInclude::News,
            AnalysisInclude::Targets,
            AnalysisInclude::Earnings,
            AnalysisInclude::Indicators,
        ]
    }
}

/// Opt-in extras of `trading_positions`; none means the lean book.
#[derive(Clone, Copy, Debug, PartialEq, Eq, Structural)]
pub enum PositionsInclude {
    Trades,
    Indicators,
    Earnings,
    Targets,
    News,
}

pub open spec fn as_analysis_spec(p: PositionsInclude) -> Option<AnalysisInclude> {
    match p {
        PositionsInclude::Trades => None,
        PositionsInclude::Indicators => Some(AnalysisInclude::Indicators),
        PositionsInclude::Earnings => Some(AnalysisInclude::Earnings),
        PositionsInclude::Targets => Some(AnalysisInclude::Targets),
        PositionsInclude::News => Some(AnalysisInclude::News),
    }
}

impl PositionsInclude {
    pub fn is_trades(self) -> (r: bool)
        ensures
            r == (self == PositionsInclude::Trades),
    {
        matches!(self, PositionsInclude::Trades)
    }

    /// The research block an extra asks for (`Trades` asks for none).
    pub fn as_analysis(self) -> (r: Option<AnalysisInclude>)
        ensures
            r == as_analysis_spec(self),
    {
        match self {
            PositionsInclude::Trades => None,
            PositionsInclude::Indicators => Some(AnalysisInclude::Indicators),
            PositionsInclude::Earnings => Some(AnalysisInclude::Earnings),
            PositionsInclude::Targets => Some(AnalysisInclude::Targets),
            PositionsInclude::News => Some(AnalysisInclude::News),
        }
    }
}

/// Whether lots are requested.
pub fn positions_want_trades(requested: &[PositionsInclude]) -> (r: bool)
    ensures
        r == requested@.contains(PositionsInclude::Trades),
{
    let mut i: usize = 0;
    while i < requested.len()
        invariant
            i <= requested@.len(),
            forall|k: int| 0 <= k < i ==> requested@[k] != PositionsInclude::Trades,
        decreases requested@.len() - i,
    {
        if requested[i].is_trades() {
            assert(requested@[i as int] == PositionsInclude::Trades);
            return true;
        }
        i = i + 1;
    }
    false
}

/// Research blocks asked for by the extras, in order (`Trades` dropped).
pub open spec fn analysis_from_positions(requested: Seq<PositionsInclude>) -> Seq<AnalysisInclude>
    decreases requested.len(),
{
    if requested.len() == 0 {
        Seq::empty()
    } else {
        let rest = analysis_from_positions(requested.drop_last());
        match as_analysis_spec(requested.last()) {
            Some(a) => rest.push(a),
            None => rest,
        }
    }
}

pub fn analysis_includes_from_positions(requested: &[PositionsInclude]) -> (r: Vec<AnalysisInclude>)
    ensures
        r@ == analysis_from_positions(requested@),
{
    let mut r: Vec<AnalysisInclude> = Vec::new();
    let mut i: usize = 0;
    while i < requested.len()
        invariant
            i <= requested@.len(),
            r@ == analysis_from_positions(requested@.subrange(0, i as int)),
        decreases requested@.len() - i,
    {
        assert(requested@.subrange(0, i + 1).drop_last() =~= requested@.subrange(0, i as int));
        if let Some(a) = requested[i].as_analysis() {
            r.push(a);
        }
        i = i + 1;
    }
    assert(requested@.subrange(0, requested@.len() as int) =~= requested@);
    r
}

/// An empty requested list means every block.
pub open spec fn wants_block_spec(requested: Seq<AnalysisInclude>, block: AnalysisInclude) -> bool {
    requested.len() == 0 || requested.contains(block)
}

pub fn wants_block(requested: &[AnalysisInclude], block: AnalysisInclude) -> (r: bool)
    ensures
        r == wants_block_spec(requested@, block),
{
    if requested.len() == 0 {
        return true;
    }
    let mut i: usize = 0;
    while i < requested.len()
        invariant
            i <= requested@.len(),
            forall|k: int| 0 <= k < i ==> requested@[k] != block,
        decreases requested@.len() - i,
    {
        if requested[i] == block {
            assert(requested@[i as int] == block);
            return true;
        }
        i = i + 1;
    }
    false
}

/// `trading_analysis` needs at least one symbol.
pub fn require_symbols(symbols: &[String]) -> (r: Result<(), String>)
    ensures
        match r {
            Ok(()) => symbols@.len() > 0,
            Err(e) => symbols@.len() == 0 && e@ == "trading_analysis requires at least one symbol"@,
        },
{
    if symbols.len() == 0 {
        return Err(owned("trading_analysis requires at least one symbol"));
    }
    Ok(())
}

/// Broker symbols that differ only by case, a trailing `.`, `/USD`,
/// `/USD_LEVERAGE` or an index / commodity alias name the same holding.
pub open spec fn symbols_match_spec(requested: Seq<char>, holding: Seq<char>) -> bool {
    eq_ignore_case(requested, holding) || eq_ignore_case(
        lookup_symbol_spec(requested),
        lookup_symbol_spec(holding),
    )
}

pub fn symbols_match(requested: &str, holding: &str) -> (r: bool)
    ensures
        r == symbols_match_spec(requested@, holding@),
{
    let a = to_chars(requested);
    let b = to_chars(holding);
    if eq_ignore_ascii_case(a.as_slice(), b.as_slice()) {
        return true;
    }
    let ra = lookup_symbol(requested);
    let rb = lookup_symbol(holding);
    let ca = to_chars(ra.as_str());
    let cb = to_chars(rb.as_str());
    eq_ignore_ascii_case(ca.as_slice(), cb.as_slice())
}

/// Symbol matching is reflexive and symmetric.
pub proof fn lemma_symbols_match_reflexive_symmetric(a: Seq<char>, b: Seq<char>)
    ensures
        symbols_match_spec(a, a),
        symbols_match_spec(a, b) == symbols_match_spec(b, a),
{
    assert(lower_seq(a) == lower_seq(a));
}

/// Analyst targets are attached to equities only, and only when asked for.
pub fn should_attach_targets(class: AssetClass, requested: bool) -> (r: bool)
    ensures
        r == (requested && class == AssetClass::Equity),
{
    requested && class == AssetClass::Equity
}

/// A book row as the selection logic sees it.
pub struct HoldingRef {
    pub symbol: String,
    pub name: Option<String>,
    pub asset_class: AssetClass,
}

/// Some requested symbol matches `holding`.
pub open spec fn requested_match(symbols: Seq<String>, holding: Seq<char>) -> bool {
    exists|j: int| 0 <= j < symbols.len() && symbols_match_spec(#[trigger] symbols[j]@, holding)
}

fn any_match(symbols: &[String], holding: &str) -> (r: bool)
    ensures
        r == requested_match(symbols@, holding@),
{
    let mut j: usize = 0;
    while j < symbols.len()
        invariant
            j <= symbols@.len(),
            forall|k: int| 0 <= k < j ==> !symbols_match_spec(#[trigger] symbols@[k]@, holding@),
        decreases symbols@.len() - j,
    {
        if symbols_match(symbols[j].as_str(), holding) {
            return true;
        }
        j = j + 1;
    }
    false
}

/// A book row passes an optional symbol filter.
pub open spec fn kept(symbols: Option<&[String]>, holding: Seq<char>) -> bool {
    match symbols {
        Some(s) => requested_match(s@, holding),
        None => true,
    }
}

/// Indices of the book rows kept by an optional symbol filter, in order:
/// all rows without a filter, else the rows some requested symbol matches.
pub fn filter_symbols(holdings: &[String], symbols: Option<&[String]>) -> (r: Vec<usize>)
    ensures
        forall|k: int| 0 <= k < r@.len() ==> (#[trigger] r@[k]) < holdings@.len(),
        forall|a: int, b: int| 0 <= a < b < r@.len() ==> r@[a] < r@[b],
        forall|i: int|
            0 <= i < holdings@.len() ==> (r@.contains(i as usize) <==> kept(
                symbols,
                #[trigger] holdings@[i]@,
            )),
{
    let mut r: Vec<usize> = Vec::new();
    let mut i: usize = 0;
    while i < holdings.len()
        invariant
            i <= holdings@.len(),
            forall|k: int| 0 <= k < r@.len() ==> (#[trigger] r@[k]) < i,
            forall|a: int, b: int| 0 <= a < b < r@.len() ==> r@[a] < r@[b],
            forall|x: int|
                0 <= x < i ==> (r@.contains(x as usize) <==> kept(symbols, #[trigger] holdings@[x]@)),
        decreases holdings@.len() - i,
    {
        let keep = match symbols {
            Some(s) => any_match(s, holdings[i].as_str()),
            None => true,
        };
        let ghost before = r@;
        if keep {
            r.push(i);
            proof {
                assert forall|x: int| 0 <= x < i + 1 implies (r@.contains(x as usize) <==> kept(
                    symbols,
                    holdings@[x]@,
                )) by {
                    if x < i {
                        if before.contains(x as usize) {
                            let k = choose|k: int| 0 <= k < before.len() && before[k] == x as usize;
                            assert(r@[k] == x as usize);
                        }
                        if r@.contains(x as usize) {
                            let k = choose|k: int| 0 <= k < r@.len() && r@[k] == x as usize;
                            if k == before.len() {
                            } else {
                                assert(before[k] == x as usize);
                            }
                        }
                    } else {
                        assert(r@[before.len() as int] == i);
                    }
                }
            }
        } else {
            proof {
                assert forall|x: int| 0 <= x < i + 1 implies (r@.contains(x as usize) <==> kept(
                    symbols,
                    holdings@[x]@,
                )) by {
                    if x == i {
                        if r@.contains(x as usize) {
                            let k = choose|k: int| 0 <= k < r@.len() && r@[k] == x as usize;
                        }
                    }
                }
            }
        }
        i = i + 1;
    }
    r
}

/// Index of the first book row a requested symbol matches.
pub open spec fn first_matching_holding(holdings: Seq<HoldingRef>, symbol: Seq<char>) -> Option<int>
    decreases holdings.len(),
{
    if holdings.len() == 0 {
        None
    } else {
        match first_matching_holding(holdings.drop_last(), symbol) {
            Some(i) => Some(i),
            None => if symbols_match_spec(symbol, holdings.last().symbol@) {
                Some(holdings.len() - 1)
            } else {
                None
            },
        }
    }
}

proof fn lemma_first_matching_prefix(holdings: Seq<HoldingRef>, symbol: Seq<char>, k: int)
    requires
        0 <= k <= holdings.len(),
        first_matching_holding(holdings.subrange(0, k), symbol) is Some,
    ensures
        first_matching_holding(holdings, symbol) == first_matching_holding(
            holdings.subrange(0, k),
            symbol,
        ),
    decreases holdings.len() - k,
{
    if k < holdings.len() {
        assert(holdings.subrange(0, k + 1).drop_last() =~= holdings.subrange(0, k));
        lemma_first_matching_prefix(holdings, symbol, k + 1);
    } else {
        assert(holdings.subrange(0, k) =~= holdings);
    }
}

/// The first book row a requested symbol matches.
pub fn find_holding(holdings: &[HoldingRef], symbol: &str) -> (r: Option<usize>)
    ensures
        match r {
            Some(i) => i < holdings@.len() && first_matching_holding(holdings@, symbol@) == Some(
                i as int,
            ),
            None => first_matching_holding(holdings@, symbol@) is None,
        },
{
    let mut i: usize = 0;
    while i < holdings.len()
        invariant
            i <= holdings@.len(),
            first_matching_holding(holdings@.subrange(0, i as int), symbol@) is None,
        decreases holdings@.len() - i,
    {
        assert(holdings@.subrange(0, i + 1).drop_last() =~= holdings@.subrange(0, i as int));
        if symbols_match(symbol, holdings[i].symbol.as_str()) {
            proof {
                assert(holdings@.subrange(0, i + 1).last() == holdings@[i as int]);
                lemma_first_matching_prefix(holdings@, symbol@, i + 1);
            }
            return Some(i);
        }
        i = i + 1;
    }
    assert(holdings@.subrange(0, holdings@.len() as int) =~= holdings@);
    None
}

/// What one `trading_analysis` row fetches and under which names.
pub struct SymbolPlan {
    /// Matching book row, if any.
    pub holding: Option<usize>,
    /// Symbol the row is reported under (the book's spelling when held).
    pub row_symbol: String,
    /// Class from the book row, else from the symbol's name.
    pub class: AssetClass,
    /// Lookup key for Yahoo / Finnhub / news.
    pub key: String,
    pub indicators: bool,
    pub targets: bool,
    pub earnings: bool,
    pub news: bool,
}

/// Plan one requested symbol of `trading_analysis`: match it to the book,
/// derive its class and lookup key, and select the blocks to fetch (an
/// empty requested list means all; technicals also need the service on;
/// targets only for equities).
pub fn plan_symbol_analysis(
    holdings: &[HoldingRef],
    symbol: &str,
    requested: &[AnalysisInclude],
    technicals: bool,
) -> (r: SymbolPlan)
    ensures
        match r.holding {
            Some(i) => i < holdings@.len() && first_matching_holding(holdings@, symbol@) == Some(
                i as int,
            ) && r.row_symbol@ == holdings@[i as int].symbol@ && r.class
                == holdings@[i as int].asset_class,
            None => first_matching_holding(holdings@, symbol@) is None && r.row_symbol@ == symbol@
                && r.class == asset_class_fallback_spec(symbol@),
        },
        r.key@ == lookup_symbol_spec(symbol@),
        r.indicators == (wants_block_spec(requested@, AnalysisInclude::Indicators) && technicals),
        r.targets == (wants_block_spec(requested@, AnalysisInclude::Targets) && r.class
            == AssetClass::Equity),
        r.earnings == wants_block_spec(requested@, AnalysisInclude::Earnings),
        r.news == wants_block_spec(requested@, AnalysisInclude::News),
{
    let holding = find_holding(holdings, symbol);
    let (row_symbol, class) = match holding {
        Some(i) => (holdings[i].symbol.clone(), holdings[i].asset_class),
        None => (owned(symbol), asset_class_fallback(symbol)),
    };
    let key = lookup_symbol(symbol);
    let indicators = wants_block(requested, AnalysisInclude::Indicators) && technicals;
    let targets = should_attach_targets(class, wants_block(requested, AnalysisInclude::Targets));
    let earnings = wants_block(requested, AnalysisInclude::Earnings);
    let news = wants_block(requested, AnalysisInclude::News);
    SymbolPlan { holding, row_symbol, class, key, indicators, targets, earnings, news }
}

/// Error of a row whose mapped symbol has no Yahoo history.
pub fn missing_history_error(key: &str) -> (r: String)
    ensures
        r@ == "yahoo history unavailable for mapped symbol "@ + key@,
{
    crate::text::concat2("yahoo history unavailable for mapped symbol ", key)
}

} // verus!
