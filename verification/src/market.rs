//! Market data records and symbol lookup.
//!
//! A stock quote is carried as plain text fields; lookup selects the quotes
//! whose security symbol equals a query, compared case-insensitively.

use vstd::prelude::*;

verus! {

/// A currency, by name.
pub struct Currency {
    pub name: String,
}

/// One stock quote, all fields as the feed delivers them: text.
pub struct Stock {
    pub total_volume: String,
    pub indicator: String,
    pub perc_change_close: String,
    pub last_traded_price: String,
    pub security_alias: String,
    pub indicator_img: String,
    pub security_symbol: String,
}

/// The lowercase form of a character sequence, as `str::to_lowercase`
/// computes it.
pub uninterp spec fn lower_of(s: Seq<char>) -> Seq<char>;

/// Relies on str::to_lowercase: the result depends on the characters alone.
#[verifier::external_body]
fn lowercase(s: &str) -> (r: String)
    ensures
        r@ == lower_of(s@),
{
    s.to_lowercase()
}

/// The quote's security symbol equals the query, ignoring case.
pub open spec fn symbol_matches(st: Stock, q: Seq<char>) -> bool {
    lower_of(st.security_symbol@) == lower_of(q)
}

/// The quotes whose symbol matches the query, in feed order.
pub open spec fn matching_stocks(stocks: Seq<Stock>, q: Seq<char>) -> Seq<Stock> {
    stocks.filter(|st: Stock| symbol_matches(st, q))
}

/// Selects the quotes whose security symbol equals `symbol`, compared
/// case-insensitively, keeping feed order.
pub fn stocks_with_symbol(stocks: Vec<Stock>, symbol: &str) -> (r: Vec<Stock>)
    ensures
        r@ == matching_stocks(stocks@, symbol@),
{
    let ghost orig = stocks@;
    let query = lowercase(symbol);
    let mut stocks = stocks;
    let mut res: Vec<Stock> = Vec::new();
    proof {
        reveal(Seq::filter);
        assert(orig.take(0) =~= Seq::<Stock>::empty());
    }
    while stocks.len() > 0
        invariant
            query@ == lower_of(symbol@),
            stocks@.len() <= orig.len(),
            stocks@ =~= orig.subrange(orig.len() - stocks@.len(), orig.len() as int),
            res@ == matching_stocks(orig.take(orig.len() - stocks@.len()), symbol@),
        decreases stocks@.len(),
    {
        let ghost k = orig.len() - stocks@.len();
        let st = stocks.remove(0);
        proof {
            assert(st == orig[k]);
        }
        let folded = lowercase(st.security_symbol.as_str());
        let hit = folded == query;
        proof {
            reveal(Seq::filter);
            assert(orig.take(k + 1).drop_last() =~= orig.take(k));
            assert(orig.take(k + 1).last() == orig[k]);
        }
        if hit {
            res.push(st);
        }
    }
    proof {
        assert(orig.take(orig.len() as int) =~= orig);
    }
    res
}

} // verus!
