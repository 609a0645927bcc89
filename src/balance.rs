//! The average daily balance over a period (cash plus the market value of
//! held assets) and the wealth tax computed from it.

use crate::asset::{Asset, AssetClass, AssetView, Currency, Fiat, InOut, TransactionType};
use crate::decimal::{difference_of, div_result, product_of, rounded_of, sum_of, Dec};
use crate::error::TaxError;
use crate::trade::{or_zero, trades_wf, Trade};
use crate::fold::{lemma_err_persists, lemma_none_persists};
use vstd::prelude::*;

verus! {

/// Seconds in a day.
pub const SECONDS_PER_DAY: i64 = 86400;

/// The largest day number, either side of the Unix epoch, that the valuation
/// accepts: it keeps instants within `i64`.
pub const MAX_DAY: i64 = 10000000;

/// The price of an asset on a day (days since the Unix epoch), in the
/// reporting currency.
#[derive(Debug)]
pub struct DailyQuote {
    pub asset: Asset,
    pub day: i64,
    pub price: Dec,
}

/// The daily prices of the period, by asset.
#[derive(Debug)]
pub struct QuoteDatabase {
    quotes: Vec<DailyQuote>,
}

/// A price as a mathematical value.
pub struct DailyQuoteView {
    pub asset: AssetView,
    pub day: i64,
    pub price: Dec,
}

/// The first price listed for asset `a` on `day`.
pub open spec fn price_of(q: Seq<DailyQuoteView>, a: AssetView, day: i64) -> Option<Dec>
    decreases q.len(),
{
    if q.len() == 0 {
        None
    } else if q[0].asset == a && q[0].day == day {
        Some(q[0].price)
    } else {
        price_of(q.drop_first(), a, day)
    }
}

impl View for QuoteDatabase {
    type V = Seq<DailyQuoteView>;

    closed spec fn view(&self) -> Seq<DailyQuoteView> {
        self.quotes@.map_values(|q: DailyQuote| DailyQuoteView { asset: q.asset@, day: q.day, price: q.price })
    }
}

impl QuoteDatabase {
    pub open spec fn wf(&self) -> bool {
        forall|i: int| 0 <= i < self@.len() ==> (#[trigger] self@[i]).price.wf()
    }

    /// The prices `quotes`.
    pub fn new(quotes: Vec<DailyQuote>) -> (r: QuoteDatabase)
        ensures
            r@ == quotes@.map_values(|q: DailyQuote| DailyQuoteView { asset: q.asset@, day: q.day, price: q.price }),
    {
        QuoteDatabase { quotes }
    }

    /// The price of `asset` on `day`, if one is known.
    pub fn price(&self, asset: &Asset, day: i64) -> (r: Option<Dec>)
        requires
            self.wf(),
        ensures
            r == price_of(self@, asset@, day),
            r matches Some(p) ==> p.wf(),
    {
        let ghost q = self@;
        let mut i: usize = 0;
        assert(q.skip(0) == q);
        while i < self.quotes.len()
            invariant
                q == self@,
                self.wf(),
                i <= q.len(),
                price_of(q, asset@, day) == price_of(q.skip(i as int), asset@, day),
            decreases q.len() - i,
        {
            let e = &self.quotes[i];
            assert(q.skip(i as int)[0] == q[i as int]);
            assert(q.skip(i as int).drop_first() == q.skip(i + 1));
            assert(q[i as int].price.wf());
            if e.day == day && e.asset.same(asset) {
                return Some(e.price);
            }
            i = i + 1;
        }
        assert(q.skip(i as int).len() == 0);
        None
    }
}

/// Whether trade `t` brings FIAT cash in. In-kind transfers of stocks and of
/// cryptocurrencies (rewards, splits) are no cash movement.
pub open spec fn fiat_incoming(t: Trade) -> bool {
    if t.transaction_type == TransactionType::Transfer && (t.asset_class == AssetClass::Stock
        || t.asset@ is Currency && t.asset@->Currency_0 is Crypto) {
        false
    } else {
        t.in_out == InOut::Incoming
    }
}

/// Whether trade `t` takes FIAT cash out. Transfers of cryptocurrencies are no
/// cash movement.
pub open spec fn fiat_outgoing(t: Trade) -> bool {
    if t.transaction_type == TransactionType::Transfer && (t.asset@ is Currency && t.asset@->Currency_0 is Crypto) {
        false
    } else {
        t.in_out == InOut::Outgoing
    }
}

/// Whether trade `t` counts toward the cash balance in `fiat` up to instant `upto`.
pub open spec fn fiat_in_scope(t: Trade, upto: i64, fiat: Fiat) -> bool {
    t.timestamp <= upto && t.fiat == fiat
}

/// The cash brought in by the trades up to `upto`, net of fees, added up in order.
pub open spec fn incoming_total(trades: Seq<Trade>, upto: i64, fiat: Fiat) -> Option<Dec>
    decreases trades.len(),
{
    if trades.len() == 0 {
        Some(Dec::from_parts(0, 0))
    } else {
        let t = trades.last();
        match incoming_total(trades.drop_last(), upto, fiat) {
            None => None,
            Some(acc) => if fiat_in_scope(t, upto, fiat) && fiat_incoming(t) {
                match difference_of(t.amount_fiat, or_zero(t.fee)) {
                    Some(net) => sum_of(acc, net),
                    None => None,
                }
            } else {
                Some(acc)
            },
        }
    }
}

/// The cash taken out by the trades up to `upto`, added up in order.
pub open spec fn outgoing_total(trades: Seq<Trade>, upto: i64, fiat: Fiat) -> Option<Dec>
    decreases trades.len(),
{
    if trades.len() == 0 {
        Some(Dec::from_parts(0, 0))
    } else {
        let t = trades.last();
        match outgoing_total(trades.drop_last(), upto, fiat) {
            None => None,
            Some(acc) => if fiat_in_scope(t, upto, fiat) && fiat_outgoing(t) {
                sum_of(acc, t.amount_fiat)
            } else {
                Some(acc)
            },
        }
    }
}

/// The cash balance in `fiat` at instant `upto`: what came in, net of fees,
/// less what went out.
pub open spec fn fiat_balance_of(trades: Seq<Trade>, upto: i64, fiat: Fiat) -> Option<Dec> {
    match (incoming_total(trades, upto, fiat), outgoing_total(trades, upto, fiat)) {
        (Some(i), Some(o)) => difference_of(i, o),
        _ => None,
    }
}

/// Whether trade `t` increases the holding of its asset.
pub open spec fn asset_increased(t: Trade) -> bool {
    if t.asset_class == AssetClass::Fiat && t.in_out == InOut::Incoming {
        true
    } else {
        t.transaction_type == TransactionType::Buy || t.transaction_type == TransactionType::Deposit || (
        t.transaction_type == TransactionType::Transfer && t.in_out == InOut::Incoming)
    }
}

/// Whether trade `t` decreases the holding of its asset.
pub open spec fn asset_decreased(t: Trade) -> bool {
    if t.asset_class == AssetClass::Fiat && t.in_out == InOut::Outgoing {
        true
    } else {
        t.transaction_type == TransactionType::Sell || t.transaction_type == TransactionType::Withdrawal || (
        t.transaction_type == TransactionType::Transfer && t.in_out == InOut::Outgoing)
    }
}

/// The quantity of its asset that trade `t` moves.
pub open spec fn moved_amount(t: Trade) -> Dec {
    if t.asset_class == AssetClass::Fiat {
        t.amount_fiat
    } else {
        or_zero(t.amount_asset)
    }
}

/// Whether the asset is a FIAT currency, which the cash balance covers.
pub open spec fn is_fiat_asset(a: AssetView) -> bool {
    a is Currency && a->Currency_0 is Fiat
}

/// The quantity of asset `a` moved in (`increase`) or out by the trades up to
/// `upto`, added up in order.
pub open spec fn moved_total(trades: Seq<Trade>, upto: i64, a: AssetView, increase: bool) -> Option<Dec>
    decreases trades.len(),
{
    if trades.len() == 0 {
        Some(Dec::from_parts(0, 0))
    } else {
        let t = trades.last();
        match moved_total(trades.drop_last(), upto, a, increase) {
            None => None,
            Some(acc) => if t.timestamp <= upto && t.asset@ == a && (if increase {
                asset_increased(t)
            } else {
                asset_decreased(t)
            }) {
                sum_of(acc, moved_amount(t))
            } else {
                Some(acc)
            },
        }
    }
}

/// The quantity of asset `a` held at instant `upto`.
pub open spec fn held_of(trades: Seq<Trade>, upto: i64, a: AssetView) -> Option<Dec> {
    match (moved_total(trades, upto, a, true), moved_total(trades, upto, a, false)) {
        (Some(i), Some(o)) => difference_of(i, o),
        _ => None,
    }
}

/// The non-FIAT assets of the trades up to `upto`, each once, in the order of
/// their first occurrence.
pub open spec fn assets_upto(trades: Seq<Trade>, upto: i64) -> Seq<AssetView>
    decreases trades.len(),
{
    if trades.len() == 0 {
        seq![]
    } else {
        let d = assets_upto(trades.drop_last(), upto);
        let t = trades.last();
        if t.timestamp <= upto && !is_fiat_asset(t.asset@) && !d.contains(t.asset@) {
            d.push(t.asset@)
        } else {
            d
        }
    }
}

/// The market value on `day` of the assets `assets` held at instant `upto`,
/// added up in order; assets with a zero quantity are not held.
pub open spec fn assets_value(
    assets: Seq<AssetView>,
    trades: Seq<Trade>,
    quotes: Seq<DailyQuoteView>,
    upto: i64,
    day: i64,
) -> Result<Dec, TaxError>
    decreases assets.len(),
{
    if assets.len() == 0 {
        Ok(Dec::from_parts(0, 0))
    } else {
        let a = assets.last();
        match assets_value(assets.drop_last(), trades, quotes, upto, day) {
            Err(e) => Err(e),
            Ok(acc) => match held_of(trades, upto, a) {
                None => Err(TaxError::Overflow),
                Some(q) => if q.mantissa == 0 {
                    Ok(acc)
                } else {
                    match price_of(quotes, a, day) {
                        None => Err(TaxError::PriceNotFound),
                        Some(p) => match product_of(q, p) {
                            None => Err(TaxError::Overflow),
                            Some(v) => match sum_of(acc, v) {
                                None => Err(TaxError::Overflow),
                                Some(s) => Ok(s),
                            },
                        },
                    }
                },
            },
        }
    }
}

/// The last instant of `day` at a UTC offset of `offset` seconds.
pub open spec fn day_end(day: i64, offset: i64) -> int {
    (day + 1) * SECONDS_PER_DAY - 1 - offset
}

/// The balance of `day`: the cash in `fiat` plus the value of the held assets.
pub open spec fn day_balance(trades: Seq<Trade>, quotes: Seq<DailyQuoteView>, fiat: Fiat, day: i64, offset: i64) -> Result<
    Dec,
    TaxError,
> {
    let upto = day_end(day, offset) as i64;
    match fiat_balance_of(trades, upto, fiat) {
        None => Err(TaxError::Overflow),
        Some(cash) => match assets_value(assets_upto(trades, upto), trades, quotes, upto, day) {
            Err(e) => Err(e),
            Ok(w) => match sum_of(cash, w) {
                None => Err(TaxError::Overflow),
                Some(b) => Ok(b),
            },
        },
    }
}

/// The daily balances of days `since` up to `to` (inclusive), added up in order.
pub open spec fn balances_total(
    trades: Seq<Trade>,
    quotes: Seq<DailyQuoteView>,
    fiat: Fiat,
    since: i64,
    to: int,
    offset: i64,
) -> Result<Dec, TaxError>
    decreases to - since + 1,
{
    if to < since {
        Ok(Dec::from_parts(0, 0))
    } else {
        match balances_total(trades, quotes, fiat, since, to - 1, offset) {
            Err(e) => Err(e),
            Ok(acc) => match day_balance(trades, quotes, fiat, to as i64, offset) {
                Err(e) => Err(e),
                Ok(b) => match sum_of(acc, b) {
                    None => Err(TaxError::Overflow),
                    Some(s) => Ok(s),
                },
            },
        }
    }
}

/// The average daily balance over days `since` to `to` inclusive.
pub open spec fn average_balance_of(
    trades: Seq<Trade>,
    quotes: Seq<DailyQuoteView>,
    fiat: Fiat,
    since: i64,
    to: i64,
    offset: i64,
) -> Result<Dec, TaxError> {
    match balances_total(trades, quotes, fiat, since, to as int, offset) {
        Err(e) => Err(e),
        Ok(total) => match div_result(total, Dec::from_parts(to - since + 1, 0)) {
            None => Err(TaxError::Overflow),
            Some(avg) => Ok(avg),
        },
    }
}

/// The threshold below which no wealth tax is due: 5000.
pub open spec fn threshold() -> Dec {
    Dec::from_parts(50000, 1)
}

/// The wealth-tax rate: two per thousand.
pub open spec fn wealth_rate() -> Dec {
    Dec::from_parts(2, 3)
}

/// The wealth tax on an average balance: zero below 5000, else two per
/// thousand of it rounded to two places.
pub open spec fn ivafe_of(average_balance: Dec) -> Result<Dec, TaxError> {
    if average_balance.units() < threshold().units() {
        Ok(Dec::from_parts(0, 0))
    } else {
        match product_of(average_balance, wealth_rate()) {
            Some(t) => Ok(rounded_of(t, 2)),
            None => Err(TaxError::Overflow),
        }
    }
}

/// The wealth tax on `average_balance`: zero below 5000, else two per
/// thousand of it rounded to two places.
pub fn ivafe(average_balance: Dec) -> (r: Result<Dec, TaxError>)
    requires
        average_balance.wf(),
    ensures
        r == ivafe_of(average_balance),
{
    if average_balance.lt(&Dec::new(50000, 1)) {
        Ok(Dec::zero())
    } else {
        match average_balance.checked_mul(&Dec::new(2, 3)) {
            Some(t) => Ok(t.round_dp(2)),
            None => Err(TaxError::Overflow),
        }
    }
}

/// Whether trade `trade` brings FIAT cash in.
pub fn is_fiat_incoming(trade: &Trade) -> (r: bool)
    ensures
        r == fiat_incoming(*trade),
{
    let crypto = match &trade.asset {
        Asset::Currency(c) => c.is_crypto(),
        _ => false,
    };
    if trade.transaction_type == TransactionType::Transfer && (trade.asset_class == AssetClass::Stock || crypto) {
        false
    } else {
        trade.in_out == InOut::Incoming
    }
}

/// Whether trade `trade` takes FIAT cash out.
pub fn is_fiat_outgoing(trade: &Trade) -> (r: bool)
    ensures
        r == fiat_outgoing(*trade),
{
    let crypto = match &trade.asset {
        Asset::Currency(c) => c.is_crypto(),
        _ => false,
    };
    if trade.transaction_type == TransactionType::Transfer && crypto {
        false
    } else {
        trade.in_out == InOut::Outgoing
    }
}

/// The cash balance in `fiat` at instant `upto` (seconds since the Unix
/// epoch): cash brought in, net of fees, less cash taken out, at full
/// precision. `Overflow` when a sum does not fit.
pub fn fiat_balance(trades: &Vec<Trade>, upto: i64, fiat: Fiat) -> (r: Result<Dec, TaxError>)
    requires
        trades_wf(trades@),
    ensures
        match fiat_balance_of(trades@, upto, fiat) {
            Some(b) => r == Ok::<Dec, TaxError>(b),
            None => r == Err::<Dec, TaxError>(TaxError::Overflow),
        },
        r matches Ok(b) ==> b.wf(),
{
    let ghost s = trades@;
    let mut incoming = Dec::zero();
    let mut outgoing = Dec::zero();
    let mut i: usize = 0;
    while i < trades.len()
        invariant
            s == trades@,
            trades_wf(s),
            i <= s.len(),
            incoming.wf(),
            outgoing.wf(),
            incoming_total(s.take(i as int), upto, fiat) == Some(incoming),
            outgoing_total(s.take(i as int), upto, fiat) == Some(outgoing),
        decreases s.len() - i,
    {
        let t = &trades[i];
        assert(s[i as int].wf());
        assert(s.take(i + 1).drop_last() == s.take(i as int));
        assert(s.take(i + 1).last() == s[i as int]);
        if t.timestamp <= upto && t.fiat == fiat {
            if is_fiat_incoming(t) {
                let fee = match t.fee {
                    Some(f) => f,
                    None => Dec::zero(),
                };
                let net = match t.amount_fiat.checked_sub(&fee) {
                    Some(n) => n,
                    None => {
                        proof {
                            lemma_none_persists(|t: Seq<Trade>| incoming_total(t, upto, fiat), s, i + 1);
                        }
                        return Err(TaxError::Overflow);
                    },
                };
                incoming = match incoming.checked_add(&net) {
                    Some(n) => n,
                    None => {
                        proof {
                            lemma_none_persists(|t: Seq<Trade>| incoming_total(t, upto, fiat), s, i + 1);
                        }
                        return Err(TaxError::Overflow);
                    },
                };
            }
            if is_fiat_outgoing(t) {
                outgoing = match outgoing.checked_add(&t.amount_fiat) {
                    Some(n) => n,
                    None => {
                        proof {
                            lemma_none_persists(|t: Seq<Trade>| outgoing_total(t, upto, fiat), s, i + 1);
                        }
                        return Err(TaxError::Overflow);
                    },
                };
            }
        }
        i = i + 1;
    }
    assert(s.take(i as int) == s);
    match incoming.checked_sub(&outgoing) {
        Some(b) => Ok(b),
        None => Err(TaxError::Overflow),
    }
}

/// Whether trade `trade` increases the holding of its asset.
pub fn has_asset_increased(trade: &Trade) -> (r: bool)
    ensures
        r == asset_increased(*trade),
{
    if trade.asset_class == AssetClass::Fiat && trade.in_out == InOut::Incoming {
        true
    } else {
        trade.transaction_type == TransactionType::Buy || trade.transaction_type == TransactionType::Deposit || (
        trade.transaction_type == TransactionType::Transfer && trade.in_out == InOut::Incoming)
    }
}

/// Whether trade `trade` decreases the holding of its asset.
pub fn has_asset_decreased(trade: &Trade) -> (r: bool)
    ensures
        r == asset_decreased(*trade),
{
    if trade.asset_class == AssetClass::Fiat && trade.in_out == InOut::Outgoing {
        true
    } else {
        trade.transaction_type == TransactionType::Sell || trade.transaction_type == TransactionType::Withdrawal || (
        trade.transaction_type == TransactionType::Transfer && trade.in_out == InOut::Outgoing)
    }
}

/// The quantity of its asset that trade `trade` moves.
fn asset_amount(trade: &Trade) -> (r: Dec)
    requires
        trade.wf(),
    ensures
        r == moved_amount(*trade),
        r.wf(),
{
    if trade.asset_class == AssetClass::Fiat {
        trade.amount_fiat
    } else {
        match trade.amount_asset {
            Some(q) => q,
            None => Dec::zero(),
        }
    }
}

/// The quantity of `asset` held at instant `upto`: what came in less what went
/// out. `None` on overflow.
pub fn count(trades: &Vec<Trade>, upto: i64, asset: &Asset) -> (r: Option<Dec>)
    requires
        trades_wf(trades@),
    ensures
        r == held_of(trades@, upto, asset@),
        r matches Some(q) ==> q.wf(),
{
    let ghost s = trades@;
    let ghost a = asset@;
    let mut incoming = Dec::zero();
    let mut outgoing = Dec::zero();
    let mut i: usize = 0;
    while i < trades.len()
        invariant
            s == trades@,
            a == asset@,
            trades_wf(s),
            i <= s.len(),
            incoming.wf(),
            outgoing.wf(),
            moved_total(s.take(i as int), upto, a, true) == Some(incoming),
            moved_total(s.take(i as int), upto, a, false) == Some(outgoing),
        decreases s.len() - i,
    {
        let t = &trades[i];
        assert(s[i as int].wf());
        assert(s.take(i + 1).drop_last() == s.take(i as int));
        assert(s.take(i + 1).last() == s[i as int]);
        if t.timestamp <= upto && t.asset.same(asset) {
            if has_asset_increased(t) {
                incoming = match incoming.checked_add(&asset_amount(t)) {
                    Some(n) => n,
                    None => {
                        proof {
                            lemma_none_persists(|t: Seq<Trade>| moved_total(t, upto, a, true), s, i + 1);
                        }
                        return None;
                    },
                };
            }
            if has_asset_decreased(t) {
                outgoing = match outgoing.checked_add(&asset_amount(t)) {
                    Some(n) => n,
                    None => {
                        proof {
                            lemma_none_persists(|t: Seq<Trade>| moved_total(t, upto, a, false), s, i + 1);
                        }
                        return None;
                    },
                };
            }
        }
        i = i + 1;
    }
    assert(s.take(i as int) == s);
    incoming.checked_sub(&outgoing)
}

/// The views of a sequence of assets.
pub open spec fn asset_views(s: Seq<Asset>) -> Seq<AssetView> {
    s.map_values(|a: Asset| a@)
}

/// The non-FIAT assets of the trades up to instant `upto`, each once, in the
/// order of their first occurrence.
pub fn collect_assets(trades: &Vec<Trade>, upto: i64) -> (r: Vec<Asset>)
    ensures
        asset_views(r@) == assets_upto(trades@, upto),
{
    let ghost s = trades@;
    let mut assets: Vec<Asset> = Vec::new();
    let mut i: usize = 0;
    while i < trades.len()
        invariant
            s == trades@,
            i <= s.len(),
            asset_views(assets@) == assets_upto(s.take(i as int), upto),
        decreases s.len() - i,
    {
        let t = &trades[i];
        assert(s.take(i + 1).drop_last() == s.take(i as int));
        assert(s.take(i + 1).last() == s[i as int]);
        let fiat = match &t.asset {
            Asset::Currency(c) => c.is_fiat(),
            _ => false,
        };
        if t.timestamp <= upto && !fiat {
            let mut found = false;
            let mut j: usize = 0;
            while j < assets.len()
                invariant
                    j <= assets@.len(),
                    found == asset_views(assets@).take(j as int).contains(t.asset@),
                decreases assets@.len() - j,
            {
                let same = assets[j].same(&t.asset);
                let ghost prev = asset_views(assets@).take(j as int);
                let ghost next = asset_views(assets@).take(j + 1);
                assert(next == prev.push(assets@[j as int]@));
                proof {
                    if next.contains(t.asset@) {
                        let w = choose|w: int| 0 <= w < next.len() && next[w] == t.asset@;
                        if w < j {
                            assert(prev[w] == t.asset@);
                        }
                    }
                    if prev.contains(t.asset@) {
                        let w = choose|w: int| 0 <= w < prev.len() && prev[w] == t.asset@;
                        assert(next[w] == t.asset@);
                    }
                    if same {
                        assert(next[j as int] == t.asset@);
                    }
                }
                found = found || same;
                j = j + 1;
            }
            assert(asset_views(assets@).take(j as int) == asset_views(assets@));
            if !found {
                let ghost before = asset_views(assets@);
                assets.push(t.asset.cloned());
                assert(asset_views(assets@) == before.push(t.asset@));
            }
        }
        i = i + 1;
    }
    assert(s.take(i as int) == s);
    assets
}

/// The market value on `day` of the non-FIAT assets held at instant `upto`.
/// `PriceNotFound` when a held asset has no price that day.
pub fn wallet_balance(trades: &Vec<Trade>, quotes: &QuoteDatabase, upto: i64, day: i64) -> (r: Result<Dec, TaxError>)
    requires
        trades_wf(trades@),
        quotes.wf(),
    ensures
        r == assets_value(assets_upto(trades@, upto), trades@, quotes@, upto, day),
        r matches Ok(v) ==> v.wf(),
{
    let assets = collect_assets(trades, upto);
    let ghost d = asset_views(assets@);
    let mut total = Dec::zero();
    let mut k: usize = 0;
    assert(d.take(0) =~= Seq::<AssetView>::empty());
    while k < assets.len()
        invariant
            trades_wf(trades@),
            quotes.wf(),
            d == asset_views(assets@),
            d == assets_upto(trades@, upto),
            k <= d.len(),
            total.wf(),
            assets_value(d.take(k as int), trades@, quotes@, upto, day) == Ok::<Dec, TaxError>(total),
        decreases d.len() - k,
    {
        let asset = &assets[k];
        assert(d.take(k + 1).drop_last() == d.take(k as int));
        assert(d.take(k + 1).last() == asset@);
        let quantity = match count(trades, upto, asset) {
            Some(q) => q,
            None => {
                proof {
                    lemma_err_persists(|t: Seq<AssetView>| assets_value(t, trades@, quotes@, upto, day), d, k + 1);
                }
                return Err(TaxError::Overflow);
            },
        };
        if !quantity.is_zero() {
            let price = match quotes.price(asset, day) {
                Some(p) => p,
                None => {
                    proof {
                        lemma_err_persists(|t: Seq<AssetView>| assets_value(t, trades@, quotes@, upto, day), d, k + 1);
                    }
                    return Err(TaxError::PriceNotFound);
                },
            };
            let value = match quantity.checked_mul(&price) {
                Some(v) => v,
                None => {
                    proof {
                        lemma_err_persists(|t: Seq<AssetView>| assets_value(t, trades@, quotes@, upto, day), d, k + 1);
                    }
                    return Err(TaxError::Overflow);
                },
            };
            total = match total.checked_add(&value) {
                Some(t) => t,
                None => {
                    proof {
                        lemma_err_persists(|t: Seq<AssetView>| assets_value(t, trades@, quotes@, upto, day), d, k + 1);
                    }
                    return Err(TaxError::Overflow);
                },
            };
        }
        k = k + 1;
    }
    assert(d.take(k as int) == d);
    Ok(total)
}

/// The average daily balance over days `since` to `to` inclusive (days since
/// the Unix epoch, at a UTC offset of `offset` seconds): for each day, the
/// cash in `fiat` at the day's last instant plus the value of the assets then
/// held at that day's prices, summed and divided by the number of days.
pub fn average_balance(
    trades: &Vec<Trade>,
    quotes: &QuoteDatabase,
    fiat: Fiat,
    since: i64,
    to: i64,
    offset: i64,
) -> (r: Result<Dec, TaxError>)
    requires
        trades_wf(trades@),
        quotes.wf(),
        -MAX_DAY <= since <= to <= MAX_DAY,
        -SECONDS_PER_DAY <= offset <= SECONDS_PER_DAY,
    ensures
        r == average_balance_of(trades@, quotes@, fiat, since, to, offset),
{
    let mut total = Dec::zero();
    let mut day: i64 = since;
    while day <= to
        invariant
            trades_wf(trades@),
            quotes.wf(),
            -MAX_DAY <= since <= day <= to + 1,
            to <= MAX_DAY,
            -SECONDS_PER_DAY <= offset <= SECONDS_PER_DAY,
            total.wf(),
            balances_total(trades@, quotes@, fiat, since, day - 1, offset) == Ok::<Dec, TaxError>(total),
        decreases to + 1 - day,
    {
        let upto = (day + 1) * SECONDS_PER_DAY - 1 - offset;
        assert(upto == day_end(day, offset));
        let cash = match fiat_balance(trades, upto, fiat) {
            Ok(c) => c,
            Err(e) => {
                proof {
                    lemma_balances_err(trades@, quotes@, fiat, since, day as int, to as int, offset);
                }
                return Err(e);
            },
        };
        let held = match wallet_balance(trades, quotes, upto, day) {
            Ok(w) => w,
            Err(e) => {
                proof {
                    lemma_balances_err(trades@, quotes@, fiat, since, day as int, to as int, offset);
                }
                return Err(e);
            },
        };
        let balance = match cash.checked_add(&held) {
            Some(b) => b,
            None => {
                proof {
                    lemma_balances_err(trades@, quotes@, fiat, since, day as int, to as int, offset);
                }
                return Err(TaxError::Overflow);
            },
        };
        total = match total.checked_add(&balance) {
            Some(t) => t,
            None => {
                proof {
                    lemma_balances_err(trades@, quotes@, fiat, since, day as int, to as int, offset);
                }
                return Err(TaxError::Overflow);
            },
        };
        day = day + 1;
    }
    let days = Dec::new((to - since + 1) as i128, 0);
    match total.checked_div(&days) {
        Some(avg) => Ok(avg),
        None => Err(TaxError::Overflow),
    }
}

proof fn lemma_balances_err(
    trades: Seq<Trade>,
    quotes: Seq<DailyQuoteView>,
    fiat: Fiat,
    since: i64,
    k: int,
    to: int,
    offset: i64,
)
    requires
        since <= k <= to,
        balances_total(trades, quotes, fiat, since, k, offset) is Err,
    ensures
        balances_total(trades, quotes, fiat, since, to, offset) == balances_total(trades, quotes, fiat, since, k, offset),
    decreases to - k,
{
    if k < to {
        lemma_balances_err(trades, quotes, fiat, since, k + 1, to, offset);
    }
}

} // verus!
