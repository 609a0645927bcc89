//! A single trade of the exchange's export, with its amounts as decimals and
//! its time as seconds since the Unix epoch.

use crate::asset::{Asset, AssetClass, Currency, Fiat, InOut, TransactionType};
use crate::decimal::Dec;
use vstd::prelude::*;

verus! {

/// One trade.
#[derive(Debug)]
pub struct Trade {
    /// Identifies the transaction on the exchange.
    pub transaction_id: String,
    /// When the transaction was issued, in seconds since the Unix epoch.
    pub timestamp: i64,
    /// The kind of transaction.
    pub transaction_type: TransactionType,
    /// Whether the assets were given to the holder or taken from the holder.
    pub in_out: InOut,
    /// The amount in FIAT currency.
    pub amount_fiat: Dec,
    /// The FIAT currency of `amount_fiat`.
    pub fiat: Fiat,
    /// The quantity of the asset in a buy, transfer or sell.
    pub amount_asset: Option<Dec>,
    /// The asset.
    pub asset: Asset,
    /// The market price of the asset, for buys and sells.
    pub asset_market_price: Option<Dec>,
    /// The currency of `asset_market_price`.
    pub asset_market_price_currency: Option<Fiat>,
    /// The class of the asset.
    pub asset_class: AssetClass,
    /// Identifies the asset on the exchange.
    pub product_id: Option<u64>,
    /// What the exchange withheld on a deposit or a withdrawal.
    pub fee: Option<Dec>,
    /// The currency of `fee`.
    pub fee_asset: Option<Currency>,
    /// The difference between bid and ask price.
    pub spread: Option<Dec>,
    /// The currency of `spread`.
    pub spread_currency: Option<Fiat>,
}

/// An optional amount that is absent or well-formed.
pub open spec fn opt_wf(d: Option<Dec>) -> bool {
    match d {
        Some(x) => x.wf(),
        None => true,
    }
}

/// An optional amount, zero when absent.
pub open spec fn or_zero(d: Option<Dec>) -> Dec {
    match d {
        Some(x) => x,
        None => Dec::from_parts(0, 0),
    }
}

pub open spec fn trades_wf(trades: Seq<Trade>) -> bool {
    forall|i: int| 0 <= i < trades.len() ==> (#[trigger] trades[i]).wf()
}

impl Trade {
    /// All amounts are well-formed decimals.
    pub open spec fn wf(&self) -> bool {
        self.amount_fiat.wf() && opt_wf(self.amount_asset) && opt_wf(self.asset_market_price) && opt_wf(
            self.fee,
        ) && opt_wf(self.spread)
    }

    /// The quantity of the asset, zero when absent.
    pub open spec fn quantity(&self) -> Dec {
        or_zero(self.amount_asset)
    }

    /// A trade with the given core fields and no optional field set.
    pub fn new(
        transaction_id: String,
        timestamp: i64,
        transaction_type: TransactionType,
        in_out: InOut,
        amount_fiat: Dec,
        fiat: Fiat,
        amount_asset: Option<Dec>,
        asset: Asset,
        asset_class: AssetClass,
    ) -> (r: Trade)
        ensures
            r.transaction_id == transaction_id,
            r.timestamp == timestamp,
            r.transaction_type == transaction_type,
            r.in_out == in_out,
            r.amount_fiat == amount_fiat,
            r.fiat == fiat,
            r.amount_asset == amount_asset,
            r.asset == asset,
            r.asset_class == asset_class,
            r.asset_market_price is None,
            r.asset_market_price_currency is None,
            r.product_id is None,
            r.fee is None,
            r.fee_asset is None,
            r.spread is None,
            r.spread_currency is None,
    {
        Trade {
            transaction_id,
            timestamp,
            transaction_type,
            in_out,
            amount_fiat,
            fiat,
            amount_asset,
            asset,
            asset_market_price: None,
            asset_market_price_currency: None,
            asset_class,
            product_id: None,
            fee: None,
            fee_asset: None,
            spread: None,
            spread_currency: None,
        }
    }

    pub fn transaction_id(&self) -> (r: &str)
        ensures
            r@ == self.transaction_id@,
    {
        self.transaction_id.as_str()
    }

    pub fn timestamp(&self) -> (r: i64)
        ensures
            r == self.timestamp,
    {
        self.timestamp
    }

    pub fn transaction_type(&self) -> (r: TransactionType)
        ensures
            r == self.transaction_type,
    {
        self.transaction_type
    }

    pub fn in_out(&self) -> (r: InOut)
        ensures
            r == self.in_out,
    {
        self.in_out
    }

    pub fn amount_fiat(&self) -> (r: Dec)
        ensures
            r == self.amount_fiat,
    {
        self.amount_fiat
    }

    pub fn fiat(&self) -> (r: Fiat)
        ensures
            r == self.fiat,
    {
        self.fiat
    }

    pub fn amount_asset(&self) -> (r: Option<Dec>)
        ensures
            r == self.amount_asset,
    {
        self.amount_asset
    }

    pub fn asset(&self) -> (r: Asset)
        ensures
            r@ == self.asset@,
    {
        self.asset.cloned()
    }

    pub fn asset_market_price(&self) -> (r: Option<Dec>)
        ensures
            r == self.asset_market_price,
    {
        self.asset_market_price
    }

    pub fn asset_market_price_currency(&self) -> (r: Option<Fiat>)
        ensures
            r == self.asset_market_price_currency,
    {
        self.asset_market_price_currency
    }

    pub fn asset_class(&self) -> (r: AssetClass)
        ensures
            r == self.asset_class,
    {
        self.asset_class
    }

    pub fn product_id(&self) -> (r: Option<u64>)
        ensures
            r == self.product_id,
    {
        self.product_id
    }

    pub fn fee(&self) -> (r: Option<Dec>)
        ensures
            r == self.fee,
    {
        self.fee
    }

    pub fn fee_asset(&self) -> (r: Option<Currency>)
        ensures
            r == self.fee_asset,
    {
        self.fee_asset
    }

    pub fn spread(&self) -> (r: Option<Dec>)
        ensures
            r == self.spread,
    {
        self.spread
    }

    pub fn spread_currency(&self) -> (r: Option<Fiat>)
        ensures
            r == self.spread_currency,
    {
        self.spread_currency
    }
}

/// Whether trade `t` falls within instants `from` to `to` inclusive.
pub open spec fn in_period(t: Trade, from: i64, to: i64) -> bool {
    from <= t.timestamp <= to
}

/// The trades of `trades` that fall within instants `from` to `to`
/// inclusive, in their order.
pub fn select_period(trades: Vec<Trade>, from: i64, to: i64) -> (r: Vec<Trade>)
    ensures
        r@ == trades@.filter(|t: Trade| in_period(t, from, to)),
{
    let ghost all = trades@;
    let mut rest = trades;
    let mut kept: Vec<Trade> = Vec::new();
    let ghost mut done: int = 0;
    while rest.len() > 0
        invariant
            0 <= done <= all.len(),
            rest@ == all.skip(done),
            kept@ == all.take(done).filter(|t: Trade| in_period(t, from, to)),
        decreases rest@.len(),
    {
        let t = rest.remove(0);
        proof {
            assert(all.take(done + 1).drop_last() == all.take(done));
            assert(all.take(done + 1).last() == t);
            assert(all.skip(done).drop_first() == all.skip(done + 1));
            reveal(Seq::filter);
        }
        if from <= t.timestamp && t.timestamp <= to {
            kept.push(t);
        }
        proof {
            done = done + 1;
        }
    }
    assert(all.take(done) == all);
    kept
}

} // verus!
