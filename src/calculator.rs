//! Replays a chronological trade stream through one FIFO ledger per asset,
//! producing the realized gains and losses.

use crate::asset::{Asset, AssetClass, AssetView, InOut, TransactionType};
use crate::capital_diff::{gain_of, loss_of, CapitalDiff, CapitalDiffView};
use crate::decimal::{difference_of, Dec};
use crate::error::TaxError;
use crate::gains::{all_wf, flatten_of, views, GainsAndLosses};
use crate::trade::{or_zero, trades_wf, Trade};
use crate::wallet::{sell_of, split_total_of, Block, Wallet};
use crate::whitelist::{whitelisted, TickerWhitelist};
use crate::fold::lemma_err_persists;
use vstd::prelude::*;

verus! {

/// The ledgers of a run, one per asset, in the order of the assets' first
/// reference.
pub type Ledgers = Seq<(AssetView, Seq<Block>)>;

/// The gains and losses calculator: a ledger for each asset met so far.
#[derive(Debug)]
pub struct Calculator {
    assets: Vec<Asset>,
    wallets: Vec<Wallet>,
}

/// The position of the ledger of asset `a`, or -1 when there is none.
pub open spec fn find(st: Ledgers, a: AssetView) -> int
    decreases st.len(),
{
    if st.len() == 0 {
        -1
    } else if st[0].0 == a {
        0
    } else {
        let f = find(st.drop_first(), a);
        if f < 0 {
            -1
        } else {
            f + 1
        }
    }
}

/// The lots of asset `a`; none when it has no ledger yet.
pub open spec fn ledger_of(st: Ledgers, a: AssetView) -> Seq<Block> {
    let f = find(st, a);
    if f >= 0 {
        st[f].1
    } else {
        seq![]
    }
}

/// The ledgers with those of asset `a` set to `l`, a new ledger being added
/// at the end when `a` has none.
pub open spec fn with_ledger(st: Ledgers, a: AssetView, l: Seq<Block>) -> Ledgers {
    let f = find(st, a);
    if f >= 0 {
        st.update(f, (a, l))
    } else {
        st.push((a, l))
    }
}

/// The tax rate of an asset in percent: 12.5 for whitelisted government-bond
/// tickers, 26 for everything else.
pub open spec fn rate_of(a: AssetView) -> Dec {
    match a {
        AssetView::Ticker(t) => if whitelisted(t) {
            Dec::from_parts(1250, 2)
        } else {
            Dec::from_parts(260, 1)
        },
        _ => Dec::from_parts(260, 1),
    }
}

/// The event of a sale whose proceeds are `proceeds` and whose consumed cost
/// basis is `cost`: none when they are equal, else a gain or a loss of the
/// difference.
pub open spec fn diff_event(asset: AssetView, asset_class: AssetClass, proceeds: Dec, cost: Dec) -> Result<
    Option<CapitalDiffView>,
    TaxError,
> {
    match difference_of(proceeds, cost) {
        None => Err(TaxError::Overflow),
        Some(d) => if d.mantissa == 0 {
            Ok(None)
        } else if d.mantissa < 0 {
            match loss_of(asset, asset_class, rate_of(asset), d) {
                Ok(c) => Ok(Some(c)),
                Err(e) => Err(e),
            }
        } else {
            match gain_of(asset, asset_class, rate_of(asset), d) {
                Ok(c) => Ok(Some(c)),
                Err(e) => Err(e),
            }
        },
    }
}

/// The lot that a deposit or a buy adds: a deposit of FIAT is recorded one
/// to one, net of the fee the exchange withheld; a quantity missing from the
/// trade is its FIAT amount.
pub open spec fn lot_of(t: Trade) -> Option<Block> {
    if t.transaction_type == TransactionType::Deposit {
        match difference_of(t.amount_fiat, or_zero(t.fee)) {
            Some(net) => Some(
                Block {
                    amount_asset: match t.amount_asset {
                        Some(q) => q,
                        None => net,
                    },
                    amount_fiat: net,
                },
            ),
            None => None,
        }
    } else {
        Some(
            Block {
                amount_asset: match t.amount_asset {
                    Some(q) => q,
                    None => t.amount_fiat,
                },
                amount_fiat: t.amount_fiat,
            },
        )
    }
}

/// One trade applied to the ledgers: deposits and buys add a lot, incoming
/// transfers are in-kind credits, everything else sells; only a sale yields an
/// event.
pub open spec fn step(st: Ledgers, t: Trade) -> Result<(Ledgers, Option<CapitalDiffView>), TaxError> {
    let a = t.asset@;
    let l = ledger_of(st, a);
    let q = t.quantity();
    if t.transaction_type == TransactionType::Deposit || t.transaction_type == TransactionType::Buy {
        match lot_of(t) {
            Some(b) => Ok((with_ledger(st, a, l.push(b)), None)),
            None => Err(TaxError::Overflow),
        }
    } else if t.transaction_type == TransactionType::Transfer && t.in_out == InOut::Incoming {
        match split_total_of(l, q) {
            Some(b) => Ok((with_ledger(st, a, seq![b]), None)),
            None => Err(TaxError::Overflow),
        }
    } else {
        match sell_of(l, q) {
            Err(e) => Err(e),
            Ok((cost, kept)) => {
                let st2 = with_ledger(st, a, kept);
                if t.transaction_type == TransactionType::Sell {
                    match diff_event(a, t.asset_class, t.amount_fiat, cost) {
                        Ok(c) => Ok((st2, c)),
                        Err(e) => Err(e),
                    }
                } else {
                    Ok((st2, None))
                }
            },
        }
    }
}

/// The trades applied in order: the final ledgers and the events produced.
pub open spec fn replay(st: Ledgers, trades: Seq<Trade>) -> Result<(Ledgers, Seq<CapitalDiffView>), TaxError>
    decreases trades.len(),
{
    if trades.len() == 0 {
        Ok((st, seq![]))
    } else {
        match replay(st, trades.drop_last()) {
            Err(e) => Err(e),
            Ok((st2, evs)) => match step(st2, trades.last()) {
                Err(e) => Err(e),
                Ok((st3, None)) => Ok((st3, evs)),
                Ok((st3, Some(c))) => Ok((st3, evs.push(c))),
            },
        }
    }
}

proof fn lemma_find_first(st: Ledgers, a: AssetView, i: int)
    requires
        0 <= i <= st.len(),
        forall|j: int| 0 <= j < i ==> (#[trigger] st[j]).0 != a,
        i < st.len() ==> st[i].0 == a,
    ensures
        find(st, a) == if i < st.len() {
            i
        } else {
            -1
        },
    decreases st.len(),
{
    if st.len() > 0 && i > 0 {
        assert forall|j: int| 0 <= j < i - 1 implies (#[trigger] st.drop_first()[j]).0 != a by {
            assert(st.drop_first()[j] == st[j + 1]);
        }
        assert(st[0].0 != a);
        lemma_find_first(st.drop_first(), a, i - 1);
    }
}

proof fn lemma_find_range(st: Ledgers, a: AssetView)
    ensures
        -1 <= find(st, a) < st.len(),
        find(st, a) >= 0 ==> st[find(st, a)].0 == a,
        find(st, a) < 0 ==> forall|j: int| 0 <= j < st.len() ==> (#[trigger] st[j]).0 != a,
    decreases st.len(),
{
    if st.len() > 0 && st[0].0 != a {
        lemma_find_range(st.drop_first(), a);
        if find(st, a) < 0 {
            assert forall|j: int| 0 <= j < st.len() implies (#[trigger] st[j]).0 != a by {
                if j > 0 {
                    assert(st[j] == st.drop_first()[j - 1]);
                }
            }
        }
    }
}

impl Default for Calculator {
    fn default() -> (r: Calculator)
        ensures
            r.wf(),
            r.ledgers() == Seq::<(AssetView, Seq<Block>)>::empty(),
    {
        Calculator::new()
    }
}

impl Calculator {
    /// The ledgers, one per asset met so far.
    pub closed spec fn ledgers(&self) -> Ledgers {
        Seq::new(self.assets@.len(), |i: int| (self.assets@[i]@, self.wallets@[i]@))
    }

    /// One ledger per asset: the assets are pairwise different.
    pub closed spec fn wf(&self) -> bool {
        &&& self.assets@.len() == self.wallets@.len()
        &&& forall|i: int, j: int|
            0 <= i < j < self.assets@.len() ==> (#[trigger] self.assets@[i])@ != (#[trigger] self.assets@[j])@
        &&& forall|i: int| 0 <= i < self.wallets@.len() ==> (#[trigger] self.wallets@[i]).wf()
    }

    /// A calculator with no ledger.
    pub fn new() -> (r: Calculator)
        ensures
            r.wf(),
            r.ledgers() == Seq::<(AssetView, Seq<Block>)>::empty(),
    {
        let r = Calculator { assets: Vec::new(), wallets: Vec::new() };
        assert(r.ledgers() =~= Seq::<(AssetView, Seq<Block>)>::empty());
        r
    }

    /// Replays `trades` (in chronological order) through the ledgers and nets
    /// the events produced per asset.
    pub fn calculate(&mut self, trades: &Vec<Trade>) -> (r: Result<GainsAndLosses, TaxError>)
        requires
            old(self).wf(),
            trades_wf(trades@),
        ensures
            final(self).wf(),
            match replay(old(self).ledgers(), trades@) {
                Ok((_, evs)) => match flatten_of(evs) {
                    Ok(v) => r matches Ok(g) && g@ == v,
                    Err(e) => r == Err::<GainsAndLosses, TaxError>(e),
                },
                Err(e) => r == Err::<GainsAndLosses, TaxError>(e),
            },
    {
        let ghost st0 = self.ledgers();
        let mut stonks: Vec<CapitalDiff> = Vec::new();
        let mut i: usize = 0;
        assert(trades@.take(0) =~= Seq::<Trade>::empty());
        assert(views(stonks@) =~= Seq::<CapitalDiffView>::empty());
        while i < trades.len()
            invariant
                self.wf(),
                st0 == old(self).ledgers(),
                trades_wf(trades@),
                i <= trades@.len(),
                replay(st0, trades@.take(i as int)) == Ok::<(Ledgers, Seq<CapitalDiffView>), TaxError>(
                    (self.ledgers(), views(stonks@)),
                ),
                all_wf(views(stonks@)),
            decreases trades@.len() - i,
        {
            let t = &trades[i];
            assert(trades@[i as int].wf());
            assert(trades@.take(i + 1).drop_last() == trades@.take(i as int));
            assert(trades@.take(i + 1).last() == trades@[i as int]);
            match self.update_wallet(t) {
                Err(e) => {
                    proof {
                        lemma_err_persists(|t: Seq<Trade>| replay(st0, t), trades@, i + 1);
                    }
                    return Err(e);
                },
                Ok(None) => {},
                Ok(Some(c)) => {
                    let ghost before = views(stonks@);
                    stonks.push(c);
                    assert(views(stonks@) == before.push(c@));
                },
            }
            i = i + 1;
        }
        assert(trades@.take(i as int) == trades@);
        GainsAndLosses::new(stonks).flatten()
    }

    /// Applies one trade to the ledgers.
    fn update_wallet(&mut self, trade: &Trade) -> (r: Result<Option<CapitalDiff>, TaxError>)
        requires
            old(self).wf(),
            trade.wf(),
        ensures
            final(self).wf(),
            match step(old(self).ledgers(), *trade) {
                Ok((st, None)) => r matches Ok(None) && final(self).ledgers() == st,
                Ok((st, Some(v))) => r matches Ok(Some(c)) && c@ == v && c@.wf() && final(self).ledgers() == st,
                Err(e) => r == Err::<Option<CapitalDiff>, TaxError>(e),
            },
    {
        let ghost st = self.ledgers();
        let ghost a = trade.asset@;
        let idx = self.get_wallet(&trade.asset);
        let ghost st1 = self.ledgers();
        let ghost w1 = self.wallets@;
        let mut wallet = self.wallets.remove(idx);
        assert(wallet.wf());
        let ghost l = wallet@;
        assert(l == ledger_of(st, a));
        let quantity = match trade.amount_asset {
            Some(q) => q,
            None => Dec::zero(),
        };
        let result: Result<Option<CapitalDiff>, TaxError>;
        if trade.transaction_type == TransactionType::Deposit || trade.transaction_type == TransactionType::Buy {
            result = match Self::lot(trade) {
                Some(b) => {
                    wallet.buy(b.amount_asset, b.amount_fiat);
                    Ok(None)
                },
                None => Err(TaxError::Overflow),
            };
        } else if trade.transaction_type == TransactionType::Transfer && trade.in_out == InOut::Incoming {
            result = match wallet.stock_split(quantity) {
                Ok(()) => Ok(None),
                Err(e) => Err(e),
            };
        } else {
            result = match wallet.sell(quantity) {
                Err(e) => Err(e),
                Ok(cost) => if trade.transaction_type == TransactionType::Sell {
                    Self::calc_capital_diff(cost, trade)
                } else {
                    Ok(None)
                },
            };
        }
        self.wallets.insert(idx, wallet);
        proof {
            lemma_find_range(st, a);
            assert(self.wallets@ =~= w1.update(idx as int, wallet));
            lemma_find_range(st1, a);
            assert(st1[idx as int].0 == a);
            assert(self.ledgers() =~= st1.update(idx as int, (a, wallet@)));
            if find(st, a) < 0 {
                assert(st1.update(idx as int, (a, wallet@)) =~= st.push((a, wallet@)));
            }
            assert(self.ledgers() == with_ledger(st, a, wallet@));
        }
        result
    }

    /// The lot that a deposit or a buy adds.
    fn lot(trade: &Trade) -> (r: Option<Block>)
        requires
            trade.wf(),
        ensures
            r == lot_of(*trade),
            r matches Some(b) ==> b.wf(),
    {
        if trade.transaction_type == TransactionType::Deposit {
            let fee = match trade.fee {
                Some(f) => f,
                None => Dec::zero(),
            };
            match trade.amount_fiat.checked_sub(&fee) {
                Some(net) => Some(
                    Block::new(
                        match trade.amount_asset {
                            Some(q) => q,
                            None => net,
                        },
                        net,
                    ),
                ),
                None => None,
            }
        } else {
            Some(
                Block::new(
                    match trade.amount_asset {
                        Some(q) => q,
                        None => trade.amount_fiat,
                    },
                    trade.amount_fiat,
                ),
            )
        }
    }

    /// The gain or loss of a sale whose consumed cost basis is `cost`.
    fn calc_capital_diff(cost: Dec, trade: &Trade) -> (r: Result<Option<CapitalDiff>, TaxError>)
        requires
            cost.wf(),
            trade.wf(),
        ensures
            match diff_event(trade.asset@, trade.asset_class, trade.amount_fiat, cost) {
                Ok(None) => r matches Ok(None),
                Ok(Some(v)) => r matches Ok(Some(c)) && c@ == v && c@.wf(),
                Err(e) => r == Err::<Option<CapitalDiff>, TaxError>(e),
            },
    {
        let diff = match trade.amount_fiat.checked_sub(&cost) {
            Some(d) => d,
            None => return Err(TaxError::Overflow),
        };
        if diff.is_zero() {
            Ok(None)
        } else if diff.is_negative() {
            match CapitalDiff::loss(trade.asset(), trade.asset_class, Self::tax_percentage(&trade.asset), diff) {
                Ok(c) => Ok(Some(c)),
                Err(e) => Err(e),
            }
        } else {
            match CapitalDiff::gain(trade.asset(), trade.asset_class, Self::tax_percentage(&trade.asset), diff) {
                Ok(c) => Ok(Some(c)),
                Err(e) => Err(e),
            }
        }
    }

    /// The tax rate in percent of `asset`: 12.5 for whitelisted government-bond
    /// tickers, 26 otherwise.
    pub fn tax_percentage(asset: &Asset) -> (r: Dec)
        ensures
            r == rate_of(asset@),
            r.wf(),
    {
        match asset {
            Asset::Ticker(ticker) => if TickerWhitelist::is_whitelisted(ticker.as_str()) {
                Dec::new(1250, 2)
            } else {
                Dec::new(260, 1)
            },
            _ => Dec::new(260, 1),
        }
    }

    /// The position of the ledger of `asset`, a new empty one being added when
    /// there is none.
    fn get_wallet(&mut self, asset: &Asset) -> (r: usize)
        requires
            old(self).wf(),
        ensures
            final(self).wf(),
            r < final(self).wallets@.len(),
            final(self).ledgers() == if find(old(self).ledgers(), asset@) >= 0 {
                old(self).ledgers()
            } else {
                old(self).ledgers().push((asset@, Seq::<Block>::empty()))
            },
            find(final(self).ledgers(), asset@) == r,
            final(self).wallets@[r as int]@ == ledger_of(old(self).ledgers(), asset@),
    {
        let ghost st = self.ledgers();
        let mut i: usize = 0;
        while i < self.assets.len()
            invariant
                self.wf(),
                st == self.ledgers(),
                i <= st.len(),
                forall|j: int| 0 <= j < i ==> (#[trigger] st[j]).0 != asset@,
            decreases st.len() - i,
        {
            if self.assets[i].same(asset) {
                proof {
                    lemma_find_first(st, asset@, i as int);
                }
                return i;
            }
            i = i + 1;
        }
        proof {
            lemma_find_first(st, asset@, st.len() as int);
        }
        let ghost old_assets = self.assets@;
        self.assets.push(asset.cloned());
        self.wallets.push(Wallet::new());
        proof {
            assert forall|x: int, y: int| 0 <= x < y < self.assets@.len() implies (#[trigger] self.assets@[x])@
                != (#[trigger] self.assets@[y])@ by {
                assert(self.assets@[x] == old_assets[x]);
                if y < old_assets.len() {
                    assert(self.assets@[y] == old_assets[y]);
                } else {
                    assert(st[x].0 == old_assets[x]@);
                }
            }
            assert(self.ledgers() =~= st.push((asset@, Seq::<Block>::empty())));
            assert forall|j: int| 0 <= j < i implies (#[trigger] self.ledgers()[j]).0 != asset@ by {
                assert(self.ledgers()[j] == st[j]);
            }
            lemma_find_first(self.ledgers(), asset@, i as int);
        }
        i
    }
}

} // verus!
