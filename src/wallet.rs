//! A single asset's FIFO cost-basis ledger.

use crate::decimal::{difference_of, div_result, product_of, sum_of, Dec};
use crate::error::TaxError;
use crate::fold::lemma_none_persists;
use vstd::prelude::*;

verus! {

/// A lot: a quantity of the asset and what it cost in FIAT.
#[derive(Clone, Copy, Debug, PartialEq, Eq, Structural)]
pub struct Block {
    /// The quantity of the lot.
    pub amount_asset: Dec,
    /// The FIAT cost basis of the lot.
    pub amount_fiat: Dec,
}

/// The lots of one asset, oldest first.
#[derive(Debug)]
pub struct Wallet {
    blocks: Vec<Block>,
}

impl Block {
    pub open spec fn wf(self) -> bool {
        self.amount_asset.wf() && self.amount_fiat.wf()
    }

    /// A lot of `amount_asset` units bought for `amount_fiat`.
    pub fn new(amount_asset: Dec, amount_fiat: Dec) -> (r: Block)
        ensures
            r == (Block { amount_asset, amount_fiat }),
    {
        Block { amount_asset, amount_fiat }
    }

    /// Takes `amount_asset` out of this lot. The part taken costs
    /// `amount_fiat * amount_asset / self.amount_asset`; this lot keeps the rest
    /// of the quantity and of the cost. `None` on overflow, and this lot is then
    /// left as it was.
    pub fn sell_fraction(&mut self, amount_asset: Dec) -> (r: Option<Block>)
        requires
            old(self).wf(),
            amount_asset.wf(),
        ensures
            match split_of(*old(self), amount_asset) {
                Some((unsold, sold)) => r == Some(sold) && *final(self) == unsold,
                None => r is None && *final(self) == *old(self),
            },
            final(self).wf(),
            r matches Some(b) ==> b.wf(),
    {
        let product = match self.amount_fiat.checked_mul(&amount_asset) {
            Some(p) => p,
            None => return None,
        };
        let fraction_amount_fiat = match product.checked_div(&self.amount_asset) {
            Some(f) => f,
            None => return None,
        };
        let unsold_fiat = match self.amount_fiat.checked_sub(&fraction_amount_fiat) {
            Some(f) => f,
            None => return None,
        };
        let unsold_asset = match self.amount_asset.checked_sub(&amount_asset) {
            Some(a) => a,
            None => return None,
        };
        self.amount_fiat = unsold_fiat;
        self.amount_asset = unsold_asset;
        Some(Block::new(amount_asset, fraction_amount_fiat))
    }
}

/// The cost of taking `amount` out of lot `b`: `b`'s cost times `amount`,
/// divided by `b`'s quantity.
pub open spec fn fraction_cost_of(b: Block, amount: Dec) -> Option<Dec> {
    match product_of(b.amount_fiat, amount) {
        Some(p) => div_result(p, b.amount_asset),
        None => None,
    }
}

/// Splitting lot `b` when `amount` of it is sold: the unsold lot and the sold one.
pub open spec fn split_of(b: Block, amount: Dec) -> Option<(Block, Block)> {
    match fraction_cost_of(b, amount) {
        Some(cost) => match (difference_of(b.amount_fiat, cost), difference_of(b.amount_asset, amount)) {
            (Some(fiat), Some(asset)) => Some(
                (Block { amount_asset: asset, amount_fiat: fiat }, Block { amount_asset: amount, amount_fiat: cost }),
            ),
            _ => None,
        },
        None => None,
    }
}

pub open spec fn blocks_wf(s: Seq<Block>) -> bool {
    forall|i: int| 0 <= i < s.len() ==> #[trigger] s[i].wf()
}

/// The total quantity of the lots, added up oldest first from zero.
pub open spec fn total_asset(s: Seq<Block>) -> Option<Dec>
    decreases s.len(),
{
    if s.len() == 0 {
        Some(Dec::from_parts(0, 0))
    } else {
        match total_asset(s.drop_last()) {
            Some(t) => sum_of(t, s.last().amount_asset),
            None => None,
        }
    }
}

/// The total cost basis of the lots, added up oldest first from zero.
pub open spec fn total_fiat(s: Seq<Block>) -> Option<Dec>
    decreases s.len(),
{
    if s.len() == 0 {
        Some(Dec::from_parts(0, 0))
    } else {
        match total_fiat(s.drop_last()) {
            Some(t) => sum_of(t, s.last().amount_fiat),
            None => None,
        }
    }
}

/// Consuming lots from the front until `remaining` is sold, with the cost
/// `acc` already consumed: the cost consumed in all, and the lots left.
pub open spec fn consume(s: Seq<Block>, remaining: Dec, acc: Dec) -> Result<(Dec, Seq<Block>), TaxError>
    decreases s.len(),
{
    if s.len() == 0 || remaining.mantissa == 0 {
        Ok((acc, s))
    } else if s[0].amount_asset.units() <= remaining.units() {
        match (sum_of(acc, s[0].amount_fiat), difference_of(remaining, s[0].amount_asset)) {
            (Some(a), Some(r)) => consume(s.drop_first(), r, a),
            _ => Err(TaxError::Overflow),
        }
    } else {
        match split_of(s[0], remaining) {
            Some((unsold, sold)) => match sum_of(acc, sold.amount_fiat) {
                Some(a) => Ok((a, seq![unsold] + s.drop_first())),
                None => Err(TaxError::Overflow),
            },
            None => Err(TaxError::Overflow),
        }
    }
}

/// Selling `amount` from lots `s`: the cost basis consumed and the lots left,
/// or `InsufficientBalance` when `amount` exceeds the quantity held.
pub open spec fn sell_of(s: Seq<Block>, amount: Dec) -> Result<(Dec, Seq<Block>), TaxError> {
    match total_asset(s) {
        Some(t) => if t.units() < amount.units() {
            Err(TaxError::InsufficientBalance)
        } else {
            consume(s, amount, Dec::from_parts(0, 0))
        },
        None => Err(TaxError::Overflow),
    }
}

/// The single lot that replaces lots `s` when `extra` units are credited in kind.
pub open spec fn split_total_of(s: Seq<Block>, extra: Dec) -> Option<Block> {
    match (total_fiat(s), total_asset(s)) {
        (Some(f), Some(q)) => match sum_of(q, extra) {
            Some(nq) => Some(Block { amount_asset: nq, amount_fiat: f }),
            None => None,
        },
        _ => None,
    }
}

impl Default for Wallet {
    fn default() -> (r: Wallet)
        ensures
            r@ == Seq::<Block>::empty(),
    {
        Wallet::new()
    }
}

impl View for Wallet {
    type V = Seq<Block>;

    closed spec fn view(&self) -> Seq<Block> {
        self.blocks@
    }
}

impl Wallet {
    pub open spec fn wf(&self) -> bool {
        blocks_wf(self@)
    }

    /// An empty wallet.
    pub fn new() -> (r: Wallet)
        ensures
            r@ == Seq::<Block>::empty(),
            r.wf(),
    {
        Wallet { blocks: Vec::new() }
    }

    /// The lots, oldest first.
    pub fn blocks(&self) -> (r: &Vec<Block>)
        ensures
            r@ == self@,
    {
        &self.blocks
    }

    /// Appends a lot of `amount_asset` units bought for `amount_fiat`.
    pub fn buy(&mut self, amount_asset: Dec, amount_fiat: Dec)
        ensures
            final(self)@ == old(self)@.push(Block { amount_asset, amount_fiat }),
    {
        self.blocks.push(Block::new(amount_asset, amount_fiat));
    }

    /// The total quantity held; `None` on overflow.
    pub fn amount_asset(&self) -> (r: Option<Dec>)
        requires
            self.wf(),
        ensures
            r == total_asset(self@),
            r matches Some(t) ==> t.wf(),
    {
        let mut total = Dec::zero();
        let mut i: usize = 0;
        while i < self.blocks.len()
            invariant
                blocks_wf(self.blocks@),
                i <= self.blocks@.len(),
                total.wf(),
                total_asset(self.blocks@.subrange(0, i as int)) == Some(total),
            decreases self.blocks@.len() - i,
        {
            proof {
                assert(self.blocks@.subrange(0, i + 1).drop_last() == self.blocks@.subrange(0, i as int));
            }
            let b = self.blocks[i];
            assert(b.wf());
            total = match total.checked_add(&b.amount_asset) {
                Some(t) => t,
                None => {
                    proof {
                        lemma_none_persists(|t: Seq<Block>| total_asset(t), self.blocks@, i + 1);
                    }
                    return None;
                },
            };
            i = i + 1;
        }
        proof {
            assert(self.blocks@.subrange(0, i as int) == self.blocks@);
        }
        Some(total)
    }

    /// The total cost basis held; `None` on overflow.
    pub fn amount_fiat(&self) -> (r: Option<Dec>)
        requires
            self.wf(),
        ensures
            r == total_fiat(self@),
            r matches Some(t) ==> t.wf(),
    {
        let mut total = Dec::zero();
        let mut i: usize = 0;
        while i < self.blocks.len()
            invariant
                blocks_wf(self.blocks@),
                i <= self.blocks@.len(),
                total.wf(),
                total_fiat(self.blocks@.subrange(0, i as int)) == Some(total),
            decreases self.blocks@.len() - i,
        {
            proof {
                assert(self.blocks@.subrange(0, i + 1).drop_last() == self.blocks@.subrange(0, i as int));
            }
            let b = self.blocks[i];
            assert(b.wf());
            total = match total.checked_add(&b.amount_fiat) {
                Some(t) => t,
                None => {
                    proof {
                        lemma_none_persists(|t: Seq<Block>| total_fiat(t), self.blocks@, i + 1);
                    }
                    return None;
                },
            };
            i = i + 1;
        }
        proof {
            assert(self.blocks@.subrange(0, i as int) == self.blocks@);
        }
        Some(total)
    }

    /// Sells `amount_asset` units, consuming lots oldest first and splitting
    /// the first lot that is larger than what is left to sell. Returns the cost
    /// basis consumed. `InsufficientBalance` when more is sold than held; on any
    /// error the wallet is left as it was.
    pub fn sell(&mut self, amount_asset: Dec) -> (r: Result<Dec, TaxError>)
        requires
            old(self).wf(),
            amount_asset.wf(),
        ensures
            final(self).wf(),
            r matches Ok(c) ==> c.wf(),
            match sell_of(old(self)@, amount_asset) {
                Ok((cost, kept)) => r == Ok::<Dec, TaxError>(cost) && final(self)@ == kept,
                Err(e) => r == Err::<Dec, TaxError>(e) && final(self)@ == old(self)@,
            },
    {
        let total = match self.amount_asset() {
            Some(t) => t,
            None => return Err(TaxError::Overflow),
        };
        if total.lt(&amount_asset) {
            return Err(TaxError::InsufficientBalance);
        }
        let ghost s = self.blocks@;
        let n = self.blocks.len();
        let mut i: usize = 0;
        let mut remaining = amount_asset;
        let mut acc = Dec::zero();
        assert(s.skip(0) == s);
        assert(sell_of(s, amount_asset) == consume(s, amount_asset, Dec::from_parts(0, 0)));
        while i < n && !remaining.is_zero()
            invariant
                self.blocks@ == s,
                s == old(self)@,
                sell_of(s, amount_asset) == consume(s, amount_asset, Dec::from_parts(0, 0)),
                n == s.len(),
                blocks_wf(s),
                i <= n,
                remaining.wf(),
                acc.wf(),
                consume(s.skip(i as int), remaining, acc) == consume(s, amount_asset, Dec::from_parts(0, 0)),
            decreases n - i,
        {
            let b = self.blocks[i];
            assert(b.wf());
            assert(s.skip(i as int)[0] == b);
            if b.amount_asset.le(&remaining) {
                let a = match acc.checked_add(&b.amount_fiat) {
                    Some(a) => a,
                    None => {
                        assert(consume(s.skip(i as int), remaining, acc) == Err::<(Dec, Seq<Block>), TaxError>(TaxError::Overflow));
                        return Err(TaxError::Overflow);
                    },
                };
                let rest = match remaining.checked_sub(&b.amount_asset) {
                    Some(r) => r,
                    None => {
                        assert(consume(s.skip(i as int), remaining, acc) == Err::<(Dec, Seq<Block>), TaxError>(TaxError::Overflow));
                        return Err(TaxError::Overflow);
                    },
                };
                assert(s.skip(i as int).drop_first() == s.skip(i + 1));
                acc = a;
                remaining = rest;
                i = i + 1;
            } else {
                let mut unsold = b;
                let sold = match unsold.sell_fraction(remaining) {
                    Some(sold) => sold,
                    None => return Err(TaxError::Overflow),
                };
                let a = match acc.checked_add(&sold.amount_fiat) {
                    Some(a) => a,
                    None => return Err(TaxError::Overflow),
                };
                let mut kept: Vec<Block> = Vec::new();
                kept.push(unsold);
                let mut j: usize = i + 1;
                while j < n
                    invariant
                        self.blocks@ == s,
                        n == s.len(),
                        blocks_wf(s),
                        i < j <= n,
                        unsold.wf(),
                        kept@ == seq![unsold] + s.subrange(i + 1, j as int),
                    decreases n - j,
                {
                    kept.push(self.blocks[j]);
                    assert(s.subrange(i + 1, j + 1) == s.subrange(i + 1, j as int).push(s[j as int]));
                    j = j + 1;
                }
                assert(s.subrange(i + 1, n as int) == s.skip(i as int).drop_first());
                assert(blocks_wf(kept@)) by {
                    assert forall|k: int| 0 <= k < kept@.len() implies #[trigger] kept@[k].wf() by {
                        if k > 0 {
                            assert(kept@[k] == s[i + k]);
                        }
                    }
                }
                self.blocks = kept;
                return Ok(a);
            }
        }
        let mut kept: Vec<Block> = Vec::new();
        let mut j: usize = i;
        while j < n
            invariant
                self.blocks@ == s,
                n == s.len(),
                blocks_wf(s),
                i <= j <= n,
                kept@ == s.subrange(i as int, j as int),
            decreases n - j,
        {
            kept.push(self.blocks[j]);
            assert(s.subrange(i as int, j + 1) == s.subrange(i as int, j as int).push(s[j as int]));
            j = j + 1;
        }
        assert(kept@ == s.skip(i as int));
        assert(blocks_wf(kept@)) by {
            assert forall|k: int| 0 <= k < kept@.len() implies #[trigger] kept@[k].wf() by {
                assert(kept@[k] == s[i + k]);
            }
        }
        self.blocks = kept;
        Ok(acc)
    }

    /// Replaces all lots by one that holds their total cost basis and their
    /// total quantity plus `amount_asset`: a quantity change that keeps the
    /// cost basis. On overflow the wallet is left as it was.
    pub fn stock_split(&mut self, amount_asset: Dec) -> (r: Result<(), TaxError>)
        requires
            old(self).wf(),
            amount_asset.wf(),
        ensures
            final(self).wf(),
            match split_total_of(old(self)@, amount_asset) {
                Some(b) => r is Ok && final(self)@ == seq![b],
                None => r == Err::<(), TaxError>(TaxError::Overflow) && final(self)@ == old(self)@,
            },
    {
        let amount_fiat = match self.amount_fiat() {
            Some(f) => f,
            None => return Err(TaxError::Overflow),
        };
        let held = match self.amount_asset() {
            Some(q) => q,
            None => return Err(TaxError::Overflow),
        };
        let new_amount_asset = match held.checked_add(&amount_asset) {
            Some(q) => q,
            None => return Err(TaxError::Overflow),
        };
        let mut blocks: Vec<Block> = Vec::new();
        blocks.push(Block::new(new_amount_asset, amount_fiat));
        self.blocks = blocks;
        assert(self.blocks@ == seq![Block { amount_asset: new_amount_asset, amount_fiat }]);
        Ok(())
    }
}



/// Selling more than the lots hold fails with `InsufficientBalance`, and
/// (by the contract of `Wallet::sell`) leaves the wallet as it was.
pub proof fn lemma_sell_beyond_holding(s: Seq<Block>, amount: Dec)
    requires
        total_asset(s) matches Some(t) && t.units() < amount.units(),
    ensures
        sell_of(s, amount) == Err::<(Dec, Seq<Block>), TaxError>(TaxError::InsufficientBalance),
{
}

/// An in-kind credit keeps the total cost basis exactly; the quantity becomes
/// the old total plus the credit.
pub proof fn lemma_in_kind_keeps_cost(s: Seq<Block>, extra: Dec)
    requires
        split_total_of(s, extra) is Some,
    ensures
        total_fiat(seq![split_total_of(s, extra)->Some_0]) == total_fiat(s),
        total_asset(seq![split_total_of(s, extra)->Some_0]) == match total_asset(s) {
            Some(q) => sum_of(q, extra),
            None => None,
        },
        (total_asset(s) matches Some(q) && q.wf() && extra.wf() && (q.mantissa == 0 || extra.mantissa == 0
            || crate::decimal::add_fits(q, extra))) ==> (total_asset(seq![split_total_of(s, extra)->Some_0]) matches Some(
            n,
        ) && n.units() == total_asset(s)->Some_0.units() + extra.units()),
{
    let b = split_total_of(s, extra)->Some_0;
    let one = seq![b];
    let zero = Dec::from_parts(0, 0);
    assert(one.drop_last() =~= Seq::<Block>::empty());
    assert(one.last() == b);
    assert(total_fiat(one.drop_last()) == Some(zero));
    assert(total_asset(one.drop_last()) == Some(zero));
    assert(zero.mantissa == 0);
    assert(total_fiat(one) == sum_of(zero, b.amount_fiat));
    assert(total_asset(one) == sum_of(zero, b.amount_asset));
    if let Some(q) = total_asset(s) {
        if q.wf() && extra.wf() && (q.mantissa == 0 || extra.mantissa == 0 || crate::decimal::add_fits(q, extra)) {
            crate::decimal::lemma_exact_sum(q, extra);
        }
    }
}

/// The sum of the quantities of the lots, in units of 10^-28.
pub open spec fn asset_units(s: Seq<Block>) -> int
    decreases s.len(),
{
    if s.len() == 0 {
        0
    } else {
        asset_units(s.drop_last()) + s.last().amount_asset.units()
    }
}

/// The sum of the costs of the lots, in units of 10^-28.
pub open spec fn fiat_units(s: Seq<Block>) -> int
    decreases s.len(),
{
    if s.len() == 0 {
        0
    } else {
        fiat_units(s.drop_last()) + s.last().amount_fiat.units()
    }
}

/// Consuming the lots `s` whole, oldest first, with `remaining` left to sell
/// and `acc` consumed: every running sum of costs and every running difference
/// of quantities is exact.
pub open spec fn exact_run(s: Seq<Block>, remaining: Dec, acc: Dec) -> bool
    decreases s.len(),
{
    s.len() == 0 || match (sum_of(acc, s[0].amount_fiat), difference_of(remaining, s[0].amount_asset)) {
        (Some(a), Some(r)) => a.units() == acc.units() + s[0].amount_fiat.units() && r.units()
            == remaining.units() - s[0].amount_asset.units() && exact_run(s.drop_first(), r, a),
        _ => false,
    }
}

/// Lots whose quantities are all positive.
pub open spec fn positive_lots(s: Seq<Block>) -> bool {
    forall|i: int| 0 <= i < s.len() ==> (#[trigger] s[i]).amount_asset.units() > 0
}

proof fn lemma_units_front(s: Seq<Block>)
    requires
        s.len() > 0,
    ensures
        asset_units(s) == s[0].amount_asset.units() + asset_units(s.drop_first()),
        fiat_units(s) == s[0].amount_fiat.units() + fiat_units(s.drop_first()),
    decreases s.len(),
{
    if s.len() > 1 {
        let t = s.drop_last();
        lemma_units_front(t);
        assert(t.drop_first() == s.drop_first().drop_last());
        assert(s.drop_first().last() == s.last());
        assert(t[0] == s[0]);
        assert(asset_units(s.drop_first()) == asset_units(t.drop_first()) + s.last().amount_asset.units());
        assert(fiat_units(s.drop_first()) == fiat_units(t.drop_first()) + s.last().amount_fiat.units());
    } else {
        assert(s.drop_last().len() == 0);
        assert(s.drop_first().len() == 0);
        assert(s.last() == s[0]);
        assert(asset_units(s.drop_last()) == 0);
        assert(fiat_units(s.drop_last()) == 0);
        assert(asset_units(s.drop_first()) == 0);
        assert(fiat_units(s.drop_first()) == 0);
    }
}

proof fn lemma_positive_units(s: Seq<Block>)
    requires
        positive_lots(s),
    ensures
        asset_units(s) >= 0,
    decreases s.len(),
{
    if s.len() > 0 {
        let t = s.drop_last();
        assert forall|i: int| 0 <= i < t.len() implies (#[trigger] t[i]).amount_asset.units() > 0 by {
            assert(t[i] == s[i]);
        }
        lemma_positive_units(t);
        assert(s.last() == s[s.len() - 1]);
    }
}

/// Consuming positive lots with exactly their total quantity left to sell, all
/// running sums exact: every lot is consumed whole, adding all their costs.
proof fn lemma_consume_exact(s: Seq<Block>, remaining: Dec, acc: Dec)
    requires
        positive_lots(s),
        remaining.units() == asset_units(s),
        exact_run(s, remaining, acc),
    ensures
        consume(s, remaining, acc) matches Ok((c, kept)) && kept.len() == 0 && c.units() == acc.units()
            + fiat_units(s),
    decreases s.len(),
{
    if s.len() > 0 {
        let b = s[0];
        let rest = s.drop_first();
        lemma_units_front(s);
        assert forall|i: int| 0 <= i < rest.len() implies (#[trigger] rest[i]).amount_asset.units() > 0 by {
            assert(rest[i] == s[i + 1]);
        }
        lemma_positive_units(rest);
        assert(b.amount_asset.units() > 0);
        crate::decimal::lemma_units_sign(remaining);
        assert(remaining.mantissa != 0);
        assert(b.amount_asset.units() <= remaining.units());
        let a = sum_of(acc, b.amount_fiat)->Some_0;
        let r = difference_of(remaining, b.amount_asset)->Some_0;
        lemma_consume_exact(rest, r, a);
    }
}

/// Selling exactly the quantity held, where every running sum is exact,
/// consumes every lot, returns the sum of all their costs, and leaves the
/// wallet with zero quantity and zero cost.
pub proof fn lemma_sell_everything(s: Seq<Block>, amount: Dec)
    requires
        positive_lots(s),
        total_asset(s) matches Some(t) && t.units() == asset_units(s),
        amount.units() == asset_units(s),
        exact_run(s, amount, Dec::from_parts(0, 0)),
    ensures
        sell_of(s, amount) matches Ok((cost, kept)) && cost.units() == fiat_units(s) && kept.len() == 0
            && total_asset(kept) == Some(Dec::from_parts(0, 0)) && total_fiat(kept) == Some(
            Dec::from_parts(0, 0),
        ),
{
    let zero = Dec::from_parts(0, 0);
    crate::decimal::lemma_units_sign(zero);
    lemma_consume_exact(s, amount, zero);
}

/// Selling `amount`, less than the quantity of a single lot, splits the lot:
/// the cost returned is the lot's cost times `amount` over its quantity (as
/// the decimal operations round it), and the lot keeps the rest of its
/// quantity and of its cost. Where the differences are exact, quantity and
/// cost are conserved across the split.
pub proof fn lemma_partial_sale(b: Block, amount: Dec)
    requires
        b.wf(),
        amount.wf(),
        0 < amount.units() < b.amount_asset.units(),
    ensures
        sell_of(seq![b], amount) == match split_of(b, amount) {
            Some((unsold, sold)) => Ok::<(Dec, Seq<Block>), TaxError>((sold.amount_fiat, seq![unsold])),
            None => Err::<(Dec, Seq<Block>), TaxError>(TaxError::Overflow),
        },
        split_of(b, amount) matches Some((unsold, sold)) ==> {
            &&& sold.amount_asset == amount
            &&& Some(sold.amount_fiat) == fraction_cost_of(b, amount)
            &&& (sold.amount_fiat.wf() && crate::decimal::sub_fits(b.amount_fiat, sold.amount_fiat)
                ==> unsold.amount_fiat.units() + sold.amount_fiat.units() == b.amount_fiat.units())
            &&& (crate::decimal::sub_fits(b.amount_asset, amount) ==> unsold.amount_asset.units()
                + amount.units() == b.amount_asset.units())
        },
{
    let one = seq![b];
    let zero = Dec::from_parts(0, 0);
    assert(one.drop_last() =~= Seq::<Block>::empty());
    assert(total_asset(one.drop_last()) == Some(zero));
    assert(total_asset(one) == Some(b.amount_asset));
    assert(amount.mantissa != 0) by (nonlinear_arith)
        requires
            amount.units() > 0,
            amount.units() == amount.mantissa * vstd::arithmetic::power::pow(10, (28 - amount.scale) as nat),
    ;
    assert(one[0] == b);
    assert(!(b.amount_asset.units() <= amount.units()));
    match split_of(b, amount) {
        Some((unsold, sold)) => {
            assert(sum_of(zero, sold.amount_fiat) == Some(sold.amount_fiat));
            assert(one.drop_first() =~= Seq::<Block>::empty());
            assert(seq![unsold] + one.drop_first() =~= seq![unsold]);
            if sold.amount_fiat.wf() && crate::decimal::sub_fits(b.amount_fiat, sold.amount_fiat) {
                crate::decimal::lemma_exact_difference(b.amount_fiat, sold.amount_fiat);
            }
            if crate::decimal::sub_fits(b.amount_asset, amount) {
                crate::decimal::lemma_exact_difference(b.amount_asset, amount);
            }
        },
        None => {},
    }
}

} // verus!
