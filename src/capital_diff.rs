//! A realized capital gain or loss on one asset.

use crate::asset::{Asset, AssetClass, AssetView};
use crate::decimal::{div_result, product_of, Dec};
use crate::error::TaxError;
use vstd::prelude::*;

verus! {

/// Whether a capital difference is a gain or a loss.
#[derive(Clone, Copy, Debug, PartialEq, Eq, Structural)]
pub enum Diff {
    Gain,
    Loss,
}

/// A realized gain (positive value) or loss (negative value) on an asset, with
/// the tax rate in percent and the tax it owes.
#[derive(Debug)]
pub struct CapitalDiff {
    diff: Diff,
    asset: Asset,
    asset_class: AssetClass,
    tax: Dec,
    tax_percentage: Dec,
    value: Dec,
}

/// A capital difference as a mathematical value.
pub struct CapitalDiffView {
    pub diff: Diff,
    pub asset: AssetView,
    pub asset_class: AssetClass,
    pub tax: Dec,
    pub tax_percentage: Dec,
    pub value: Dec,
}

/// One hundred percent.
pub open spec fn hundred() -> Dec {
    Dec::from_parts(1000, 1)
}

/// A tax rate in percent within `[0, 100]`.
pub open spec fn valid_rate(rate: Dec) -> bool {
    rate.wf() && 0 <= rate.units() <= hundred().units()
}

/// The tax on a gain of `value` at `rate` percent: `value` times the rate
/// over one hundred.
pub open spec fn gain_tax_of(value: Dec, rate: Dec) -> Option<Dec> {
    match div_result(rate, hundred()) {
        Some(f) => product_of(value, f),
        None => None,
    }
}

/// The gain event that `CapitalDiff::gain` builds, or why it cannot.
pub open spec fn gain_of(asset: AssetView, asset_class: AssetClass, rate: Dec, value: Dec) -> Result<
    CapitalDiffView,
    TaxError,
> {
    if !valid_rate(rate) || value.units() <= 0 {
        Err(TaxError::InvalidEventConstruction)
    } else {
        match gain_tax_of(value, rate) {
            Some(tax) => Ok(
                CapitalDiffView {
                    diff: Diff::Gain,
                    asset,
                    asset_class,
                    tax,
                    tax_percentage: rate,
                    value,
                },
            ),
            None => Err(TaxError::Overflow),
        }
    }
}

/// The loss event that `CapitalDiff::loss` builds, or why it cannot.
pub open spec fn loss_of(asset: AssetView, asset_class: AssetClass, rate: Dec, value: Dec) -> Result<
    CapitalDiffView,
    TaxError,
> {
    if !valid_rate(rate) || value.units() >= 0 {
        Err(TaxError::InvalidEventConstruction)
    } else {
        Ok(
            CapitalDiffView {
                diff: Diff::Loss,
                asset,
                asset_class,
                tax: Dec::from_parts(0, 0),
                tax_percentage: rate,
                value,
            },
        )
    }
}

impl CapitalDiffView {
    /// What the constructors guarantee: the sign of the value matches the tag,
    /// the rate is valid, and the tax is the one derived from value and rate.
    pub open spec fn wf(self) -> bool {
        &&& self.value.wf()
        &&& self.tax.wf()
        &&& valid_rate(self.tax_percentage)
        &&& match self.diff {
            Diff::Gain => gain_of(self.asset, self.asset_class, self.tax_percentage, self.value) == Ok::<
                CapitalDiffView,
                TaxError,
            >(self),
            Diff::Loss => loss_of(self.asset, self.asset_class, self.tax_percentage, self.value) == Ok::<
                CapitalDiffView,
                TaxError,
            >(self),
        }
    }
}

impl View for CapitalDiff {
    type V = CapitalDiffView;

    closed spec fn view(&self) -> CapitalDiffView {
        CapitalDiffView {
            diff: self.diff,
            asset: self.asset@,
            asset_class: self.asset_class,
            tax: self.tax,
            tax_percentage: self.tax_percentage,
            value: self.value,
        }
    }
}

impl CapitalDiff {
    /// A gain of `value` (positive) on `asset`, taxed at `tax_percentage`
    /// percent (within `[0, 100]`); `InvalidEventConstruction` otherwise.
    pub fn gain(asset: Asset, asset_class: AssetClass, tax_percentage: Dec, value: Dec) -> (r: Result<
        CapitalDiff,
        TaxError,
    >)
        requires
            tax_percentage.wf(),
            value.wf(),
        ensures
            match gain_of(asset@, asset_class, tax_percentage, value) {
                Ok(v) => r matches Ok(c) && c@ == v,
                Err(e) => r == Err::<CapitalDiff, TaxError>(e),
            },
            r matches Ok(c) ==> c@.wf(),
    {
        let hundred = Dec::new(1000, 1);
        if tax_percentage.lt(&Dec::zero()) || hundred.lt(&tax_percentage) || value.le(&Dec::zero()) {
            return Err(TaxError::InvalidEventConstruction);
        }
        let fraction = match tax_percentage.checked_div(&hundred) {
            Some(f) => f,
            None => return Err(TaxError::Overflow),
        };
        let tax = match value.checked_mul(&fraction) {
            Some(t) => t,
            None => return Err(TaxError::Overflow),
        };
        let r = CapitalDiff { diff: Diff::Gain, asset, asset_class, tax, tax_percentage, value };
        assert(r@ == gain_of(r.asset@, asset_class, tax_percentage, value)->Ok_0);
        Ok(r)
    }

    /// A loss of `value` (negative) on `asset`, recorded with `tax_percentage`
    /// percent (within `[0, 100]`) and no tax; `InvalidEventConstruction` otherwise.
    pub fn loss(asset: Asset, asset_class: AssetClass, tax_percentage: Dec, value: Dec) -> (r: Result<
        CapitalDiff,
        TaxError,
    >)
        requires
            tax_percentage.wf(),
            value.wf(),
        ensures
            match loss_of(asset@, asset_class, tax_percentage, value) {
                Ok(v) => r matches Ok(c) && c@ == v,
                Err(e) => r == Err::<CapitalDiff, TaxError>(e),
            },
            r matches Ok(c) ==> c@.wf(),
    {
        let hundred = Dec::new(1000, 1);
        if tax_percentage.lt(&Dec::zero()) || hundred.lt(&tax_percentage) || Dec::zero().le(&value) {
            return Err(TaxError::InvalidEventConstruction);
        }
        let r = CapitalDiff {
            diff: Diff::Loss,
            asset,
            asset_class,
            tax: Dec::zero(),
            tax_percentage,
            value,
        };
        Ok(r)
    }

    /// A copy of this capital difference.
    pub fn cloned(&self) -> (r: CapitalDiff)
        ensures
            r@ == self@,
    {
        CapitalDiff {
            diff: self.diff,
            asset: self.asset.cloned(),
            asset_class: self.asset_class,
            tax: self.tax,
            tax_percentage: self.tax_percentage,
            value: self.value,
        }
    }

    /// Whether this is a gain.
    pub fn is_gain(&self) -> (r: bool)
        ensures
            r == (self@.diff == Diff::Gain),
    {
        self.diff == Diff::Gain
    }

    /// Whether this is a loss.
    pub fn is_loss(&self) -> (r: bool)
        ensures
            r == (self@.diff == Diff::Loss),
    {
        self.diff == Diff::Loss
    }

    /// The asset of the gain or loss.
    pub fn asset(&self) -> (r: &Asset)
        ensures
            r@ == self@.asset,
    {
        &self.asset
    }

    /// The class of the asset.
    pub fn asset_class(&self) -> (r: AssetClass)
        ensures
            r == self@.asset_class,
    {
        self.asset_class
    }

    /// The tax owed: zero for a loss.
    pub fn tax(&self) -> (r: Dec)
        ensures
            r == self@.tax,
    {
        self.tax
    }

    /// The tax rate in percent.
    pub fn tax_percentage(&self) -> (r: Dec)
        ensures
            r == self@.tax_percentage,
    {
        self.tax_percentage
    }

    /// The value: positive for a gain, negative for a loss.
    pub fn value(&self) -> (r: Dec)
        ensures
            r == self@.value,
    {
        self.value
    }
}

} // verus!
