//! The figures of the yearly return's sections for capital gains (RT) and for
//! foreign-held assets (RW).

use crate::capital_diff::{CapitalDiff, CapitalDiffView, Diff};
use crate::decimal::{difference_of, rounded_of, sum_of, Dec};
use crate::error::TaxError;
use crate::gains::{all_wf, views, GainsAndLosses};
use crate::fold::lemma_none_persists;
use vstd::prelude::*;

verus! {

/// The absolute value of an amount.
pub open spec fn abs_of(d: Dec) -> Dec {
    if d.mantissa < 0 {
        Dec::from_parts(-d.mantissa, d.scale as nat)
    } else {
        d
    }
}

/// The absolute value of an amount.
pub fn abs(d: Dec) -> (r: Dec)
    requires
        d.wf(),
    ensures
        r == abs_of(d),
        r.wf(),
{
    if d.mantissa < 0 {
        Dec::new(-d.mantissa, d.scale)
    } else {
        d
    }
}

/// The sum of the absolute values of the events of `s` (of its losses only
/// when `losses_only`), in order from zero.
pub open spec fn abs_total(s: Seq<CapitalDiffView>, losses_only: bool) -> Option<Dec>
    decreases s.len(),
{
    if s.len() == 0 {
        Some(Dec::from_parts(0, 0))
    } else {
        match abs_total(s.drop_last(), losses_only) {
            None => None,
            Some(t) => if !losses_only || s.last().diff == Diff::Loss {
                sum_of(t, abs_of(s.last().value))
            } else {
                Some(t)
            },
        }
    }
}

/// A section of the capital-gains part for one tax rate.
#[derive(Debug)]
pub struct Section {
    /// The total of the gains and losses, as absolute values.
    pub total_sold: Dec,
    /// The total of the losses, as an absolute value.
    pub loss: Dec,
    /// The net loss, when the difference is negative.
    pub net_loss: Option<Dec>,
    /// The net gain, when the difference is not negative.
    pub net_gain: Option<Dec>,
}

/// A section as a mathematical value: total sold, loss, net loss, net gain.
pub type SectionView = (Dec, Dec, Option<Dec>, Option<Dec>);

/// The section of the events `s`: totals rounded to two places, and their
/// difference as a net gain or, when negative, as a net loss.
pub open spec fn section_of(s: Seq<CapitalDiffView>) -> Result<SectionView, TaxError> {
    match (abs_total(s, false), abs_total(s, true)) {
        (Some(t), Some(l)) => {
            let total_sold = rounded_of(t, 2);
            let loss = rounded_of(l, 2);
            match difference_of(total_sold, loss) {
                Some(d) => if d.mantissa < 0 {
                    Ok((total_sold, loss, Some(abs_of(d)), None))
                } else {
                    Ok((total_sold, loss, None, Some(d)))
                },
                None => Err(TaxError::Overflow),
            }
        },
        _ => Err(TaxError::Overflow),
    }
}

impl Section {
    pub open spec fn view(&self) -> SectionView {
        (self.total_sold, self.loss, self.net_loss, self.net_gain)
    }
}

fn abs_sum(capitals: &Vec<CapitalDiff>, losses_only: bool) -> (r: Option<Dec>)
    requires
        all_wf(views(capitals@)),
    ensures
        r == abs_total(views(capitals@), losses_only),
        r matches Some(t) ==> t.wf(),
{
    let ghost s = views(capitals@);
    let mut total = Dec::zero();
    let mut i: usize = 0;
    while i < capitals.len()
        invariant
            s == views(capitals@),
            all_wf(s),
            i <= s.len(),
            total.wf(),
            abs_total(s.take(i as int), losses_only) == Some(total),
        decreases s.len() - i,
    {
        let c = &capitals[i];
        assert(s[i as int] == c@);
        assert(s[i as int].wf());
        assert(s.take(i + 1).drop_last() == s.take(i as int));
        if !losses_only || c.is_loss() {
            total = match total.checked_add(&abs(c.value())) {
                Some(t) => t,
                None => {
                    proof {
                        lemma_none_persists(|t: Seq<CapitalDiffView>| abs_total(t, losses_only), s, i + 1);
                    }
                    return None;
                },
            };
        }
        i = i + 1;
    }
    assert(s.take(i as int) == s);
    Some(total)
}

fn section(gains_and_losses: &GainsAndLosses) -> (r: Result<Section, TaxError>)
    requires
        gains_and_losses.wf(),
    ensures
        match section_of(gains_and_losses@) {
            Ok(v) => r matches Ok(sec) && sec.view() == v,
            Err(e) => r matches Err(e2) && e2 == e,
        },
{
    let capitals = gains_and_losses.iter();
    let total = match abs_sum(capitals, false) {
        Some(t) => t,
        None => return Err(TaxError::Overflow),
    };
    let losses = match abs_sum(capitals, true) {
        Some(t) => t,
        None => return Err(TaxError::Overflow),
    };
    let total_sold = total.round_dp(2);
    let loss = losses.round_dp(2);
    match total_sold.checked_sub(&loss) {
        Some(d) => if d.is_negative() {
            Ok(Section { total_sold, loss, net_loss: Some(abs(d)), net_gain: None })
        } else {
            Ok(Section { total_sold, loss, net_loss: None, net_gain: Some(d) })
        },
        None => Err(TaxError::Overflow),
    }
}

/// The section for the gains and losses taxed at 12.5%.
#[derive(Debug)]
pub struct Sezione1 {
    pub rt1: Dec,
    pub rt2_col3: Dec,
    pub rt3_col1: Option<Dec>,
    pub rt3_col2: Option<Dec>,
}

/// The section for the gains and losses taxed at 26%.
#[derive(Debug)]
pub struct Sezione2 {
    pub rt21: Dec,
    pub rt22_col3: Dec,
    pub rt23_col1: Option<Dec>,
    pub rt23_col2: Option<Dec>,
}

impl Sezione1 {
    /// The section of `gains_and_losses_12_percent`.
    pub fn prepare(gains_and_losses_12_percent: GainsAndLosses) -> (r: Result<Sezione1, TaxError>)
        requires
            gains_and_losses_12_percent.wf(),
        ensures
            match section_of(gains_and_losses_12_percent@) {
                Ok(v) => r matches Ok(sec) && (sec.rt1, sec.rt2_col3, sec.rt3_col1, sec.rt3_col2) == v,
                Err(e) => r matches Err(e2) && e2 == e,
            },
    {
        match section(&gains_and_losses_12_percent) {
            Ok(s) => Ok(Sezione1 { rt1: s.total_sold, rt2_col3: s.loss, rt3_col1: s.net_loss, rt3_col2: s.net_gain }),
            Err(e) => Err(e),
        }
    }
}

impl Sezione2 {
    /// The section of `gains_and_losses_26_percent`.
    pub fn prepare(gains_and_losses_26_percent: GainsAndLosses) -> (r: Result<Sezione2, TaxError>)
        requires
            gains_and_losses_26_percent.wf(),
        ensures
            match section_of(gains_and_losses_26_percent@) {
                Ok(v) => r matches Ok(sec) && (sec.rt21, sec.rt22_col3, sec.rt23_col1, sec.rt23_col2) == v,
                Err(e) => r matches Err(e2) && e2 == e,
            },
    {
        match section(&gains_and_losses_26_percent) {
            Ok(s) => Ok(
                Sezione2 { rt21: s.total_sold, rt22_col3: s.loss, rt23_col1: s.net_loss, rt23_col2: s.net_gain },
            ),
            Err(e) => Err(e),
        }
    }
}

/// The events of `s` whose tax rate equals `rate` in value, in order.
pub open spec fn with_rate(s: Seq<CapitalDiffView>, rate: Dec) -> Seq<CapitalDiffView>
    decreases s.len(),
{
    if s.len() == 0 {
        seq![]
    } else {
        let f = with_rate(s.drop_last(), rate);
        if s.last().tax_percentage.units() == rate.units() {
            f.push(s.last())
        } else {
            f
        }
    }
}

fn select_rate(gains_and_losses: &GainsAndLosses, rate: Dec) -> (r: GainsAndLosses)
    requires
        gains_and_losses.wf(),
        rate.wf(),
    ensures
        r@ == with_rate(gains_and_losses@, rate),
        r.wf(),
{
    let capitals = gains_and_losses.iter();
    let ghost s = views(capitals@);
    let mut out: Vec<CapitalDiff> = Vec::new();
    let mut i: usize = 0;
    assert(views(out@) =~= Seq::<CapitalDiffView>::empty());
    while i < capitals.len()
        invariant
            s == views(capitals@),
            all_wf(s),
            rate.wf(),
            i <= s.len(),
            views(out@) == with_rate(s.take(i as int), rate),
            all_wf(views(out@)),
        decreases s.len() - i,
    {
        let c = &capitals[i];
        assert(s[i as int] == c@);
        assert(s[i as int].wf());
        assert(s.take(i + 1).drop_last() == s.take(i as int));
        assert(s.take(i + 1).last() == c@);
        if c.tax_percentage().same_value(&rate) {
            let ghost before = views(out@);
            out.push(c.cloned());
            assert(views(out@) == before.push(c@));
        }
        i = i + 1;
    }
    assert(s.take(i as int) == s);
    GainsAndLosses::new(out)
}

/// The capital-gains part of the return: one section per tax rate.
#[derive(Debug)]
pub struct QuadroRt {
    pub sezione_1: Sezione1,
    pub sezione_2: Sezione2,
}

impl QuadroRt {
    /// The sections of the events taxed at 12.5% and at 26%.
    pub fn prepare(gains_and_losses: &GainsAndLosses) -> (r: Result<QuadroRt, TaxError>)
        requires
            gains_and_losses.wf(),
        ensures
            match (
                section_of(with_rate(gains_and_losses@, Dec::from_parts(125, 1))),
                section_of(with_rate(gains_and_losses@, Dec::from_parts(260, 1))),
            ) {
                (Ok(a), Ok(b)) => r matches Ok(q) && (
                q.sezione_1.rt1,
                q.sezione_1.rt2_col3,
                q.sezione_1.rt3_col1,
                q.sezione_1.rt3_col2,
            ) == a && (q.sezione_2.rt21, q.sezione_2.rt22_col3, q.sezione_2.rt23_col1, q.sezione_2.rt23_col2)
                == b,
                _ => r is Err,
            },
    {
        let reduced = select_rate(gains_and_losses, Dec::new(125, 1));
        let ordinary = select_rate(gains_and_losses, Dec::new(260, 1));
        let sezione_1 = match Sezione1::prepare(reduced) {
            Ok(s) => s,
            Err(e) => return Err(e),
        };
        let sezione_2 = match Sezione2::prepare(ordinary) {
            Ok(s) => s,
            Err(e) => return Err(e),
        };
        Ok(QuadroRt { sezione_1, sezione_2 })
    }
}

/// The foreign-assets part of the return.
#[derive(Debug)]
pub struct QuadroRw {
    /// The average balance, rounded to two places.
    pub rw1_column8: Dec,
    /// The wealth tax, rounded to two places.
    pub rw1_column11: Dec,
}

impl QuadroRw {
    /// The part for average balance `avg_balance` and wealth tax `ivafe`.
    pub fn prepare(avg_balance: Dec, ivafe: Dec) -> (r: QuadroRw)
        requires
            avg_balance.wf(),
            ivafe.wf(),
        ensures
            r.rw1_column8 == rounded_of(avg_balance, 2),
            r.rw1_column11 == rounded_of(ivafe, 2),
    {
        QuadroRw { rw1_column8: avg_balance.round_dp(2), rw1_column11: ivafe.round_dp(2) }
    }
}

/// The figures of the return.
#[derive(Debug)]
pub struct Module730 {
    pub quadro_rt: QuadroRt,
    pub quadro_rw: QuadroRw,
}

impl Module730 {
    /// The figures for `average_balance`, `ivafe` and `gains_and_losses`.
    pub fn prepare(average_balance: Dec, ivafe: Dec, gains_and_losses: &GainsAndLosses) -> (r: Result<
        Module730,
        TaxError,
    >)
        requires
            average_balance.wf(),
            ivafe.wf(),
            gains_and_losses.wf(),
        ensures
            match (
                section_of(with_rate(gains_and_losses@, Dec::from_parts(125, 1))),
                section_of(with_rate(gains_and_losses@, Dec::from_parts(260, 1))),
            ) {
                (Ok(a), Ok(b)) => r matches Ok(m) && (
                m.quadro_rt.sezione_1.rt1,
                m.quadro_rt.sezione_1.rt2_col3,
                m.quadro_rt.sezione_1.rt3_col1,
                m.quadro_rt.sezione_1.rt3_col2,
            ) == a && (
                m.quadro_rt.sezione_2.rt21,
                m.quadro_rt.sezione_2.rt22_col3,
                m.quadro_rt.sezione_2.rt23_col1,
                m.quadro_rt.sezione_2.rt23_col2,
            ) == b && m.quadro_rw.rw1_column8 == rounded_of(average_balance, 2)
                && m.quadro_rw.rw1_column11 == rounded_of(ivafe, 2),
                _ => r is Err,
            },
    {
        let quadro_rt = match QuadroRt::prepare(gains_and_losses) {
            Ok(q) => q,
            Err(e) => return Err(e),
        };
        Ok(Module730 { quadro_rt, quadro_rw: QuadroRw::prepare(average_balance, ivafe) })
    }
}

} // verus!
