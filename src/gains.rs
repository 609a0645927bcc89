//! The realized gains and losses of a run, their netting per asset, and
//! their totals.

use crate::asset::{Asset, AssetView};
use crate::capital_diff::{gain_of, loss_of, CapitalDiff, CapitalDiffView, Diff};
use crate::decimal::{sum_of, Dec};
use crate::error::TaxError;
use crate::fold::{lemma_err_persists, lemma_none_persists};
use vstd::prelude::*;

verus! {

/// The capital gains and losses of a run.
#[derive(Debug)]
pub struct GainsAndLosses {
    capitals: Vec<CapitalDiff>,
}

/// The views of a sequence of capital differences.
pub open spec fn views(s: Seq<CapitalDiff>) -> Seq<CapitalDiffView> {
    s.map_values(|c: CapitalDiff| c@)
}

pub open spec fn all_wf(s: Seq<CapitalDiffView>) -> bool {
    forall|i: int| 0 <= i < s.len() ==> (#[trigger] s[i]).wf()
}

/// The assets of `s`, each once, in the order of their first occurrence.
pub open spec fn distinct_assets(s: Seq<CapitalDiffView>) -> Seq<AssetView>
    decreases s.len(),
{
    if s.len() == 0 {
        seq![]
    } else {
        let d = distinct_assets(s.drop_last());
        if d.contains(s.last().asset) {
            d
        } else {
            d.push(s.last().asset)
        }
    }
}

/// The events of `s` on asset `a`, in order.
pub open spec fn group_of(s: Seq<CapitalDiffView>, a: AssetView) -> Seq<CapitalDiffView>
    decreases s.len(),
{
    if s.len() == 0 {
        seq![]
    } else {
        let g = group_of(s.drop_last(), a);
        if s.last().asset == a {
            g.push(s.last())
        } else {
            g
        }
    }
}

/// The sum of the values of `g`, added up in order from zero.
pub open spec fn values_total(g: Seq<CapitalDiffView>) -> Option<Dec>
    decreases g.len(),
{
    if g.len() == 0 {
        Some(Dec::from_parts(0, 0))
    } else {
        match values_total(g.drop_last()) {
            Some(t) => sum_of(t, g.last().value),
            None => None,
        }
    }
}

/// The sum of the values of the gains (or of the losses) of `g`, in order from zero.
pub open spec fn tagged_total(g: Seq<CapitalDiffView>, tag: Diff) -> Option<Dec>
    decreases g.len(),
{
    if g.len() == 0 {
        Some(Dec::from_parts(0, 0))
    } else {
        match tagged_total(g.drop_last(), tag) {
            Some(t) => if g.last().diff == tag {
                sum_of(t, g.last().value)
            } else {
                Some(t)
            },
            None => None,
        }
    }
}

/// The sum of the taxes of `g`, in order from zero.
pub open spec fn tax_total(g: Seq<CapitalDiffView>) -> Option<Dec>
    decreases g.len(),
{
    if g.len() == 0 {
        Some(Dec::from_parts(0, 0))
    } else {
        match tax_total(g.drop_last()) {
            Some(t) => sum_of(t, g.last().tax),
            None => None,
        }
    }
}

/// The largest tax rate among the gains of `g` (among all events when
/// `gains_only` is false); of equal rates the last one.
pub open spec fn max_rate(g: Seq<CapitalDiffView>, gains_only: bool) -> Option<Dec>
    decreases g.len(),
{
    if g.len() == 0 {
        None
    } else {
        let m = max_rate(g.drop_last(), gains_only);
        let c = g.last();
        if gains_only && c.diff != Diff::Gain {
            m
        } else {
            match m {
                Some(x) => if x.units() <= c.tax_percentage.units() {
                    Some(c.tax_percentage)
                } else {
                    Some(x)
                },
                None => Some(c.tax_percentage),
            }
        }
    }
}

/// The one event that nets group `g` of events on one asset: none when the
/// values sum to zero, a gain at the largest rate among the gains when the sum
/// is positive, a loss when it is negative.
pub open spec fn net_of(g: Seq<CapitalDiffView>) -> Result<Option<CapitalDiffView>, TaxError> {
    match values_total(g) {
        None => Err(TaxError::Overflow),
        Some(t) => if t.mantissa == 0 {
            Ok(None)
        } else if t.mantissa > 0 {
            match max_rate(g, true) {
                None => Err(TaxError::InvalidEventConstruction),
                Some(rate) => match gain_of(g[0].asset, g[0].asset_class, rate, t) {
                    Ok(c) => Ok(Some(c)),
                    Err(e) => Err(e),
                },
            }
        } else {
            match max_rate(g, false) {
                None => Err(TaxError::InvalidEventConstruction),
                Some(rate) => match loss_of(g[0].asset, g[0].asset_class, rate, t) {
                    Ok(c) => Ok(Some(c)),
                    Err(e) => Err(e),
                },
            }
        }
    }
}

/// Netting the events of `s` for the assets `assets`, in that order.
pub open spec fn net_assets(assets: Seq<AssetView>, s: Seq<CapitalDiffView>) -> Result<
    Seq<CapitalDiffView>,
    TaxError,
>
    decreases assets.len(),
{
    if assets.len() == 0 {
        Ok(seq![])
    } else {
        match net_assets(assets.drop_last(), s) {
            Err(e) => Err(e),
            Ok(r) => match net_of(group_of(s, assets.last())) {
                Err(e) => Err(e),
                Ok(None) => Ok(r),
                Ok(Some(c)) => Ok(r.push(c)),
            },
        }
    }
}

/// Netting all events of `s`: one event per asset whose values do not sum to
/// zero, in the order of the assets' first occurrence.
pub open spec fn flatten_of(s: Seq<CapitalDiffView>) -> Result<Seq<CapitalDiffView>, TaxError> {
    net_assets(distinct_assets(s), s)
}

impl From<Vec<CapitalDiff>> for GainsAndLosses {
    fn from(capitals: Vec<CapitalDiff>) -> GainsAndLosses {
        GainsAndLosses { capitals }
    }
}

impl vstd::std_specs::convert::FromSpecImpl<Vec<CapitalDiff>> for GainsAndLosses {
    open spec fn obeys_from_spec() -> bool {
        true
    }

    closed spec fn from_spec(capitals: Vec<CapitalDiff>) -> GainsAndLosses {
        GainsAndLosses { capitals }
    }
}

impl View for GainsAndLosses {
    type V = Seq<CapitalDiffView>;

    closed spec fn view(&self) -> Seq<CapitalDiffView> {
        views(self.capitals@)
    }
}

impl GainsAndLosses {
    pub open spec fn wf(&self) -> bool {
        all_wf(self@)
    }

    /// The gains and losses `capitals`.
    pub fn new(capitals: Vec<CapitalDiff>) -> (r: GainsAndLosses)
        ensures
            r@ == views(capitals@),
    {
        GainsAndLosses { capitals }
    }

    /// The events, in order.
    pub fn iter(&self) -> (r: &Vec<CapitalDiff>)
        ensures
            views(r@) == self@,
    {
        &self.capitals
    }

    /// The sum of the values of the gains; `None` on overflow.
    pub fn gains_value(&self) -> (r: Option<Dec>)
        requires
            self.wf(),
        ensures
            r == tagged_total(self@, Diff::Gain),
    {
        self.tagged_value(Diff::Gain)
    }

    /// The sum of the values of the losses (negative); `None` on overflow.
    pub fn losses_value(&self) -> (r: Option<Dec>)
        requires
            self.wf(),
        ensures
            r == tagged_total(self@, Diff::Loss),
    {
        self.tagged_value(Diff::Loss)
    }

    /// Nets the events per asset: one event for each asset whose values do
    /// not sum to zero, a gain taxed at the largest rate among the asset's
    /// gains or a loss, in the order of the assets' first occurrence.
    pub fn flatten(self) -> (r: Result<GainsAndLosses, TaxError>)
        requires
            self.wf(),
        ensures
            match flatten_of(self@) {
                Ok(v) => r matches Ok(g) && g@ == v && g.wf(),
                Err(e) => r == Err::<GainsAndLosses, TaxError>(e),
            },
    {
        let ghost s = self@;
        let assets = distinct(&self.capitals);
        let ghost d = distinct_assets(s);
        let mut out: Vec<CapitalDiff> = Vec::new();
        let mut k: usize = 0;
        assert(d.take(0) =~= Seq::<AssetView>::empty());
        assert(views(out@) =~= Seq::<CapitalDiffView>::empty());
        while k < assets.len()
            invariant
                s == views(self.capitals@),
                all_wf(s),
                d == distinct_assets(s),
                asset_views(assets@) == d,
                k <= d.len(),
                net_assets(d.take(k as int), s) == Ok::<Seq<CapitalDiffView>, TaxError>(views(out@)),
                all_wf(views(out@)),
            decreases d.len() - k,
        {
            let group = group(&self.capitals, &assets[k]);
            assert(d[k as int] == assets@[k as int]@);
            proof {
                lemma_group_nonempty(s, d[k as int]);
                lemma_group_members(s, d[k as int]);
            }
            assert(d.take(k + 1).drop_last() == d.take(k as int));
            match net(group) {
                Err(e) => {
                    proof {
                        lemma_err_persists(|t: Seq<AssetView>| net_assets(t, s), d, k + 1);
                    }
                    return Err(e);
                },
                Ok(None) => {},
                Ok(Some(c)) => {
                    let ghost before = views(out@);
                    out.push(c);
                    assert(views(out@) == before.push(c@));
                },
            }
            k = k + 1;
        }
        assert(d.take(k as int) == d);
        Ok(GainsAndLosses { capitals: out })
    }

    fn tagged_value(&self, tag: Diff) -> (r: Option<Dec>)
        requires
            self.wf(),
        ensures
            r == tagged_total(self@, tag),
    {
        let ghost s = self@;
        let mut total = Dec::zero();
        let mut i: usize = 0;
        while i < self.capitals.len()
            invariant
                s == views(self.capitals@),
                all_wf(s),
                i <= s.len(),
                total.wf(),
                tagged_total(s.take(i as int), tag) == Some(total),
            decreases s.len() - i,
        {
            let c = &self.capitals[i];
            assert(s[i as int] == c@);
            assert(s[i as int].wf());
            assert(s.take(i + 1).drop_last() == s.take(i as int));
            if c.is_gain() == (tag == Diff::Gain) {
                total = match total.checked_add(&c.value()) {
                    Some(t) => t,
                    None => {
                        proof {
                            lemma_none_persists(|t: Seq<CapitalDiffView>| tagged_total(t, tag), s, i + 1);
                        }
                        return None;
                    },
                };
            }
            i = i + 1;
        }
        assert(s.take(i as int) == s);
        Some(total)
    }

    /// The total tax owed; `None` on overflow.
    pub fn tax_to_pay(&self) -> (r: Option<Dec>)
        requires
            self.wf(),
        ensures
            r == tax_total(self@),
    {
        let ghost s = self@;
        let mut total = Dec::zero();
        let mut i: usize = 0;
        while i < self.capitals.len()
            invariant
                s == views(self.capitals@),
                all_wf(s),
                i <= s.len(),
                total.wf(),
                tax_total(s.take(i as int)) == Some(total),
            decreases s.len() - i,
        {
            let c = &self.capitals[i];
            assert(s[i as int] == c@);
            assert(s[i as int].wf());
            assert(s.take(i + 1).drop_last() == s.take(i as int));
            total = match total.checked_add(&c.tax()) {
                Some(t) => t,
                None => {
                    proof {
                        lemma_none_persists(|t: Seq<CapitalDiffView>| tax_total(t), s, i + 1);
                    }
                    return None;
                },
            };
            i = i + 1;
        }
        assert(s.take(i as int) == s);
        Some(total)
    }
}

/// The views of a sequence of assets.
pub open spec fn asset_views(s: Seq<Asset>) -> Seq<AssetView> {
    s.map_values(|a: Asset| a@)
}

/// The assets of `capitals`, each once, in the order of their first occurrence.
fn distinct(capitals: &Vec<CapitalDiff>) -> (r: Vec<Asset>)
    ensures
        asset_views(r@) == distinct_assets(views(capitals@)),
{
    let ghost s = views(capitals@);
    let mut assets: Vec<Asset> = Vec::new();
    let mut i: usize = 0;
    while i < capitals.len()
        invariant
            s == views(capitals@),
            i <= s.len(),
            asset_views(assets@) == distinct_assets(s.take(i as int)),
        decreases s.len() - i,
    {
        let a = capitals[i].asset();
        assert(s.take(i + 1).drop_last() == s.take(i as int));
        assert(s.take(i + 1).last() == s[i as int]);
        let mut found = false;
        let mut j: usize = 0;
        while j < assets.len()
            invariant
                j <= assets@.len(),
                found == asset_views(assets@).take(j as int).contains(a@),
            decreases assets@.len() - j,
        {
            let same = assets[j].same(a);
            let ghost prev = asset_views(assets@).take(j as int);
            let ghost next = asset_views(assets@).take(j + 1);
            assert(next == prev.push(assets@[j as int]@));
            proof {
                if next.contains(a@) {
                    let w = choose|w: int| 0 <= w < next.len() && next[w] == a@;
                    if w < j {
                        assert(prev[w] == a@);
                    }
                }
                if prev.contains(a@) {
                    let w = choose|w: int| 0 <= w < prev.len() && prev[w] == a@;
                    assert(next[w] == a@);
                }
                if same {
                    assert(next[j as int] == a@);
                }
            }
            found = found || same;
            j = j + 1;
        }
        assert(asset_views(assets@).take(j as int) == asset_views(assets@));
        if !found {
            let ghost before = asset_views(assets@);
            assets.push(a.cloned());
            assert(asset_views(assets@) == before.push(a@));
        }
        i = i + 1;
    }
    assert(s.take(i as int) == s);
    assets
}

/// The events of `capitals` on `asset`, in order.
fn group(capitals: &Vec<CapitalDiff>, asset: &Asset) -> (r: Vec<CapitalDiff>)
    ensures
        views(r@) == group_of(views(capitals@), asset@),
{
    let ghost s = views(capitals@);
    let mut g: Vec<CapitalDiff> = Vec::new();
    let mut i: usize = 0;
    while i < capitals.len()
        invariant
            s == views(capitals@),
            i <= s.len(),
            views(g@) == group_of(s.take(i as int), asset@),
        decreases s.len() - i,
    {
        assert(s.take(i + 1).drop_last() == s.take(i as int));
        assert(s.take(i + 1).last() == capitals@[i as int]@);
        if capitals[i].asset().same(asset) {
            let ghost before = views(g@);
            g.push(capitals[i].cloned());
            assert(views(g@) == before.push(capitals@[i as int]@));
        }
        i = i + 1;
    }
    assert(s.take(i as int) == s);
    g
}

/// The one event that nets a non-empty group of events on one asset.
fn net(group: Vec<CapitalDiff>) -> (r: Result<Option<CapitalDiff>, TaxError>)
    requires
        all_wf(views(group@)),
        group@.len() > 0,
    ensures
        match net_of(views(group@)) {
            Ok(None) => r matches Ok(None),
            Ok(Some(v)) => r matches Ok(Some(c)) && c@ == v && c@.wf(),
            Err(e) => r == Err::<Option<CapitalDiff>, TaxError>(e),
        },
{
    let ghost g = views(group@);
    let mut total = Dec::zero();
    let mut gain_rate: Option<Dec> = None;
    let mut any_rate: Option<Dec> = None;
    let mut i: usize = 0;
    while i < group.len()
        invariant
            g == views(group@),
            all_wf(g),
            i <= g.len(),
            total.wf(),
            values_total(g.take(i as int)) == Some(total),
            max_rate(g.take(i as int), true) == gain_rate,
            max_rate(g.take(i as int), false) == any_rate,
            gain_rate matches Some(x) ==> x.wf(),
            any_rate matches Some(x) ==> x.wf(),
        decreases g.len() - i,
    {
        let c = &group[i];
        assert(g[i as int] == c@);
        assert(g[i as int].wf());
        assert(g.take(i + 1).drop_last() == g.take(i as int));
        assert(g.take(i + 1).last() == c@);
        total = match total.checked_add(&c.value()) {
            Some(t) => t,
            None => {
                proof {
                    lemma_none_persists(|t: Seq<CapitalDiffView>| values_total(t), g, i + 1);
                }
                return Err(TaxError::Overflow);
            },
        };
        let rate = c.tax_percentage();
        any_rate = match any_rate {
            Some(x) => if x.le(&rate) {
                Some(rate)
            } else {
                Some(x)
            },
            None => Some(rate),
        };
        if c.is_gain() {
            gain_rate = match gain_rate {
                Some(x) => if x.le(&rate) {
                    Some(rate)
                } else {
                    Some(x)
                },
                None => Some(rate),
            };
        }
        i = i + 1;
    }
    assert(g.take(i as int) == g);
    let first = &group[0];
    if total.is_zero() {
        Ok(None)
    } else if total.is_positive() {
        match gain_rate {
            None => Err(TaxError::InvalidEventConstruction),
            Some(rate) => match CapitalDiff::gain(first.asset().cloned(), first.asset_class(), rate, total) {
                Ok(c) => Ok(Some(c)),
                Err(e) => Err(e),
            },
        }
    } else {
        match any_rate {
            None => Err(TaxError::InvalidEventConstruction),
            Some(rate) => match CapitalDiff::loss(first.asset().cloned(), first.asset_class(), rate, total) {
                Ok(c) => Ok(Some(c)),
                Err(e) => Err(e),
            },
        }
    }
}

proof fn lemma_group_nonempty(s: Seq<CapitalDiffView>, a: AssetView)
    requires
        distinct_assets(s).contains(a),
    ensures
        group_of(s, a).len() > 0,
    decreases s.len(),
{
    if s.len() > 0 && s.last().asset != a {
        lemma_group_nonempty(s.drop_last(), a);
    }
}

/// Every event of `group_of(s, a)` is on `a`, and is well-formed when those of `s` are.
proof fn lemma_group_members(s: Seq<CapitalDiffView>, a: AssetView)
    ensures
        forall|i: int| 0 <= i < group_of(s, a).len() ==> (#[trigger] group_of(s, a)[i]).asset == a,
        all_wf(s) ==> all_wf(group_of(s, a)),
    decreases s.len(),
{
    if s.len() > 0 {
        lemma_group_members(s.drop_last(), a);
        if all_wf(s) {
            assert(all_wf(s.drop_last())) by {
                assert forall|i: int| 0 <= i < s.drop_last().len() implies (#[trigger] s.drop_last()[i]).wf() by {
                    assert(s.drop_last()[i] == s[i]);
                }
            }
            assert(s.last() == s[s.len() - 1]);
        }
    }
}

/// An event that its constructor would rebuild from its asset, class, rate
/// and value.
pub open spec fn rebuilt(c: CapitalDiffView) -> bool {
    match c.diff {
        Diff::Gain => gain_of(c.asset, c.asset_class, c.tax_percentage, c.value) == Ok::<CapitalDiffView, TaxError>(c),
        Diff::Loss => loss_of(c.asset, c.asset_class, c.tax_percentage, c.value) == Ok::<CapitalDiffView, TaxError>(c),
    }
}

/// Events on pairwise different assets, each one rebuilt by its constructor.
pub open spec fn netted(r: Seq<CapitalDiffView>) -> bool {
    &&& forall|i: int, j: int| 0 <= i < j < r.len() ==> (#[trigger] r[i]).asset != (#[trigger] r[j]).asset
    &&& forall|i: int| 0 <= i < r.len() ==> rebuilt(#[trigger] r[i])
}

proof fn lemma_distinct_assets_unique(s: Seq<CapitalDiffView>)
    ensures
        forall|i: int, j: int|
            0 <= i < j < distinct_assets(s).len() ==> (#[trigger] distinct_assets(s)[i]) != (#[trigger] distinct_assets(
                s,
            )[j]),
    decreases s.len(),
{
    if s.len() > 0 {
        lemma_distinct_assets_unique(s.drop_last());
        let d = distinct_assets(s.drop_last());
        if !d.contains(s.last().asset) {
            let e = d.push(s.last().asset);
            assert forall|i: int, j: int| 0 <= i < j < e.len() implies (#[trigger] e[i]) != (#[trigger] e[j]) by {
                if j == e.len() - 1 {
                    assert(d[i] == e[i]);
                } else {
                    assert(d[i] == e[i] && d[j] == e[j]);
                }
            }
        }
    }
}

proof fn lemma_built_event(c: CapitalDiffView, asset: AssetView)
    requires
        c.asset == asset,
        (c.diff == Diff::Gain && gain_of(c.asset, c.asset_class, c.tax_percentage, c.value) == Ok::<
            CapitalDiffView,
            TaxError,
        >(c)) || (c.diff == Diff::Loss && loss_of(c.asset, c.asset_class, c.tax_percentage, c.value) == Ok::<
            CapitalDiffView,
            TaxError,
        >(c)),
    ensures
        rebuilt(c),
{
}

/// What netting the assets `d` (pairwise different) yields is `netted`, on
/// assets of `d`.
proof fn lemma_net_assets_netted(d: Seq<AssetView>, s: Seq<CapitalDiffView>)
    requires
        forall|i: int, j: int| 0 <= i < j < d.len() ==> (#[trigger] d[i]) != (#[trigger] d[j]),
        net_assets(d, s) is Ok,
    ensures
        netted(net_assets(d, s)->Ok_0),
        forall|i: int| 0 <= i < net_assets(d, s)->Ok_0.len() ==> d.contains((#[trigger] net_assets(d, s)->Ok_0[i]).asset),
    decreases d.len(),
{
    if d.len() > 0 {
        let e = d.drop_last();
        assert forall|i: int, j: int| 0 <= i < j < e.len() implies (#[trigger] e[i]) != (#[trigger] e[j]) by {
            assert(e[i] == d[i] && e[j] == d[j]);
        }
        lemma_net_assets_netted(e, s);
        let r = net_assets(e, s)->Ok_0;
        let a = d.last();
        let g = group_of(s, a);
        lemma_group_members(s, a);
        assert forall|i: int| 0 <= i < r.len() implies d.contains((#[trigger] r[i]).asset) by {
            let w = choose|w: int| 0 <= w < e.len() && e[w] == r[i].asset;
            assert(d[w] == e[w]);
        }
        if let Ok(Some(c)) = net_of(g) {
            assert(g.len() > 0) by {
                if g.len() == 0 {
                    assert(values_total(g) == Some(Dec::from_parts(0, 0)));
                }
            }
            assert(g[0].asset == a);
            assert(c.asset == a);
            lemma_built_event(c, a);
            let r2 = r.push(c);
            assert(d[d.len() - 1] == a);
            assert forall|i: int| 0 <= i < r.len() implies (#[trigger] r[i]).asset != a by {
                let w = choose|w: int| 0 <= w < e.len() && e[w] == r[i].asset;
                assert(d[w] == e[w]);
            }
            assert forall|i: int, j: int| 0 <= i < j < r2.len() implies (#[trigger] r2[i]).asset != (
            #[trigger] r2[j]).asset by {
                assert(r2[i] == r[i]);
                if j < r.len() {
                    assert(r2[j] == r[j]);
                }
            }
            assert forall|i: int| 0 <= i < r2.len() implies rebuilt(#[trigger] r2[i]) by {
                if i < r.len() {
                    assert(r2[i] == r[i]);
                }
            }
            assert forall|i: int| 0 <= i < r2.len() implies d.contains((#[trigger] r2[i]).asset) by {
                if i < r.len() {
                    assert(r2[i] == r[i]);
                } else {
                    assert(d[d.len() - 1] == r2[i].asset);
                }
            }
        }
    }
}

pub open spec fn event_assets(v: Seq<CapitalDiffView>) -> Seq<AssetView> {
    v.map_values(|c: CapitalDiffView| c.asset)
}

proof fn lemma_distinct_of_netted(v: Seq<CapitalDiffView>)
    requires
        netted(v),
    ensures
        distinct_assets(v) == event_assets(v),
    decreases v.len(),
{
    if v.len() > 0 {
        let t = v.drop_last();
        assert(netted(t)) by {
            assert forall|i: int, j: int| 0 <= i < j < t.len() implies (#[trigger] t[i]).asset != (
            #[trigger] t[j]).asset by {
                assert(t[i] == v[i] && t[j] == v[j]);
            }
            assert forall|i: int| 0 <= i < t.len() implies rebuilt(#[trigger] t[i]) by {
                assert(t[i] == v[i]);
            }
        }
        lemma_distinct_of_netted(t);
        let d = event_assets(t);
        assert(!d.contains(v.last().asset)) by {
            if d.contains(v.last().asset) {
                let w = choose|w: int| 0 <= w < d.len() && d[w] == v.last().asset;
                assert(v[w].asset == v[v.len() - 1].asset);
            }
        }
        assert(event_assets(v) =~= d.push(v.last().asset));
    }
}

proof fn lemma_group_absent(v: Seq<CapitalDiffView>, a: AssetView)
    requires
        forall|i: int| 0 <= i < v.len() ==> (#[trigger] v[i]).asset != a,
    ensures
        group_of(v, a) == Seq::<CapitalDiffView>::empty(),
    decreases v.len(),
{
    if v.len() > 0 {
        let t = v.drop_last();
        assert forall|i: int| 0 <= i < t.len() implies (#[trigger] t[i]).asset != a by {
            assert(t[i] == v[i]);
        }
        lemma_group_absent(t, a);
        assert(v.last() == v[v.len() - 1]);
    }
}

proof fn lemma_group_single(v: Seq<CapitalDiffView>, k: int)
    requires
        netted(v),
        0 <= k < v.len(),
    ensures
        group_of(v, v[k].asset) == seq![v[k]],
    decreases v.len(),
{
    let t = v.drop_last();
    let a = v[k].asset;
    if k == v.len() - 1 {
        assert forall|i: int| 0 <= i < t.len() implies (#[trigger] t[i]).asset != a by {
            assert(t[i] == v[i]);
        }
        lemma_group_absent(t, a);
        assert(seq![v[k]] =~= Seq::<CapitalDiffView>::empty().push(v[k]));
    } else {
        assert(netted(t)) by {
            assert forall|i: int, j: int| 0 <= i < j < t.len() implies (#[trigger] t[i]).asset != (
            #[trigger] t[j]).asset by {
                assert(t[i] == v[i] && t[j] == v[j]);
            }
            assert forall|i: int| 0 <= i < t.len() implies rebuilt(#[trigger] t[i]) by {
                assert(t[i] == v[i]);
            }
        }
        assert(t[k] == v[k]);
        lemma_group_single(t, k);
        assert(v.last().asset != a);
    }
}

proof fn lemma_net_single(c: CapitalDiffView)
    requires
        rebuilt(c),
    ensures
        net_of(seq![c]) == Ok::<Option<CapitalDiffView>, TaxError>(Some(c)),
{
    let g = seq![c];
    assert(g.drop_last() =~= Seq::<CapitalDiffView>::empty());
    assert(g.last() == c);
    assert(values_total(g.drop_last()) == Some(Dec::from_parts(0, 0)));
    assert(values_total(g) == Some(c.value));
    assert(max_rate(g.drop_last(), true) is None);
    assert(max_rate(g.drop_last(), false) is None);
    crate::decimal::lemma_units_sign(c.value);
    assert(g[0] == c);
}

proof fn lemma_net_assets_netted_self(v: Seq<CapitalDiffView>, k: int)
    requires
        netted(v),
        0 <= k <= v.len(),
    ensures
        net_assets(event_assets(v).take(k), v) == Ok::<Seq<CapitalDiffView>, TaxError>(v.take(k)),
    decreases k,
{
    let d = event_assets(v);
    if k == 0 {
        assert(d.take(0) =~= Seq::<AssetView>::empty());
        assert(v.take(0) =~= Seq::<CapitalDiffView>::empty());
    } else {
        lemma_net_assets_netted_self(v, k - 1);
        assert(d.take(k).drop_last() =~= d.take(k - 1));
        assert(d.take(k).last() == v[k - 1].asset);
        lemma_group_single(v, k - 1);
        assert(rebuilt(v[k - 1]));
        lemma_net_single(v[k - 1]);
        assert(v.take(k) =~= v.take(k - 1).push(v[k - 1]));
    }
}

/// Netting is idempotent: netting the netted events changes nothing.
pub proof fn lemma_flatten_idempotent(s: Seq<CapitalDiffView>)
    requires
        flatten_of(s) is Ok,
    ensures
        flatten_of(flatten_of(s)->Ok_0) == flatten_of(s),
{
    let d = distinct_assets(s);
    lemma_distinct_assets_unique(s);
    lemma_net_assets_netted(d, s);
    let v = flatten_of(s)->Ok_0;
    lemma_distinct_of_netted(v);
    lemma_net_assets_netted_self(v, v.len() as int);
    assert(event_assets(v).take(v.len() as int) =~= event_assets(v));
    assert(v.take(v.len() as int) =~= v);
}

} // verus!
