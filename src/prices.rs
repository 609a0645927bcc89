//! Price histories of assets, and the daily prices drawn from them.

use crate::asset::Asset;
use crate::balance::{day_end, DailyQuote, MAX_DAY, SECONDS_PER_DAY};
use crate::decimal::Dec;
use vstd::prelude::*;

verus! {

/// One quotation: an instant (seconds since the Unix epoch) and a price.
pub type Point = (i64, Dec);

/// The quotations of one asset, in any order.
#[derive(Debug)]
pub struct Quotes {
    points: Vec<Point>,
}

/// Of the quotations at or before `t`, the latest; of equally late ones the
/// last listed.
pub open spec fn latest_before(h: Seq<Point>, t: i64) -> Option<Point>
    decreases h.len(),
{
    if h.len() == 0 {
        None
    } else {
        let b = latest_before(h.drop_last(), t);
        let e = h.last();
        if e.0 <= t && (b is None || b->Some_0.0 <= e.0) {
            Some(e)
        } else {
            b
        }
    }
}

/// The earliest quotation; of equally early ones the first listed.
pub open spec fn earliest(h: Seq<Point>) -> Option<Point>
    decreases h.len(),
{
    if h.len() == 0 {
        None
    } else {
        let b = earliest(h.drop_last());
        let e = h.last();
        if b is None || e.0 < b->Some_0.0 {
            Some(e)
        } else {
            b
        }
    }
}

/// The price at instant `t`: that of the latest quotation at or before `t`,
/// or, when all are later, that of the earliest; none without quotations.
pub open spec fn price_at_of(h: Seq<Point>, t: i64) -> Option<Dec> {
    match latest_before(h, t) {
        Some(p) => Some(p.1),
        None => match earliest(h) {
            Some(p) => Some(p.1),
            None => None,
        },
    }
}

impl View for Quotes {
    type V = Seq<Point>;

    closed spec fn view(&self) -> Seq<Point> {
        self.points@
    }
}

impl Quotes {
    pub open spec fn wf(&self) -> bool {
        forall|i: int| 0 <= i < self@.len() ==> (#[trigger] self@[i]).1.wf()
    }

    /// The history of the quotations `points`.
    pub fn new(points: Vec<Point>) -> (r: Quotes)
        ensures
            r@ == points@,
    {
        Quotes { points }
    }

    /// The price at instant `t`: that of the latest quotation at or before
    /// `t`, or, when all are later, that of the earliest. `None` when there is
    /// no quotation.
    pub fn price_at(&self, t: i64) -> (r: Option<Dec>)
        requires
            self.wf(),
        ensures
            r == price_at_of(self@, t),
            r matches Some(p) ==> p.wf(),
    {
        let ghost h = self@;
        let mut latest: Option<Point> = None;
        let mut first: Option<Point> = None;
        let mut i: usize = 0;
        while i < self.points.len()
            invariant
                h == self@,
                self.wf(),
                i <= h.len(),
                latest == latest_before(h.take(i as int), t),
                first == earliest(h.take(i as int)),
                latest matches Some(p) ==> p.1.wf(),
                first matches Some(p) ==> p.1.wf(),
            decreases h.len() - i,
        {
            let e = self.points[i];
            assert(h[i as int].1.wf());
            assert(h.take(i + 1).drop_last() == h.take(i as int));
            assert(h.take(i + 1).last() == e);
            let later = match latest {
                Some(b) => b.0 <= e.0,
                None => true,
            };
            if e.0 <= t && later {
                latest = Some(e);
            }
            let earlier = match first {
                Some(b) => e.0 < b.0,
                None => true,
            };
            if earlier {
                first = Some(e);
            }
            i = i + 1;
        }
        assert(h.take(i as int) == h);
        match latest {
            Some(p) => Some(p.1),
            None => match first {
                Some(p) => Some(p.1),
                None => None,
            },
        }
    }
}

/// The quotes of `asset` for each day from `since` to `to` inclusive (days
/// since the Unix epoch, at a UTC offset of `offset` seconds): the price at
/// the day's last instant. `None` when the history is empty.
pub fn daily_quotes(asset: &Asset, history: &Quotes, since: i64, to: i64, offset: i64) -> (r: Option<
    Vec<DailyQuote>,
>)
    requires
        history.wf(),
        -MAX_DAY <= since <= to <= MAX_DAY,
        -SECONDS_PER_DAY <= offset <= SECONDS_PER_DAY,
    ensures
        history@.len() == 0 <==> r is None,
        r matches Some(q) ==> q@.len() == to - since + 1 && forall|i: int|
            0 <= i < q@.len() ==> {
                &&& (#[trigger] q@[i]).asset@ == asset@
                &&& q@[i].day == since + i
                &&& Some(q@[i].price) == price_at_of(history@, day_end((since + i) as i64, offset) as i64)
                &&& q@[i].price.wf()
            },
{
    let mut quotes: Vec<DailyQuote> = Vec::new();
    let mut day: i64 = since;
    while day <= to
        invariant
            history.wf(),
            -MAX_DAY <= since <= day <= to + 1,
            to <= MAX_DAY,
            -SECONDS_PER_DAY <= offset <= SECONDS_PER_DAY,
            quotes@.len() == day - since,
            day > since ==> history@.len() > 0,
            forall|i: int|
                0 <= i < quotes@.len() ==> {
                    &&& (#[trigger] quotes@[i]).asset@ == asset@
                    &&& quotes@[i].day == since + i
                    &&& Some(quotes@[i].price) == price_at_of(history@, day_end((since + i) as i64, offset) as i64)
                    &&& quotes@[i].price.wf()
                },
        decreases to + 1 - day,
    {
        let upto = (day + 1) * SECONDS_PER_DAY - 1 - offset;
        let price = match history.price_at(upto) {
            Some(p) => p,
            None => {
                assert(history@.len() == 0) by {
                    if history@.len() > 0 {
                        lemma_earliest_some(history@);
                    }
                }
                return None;
            },
        };
        quotes.push(DailyQuote { asset: asset.cloned(), day, price });
        day = day + 1;
    }
    Some(quotes)
}

proof fn lemma_earliest_some(h: Seq<Point>)
    requires
        h.len() > 0,
    ensures
        earliest(h) is Some,
    decreases h.len(),
{
    if h.len() > 1 {
        lemma_earliest_some(h.drop_last());
    }
}

} // verus!
