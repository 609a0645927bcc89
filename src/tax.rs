//! The tax figures of a period: realized gains and losses, the average
//! balance and the wealth tax.

use crate::balance::{average_balance, average_balance_of, ivafe, ivafe_of, QuoteDatabase, MAX_DAY, SECONDS_PER_DAY};
use crate::asset::Fiat;
use crate::calculator::{replay, Calculator};
use crate::decimal::Dec;
use crate::error::TaxError;
use crate::gains::{flatten_of, GainsAndLosses};
use crate::trade::{trades_wf, Trade};
use vstd::prelude::*;

verus! {

/// The tax calculator of one period: trades and prices in, figures out.
pub struct Taxes<'a> {
    trades: &'a Vec<Trade>,
    quotes: &'a QuoteDatabase,
    since: i64,
    to: i64,
    offset: i64,
}

impl<'a> Taxes<'a> {
    pub closed spec fn trades_spec(&self) -> Seq<Trade> {
        self.trades@
    }

    pub closed spec fn wf(&self) -> bool {
        &&& trades_wf(self.trades@)
        &&& self.quotes.wf()
        &&& -MAX_DAY <= self.since <= self.to <= MAX_DAY
        &&& -SECONDS_PER_DAY <= self.offset <= SECONDS_PER_DAY
    }

    /// The calculator of the period of days `since` to `to` inclusive (days
    /// since the Unix epoch, at a UTC offset of `offset` seconds), over
    /// `trades` in chronological order and the prices `quotes`.
    pub fn new(trades: &'a Vec<Trade>, quotes: &'a QuoteDatabase, since: i64, to: i64, offset: i64) -> (r: Taxes<'a>)
        requires
            trades_wf(trades@),
            quotes.wf(),
            -MAX_DAY <= since <= to <= MAX_DAY,
            -SECONDS_PER_DAY <= offset <= SECONDS_PER_DAY,
        ensures
            r.wf(),
            r.trades_spec() == trades@,
            r.average_balance_spec() == average_balance_of(trades@, quotes@, Fiat::Eur, since, to, offset),
    {
        Taxes { trades, quotes, since, to, offset }
    }

    /// The average daily balance in euros of the period.
    pub closed spec fn average_balance_spec(&self) -> Result<Dec, TaxError> {
        average_balance_of(self.trades@, self.quotes@, Fiat::Eur, self.since, self.to, self.offset)
    }

    /// The wealth tax on `average_balance`: zero below 5000, else two per
    /// thousand of it rounded to two places.
    pub fn ivafe(&self, average_balance: Dec) -> (r: Result<Dec, TaxError>)
        requires
            average_balance.wf(),
        ensures
            r == ivafe_of(average_balance),
    {
        ivafe(average_balance)
    }

    /// The realized gains and losses of the trades, netted per asset.
    pub fn capital_gains_and_losses(&self) -> (r: Result<GainsAndLosses, TaxError>)
        requires
            self.wf(),
        ensures
            match replay(Seq::empty(), self.trades_spec()) {
                Ok((_, evs)) => match flatten_of(evs) {
                    Ok(v) => r matches Ok(g) && g@ == v,
                    Err(e) => r == Err::<GainsAndLosses, TaxError>(e),
                },
                Err(e) => r == Err::<GainsAndLosses, TaxError>(e),
            },
    {
        let mut calculator = Calculator::new();
        calculator.calculate(self.trades)
    }

    /// The average daily balance in euros over the period.
    pub fn average_balance(&self) -> (r: Result<Dec, TaxError>)
        requires
            self.wf(),
        ensures
            r == self.average_balance_spec(),
    {
        average_balance(self.trades, self.quotes, Fiat::Eur, self.since, self.to, self.offset)
    }
}

} // verus!
