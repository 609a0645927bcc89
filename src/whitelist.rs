//! Tickers of sovereign bonds taxed at the preferential rate.

use vstd::prelude::*;
use vstd::string::*;

verus! {

pub const CHINESE_GOVERNMENT_BONDS: &'static str = "CHINABOND";

pub const EUROZONE_GOVERNMENT_BONDS: &'static str = "EUROGOV";

pub const JAPANESE_GOVERNMENT_BONDS: &'static str = "JAPGOVIES";

pub const US_GOVERNMENT_BONDS: &'static str = "USGOVIES";

/// The whitelist of government-bond tickers.
pub struct TickerWhitelist;

/// Whether `ticker` is one of the whitelisted government-bond tickers.
pub open spec fn whitelisted(ticker: Seq<char>) -> bool {
    ticker == CHINESE_GOVERNMENT_BONDS@ || ticker == EUROZONE_GOVERNMENT_BONDS@ || ticker
        == JAPANESE_GOVERNMENT_BONDS@ || ticker == US_GOVERNMENT_BONDS@
}

/// Whether two strings hold the same characters.
fn str_eq(a: &str, b: &str) -> (r: bool)
    ensures
        r == (a@ == b@),
{
    let n = a.unicode_len();
    if n != b.unicode_len() {
        return false;
    }
    let mut i: usize = 0;
    while i < n
        invariant
            n == a@.len(),
            n == b@.len(),
            i <= n,
            a@.take(i as int) == b@.take(i as int),
        decreases n - i,
    {
        if a.get_char(i) != b.get_char(i) {
            assert(a@.take(i + 1)[i as int] != b@.take(i + 1)[i as int]);
            return false;
        }
        assert(a@.take(i + 1) == a@.take(i as int).push(a@[i as int]));
        assert(b@.take(i + 1) == b@.take(i as int).push(b@[i as int]));
        i = i + 1;
    }
    assert(a@.take(n as int) == a@);
    assert(b@.take(n as int) == b@);
    true
}

impl TickerWhitelist {
    /// Whether `ticker` is a whitelisted government-bond ticker, taxed at the
    /// preferential rate.
    pub fn is_whitelisted(ticker: &str) -> (r: bool)
        ensures
            r == whitelisted(ticker@),
    {
        str_eq(ticker, CHINESE_GOVERNMENT_BONDS) || str_eq(ticker, EUROZONE_GOVERNMENT_BONDS) || str_eq(
            ticker,
            JAPANESE_GOVERNMENT_BONDS,
        ) || str_eq(ticker, US_GOVERNMENT_BONDS)
    }
}

} // verus!
