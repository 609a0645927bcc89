use bitpanda730::asset::{Asset, AssetClass, Fiat, InOut, TransactionType};
use bitpanda730::decimal::Dec;
use bitpanda730::prices::{daily_quotes, Quotes};
use bitpanda730::trade::{select_period, Trade};

fn dec(mantissa: i128, scale: u32) -> Dec {
    Dec::new(mantissa, scale)
}

fn assert_value(actual: Dec, expected: Dec) {
    assert!(actual.same_value(&expected), "{:?} != {:?}", actual, expected);
}

fn history() -> Quotes {
    Quotes::new(vec![(300, dec(30, 0)), (100, dec(10, 0)), (200, dec(20, 0))])
}

#[test]
fn price_is_the_latest_at_or_before() {
    let h = history();
    assert_value(h.price_at(250).unwrap(), dec(20, 0));
    assert_value(h.price_at(300).unwrap(), dec(30, 0));
    assert_value(h.price_at(1000).unwrap(), dec(30, 0));
}

#[test]
fn price_before_all_quotes_is_the_earliest() {
    assert_value(history().price_at(50).unwrap(), dec(10, 0));
}

#[test]
fn empty_history_has_no_price() {
    let h = Quotes::new(vec![]);
    assert_eq!(h.price_at(50), None);
    assert!(daily_quotes(&Asset::Ticker(String::from("AMZN")), &h, 0, 2, 0).is_none());
}

#[test]
fn daily_quotes_take_the_price_at_each_day_end() {
    let day = 86400;
    let h = Quotes::new(vec![(day / 2, dec(1, 0)), (day + day / 2, dec(2, 0))]);
    let quotes = daily_quotes(&Asset::Ticker(String::from("AMZN")), &h, 0, 2, 0).unwrap();
    assert_eq!(quotes.len(), 3);
    assert_eq!(quotes[2].day, 2);
    assert_value(quotes[0].price, dec(1, 0));
    assert_value(quotes[1].price, dec(2, 0));
    assert_value(quotes[2].price, dec(2, 0));
}

#[test]
fn select_period_keeps_trades_within_bounds() {
    let t = |ts: i64| {
        Trade::new(
            String::from("id"),
            ts,
            TransactionType::Buy,
            InOut::Outgoing,
            dec(1, 0),
            Fiat::Eur,
            Some(dec(1, 0)),
            Asset::Ticker(String::from("AMZN")),
            AssetClass::Stock,
        )
    };
    let kept = select_period(vec![t(5), t(10), t(15), t(20), t(25)], 10, 20);
    let stamps: Vec<i64> = kept.iter().map(|x| x.timestamp()).collect();
    assert_eq!(stamps, vec![10, 15, 20]);
}
