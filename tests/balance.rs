use bitpanda730::asset::{Asset, AssetClass, CryptoCurrency, Currency, Fiat, InOut, Metal, TransactionType};
use bitpanda730::balance::{
    average_balance, count, fiat_balance, is_fiat_incoming, is_fiat_outgoing, ivafe, DailyQuote, QuoteDatabase,
};
use bitpanda730::decimal::Dec;
use bitpanda730::error::TaxError;
use bitpanda730::module730::{QuadroRt, QuadroRw};
use bitpanda730::capital_diff::CapitalDiff;
use bitpanda730::gains::GainsAndLosses;
use bitpanda730::tax::Taxes;
use bitpanda730::trade::Trade;

fn dec(mantissa: i128, scale: u32) -> Dec {
    Dec::new(mantissa, scale)
}

fn assert_value(actual: Dec, expected: Dec) {
    assert!(actual.same_value(&expected), "{:?} != {:?}", actual, expected);
}

const DAY: i64 = 86400;

fn eur() -> Asset {
    Asset::Currency(Currency::Fiat(Fiat::Eur))
}

fn cash(kind: TransactionType, in_out: InOut, timestamp: i64, amount: Dec, fee: Option<Dec>) -> Trade {
    let mut t = Trade::new(String::from("cash"), timestamp, kind, in_out, amount, Fiat::Eur, None, eur(), AssetClass::Fiat);
    t.fee = fee;
    t
}

fn asset_trade(kind: TransactionType, in_out: InOut, timestamp: i64, amount: Dec, quantity: Dec, asset: Asset) -> Trade {
    Trade::new(String::from("asset"), timestamp, kind, in_out, amount, Fiat::Eur, Some(quantity), asset, AssetClass::Stock)
}

fn scenario() -> Vec<Trade> {
    vec![
        cash(TransactionType::Deposit, InOut::Incoming, 100 * DAY + 43200, dec(1000, 0), Some(dec(10, 0))),
        asset_trade(
            TransactionType::Buy,
            InOut::Outgoing,
            101 * DAY + 43200,
            dec(500, 0),
            dec(2, 0),
            Asset::Ticker(String::from("AMZN")),
        ),
    ]
}

fn prices(with_last_day: bool) -> QuoteDatabase {
    let mut quotes = vec![DailyQuote { asset: Asset::Ticker(String::from("AMZN")), day: 101, price: dec(260, 0) }];
    if with_last_day {
        quotes.push(DailyQuote { asset: Asset::Ticker(String::from("AMZN")), day: 102, price: dec(270, 0) });
    }
    QuoteDatabase::new(quotes)
}

#[test]
fn should_prepare_quadro_rw() {
    let quadro = QuadroRw::prepare(dec(131710, 1), dec(26342, 3));
    assert_value(quadro.rw1_column8, dec(131710, 1));
    assert_value(quadro.rw1_column11, dec(2634, 2));
}

#[test]
fn ivafe_is_two_per_thousand_rounded() {
    assert_value(ivafe(dec(1317100, 2)).unwrap(), dec(2634, 2));
    assert_value(ivafe(dec(5000, 0)).unwrap(), dec(1000, 2));
}

#[test]
fn ivafe_is_zero_below_threshold() {
    assert_value(ivafe(dec(499999, 2)).unwrap(), dec(0, 0));
    assert_value(ivafe(dec(0, 0)).unwrap(), dec(0, 0));
}

#[test]
fn average_balance_adds_cash_and_valued_assets() {
    let trades = scenario();
    let avg = average_balance(&trades, &prices(true), Fiat::Eur, 100, 102, 0).unwrap();
    assert_value(avg, dec(1010, 0));
    assert_value(ivafe(avg).unwrap(), dec(0, 0));
}

#[test]
fn average_balance_needs_every_price() {
    let trades = scenario();
    assert_eq!(average_balance(&trades, &prices(false), Fiat::Eur, 100, 102, 0), Err(TaxError::PriceNotFound));
}

#[test]
fn taxes_over_a_period() {
    let trades = scenario();
    let quotes = prices(true);
    let taxes = Taxes::new(&trades, &quotes, 100, 102, 0);
    assert_value(taxes.average_balance().unwrap(), dec(1010, 0));
    assert_value(taxes.ivafe(dec(1317100, 2)).unwrap(), dec(2634, 2));
    assert_eq!(taxes.capital_gains_and_losses().unwrap().iter().len(), 0);
}

#[test]
fn fiat_balance_nets_fees_and_withdrawals() {
    let trades = vec![
        cash(TransactionType::Deposit, InOut::Incoming, 10, dec(1000, 0), Some(dec(1050, 2))),
        cash(TransactionType::Withdrawal, InOut::Outgoing, 20, dec(200, 0), None),
        cash(TransactionType::Deposit, InOut::Incoming, 40, dec(50, 0), None),
    ];
    assert_value(fiat_balance(&trades, 30, Fiat::Eur).unwrap(), dec(78950, 2));
    assert_value(fiat_balance(&trades, 40, Fiat::Eur).unwrap(), dec(83950, 2));
    assert_value(fiat_balance(&trades, 5, Fiat::Eur).unwrap(), dec(0, 0));
}

#[test]
fn crypto_transfers_are_no_cash_movement() {
    let reward = asset_trade(
        TransactionType::Transfer,
        InOut::Incoming,
        10,
        dec(5, 0),
        dec(1, 0),
        Asset::Currency(Currency::Crypto(CryptoCurrency::Ada)),
    );
    assert!(!is_fiat_incoming(&reward));
    let out = asset_trade(
        TransactionType::Transfer,
        InOut::Outgoing,
        10,
        dec(5, 0),
        dec(1, 0),
        Asset::Currency(Currency::Crypto(CryptoCurrency::Ada)),
    );
    assert!(!is_fiat_outgoing(&out));
    let sale = asset_trade(TransactionType::Sell, InOut::Incoming, 10, dec(5, 0), dec(1, 0), Asset::Ticker(String::from("X")));
    assert!(is_fiat_incoming(&sale));
}

#[test]
fn count_gives_held_quantity() {
    let amzn = || Asset::Ticker(String::from("AMZN"));
    let trades = vec![
        asset_trade(TransactionType::Buy, InOut::Outgoing, 10, dec(100, 0), dec(3, 0), amzn()),
        asset_trade(TransactionType::Sell, InOut::Incoming, 20, dec(40, 0), dec(1, 0), amzn()),
    ];
    assert_value(count(&trades, 15, &amzn()).unwrap(), dec(3, 0));
    assert_value(count(&trades, 25, &amzn()).unwrap(), dec(2, 0));
}

#[test]
fn should_prepare_quadro_rt() {
    let gain = |a: Asset, c: AssetClass, r: Dec, v: Dec| CapitalDiff::gain(a, c, r, v).unwrap();
    let loss = |a: Asset, c: AssetClass, r: Dec, v: Dec| CapitalDiff::loss(a, c, r, v).unwrap();
    let gains_and_losses = GainsAndLosses::from(vec![
        gain(Asset::Ticker(String::from("USGOVIES")), AssetClass::Etf, dec(125, 1), dec(5000, 1)),
        gain(Asset::Ticker(String::from("EUROGOV")), AssetClass::Etf, dec(125, 1), dec(1000, 1)),
        loss(Asset::Ticker(String::from("CHINABOND")), AssetClass::Etf, dec(125, 1), dec(-800, 1)),
        gain(Asset::Metal(Metal::Gold), AssetClass::Metal, dec(260, 1), dec(5000, 1)),
        gain(Asset::Ticker(String::from("AMZN")), AssetClass::Stock, dec(260, 1), dec(1000, 1)),
        loss(Asset::Ticker(String::from("TSLA")), AssetClass::Stock, dec(260, 1), dec(-320, 1)),
    ]);
    let quadro_rt = QuadroRt::prepare(&gains_and_losses).unwrap();
    assert_value(quadro_rt.sezione_1.rt1, dec(6800, 1));
    assert_value(quadro_rt.sezione_1.rt2_col3, dec(800, 1));
    assert_eq!(quadro_rt.sezione_1.rt3_col1, None);
    assert_value(quadro_rt.sezione_1.rt3_col2.unwrap(), dec(6000, 1));
    assert_value(quadro_rt.sezione_2.rt21, dec(6320, 1));
    assert_value(quadro_rt.sezione_2.rt22_col3, dec(320, 1));
    assert_eq!(quadro_rt.sezione_2.rt23_col1, None);
    assert_value(quadro_rt.sezione_2.rt23_col2.unwrap(), dec(6000, 1));
}

#[test]
fn quote_database_gives_price_of_asset_and_day() {
    let quotes = prices(true);
    assert_value(quotes.price(&Asset::Ticker(String::from("AMZN")), 102).unwrap(), dec(270, 0));
    assert_eq!(quotes.price(&Asset::Ticker(String::from("AMZN")), 103), None);
    assert_eq!(quotes.price(&Asset::Ticker(String::from("ADBE")), 101), None);
}

#[test]
fn fiat_balance_keeps_full_precision() {
    let trades = vec![cash(TransactionType::Deposit, InOut::Incoming, 10, dec(10005, 3), Some(dec(1, 3)))];
    assert_value(fiat_balance(&trades, 20, Fiat::Eur).unwrap(), dec(10004, 3));
}
