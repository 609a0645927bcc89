use bitpanda730::asset::{Asset, AssetClass, CryptoCurrency, Currency, Fiat, InOut, Metal, TransactionType};
use bitpanda730::calculator::Calculator;
use bitpanda730::decimal::{Dec, MAX_MANTISSA};
use bitpanda730::error::TaxError;
use bitpanda730::trade::Trade;
use bitpanda730::wallet::Wallet;

fn dec(mantissa: i128, scale: u32) -> Dec {
    Dec::new(mantissa, scale)
}

fn assert_value(actual: Dec, expected: Dec) {
    assert!(actual.same_value(&expected), "{:?} != {:?}", actual, expected);
}

fn deposit(timestamp: i64, amount: Dec) -> Trade {
    let mut t = Trade::new(
        String::from("deposit"),
        timestamp,
        TransactionType::Deposit,
        InOut::Incoming,
        amount,
        Fiat::Eur,
        None,
        Asset::Currency(Currency::Fiat(Fiat::Eur)),
        AssetClass::Fiat,
    );
    t.fee = Some(dec(18000, 2));
    t
}

fn withdrawal(timestamp: i64, amount: Dec) -> Trade {
    Trade::new(
        String::from("withdrawal"),
        timestamp,
        TransactionType::Withdrawal,
        InOut::Outgoing,
        amount,
        Fiat::Eur,
        None,
        Asset::Currency(Currency::Fiat(Fiat::Eur)),
        AssetClass::Fiat,
    )
}

fn trade(
    kind: TransactionType,
    in_out: InOut,
    timestamp: i64,
    amount: Dec,
    quantity: Dec,
    asset: Asset,
    class: AssetClass,
) -> Trade {
    Trade::new(String::from("trade"), timestamp, kind, in_out, amount, Fiat::Eur, Some(quantity), asset, class)
}

fn buy(timestamp: i64, amount: Dec, quantity: Dec, asset: Asset, class: AssetClass) -> Trade {
    trade(TransactionType::Buy, InOut::Outgoing, timestamp, amount, quantity, asset, class)
}

fn sell(timestamp: i64, amount: Dec, quantity: Dec, asset: Asset, class: AssetClass) -> Trade {
    trade(TransactionType::Sell, InOut::Incoming, timestamp, amount, quantity, asset, class)
}

fn ticker(name: &str) -> Asset {
    Asset::Ticker(String::from(name))
}

fn btc() -> Asset {
    Asset::Currency(Currency::Crypto(CryptoCurrency::Btc))
}

fn mock_trades() -> Vec<Trade> {
    vec![
        deposit(1609936344, dec(1018000, 2)),
        buy(1625157144, dec(22597, 2), dec(10, 1), ticker("TSLA"), AssetClass::Stock),
        buy(1625157144, dec(51425, 2), dec(30, 1), ticker("AMZN"), AssetClass::Stock),
        buy(1625157144, dec(87701, 2), dec(15, 1), ticker("ADBE"), AssetClass::Stock),
        buy(1625157144, dec(45475, 2), dec(1354533, 8), btc(), AssetClass::Cryptocurrency),
        buy(1625488344, dec(58640, 2), dec(800, 1), Asset::HongKong(1177), AssetClass::Stock),
        sell(1628872344, dec(59326, 2), dec(1354533, 8), btc(), AssetClass::Cryptocurrency),
        sell(1629131544, dec(33450, 2), dec(20, 1), ticker("AMZN"), AssetClass::Stock),
        sell(1632328344, dec(31304, 2), dec(5, 1), ticker("ADBE"), AssetClass::Stock),
        withdrawal(1632486744, dec(50000, 2)),
    ]
}

#[test]
fn should_tell_tax_percentage() {
    assert_value(Calculator::tax_percentage(&Asset::Metal(Metal::Gold)), dec(260, 1));
    assert_value(Calculator::tax_percentage(&btc()), dec(260, 1));
    assert_value(Calculator::tax_percentage(&Asset::HongKong(1177)), dec(260, 1));
    assert_value(Calculator::tax_percentage(&ticker("USGOVIES")), dec(1250, 2));
    assert_value(Calculator::tax_percentage(&ticker("AMZN")), dec(260, 1));
}

#[test]
fn calculates_gains_and_losses_of_mock_trades() {
    let mut calculator = Calculator::default();
    let gains_and_losses = calculator.calculate(&mock_trades()).unwrap();
    assert_value(gains_and_losses.gains_value().unwrap().round_dp(2), dec(15921, 2));
    assert_value(gains_and_losses.losses_value().unwrap().round_dp(2), dec(-833, 2));
    assert_value(gains_and_losses.tax_to_pay().unwrap().round_dp(2), dec(4140, 2));
    assert_eq!(gains_and_losses.iter().len(), 3);
}

#[test]
fn in_kind_transfer_is_no_taxable_event() {
    let trades = vec![
        buy(10, dec(10000, 2), dec(1, 0), ticker("GOOGL"), AssetClass::Stock),
        trade(TransactionType::Transfer, InOut::Incoming, 20, dec(0, 0), dec(19, 0), ticker("GOOGL"), AssetClass::Stock),
        sell(30, dec(1200, 2), dec(2, 0), ticker("GOOGL"), AssetClass::Stock),
    ];
    let mut calculator = Calculator::default();
    let gains_and_losses = calculator.calculate(&trades).unwrap();
    assert_eq!(gains_and_losses.iter().len(), 1);
    assert_value(gains_and_losses.gains_value().unwrap(), dec(200, 2));
    assert_value(gains_and_losses.losses_value().unwrap(), dec(0, 0));
}

#[test]
fn selling_without_holding_fails() {
    let trades = vec![sell(30, dec(1200, 2), dec(2, 0), ticker("GOOGL"), AssetClass::Stock)];
    let mut calculator = Calculator::default();
    assert_eq!(calculator.calculate(&trades).err(), Some(TaxError::InsufficientBalance));
}

#[test]
fn outgoing_transfer_reduces_holding_without_event() {
    let trades = vec![
        buy(10, dec(10000, 2), dec(2, 0), btc(), AssetClass::Cryptocurrency),
        trade(TransactionType::Transfer, InOut::Outgoing, 20, dec(0, 0), dec(1, 0), btc(), AssetClass::Cryptocurrency),
        sell(30, dec(4000, 2), dec(1, 0), btc(), AssetClass::Cryptocurrency),
    ];
    let mut calculator = Calculator::default();
    let gains_and_losses = calculator.calculate(&trades).unwrap();
    assert_eq!(gains_and_losses.iter().len(), 1);
    assert_value(gains_and_losses.losses_value().unwrap(), dec(-1000, 2));
    assert_value(gains_and_losses.tax_to_pay().unwrap(), dec(0, 0));
}

#[test]
fn sale_at_cost_gives_no_event() {
    let trades = vec![
        buy(10, dec(10000, 2), dec(2, 0), ticker("AMZN"), AssetClass::Stock),
        sell(30, dec(5000, 2), dec(1, 0), ticker("AMZN"), AssetClass::Stock),
    ];
    let mut calculator = Calculator::default();
    let gains_and_losses = calculator.calculate(&trades).unwrap();
    assert_eq!(gains_and_losses.iter().len(), 0);
}

#[test]
fn overflowing_holding_is_reported() {
    let mut wallet = Wallet::new();
    wallet.buy(dec(MAX_MANTISSA, 0), dec(1, 0));
    wallet.buy(dec(MAX_MANTISSA, 0), dec(1, 0));
    assert_eq!(wallet.amount_asset(), None);
    assert_eq!(wallet.sell(dec(1, 0)), Err(TaxError::Overflow));
}
