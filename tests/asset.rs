use bitpanda730::asset::{Asset, CryptoCurrency, CsvOption, Currency, Fiat, Metal, NoneValue};
use bitpanda730::symbols::Symbols;
use bitpanda730::whitelist::{
    TickerWhitelist, CHINESE_GOVERNMENT_BONDS, EUROZONE_GOVERNMENT_BONDS, JAPANESE_GOVERNMENT_BONDS,
    US_GOVERNMENT_BONDS,
};

#[test]
fn should_tell_whether_is_fiat() {
    assert_eq!(Currency::Fiat(Fiat::Eur).is_fiat(), true);
    assert_eq!(Currency::Crypto(CryptoCurrency::Best).is_fiat(), false);
}

#[test]
fn should_tell_whether_is_crypto() {
    assert_eq!(Currency::Fiat(Fiat::Eur).is_crypto(), false);
    assert_eq!(Currency::Crypto(CryptoCurrency::Best).is_crypto(), true);
}

#[test]
fn should_unwrap_csv_option() {
    assert_eq!(CsvOption::Value(Fiat::Eur).unwrap(), Fiat::Eur);
}

#[test]
fn should_unwrap_csv_option_with_fallback() {
    assert_eq!(CsvOption::Value(Fiat::Eur).unwrap_or(Fiat::Usd), Fiat::Eur);
    assert_eq!(CsvOption::Empty(NoneValue::Null).unwrap_or(Fiat::Usd), Fiat::Usd);
}

#[test]
fn should_convert_csv_option_to_option() {
    let opt: Option<Fiat> = CsvOption::Value(Fiat::Eur).option();
    assert_eq!(opt, Some(Fiat::Eur));
    let opt: Option<Fiat> = CsvOption::Empty(NoneValue::Null).option();
    assert_eq!(opt, None);
}

#[test]
fn should_convert_asset_to_string() {
    assert_eq!(Asset::Ticker(String::from("AMZN")).to_string().as_str(), "AMZN");
    assert_eq!(Asset::HongKong(1197).to_string().as_str(), "1197");
    assert_eq!(Asset::Currency(Currency::Fiat(Fiat::Eur)).to_string().as_str(), "EUR");
    assert_eq!(Asset::Currency(Currency::Crypto(CryptoCurrency::Btc)).to_string().as_str(), "BTC");
    assert_eq!(Asset::Currency(Currency::Crypto(CryptoCurrency::OneInch)).to_string().as_str(), "1INCH");
    assert_eq!(Asset::Metal(Metal::Gold).to_string().as_str(), "XAU");
    assert_eq!(Asset::Metal(Metal::Silver).to_string().as_str(), "XAG");
    assert_eq!(Asset::Metal(Metal::Palladium).to_string().as_str(), "XPD");
    assert_eq!(Asset::Metal(Metal::Platinum).to_string().as_str(), "XPT");
}

#[test]
fn asset_names_are_upper_case_and_signed() {
    assert_eq!(Asset::Ticker(String::from("amzn")).to_string().as_str(), "AMZN");
    assert_eq!(Asset::HongKong(-42).to_string().as_str(), "-42");
    assert_eq!(Asset::HongKong(0).to_string().as_str(), "0");
    assert_eq!(Asset::HongKong(i64::MIN).to_string().as_str(), "-9223372036854775808");
}

#[test]
fn should_resolve_asset_to_symbol() {
    assert_eq!(Symbols::lookup(Asset::Currency(Currency::Crypto(CryptoCurrency::Btc))).as_str(), "BTC-USD");
    assert_eq!(Symbols::lookup(Asset::Ticker(String::from("AMZN"))).as_str(), "AMZN");
    assert_eq!(Symbols::lookup(Asset::HongKong(1177)).as_str(), "1177.HK");
    assert_eq!(Symbols::lookup(Asset::Currency(Currency::Fiat(Fiat::Usd))).as_str(), "USDT-USD");
    assert_eq!(Symbols::lookup(Asset::Currency(Currency::Fiat(Fiat::Chf))).as_str(), "USDCHF=x");
    assert_eq!(Symbols::lookup(Asset::Currency(Currency::Crypto(CryptoCurrency::OneInch))).as_str(), "1INCH-USD");
}

#[test]
fn should_tell_whether_ticker_is_whitelisted() {
    assert!(TickerWhitelist::is_whitelisted(CHINESE_GOVERNMENT_BONDS));
    assert!(TickerWhitelist::is_whitelisted(EUROZONE_GOVERNMENT_BONDS));
    assert!(TickerWhitelist::is_whitelisted(JAPANESE_GOVERNMENT_BONDS));
    assert!(TickerWhitelist::is_whitelisted(US_GOVERNMENT_BONDS));
    assert_eq!(TickerWhitelist::is_whitelisted("AMZN"), false);
    assert_eq!(TickerWhitelist::is_whitelisted("USGOVIE"), false);
}

#[test]
fn assets_compare_by_content() {
    assert!(Asset::Ticker(String::from("AMZN")) == Asset::Ticker(String::from("AMZN")));
    assert!(Asset::Ticker(String::from("AMZN")) != Asset::Ticker(String::from("TSLA")));
    assert!(Asset::HongKong(1) != Asset::Metal(Metal::Gold));
}
