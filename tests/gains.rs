use bitpanda730::asset::{Asset, AssetClass, Metal};
use bitpanda730::capital_diff::CapitalDiff;
use bitpanda730::decimal::Dec;
use bitpanda730::gains::GainsAndLosses;

fn dec(mantissa: i128, scale: u32) -> Dec {
    Dec::new(mantissa, scale)
}

fn assert_value(actual: Dec, expected: Dec) {
    assert!(actual.same_value(&expected), "{:?} != {:?}", actual, expected);
}

fn gain(asset: Asset, class: AssetClass, rate: Dec, value: Dec) -> CapitalDiff {
    CapitalDiff::gain(asset, class, rate, value).unwrap()
}

fn loss(asset: Asset, class: AssetClass, rate: Dec, value: Dec) -> CapitalDiff {
    CapitalDiff::loss(asset, class, rate, value).unwrap()
}

fn mixed() -> GainsAndLosses {
    GainsAndLosses::from(vec![
        gain(Asset::Metal(Metal::Gold), AssetClass::Metal, dec(260, 1), dec(5000, 1)),
        gain(Asset::Metal(Metal::Palladium), AssetClass::Metal, dec(110, 1), dec(1000, 1)),
        gain(Asset::Metal(Metal::Silver), AssetClass::Metal, dec(500, 1), dec(6000, 1)),
        loss(Asset::Ticker(String::from("TSLA")), AssetClass::Stock, dec(260, 1), dec(-320, 1)),
        loss(Asset::Ticker(String::from("NASDAQ100")), AssetClass::Etf, dec(260, 1), dec(-4000, 1)),
    ])
}

#[test]
fn should_init_gains_and_losses() {
    assert_eq!(mixed().iter().len(), 5);
}

#[test]
fn should_calc_gains_and_losses() {
    let gains_and_losses = mixed();
    assert_value(gains_and_losses.gains_value().unwrap(), dec(12000, 1));
    assert_value(gains_and_losses.losses_value().unwrap(), dec(-4320, 1));
    assert_value(gains_and_losses.tax_to_pay().unwrap(), dec(4410, 1));
}

#[test]
fn should_flat_gains_and_losses() {
    let gains_and_losses = GainsAndLosses::from(vec![
        gain(Asset::Metal(Metal::Gold), AssetClass::Metal, dec(260, 1), dec(5000, 1)),
        gain(Asset::Metal(Metal::Gold), AssetClass::Metal, dec(260, 1), dec(7000, 1)),
        gain(Asset::Metal(Metal::Silver), AssetClass::Metal, dec(260, 1), dec(2000, 1)),
        loss(Asset::Metal(Metal::Silver), AssetClass::Metal, dec(260, 1), dec(-500, 1)),
        gain(Asset::Metal(Metal::Palladium), AssetClass::Metal, dec(260, 1), dec(1500, 1)),
        loss(Asset::Metal(Metal::Palladium), AssetClass::Metal, dec(260, 1), dec(-3500, 1)),
        gain(Asset::Metal(Metal::Platinum), AssetClass::Metal, dec(260, 1), dec(5000, 1)),
        loss(Asset::Metal(Metal::Platinum), AssetClass::Metal, dec(260, 1), dec(-1000, 1)),
        loss(Asset::Metal(Metal::Platinum), AssetClass::Metal, dec(260, 1), dec(-4000, 1)),
    ])
    .flatten()
    .unwrap();
    assert_eq!(gains_and_losses.iter().len(), 3);
    assert_value(gains_and_losses.gains_value().unwrap(), dec(13500, 1));
    assert_value(gains_and_losses.losses_value().unwrap(), dec(-2000, 1));
    assert_value(gains_and_losses.tax_to_pay().unwrap(), dec(3510, 1));
}

#[test]
fn nets_two_gains_and_a_loss_at_the_reduced_rate() {
    let bonds = || Asset::Ticker(String::from("USGOVIES"));
    let netted = GainsAndLosses::new(vec![
        gain(bonds(), AssetClass::Etf, dec(125, 1), dec(50000, 2)),
        gain(bonds(), AssetClass::Etf, dec(125, 1), dec(10000, 2)),
        loss(bonds(), AssetClass::Etf, dec(125, 1), dec(-8000, 2)),
    ])
    .flatten()
    .unwrap();
    let events = netted.iter();
    assert_eq!(events.len(), 1);
    assert!(events[0].is_gain());
    assert_value(events[0].value(), dec(52000, 2));
    assert_value(events[0].tax_percentage(), dec(125, 1));
}

#[test]
fn netting_takes_the_largest_gain_rate() {
    let netted = GainsAndLosses::new(vec![
        gain(Asset::Metal(Metal::Gold), AssetClass::Metal, dec(110, 1), dec(100, 0)),
        gain(Asset::Metal(Metal::Gold), AssetClass::Metal, dec(260, 1), dec(50, 0)),
        loss(Asset::Metal(Metal::Gold), AssetClass::Metal, dec(500, 1), dec(-30, 0)),
    ])
    .flatten()
    .unwrap();
    let events = netted.iter();
    assert_eq!(events.len(), 1);
    assert_value(events[0].tax_percentage(), dec(260, 1));
    assert_value(events[0].value(), dec(120, 0));
}

#[test]
fn netting_a_negative_sum_gives_a_loss() {
    let netted = GainsAndLosses::new(vec![
        gain(Asset::Metal(Metal::Gold), AssetClass::Metal, dec(260, 1), dec(10, 0)),
        loss(Asset::Metal(Metal::Gold), AssetClass::Metal, dec(260, 1), dec(-30, 0)),
    ])
    .flatten()
    .unwrap();
    let events = netted.iter();
    assert_eq!(events.len(), 1);
    assert!(events[0].is_loss());
    assert_value(events[0].value(), dec(-20, 0));
    assert_value(events[0].tax(), dec(0, 0));
}

#[test]
fn flatten_twice_is_flatten_once() {
    let once = mixed().flatten().unwrap();
    let once_values: Vec<(bool, Dec, Dec, Dec)> =
        once.iter().iter().map(|c| (c.is_gain(), c.value(), c.tax(), c.tax_percentage())).collect();
    let twice = mixed().flatten().unwrap().flatten().unwrap();
    let twice_values: Vec<(bool, Dec, Dec, Dec)> =
        twice.iter().iter().map(|c| (c.is_gain(), c.value(), c.tax(), c.tax_percentage())).collect();
    assert_eq!(once_values, twice_values);
    assert_eq!(once.iter().len(), 5);
}

#[test]
fn empty_set_flattens_to_nothing() {
    let netted = GainsAndLosses::new(vec![]).flatten().unwrap();
    assert_eq!(netted.iter().len(), 0);
    assert_value(netted.gains_value().unwrap(), dec(0, 0));
    assert_value(netted.tax_to_pay().unwrap(), dec(0, 0));
}
