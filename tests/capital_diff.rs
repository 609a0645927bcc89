use bitpanda730::asset::{Asset, AssetClass, Metal};
use bitpanda730::capital_diff::CapitalDiff;
use bitpanda730::decimal::Dec;
use bitpanda730::error::TaxError;

fn dec(mantissa: i128, scale: u32) -> Dec {
    Dec::new(mantissa, scale)
}

fn assert_value(actual: Dec, expected: Dec) {
    assert!(actual.same_value(&expected), "{:?} != {:?}", actual, expected);
}

#[test]
fn should_init_gain() {
    let gain = CapitalDiff::gain(Asset::Metal(Metal::Gold), AssetClass::Metal, dec(260, 1), dec(10000, 1)).unwrap();
    assert!(gain.is_gain());
    assert!(matches!(gain.asset(), Asset::Metal(Metal::Gold)));
    assert_eq!(gain.is_loss(), false);
    assert_value(gain.tax(), dec(2600, 1));
    assert_value(gain.tax_percentage(), dec(260, 1));
    assert_value(gain.value(), dec(10000, 1));
}

#[test]
fn should_init_loss() {
    let loss = CapitalDiff::loss(Asset::Metal(Metal::Gold), AssetClass::Metal, dec(260, 1), dec(-560, 1)).unwrap();
    assert_eq!(loss.is_loss(), true);
    assert_eq!(loss.is_gain(), false);
    assert_value(loss.tax(), dec(0, 0));
    assert_value(loss.tax_percentage(), dec(260, 1));
    assert_value(loss.value(), dec(-560, 1));
}

#[test]
fn rejects_tax_percentage_above_hundred() {
    let r = CapitalDiff::gain(Asset::Metal(Metal::Gold), AssetClass::Metal, dec(1260, 1), dec(10000, 1));
    assert_eq!(r.err(), Some(TaxError::InvalidEventConstruction));
}

#[test]
fn rejects_negative_tax_percentage() {
    let r = CapitalDiff::gain(Asset::Metal(Metal::Gold), AssetClass::Metal, dec(-260, 1), dec(10000, 1));
    assert_eq!(r.err(), Some(TaxError::InvalidEventConstruction));
}

#[test]
fn rejects_gain_without_positive_value() {
    let r = CapitalDiff::gain(Asset::Metal(Metal::Gold), AssetClass::Metal, dec(260, 1), dec(0, 0));
    assert_eq!(r.err(), Some(TaxError::InvalidEventConstruction));
    let r = CapitalDiff::gain(Asset::Metal(Metal::Gold), AssetClass::Metal, dec(260, 1), dec(-5, 0));
    assert_eq!(r.err(), Some(TaxError::InvalidEventConstruction));
}

#[test]
fn rejects_loss_without_negative_value() {
    let r = CapitalDiff::loss(Asset::Metal(Metal::Gold), AssetClass::Metal, dec(260, 1), dec(5, 0));
    assert_eq!(r.err(), Some(TaxError::InvalidEventConstruction));
}

#[test]
fn gain_tax_is_value_times_rate() {
    let gain = CapitalDiff::gain(Asset::Metal(Metal::Gold), AssetClass::Metal, dec(125, 1), dec(1000, 0)).unwrap();
    assert_value(gain.tax(), dec(125, 0));
}
