use bitpanda730::decimal::Dec;
use bitpanda730::error::TaxError;
use bitpanda730::wallet::{Block, Wallet};

fn dec(mantissa: i128, scale: u32) -> Dec {
    Dec::new(mantissa, scale)
}

fn assert_value(actual: Dec, expected: Dec) {
    assert!(actual.same_value(&expected), "{:?} != {:?}", actual, expected);
}

fn three_lots() -> Wallet {
    let mut wallet = Wallet::default();
    wallet.buy(dec(20, 1), dec(18632, 2));
    wallet.buy(dec(5, 1), dec(6878, 2));
    wallet.buy(dec(125, 2), dec(10432, 2));
    wallet
}

#[test]
fn should_init_block() {
    let block = Block::new(dec(20, 1), dec(18632, 2));
    assert_value(block.amount_asset, dec(20, 1));
    assert_value(block.amount_fiat, dec(18632, 2));
}

#[test]
fn should_sell_block_fraction() {
    let mut block = Block::new(dec(225, 2), dec(18632, 2));
    let fraction = block.sell_fraction(dec(75, 2)).unwrap();
    assert_value(block.amount_asset, dec(15, 1));
    assert_value(block.amount_fiat.round_dp(2), dec(12421, 2));
    assert_value(fraction.amount_asset, dec(75, 2));
    assert_value(fraction.amount_fiat.round_dp(2), dec(6211, 2));
}

#[test]
fn should_init_wallet() {
    let mut wallet = Wallet::default();
    assert!(wallet.blocks().is_empty());
    wallet.buy(dec(20, 1), dec(18632, 2));
    wallet.buy(dec(5, 1), dec(6878, 2));
    wallet.buy(dec(125, 2), dec(10432, 2));
    assert_eq!(wallet.blocks().len(), 3);
    assert_value(wallet.amount_asset().unwrap(), dec(375, 2));
    assert_value(wallet.amount_fiat().unwrap(), dec(35942, 2));
}

#[test]
fn should_sell_wallet_blocks_entire_block() {
    let mut wallet = three_lots();
    assert_value(wallet.sell(dec(20, 1)).unwrap(), dec(18632, 2));
    assert_value(wallet.amount_asset().unwrap(), dec(175, 2));
    assert_value(wallet.amount_fiat().unwrap(), dec(17310, 2));
}

#[test]
fn should_sell_wallet_blocks_entire_wallet() {
    let mut wallet = three_lots();
    assert_value(wallet.sell(dec(375, 2)).unwrap(), dec(35942, 2));
    assert_value(wallet.amount_asset().unwrap(), dec(0, 0));
    assert_value(wallet.amount_fiat().unwrap(), dec(0, 0));
}

#[test]
fn should_sell_wallet_blocks_partial() {
    let mut wallet = three_lots();
    assert_value(wallet.sell(dec(240, 2)).unwrap(), dec(241344, 3));
    assert_value(wallet.amount_asset().unwrap(), dec(135, 2));
    assert_value(wallet.amount_fiat().unwrap(), dec(118076, 3));
}

#[test]
fn should_fail_selling_wallet_blocks_if_more_than_balance() {
    let mut wallet = Wallet::default();
    wallet.buy(dec(20, 1), dec(18632, 2));
    wallet.buy(dec(5, 1), dec(6878, 2));
    assert!(wallet.sell(dec(50, 1)).is_err());
}

#[test]
fn should_perform_stock_split() {
    let mut wallet = Wallet::default();
    wallet.buy(dec(25, 3), dec(18632, 2));
    wallet.buy(dec(1, 2), dec(6878, 2));
    wallet.buy(dec(15, 3), dec(10432, 2));
    wallet.stock_split(dec(134, 2)).unwrap();
    assert_value(wallet.amount_asset().unwrap(), dec(139, 2));
    assert_value(wallet.amount_fiat().unwrap(), dec(35942, 2));
}

#[test]
fn selling_beyond_holding_leaves_wallet_unchanged() {
    let mut wallet = three_lots();
    assert_eq!(wallet.sell(dec(376, 2)), Err(TaxError::InsufficientBalance));
    assert_eq!(wallet.blocks().len(), 3);
    assert_value(wallet.amount_asset().unwrap(), dec(375, 2));
    assert_value(wallet.amount_fiat().unwrap(), dec(35942, 2));
}

#[test]
fn selling_everything_bought_returns_all_costs() {
    let mut wallet = Wallet::default();
    wallet.buy(dec(1, 0), dec(1000, 2));
    wallet.buy(dec(2, 0), dec(2550, 2));
    wallet.buy(dec(3, 0), dec(0, 2));
    assert_value(wallet.sell(dec(6, 0)).unwrap(), dec(3550, 2));
    assert!(wallet.blocks().is_empty());
    assert_value(wallet.amount_asset().unwrap(), dec(0, 0));
    assert_value(wallet.amount_fiat().unwrap(), dec(0, 0));
}

#[test]
fn partial_sale_of_one_lot_conserves_cost() {
    let mut wallet = Wallet::default();
    wallet.buy(dec(3, 0), dec(10000, 2));
    let cost = wallet.sell(dec(1, 0)).unwrap();
    assert_value(cost.round_dp(2), dec(3333, 2));
    let rest = wallet.amount_fiat().unwrap();
    assert_value(rest.checked_add(&cost).unwrap(), dec(10000, 2));
    assert_value(wallet.amount_asset().unwrap(), dec(2, 0));
}

#[test]
fn in_kind_adjustment_keeps_cost_basis() {
    let mut wallet = three_lots();
    wallet.stock_split(dec(1, 0)).unwrap();
    assert_eq!(wallet.blocks().len(), 1);
    assert_value(wallet.amount_fiat().unwrap(), dec(35942, 2));
    assert_value(wallet.amount_asset().unwrap(), dec(475, 2));
}

#[test]
fn selling_nothing_returns_zero_cost() {
    let mut wallet = three_lots();
    assert_value(wallet.sell(dec(0, 0)).unwrap(), dec(0, 0));
    assert_eq!(wallet.blocks().len(), 3);
}
