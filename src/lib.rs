//! Lot accounting, realized gains and losses, and average-balance valuation
//! for the yearly declaration of foreign-held financial assets.

pub mod asset;
pub mod balance;
pub mod calculator;
pub mod capital_diff;
pub mod decimal;
pub mod error;
pub mod fold;
pub mod gains;
pub mod module730;
pub mod prices;
pub mod symbols;
pub mod tax;
pub mod text;
pub mod trade;
pub mod wallet;
pub mod whitelist;
