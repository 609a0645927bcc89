//! Market-data symbols of assets.

use crate::asset::{Asset, AssetView, CryptoCurrency, Currency, Fiat};
use crate::text::{crypto_name, i64_text, int_text};
use vstd::prelude::*;
use vstd::string::*;

verus! {

/// Resolves assets to the symbols that market-data providers quote them by.
pub struct Symbols;

/// The symbol of a cryptocurrency, quoted in US dollars.
pub open spec fn crypto_symbol(c: CryptoCurrency) -> Seq<char> {
    crypto_name(c) + "-USD"@
}

/// The symbol of a FIAT currency, as its US dollar exchange rate.
pub open spec fn fiat_symbol(f: Fiat) -> Seq<char> {
    match f {
        Fiat::Chf => "USDCHF=x"@,
        Fiat::Czk => "USDCZK=x"@,
        Fiat::Dkk => "USDDKK=x"@,
        Fiat::Eur => "USDEUR=x"@,
        Fiat::Gbp => "USDGBP=x"@,
        Fiat::Huf => "USDHUF=x"@,
        Fiat::Pln => "USDPLN=x"@,
        Fiat::Sek => "USDSEK=x"@,
        Fiat::Try => "USDTRY=x"@,
        Fiat::Usd => "USDT-USD"@,
    }
}

/// The symbol of an asset; metals have none of their own and are quoted by
/// their ticker-like display code.
pub open spec fn symbol_of(a: AssetView) -> Seq<char> {
    match a {
        AssetView::Currency(Currency::Crypto(c)) => crypto_symbol(c),
        AssetView::Currency(Currency::Fiat(f)) => fiat_symbol(f),
        AssetView::Metal(m) => crate::text::metal_name(m),
        AssetView::Ticker(t) => t,
        AssetView::HongKong(n) => int_text(n as int) + ".HK"@,
    }
}

fn fiat_symbol_str(f: Fiat) -> (r: &'static str)
    ensures
        r@ == fiat_symbol(f),
{
    match f {
        Fiat::Chf => "USDCHF=x",
        Fiat::Czk => "USDCZK=x",
        Fiat::Dkk => "USDDKK=x",
        Fiat::Eur => "USDEUR=x",
        Fiat::Gbp => "USDGBP=x",
        Fiat::Huf => "USDHUF=x",
        Fiat::Pln => "USDPLN=x",
        Fiat::Sek => "USDSEK=x",
        Fiat::Try => "USDTRY=x",
        Fiat::Usd => "USDT-USD",
    }
}

impl Symbols {
    /// The market-data symbol of `asset`.
    pub fn lookup(asset: Asset) -> (r: String)
        ensures
            r@ == symbol_of(asset@),
    {
        match asset {
            Asset::Currency(Currency::Crypto(c)) => Asset::Currency(Currency::Crypto(c)).to_string().concat("-USD"),
            Asset::Currency(Currency::Fiat(f)) => String::from_str(fiat_symbol_str(f)),
            Asset::Metal(m) => m.to_string(),
            Asset::Ticker(name) => name,
            Asset::HongKong(id) => i64_text(id).concat(".HK"),
        }
    }
}

} // verus!
