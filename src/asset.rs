//! The identifiers carried by a trade: assets, currencies, classes and kinds.

use vstd::prelude::*;

verus! {

/// A FIAT currency.
#[derive(Clone, Copy, Debug, PartialEq, Eq, Structural, Hash)]
pub enum Fiat {
    Chf,
    Czk,
    Dkk,
    Eur,
    Gbp,
    Huf,
    Pln,
    Sek,
    Try,
    Usd,
}

/// A cryptocurrency.
#[derive(Clone, Copy, Debug, PartialEq, Eq, Structural, Hash)]
pub enum CryptoCurrency {
    Aave,
    Ach,
    Ada,
    Aergo,
    Agld,
    Akash,
    Algo,
    Alice,
    Ankr,
    Ant,
    Ape,
    Ar,
    Arpa,
    Astr,
    Atm,
    Atom,
    Audio,
    Ava,
    Avax,
    Axs,
    Bake,
    Band,
    Bar,
    Bat,
    Bch,
    Best,
    Bico,
    Blz,
    Bnb,
    Bnt,
    Bnx,
    Btc,
    Btt,
    C98,
    Cake,
    Celo,
    Celr,
    Chess,
    Chz,
    City,
    Ckb,
    Comp,
    Coti,
    Crv,
    Cspr,
    Ctk,
    Ctsi,
    Cvc,
    Dash,
    Dcr,
    Dgb,
    Dodo,
    Doge,
    Dot,
    Dusk,
    DyDx,
    Efi,
    Egld,
    Enj,
    Ens,
    Eos,
    Etc,
    Eth,
    Ethw,
    Euroc,
    Farm,
    Fet,
    Fil,
    Flow,
    Flux,
    Ftm,
    Ftt,
    Fxs,
    Gala,
    Glm,
    Glmr,
    Gmt,
    Gno,
    Grt,
    Gt,
    Gtc,
    Hbar,
    High,
    Hnt,
    Ht,
    Icp,
    Icx,
    Ilv,
    Imx,
    Iost,
    Iotx,
    Iris,
    Joe,
    Jst,
    Juv,
    Kava,
    Kda,
    Klay,
    Kmd,
    Knc,
    Ksm,
    Lina,
    Link,
    Looks,
    Loom,
    Lpt,
    Lrc,
    Lsk,
    Ltc,
    Luna,
    Lunc,
    Mana,
    Matic,
    Mbl,
    Mina,
    Miota,
    Mkr,
    Mln,
    Mtl,
    Mxc,
    Near,
    Neo,
    Nkn,
    Ocean,
    Okb,
    Omg,
    One,
    OneInch,
    Ont,
    Op,
    Orbs,
    Oxt,
    Pan,
    Perp,
    Pla,
    Poly,
    Porto,
    Powr,
    Psg,
    Pundix,
    Qnt,
    Qtum,
    Quick,
    Rad,
    Ray,
    Ren,
    Rep,
    Req,
    Rndr,
    Rsr,
    Rune,
    Rvn,
    Sand,
    Santos,
    Sc,
    Scrt,
    Sfp,
    Shib,
    Skl,
    Snt,
    Snx,
    Sol,
    Srm,
    Stmx,
    Storj,
    Stpt,
    Strax,
    Stx,
    Sun,
    Super,
    Sushi,
    Sxp,
    Sys,
    Theta,
    Tomo,
    Troy,
    Tru,
    Trx,
    Tt,
    Tvk,
    Twt,
    Uma,
    Uni,
    Usdc,
    Usdt,
    Utk,
    Vet,
    Voxel,
    Vtho,
    Wan,
    Waves,
    Waxp,
    Wemix,
    Woo,
    Xdb,
    Xem,
    Xlm,
    Xno,
    Xrp,
    Xrt,
    Xtz,
    Xvs,
    Xym,
    Yfi,
    Ygg,
    Zec,
    Zen,
    Zil,
    Zrx,
}

/// A currency: FIAT or crypto.
#[derive(Clone, Copy, Debug, PartialEq, Eq, Structural, Hash)]
pub enum Currency {
    Fiat(Fiat),
    Crypto(CryptoCurrency),
}

impl Currency {
    /// Whether this is a FIAT currency.
    pub fn is_fiat(&self) -> (r: bool)
        ensures
            r == (*self is Fiat),
    {
        matches!(self, Currency::Fiat(_))
    }

    /// Whether this is a cryptocurrency.
    pub fn is_crypto(&self) -> (r: bool)
        ensures
            r == (*self is Crypto),
    {
        matches!(self, Currency::Crypto(_))
    }
}

/// A precious metal.
#[derive(Clone, Copy, Debug, PartialEq, Eq, Structural, Hash)]
pub enum Metal {
    Gold,
    Palladium,
    Platinum,
    Silver,
}

/// The kind of asset a trade is about.
#[derive(Clone, Copy, Debug, PartialEq, Eq, Structural, Hash)]
pub enum AssetClass {
    Fiat,
    Stock,
    Cryptocurrency,
    Etf,
    Commodity,
    Metal,
}

/// Whether assets were given to the holder or taken from the holder.
#[derive(Clone, Copy, Debug, PartialEq, Eq, Structural, Hash)]
pub enum InOut {
    Incoming,
    Outgoing,
}

/// The kind of transaction.
#[derive(Clone, Copy, Debug, PartialEq, Eq, Structural, Hash)]
pub enum TransactionType {
    Deposit,
    Buy,
    Transfer,
    Sell,
    Withdrawal,
}

/// An asset: a currency, a metal, a ticker symbol or a Hong Kong stock number.
#[derive(Debug, Hash)]
pub enum Asset {
    Currency(Currency),
    Metal(Metal),
    Ticker(String),
    HongKong(i64),
}

/// An asset as a mathematical value.
pub enum AssetView {
    Currency(Currency),
    Metal(Metal),
    Ticker(Seq<char>),
    HongKong(i64),
}

impl View for Asset {
    type V = AssetView;

    open spec fn view(&self) -> AssetView {
        match self {
            Asset::Currency(c) => AssetView::Currency(*c),
            Asset::Metal(m) => AssetView::Metal(*m),
            Asset::Ticker(t) => AssetView::Ticker(t@),
            Asset::HongKong(n) => AssetView::HongKong(*n),
        }
    }
}

impl Asset {
    /// A copy of this asset.
    pub fn cloned(&self) -> (r: Asset)
        ensures
            r@ == self@,
    {
        match self {
            Asset::Currency(c) => Asset::Currency(*c),
            Asset::Metal(m) => Asset::Metal(*m),
            Asset::Ticker(t) => Asset::Ticker(t.clone()),
            Asset::HongKong(n) => Asset::HongKong(*n),
        }
    }

    /// Whether the two assets are the same.
    pub fn same(&self, other: &Asset) -> (r: bool)
        ensures
            r == (self@ == other@),
    {
        match (self, other) {
            (Asset::Currency(a), Asset::Currency(b)) => *a == *b,
            (Asset::Metal(a), Asset::Metal(b)) => *a == *b,
            (Asset::Ticker(a), Asset::Ticker(b)) => *a == *b,
            (Asset::HongKong(a), Asset::HongKong(b)) => *a == *b,
            _ => false,
        }
    }
}

impl Clone for Asset {
    fn clone(&self) -> Asset {
        self.cloned()
    }
}

impl PartialEq for Asset {
    fn eq(&self, other: &Asset) -> (r: bool) {
        self.same(other)
    }
}

impl vstd::std_specs::cmp::PartialEqSpecImpl for Asset {
    open spec fn obeys_eq_spec() -> bool {
        true
    }

    open spec fn eq_spec(&self, other: &Asset) -> bool {
        self@ == other@
    }
}

impl Eq for Asset {
}

/// A field of the exported trade list that may hold no value (written `-`).
#[derive(Clone, Copy, Debug, PartialEq, Eq, Structural)]
pub enum CsvOption<T> {
    Value(T),
    Empty(NoneValue),
}

/// The marker of an empty field.
#[derive(Clone, Copy, Debug, PartialEq, Eq, Structural)]
pub enum NoneValue {
    Null,
}

impl<T> CsvOption<T> {
    /// The value held; the field must hold one.
    pub fn unwrap(self) -> (r: T)
        requires
            self is Value,
        ensures
            self == CsvOption::<T>::Value(r),
    {
        match self {
            CsvOption::Value(v) => v,
            CsvOption::Empty(_) => vstd::pervasive::unreached(),
        }
    }

    /// The value held, or `alt` when the field is empty.
    pub fn unwrap_or(self, alt: T) -> (r: T)
        ensures
            match self {
                CsvOption::Value(v) => r == v,
                CsvOption::Empty(_) => r == alt,
            },
    {
        match self {
            CsvOption::Value(v) => v,
            CsvOption::Empty(_) => alt,
        }
    }

    /// The field as an `Option`.
    pub fn option(self) -> (r: Option<T>)
        ensures
            match self {
                CsvOption::Value(v) => r == Some(v),
                CsvOption::Empty(_) => r is None,
            },
    {
        match self {
            CsvOption::Value(v) => Some(v),
            CsvOption::Empty(_) => None,
        }
    }
}

} // verus!
