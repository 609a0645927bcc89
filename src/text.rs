//! Text forms of assets: display names and decimal digits.

use crate::asset::{Asset, AssetView, CryptoCurrency, Currency, Fiat, Metal};
use vstd::prelude::*;
use vstd::string::*;

verus! {

/// The decimal digit `d` as text.
pub open spec fn digit_text(d: nat) -> Seq<char> {
    if d == 0 {
        "0"@
    } else if d == 1 {
        "1"@
    } else if d == 2 {
        "2"@
    } else if d == 3 {
        "3"@
    } else if d == 4 {
        "4"@
    } else if d == 5 {
        "5"@
    } else if d == 6 {
        "6"@
    } else if d == 7 {
        "7"@
    } else if d == 8 {
        "8"@
    } else {
        "9"@
    }
}

fn digit_str(d: u64) -> (r: &'static str)
    requires
        d < 10,
    ensures
        r@ == digit_text(d as nat),
{
    if d == 0 {
        "0"
    } else if d == 1 {
        "1"
    } else if d == 2 {
        "2"
    } else if d == 3 {
        "3"
    } else if d == 4 {
        "4"
    } else if d == 5 {
        "5"
    } else if d == 6 {
        "6"
    } else if d == 7 {
        "7"
    } else if d == 8 {
        "8"
    } else {
        "9"
    }
}

/// The decimal digits of `n`, most significant first.
pub open spec fn digits_of(n: nat) -> Seq<char>
    decreases n,
{
    if n < 10 {
        digit_text(n)
    } else {
        digits_of(n / 10) + digit_text(n % 10)
    }
}

/// The decimal text of `n`, with a leading `-` when negative.
pub open spec fn int_text(n: int) -> Seq<char> {
    if n < 0 {
        "-"@ + digits_of((-n) as nat)
    } else {
        digits_of(n as nat)
    }
}

fn digits(n: u64) -> (r: String)
    ensures
        r@ == digits_of(n as nat),
    decreases n,
{
    if n < 10 {
        String::from_str(digit_str(n))
    } else {
        let mut s = digits(n / 10);
        s.append(digit_str(n % 10));
        s
    }
}

/// The decimal text of `n`.
pub fn i64_text(n: i64) -> (r: String)
    ensures
        r@ == int_text(n as int),
{
    if n < 0 {
        let m: u64 = if n == i64::MIN {
            9223372036854775808u64
        } else {
            (-n) as u64
        };
        String::from_str("-").concat(digits(m).as_str())
    } else {
        digits(n as u64)
    }
}

/// What `str::to_uppercase` returns on a text.
pub uninterp spec fn upper_of(s: Seq<char>) -> Seq<char>;

/// Relies on `str::to_uppercase`, whose result depends on the characters alone.
#[verifier::external_body]
fn to_uppercase(s: &str) -> (r: String)
    ensures
        r@ == upper_of(s@),
{
    s.to_uppercase()
}

/// The display name of a cryptocurrency.
pub open spec fn crypto_name(c: CryptoCurrency) -> Seq<char> {
    match c {
        CryptoCurrency::Aave => "AAVE"@,
        CryptoCurrency::Ach => "ACH"@,
        CryptoCurrency::Ada => "ADA"@,
        CryptoCurrency::Aergo => "AERGO"@,
        CryptoCurrency::Agld => "AGLD"@,
        CryptoCurrency::Akash => "AKASH"@,
        CryptoCurrency::Algo => "ALGO"@,
        CryptoCurrency::Alice => "ALICE"@,
        CryptoCurrency::Ankr => "ANKR"@,
        CryptoCurrency::Ant => "ANT"@,
        CryptoCurrency::Ape => "APE"@,
        CryptoCurrency::Ar => "AR"@,
        CryptoCurrency::Arpa => "ARPA"@,
        CryptoCurrency::Astr => "ASTR"@,
        CryptoCurrency::Atm => "ATM"@,
        CryptoCurrency::Atom => "ATOM"@,
        CryptoCurrency::Audio => "AUDIO"@,
        CryptoCurrency::Ava => "AVA"@,
        CryptoCurrency::Avax => "AVAX"@,
        CryptoCurrency::Axs => "AXS"@,
        CryptoCurrency::Bake => "BAKE"@,
        CryptoCurrency::Band => "BAND"@,
        CryptoCurrency::Bar => "BAR"@,
        CryptoCurrency::Bat => "BAT"@,
        CryptoCurrency::Bch => "BCH"@,
        CryptoCurrency::Best => "BEST"@,
        CryptoCurrency::Bico => "BICO"@,
        CryptoCurrency::Blz => "BLZ"@,
        CryptoCurrency::Bnb => "BNB"@,
        CryptoCurrency::Bnt => "BNT"@,
        CryptoCurrency::Bnx => "BNX"@,
        CryptoCurrency::Btc => "BTC"@,
        CryptoCurrency::Btt => "BTT"@,
        CryptoCurrency::C98 => "C98"@,
        CryptoCurrency::Cake => "CAKE"@,
        CryptoCurrency::Celo => "CELO"@,
        CryptoCurrency::Celr => "CELR"@,
        CryptoCurrency::Chess => "CHESS"@,
        CryptoCurrency::Chz => "CHZ"@,
        CryptoCurrency::City => "CITY"@,
        CryptoCurrency::Ckb => "CKB"@,
        CryptoCurrency::Comp => "COMP"@,
        CryptoCurrency::Coti => "COTI"@,
        CryptoCurrency::Crv => "CRV"@,
        CryptoCurrency::Cspr => "CSPR"@,
        CryptoCurrency::Ctk => "CTK"@,
        CryptoCurrency::Ctsi => "CTSI"@,
        CryptoCurrency::Cvc => "CVC"@,
        CryptoCurrency::Dash => "DASH"@,
        CryptoCurrency::Dcr => "DCR"@,
        CryptoCurrency::Dgb => "DGB"@,
        CryptoCurrency::Dodo => "DODO"@,
        CryptoCurrency::Doge => "DOGE"@,
        CryptoCurrency::Dot => "DOT"@,
        CryptoCurrency::Dusk => "DUSK"@,
        CryptoCurrency::DyDx => "DYDX"@,
        CryptoCurrency::Efi => "EFI"@,
        CryptoCurrency::Egld => "EGLD"@,
        CryptoCurrency::Enj => "ENJ"@,
        CryptoCurrency::Ens => "ENS"@,
        CryptoCurrency::Eos => "EOS"@,
        CryptoCurrency::Etc => "ETC"@,
        CryptoCurrency::Eth => "ETH"@,
        CryptoCurrency::Ethw => "ETHW"@,
        CryptoCurrency::Euroc => "EUROC"@,
        CryptoCurrency::Farm => "FARM"@,
        CryptoCurrency::Fet => "FET"@,
        CryptoCurrency::Fil => "FIL"@,
        CryptoCurrency::Flow => "FLOW"@,
        CryptoCurrency::Flux => "FLUX"@,
        CryptoCurrency::Ftm => "FTM"@,
        CryptoCurrency::Ftt => "FTT"@,
        CryptoCurrency::Fxs => "FXS"@,
        CryptoCurrency::Gala => "GALA"@,
        CryptoCurrency::Glm => "GLM"@,
        CryptoCurrency::Glmr => "GLMR"@,
        CryptoCurrency::Gmt => "GMT"@,
        CryptoCurrency::Gno => "GNO"@,
        CryptoCurrency::Grt => "GRT"@,
        CryptoCurrency::Gt => "GT"@,
        CryptoCurrency::Gtc => "GTC"@,
        CryptoCurrency::Hbar => "HBAR"@,
        CryptoCurrency::High => "HIGH"@,
        CryptoCurrency::Hnt => "HNT"@,
        CryptoCurrency::Ht => "HT"@,
        CryptoCurrency::Icp => "ICP"@,
        CryptoCurrency::Icx => "ICX"@,
        CryptoCurrency::Ilv => "ILV"@,
        CryptoCurrency::Imx => "IMX"@,
        CryptoCurrency::Iost => "IOST"@,
        CryptoCurrency::Iotx => "IOTX"@,
        CryptoCurrency::Iris => "IRIS"@,
        CryptoCurrency::Joe => "JOE"@,
        CryptoCurrency::Jst => "JST"@,
        CryptoCurrency::Juv => "JUV"@,
        CryptoCurrency::Kava => "KAVA"@,
        CryptoCurrency::Kda => "KDA"@,
        CryptoCurrency::Klay => "KLAY"@,
        CryptoCurrency::Kmd => "KMD"@,
        CryptoCurrency::Knc => "KNC"@,
        CryptoCurrency::Ksm => "KSM"@,
        CryptoCurrency::Lina => "LINA"@,
        CryptoCurrency::Link => "LINK"@,
        CryptoCurrency::Looks => "LOOKS"@,
        CryptoCurrency::Loom => "LOOM"@,
        CryptoCurrency::Lpt => "LPT"@,
        CryptoCurrency::Lrc => "LRC"@,
        CryptoCurrency::Lsk => "LSK"@,
        CryptoCurrency::Ltc => "LTC"@,
        CryptoCurrency::Luna => "LUNA"@,
        CryptoCurrency::Lunc => "LUNC"@,
        CryptoCurrency::Mana => "MANA"@,
        CryptoCurrency::Matic => "MATIC"@,
        CryptoCurrency::Mbl => "MBL"@,
        CryptoCurrency::Mina => "MINA"@,
        CryptoCurrency::Miota => "MIOTA"@,
        CryptoCurrency::Mkr => "MKR"@,
        CryptoCurrency::Mln => "MLN"@,
        CryptoCurrency::Mtl => "MTL"@,
        CryptoCurrency::Mxc => "MXC"@,
        CryptoCurrency::Near => "NEAR"@,
        CryptoCurrency::Neo => "NEO"@,
        CryptoCurrency::Nkn => "NKN"@,
        CryptoCurrency::Ocean => "OCEAN"@,
        CryptoCurrency::Okb => "OKB"@,
        CryptoCurrency::Omg => "OMG"@,
        CryptoCurrency::One => "ONE"@,
        CryptoCurrency::OneInch => "1INCH"@,
        CryptoCurrency::Ont => "ONT"@,
        CryptoCurrency::Op => "OP"@,
        CryptoCurrency::Orbs => "ORBS"@,
        CryptoCurrency::Oxt => "OXT"@,
        CryptoCurrency::Pan => "PAN"@,
        CryptoCurrency::Perp => "PERP"@,
        CryptoCurrency::Pla => "PLA"@,
        CryptoCurrency::Poly => "POLY"@,
        CryptoCurrency::Porto => "PORTO"@,
        CryptoCurrency::Powr => "POWR"@,
        CryptoCurrency::Psg => "PSG"@,
        CryptoCurrency::Pundix => "PUNDIX"@,
        CryptoCurrency::Qnt => "QNT"@,
        CryptoCurrency::Qtum => "QTUM"@,
        CryptoCurrency::Quick => "QUICK"@,
        CryptoCurrency::Rad => "RAD"@,
        CryptoCurrency::Ray => "RAY"@,
        CryptoCurrency::Ren => "REN"@,
        CryptoCurrency::Rep => "REP"@,
        CryptoCurrency::Req => "REQ"@,
        CryptoCurrency::Rndr => "RNDR"@,
        CryptoCurrency::Rsr => "RSR"@,
        CryptoCurrency::Rune => "RUNE"@,
        CryptoCurrency::Rvn => "RVN"@,
        CryptoCurrency::Sand => "SAND"@,
        CryptoCurrency::Santos => "SANTOS"@,
        CryptoCurrency::Sc => "SC"@,
        CryptoCurrency::Scrt => "SCRT"@,
        CryptoCurrency::Sfp => "SFP"@,
        CryptoCurrency::Shib => "SHIB"@,
        CryptoCurrency::Skl => "SKL"@,
        CryptoCurrency::Snt => "SNT"@,
        CryptoCurrency::Snx => "SNX"@,
        CryptoCurrency::Sol => "SOL"@,
        CryptoCurrency::Srm => "SRM"@,
        CryptoCurrency::Stmx => "STMX"@,
        CryptoCurrency::Storj => "STORJ"@,
        CryptoCurrency::Stpt => "STPT"@,
        CryptoCurrency::Strax => "STRAX"@,
        CryptoCurrency::Stx => "STX"@,
        CryptoCurrency::Sun => "SUN"@,
        CryptoCurrency::Super => "SUPER"@,
        CryptoCurrency::Sushi => "SUSHI"@,
        CryptoCurrency::Sxp => "SXP"@,
        CryptoCurrency::Sys => "SYS"@,
        CryptoCurrency::Theta => "THETA"@,
        CryptoCurrency::Tomo => "TOMO"@,
        CryptoCurrency::Troy => "TROY"@,
        CryptoCurrency::Tru => "TRU"@,
        CryptoCurrency::Trx => "TRX"@,
        CryptoCurrency::Tt => "TT"@,
        CryptoCurrency::Tvk => "TVK"@,
        CryptoCurrency::Twt => "TWT"@,
        CryptoCurrency::Uma => "UMA"@,
        CryptoCurrency::Uni => "UNI"@,
        CryptoCurrency::Usdc => "USDC"@,
        CryptoCurrency::Usdt => "USDT"@,
        CryptoCurrency::Utk => "UTK"@,
        CryptoCurrency::Vet => "VET"@,
        CryptoCurrency::Voxel => "VOXEL"@,
        CryptoCurrency::Vtho => "VTHO"@,
        CryptoCurrency::Wan => "WAN"@,
        CryptoCurrency::Waves => "WAVES"@,
        CryptoCurrency::Waxp => "WAXP"@,
        CryptoCurrency::Wemix => "WEMIX"@,
        CryptoCurrency::Woo => "WOO"@,
        CryptoCurrency::Xdb => "XDB"@,
        CryptoCurrency::Xem => "XEM"@,
        CryptoCurrency::Xlm => "XLM"@,
        CryptoCurrency::Xno => "XNO"@,
        CryptoCurrency::Xrp => "XRP"@,
        CryptoCurrency::Xrt => "XRT"@,
        CryptoCurrency::Xtz => "XTZ"@,
        CryptoCurrency::Xvs => "XVS"@,
        CryptoCurrency::Xym => "XYM"@,
        CryptoCurrency::Yfi => "YFI"@,
        CryptoCurrency::Ygg => "YGG"@,
        CryptoCurrency::Zec => "ZEC"@,
        CryptoCurrency::Zen => "ZEN"@,
        CryptoCurrency::Zil => "ZIL"@,
        CryptoCurrency::Zrx => "ZRX"@,
    }
}

/// The display name of a FIAT currency.
pub open spec fn fiat_name(f: Fiat) -> Seq<char> {
    match f {
        Fiat::Chf => "CHF"@,
        Fiat::Czk => "CZK"@,
        Fiat::Dkk => "DKK"@,
        Fiat::Eur => "EUR"@,
        Fiat::Gbp => "GBP"@,
        Fiat::Huf => "HUF"@,
        Fiat::Pln => "PLN"@,
        Fiat::Sek => "SEK"@,
        Fiat::Try => "TRY"@,
        Fiat::Usd => "USD"@,
    }
}

/// The symbol of a precious metal.
pub open spec fn metal_name(m: Metal) -> Seq<char> {
    match m {
        Metal::Gold => "XAU"@,
        Metal::Palladium => "XPD"@,
        Metal::Platinum => "XPT"@,
        Metal::Silver => "XAG"@,
    }
}

/// The display name of an asset, in upper case.
pub open spec fn asset_name(a: AssetView) -> Seq<char> {
    match a {
        AssetView::Currency(Currency::Crypto(c)) => crypto_name(c),
        AssetView::Currency(Currency::Fiat(f)) => fiat_name(f),
        AssetView::Metal(m) => metal_name(m),
        AssetView::Ticker(t) => upper_of(t),
        AssetView::HongKong(n) => int_text(n as int),
    }
}

fn crypto_str(c: CryptoCurrency) -> (r: &'static str)
    ensures
        r@ == crypto_name(c),
{
    match c {
        CryptoCurrency::Aave => "AAVE",
        CryptoCurrency::Ach => "ACH",
        CryptoCurrency::Ada => "ADA",
        CryptoCurrency::Aergo => "AERGO",
        CryptoCurrency::Agld => "AGLD",
        CryptoCurrency::Akash => "AKASH",
        CryptoCurrency::Algo => "ALGO",
        CryptoCurrency::Alice => "ALICE",
        CryptoCurrency::Ankr => "ANKR",
        CryptoCurrency::Ant => "ANT",
        CryptoCurrency::Ape => "APE",
        CryptoCurrency::Ar => "AR",
        CryptoCurrency::Arpa => "ARPA",
        CryptoCurrency::Astr => "ASTR",
        CryptoCurrency::Atm => "ATM",
        CryptoCurrency::Atom => "ATOM",
        CryptoCurrency::Audio => "AUDIO",
        CryptoCurrency::Ava => "AVA",
        CryptoCurrency::Avax => "AVAX",
        CryptoCurrency::Axs => "AXS",
        CryptoCurrency::Bake => "BAKE",
        CryptoCurrency::Band => "BAND",
        CryptoCurrency::Bar => "BAR",
        CryptoCurrency::Bat => "BAT",
        CryptoCurrency::Bch => "BCH",
        CryptoCurrency::Best => "BEST",
        CryptoCurrency::Bico => "BICO",
        CryptoCurrency::Blz => "BLZ",
        CryptoCurrency::Bnb => "BNB",
        CryptoCurrency::Bnt => "BNT",
        CryptoCurrency::Bnx => "BNX",
        CryptoCurrency::Btc => "BTC",
        CryptoCurrency::Btt => "BTT",
        CryptoCurrency::C98 => "C98",
        CryptoCurrency::Cake => "CAKE",
        CryptoCurrency::Celo => "CELO",
        CryptoCurrency::Celr => "CELR",
        CryptoCurrency::Chess => "CHESS",
        CryptoCurrency::Chz => "CHZ",
        CryptoCurrency::City => "CITY",
        CryptoCurrency::Ckb => "CKB",
        CryptoCurrency::Comp => "COMP",
        CryptoCurrency::Coti => "COTI",
        CryptoCurrency::Crv => "CRV",
        CryptoCurrency::Cspr => "CSPR",
        CryptoCurrency::Ctk => "CTK",
        CryptoCurrency::Ctsi => "CTSI",
        CryptoCurrency::Cvc => "CVC",
        CryptoCurrency::Dash => "DASH",
        CryptoCurrency::Dcr => "DCR",
        CryptoCurrency::Dgb => "DGB",
        CryptoCurrency::Dodo => "DODO",
        CryptoCurrency::Doge => "DOGE",
        CryptoCurrency::Dot => "DOT",
        CryptoCurrency::Dusk => "DUSK",
        CryptoCurrency::DyDx => "DYDX",
        CryptoCurrency::Efi => "EFI",
        CryptoCurrency::Egld => "EGLD",
        CryptoCurrency::Enj => "ENJ",
        CryptoCurrency::Ens => "ENS",
        CryptoCurrency::Eos => "EOS",
        CryptoCurrency::Etc => "ETC",
        CryptoCurrency::Eth => "ETH",
        CryptoCurrency::Ethw => "ETHW",
        CryptoCurrency::Euroc => "EUROC",
        CryptoCurrency::Farm => "FARM",
        CryptoCurrency::Fet => "FET",
        CryptoCurrency::Fil => "FIL",
        CryptoCurrency::Flow => "FLOW",
        CryptoCurrency::Flux => "FLUX",
        CryptoCurrency::Ftm => "FTM",
        CryptoCurrency::Ftt => "FTT",
        CryptoCurrency::Fxs => "FXS",
        CryptoCurrency::Gala => "GALA",
        CryptoCurrency::Glm => "GLM",
        CryptoCurrency::Glmr => "GLMR",
        CryptoCurrency::Gmt => "GMT",
        CryptoCurrency::Gno => "GNO",
        CryptoCurrency::Grt => "GRT",
        CryptoCurrency::Gt => "GT",
        CryptoCurrency::Gtc => "GTC",
        CryptoCurrency::Hbar => "HBAR",
        CryptoCurrency::High => "HIGH",
        CryptoCurrency::Hnt => "HNT",
        CryptoCurrency::Ht => "HT",
        CryptoCurrency::Icp => "ICP",
        CryptoCurrency::Icx => "ICX",
        CryptoCurrency::Ilv => "ILV",
        CryptoCurrency::Imx => "IMX",
        CryptoCurrency::Iost => "IOST",
        CryptoCurrency::Iotx => "IOTX",
        CryptoCurrency::Iris => "IRIS",
        CryptoCurrency::Joe => "JOE",
        CryptoCurrency::Jst => "JST",
        CryptoCurrency::Juv => "JUV",
        CryptoCurrency::Kava => "KAVA",
        CryptoCurrency::Kda => "KDA",
        CryptoCurrency::Klay => "KLAY",
        CryptoCurrency::Kmd => "KMD",
        CryptoCurrency::Knc => "KNC",
        CryptoCurrency::Ksm => "KSM",
        CryptoCurrency::Lina => "LINA",
        CryptoCurrency::Link => "LINK",
        CryptoCurrency::Looks => "LOOKS",
        CryptoCurrency::Loom => "LOOM",
        CryptoCurrency::Lpt => "LPT",
        CryptoCurrency::Lrc => "LRC",
        CryptoCurrency::Lsk => "LSK",
        CryptoCurrency::Ltc => "LTC",
        CryptoCurrency::Luna => "LUNA",
        CryptoCurrency::Lunc => "LUNC",
        CryptoCurrency::Mana => "MANA",
        CryptoCurrency::Matic => "MATIC",
        CryptoCurrency::Mbl => "MBL",
        CryptoCurrency::Mina => "MINA",
        CryptoCurrency::Miota => "MIOTA",
        CryptoCurrency::Mkr => "MKR",
        CryptoCurrency::Mln => "MLN",
        CryptoCurrency::Mtl => "MTL",
        CryptoCurrency::Mxc => "MXC",
        CryptoCurrency::Near => "NEAR",
        CryptoCurrency::Neo => "NEO",
        CryptoCurrency::Nkn => "NKN",
        CryptoCurrency::Ocean => "OCEAN",
        CryptoCurrency::Okb => "OKB",
        CryptoCurrency::Omg => "OMG",
        CryptoCurrency::One => "ONE",
        CryptoCurrency::OneInch => "1INCH",
        CryptoCurrency::Ont => "ONT",
        CryptoCurrency::Op => "OP",
        CryptoCurrency::Orbs => "ORBS",
        CryptoCurrency::Oxt => "OXT",
        CryptoCurrency::Pan => "PAN",
        CryptoCurrency::Perp => "PERP",
        CryptoCurrency::Pla => "PLA",
        CryptoCurrency::Poly => "POLY",
        CryptoCurrency::Porto => "PORTO",
        CryptoCurrency::Powr => "POWR",
        CryptoCurrency::Psg => "PSG",
        CryptoCurrency::Pundix => "PUNDIX",
        CryptoCurrency::Qnt => "QNT",
        CryptoCurrency::Qtum => "QTUM",
        CryptoCurrency::Quick => "QUICK",
        CryptoCurrency::Rad => "RAD",
        CryptoCurrency::Ray => "RAY",
        CryptoCurrency::Ren => "REN",
        CryptoCurrency::Rep => "REP",
        CryptoCurrency::Req => "REQ",
        CryptoCurrency::Rndr => "RNDR",
        CryptoCurrency::Rsr => "RSR",
        CryptoCurrency::Rune => "RUNE",
        CryptoCurrency::Rvn => "RVN",
        CryptoCurrency::Sand => "SAND",
        CryptoCurrency::Santos => "SANTOS",
        CryptoCurrency::Sc => "SC",
        CryptoCurrency::Scrt => "SCRT",
        CryptoCurrency::Sfp => "SFP",
        CryptoCurrency::Shib => "SHIB",
        CryptoCurrency::Skl => "SKL",
        CryptoCurrency::Snt => "SNT",
        CryptoCurrency::Snx => "SNX",
        CryptoCurrency::Sol => "SOL",
        CryptoCurrency::Srm => "SRM",
        CryptoCurrency::Stmx => "STMX",
        CryptoCurrency::Storj => "STORJ",
        CryptoCurrency::Stpt => "STPT",
        CryptoCurrency::Strax => "STRAX",
        CryptoCurrency::Stx => "STX",
        CryptoCurrency::Sun => "SUN",
        CryptoCurrency::Super => "SUPER",
        CryptoCurrency::Sushi => "SUSHI",
        CryptoCurrency::Sxp => "SXP",
        CryptoCurrency::Sys => "SYS",
        CryptoCurrency::Theta => "THETA",
        CryptoCurrency::Tomo => "TOMO",
        CryptoCurrency::Troy => "TROY",
        CryptoCurrency::Tru => "TRU",
        CryptoCurrency::Trx => "TRX",
        CryptoCurrency::Tt => "TT",
        CryptoCurrency::Tvk => "TVK",
        CryptoCurrency::Twt => "TWT",
        CryptoCurrency::Uma => "UMA",
        CryptoCurrency::Uni => "UNI",
        CryptoCurrency::Usdc => "USDC",
        CryptoCurrency::Usdt => "USDT",
        CryptoCurrency::Utk => "UTK",
        CryptoCurrency::Vet => "VET",
        CryptoCurrency::Voxel => "VOXEL",
        CryptoCurrency::Vtho => "VTHO",
        CryptoCurrency::Wan => "WAN",
        CryptoCurrency::Waves => "WAVES",
        CryptoCurrency::Waxp => "WAXP",
        CryptoCurrency::Wemix => "WEMIX",
        CryptoCurrency::Woo => "WOO",
        CryptoCurrency::Xdb => "XDB",
        CryptoCurrency::Xem => "XEM",
        CryptoCurrency::Xlm => "XLM",
        CryptoCurrency::Xno => "XNO",
        CryptoCurrency::Xrp => "XRP",
        CryptoCurrency::Xrt => "XRT",
        CryptoCurrency::Xtz => "XTZ",
        CryptoCurrency::Xvs => "XVS",
        CryptoCurrency::Xym => "XYM",
        CryptoCurrency::Yfi => "YFI",
        CryptoCurrency::Ygg => "YGG",
        CryptoCurrency::Zec => "ZEC",
        CryptoCurrency::Zen => "ZEN",
        CryptoCurrency::Zil => "ZIL",
        CryptoCurrency::Zrx => "ZRX",
    }
}

fn fiat_str(f: Fiat) -> (r: &'static str)
    ensures
        r@ == fiat_name(f),
{
    match f {
        Fiat::Chf => "CHF",
        Fiat::Czk => "CZK",
        Fiat::Dkk => "DKK",
        Fiat::Eur => "EUR",
        Fiat::Gbp => "GBP",
        Fiat::Huf => "HUF",
        Fiat::Pln => "PLN",
        Fiat::Sek => "SEK",
        Fiat::Try => "TRY",
        Fiat::Usd => "USD",
    }
}

impl Metal {
    /// The symbol of the metal.
    pub fn to_string(&self) -> (r: String)
        ensures
            r@ == metal_name(*self),
    {
        let s = match self {
            Metal::Gold => "XAU",
            Metal::Palladium => "XPD",
            Metal::Platinum => "XPT",
            Metal::Silver => "XAG",
        };
        String::from_str(s)
    }
}

impl Asset {
    /// The display name of the asset, in upper case.
    pub fn to_string(&self) -> (r: String)
        ensures
            r@ == asset_name(self@),
    {
        match self {
            Asset::Currency(Currency::Crypto(c)) => String::from_str(crypto_str(*c)),
            Asset::Currency(Currency::Fiat(f)) => String::from_str(fiat_str(*f)),
            Asset::Metal(m) => m.to_string(),
            Asset::Ticker(t) => to_uppercase(t.as_str()),
            Asset::HongKong(n) => i64_text(*n),
        }
    }
}

} // verus!
