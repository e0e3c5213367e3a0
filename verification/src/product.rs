use vstd::prelude::*;
use crate::date::{
    date_valid, lemma_ddmmmyy_roundtrip, lemma_format_ddmmmyy_chars, lemma_format_yymmdd_chars,
    lemma_parse_ddmmmyy_props, lemma_parse_yymmdd_props, lemma_yymmdd_roundtrip,
    spec_format_ddmmmyy, spec_format_yymmdd, spec_parse_ddmmmyy, spec_parse_yymmdd, year_in_window,
    Date,
};
use crate::decimal::{
    dec_bounded, is_digit, lemma_decimal_format_parse, lemma_format_decimal_chars, lemma_pow10_vals,
    lemma_spec_parse_props, spec_format_decimal, spec_parse_decimal, Decimal,
};
use crate::text::{
    lemma_split_on_parts_free, lemma_split_on_step, lemma_split_on_whole, split_on, split_str,
    str_eq, views_of,
};

verus! {

#[derive(Clone, Copy, PartialEq, Eq, Structural, Debug, Hash)]
pub enum CryptoAsset {
    BTC,
    ETH,
}

#[derive(Clone, Copy, PartialEq, Eq, Structural, Debug, Hash)]
pub enum SettlementAsset {
    USD,
}

#[derive(Clone, Copy, PartialEq, Eq, Structural, Debug, Hash)]
pub enum OptionType {
    Call,
    Put,
}

#[derive(Clone, Copy, PartialEq, Eq, Structural, Debug, Hash)]
pub enum Exchange {
    Okex,
    Deribit,
}

/// The canonical, venue-independent identity of an options contract.
#[derive(Clone, Copy, PartialEq, Eq, Structural, Debug, Hash)]
pub enum Product {
    Option {
        underlying: CryptoAsset,
        settlement: SettlementAsset,
        strike: Decimal,
        expiration: Date,
        option_type: OptionType,
    },
}

/// A product on one venue: the authoritative order-book key.
#[derive(Clone, Copy, PartialEq, Eq, Structural, Debug, Hash)]
pub struct ExchangeProduct {
    pub product: Product,
    pub exchange: Exchange,
}

pub open spec fn asset_of(p: Seq<char>) -> Option<CryptoAsset> {
    if p == "BTC"@ {
        Some(CryptoAsset::BTC)
    } else if p == "ETH"@ {
        Some(CryptoAsset::ETH)
    } else {
        None
    }
}

pub open spec fn settlement_of(p: Seq<char>) -> Option<SettlementAsset> {
    if p == "USD"@ {
        Some(SettlementAsset::USD)
    } else {
        None
    }
}

pub open spec fn option_type_of(p: Seq<char>) -> Option<OptionType> {
    if p == "C"@ {
        Some(OptionType::Call)
    } else if p == "P"@ {
        Some(OptionType::Put)
    } else {
        None
    }
}

/// A strike token denotes its decimal value; one that does not parse
/// denotes zero.
pub open spec fn strike_of(p: Seq<char>) -> Decimal {
    match spec_parse_decimal(p) {
        Some(d) => d,
        None => Decimal { units: 0 },
    }
}

/// The parse of an Okex instrument id: five dash-separated fields
/// `UND-SET-YYMMDD-STRIKE-C|P`. An unknown asset, a wrong field count or a
/// malformed date fails the parse; a malformed strike denotes zero.
pub open spec fn spec_from_okex(s: Seq<char>) -> Option<Product> {
    let parts = split_on(s, '-');
    if parts.len() != 5 {
        None
    } else {
        match (asset_of(parts[0]), settlement_of(parts[1]), spec_parse_yymmdd(parts[2]),
        option_type_of(parts[4])) {
            (Some(u), Some(st), Some(e), Some(ot)) => Some(
                Product::Option {
                    underlying: u,
                    settlement: st,
                    strike: strike_of(parts[3]),
                    expiration: e,
                    option_type: ot,
                },
            ),
            _ => None,
        }
    }
}

/// The parse of a Deribit instrument id: four dash-separated fields
/// `UND-DDMMMYY-STRIKE-C|P`, settled in USD.
pub open spec fn spec_from_deribit(s: Seq<char>) -> Option<Product> {
    let parts = split_on(s, '-');
    if parts.len() != 4 {
        None
    } else {
        match (asset_of(parts[0]), spec_parse_ddmmmyy(parts[1]), option_type_of(parts[3])) {
            (Some(u), Some(e), Some(ot)) => Some(
                Product::Option {
                    underlying: u,
                    settlement: SettlementAsset::USD,
                    strike: strike_of(parts[2]),
                    expiration: e,
                    option_type: ot,
                },
            ),
            _ => None,
        }
    }
}

/// What every parsed product satisfies: a bounded, non-negative strike and a
/// valid expiration date inside the two-digit-year window. Only such products
/// reformat to an id that parses back.
pub open spec fn product_canonical(p: Product) -> bool {
    match p {
        Product::Option { strike, expiration, .. } => {
            &&& dec_bounded(strike)
            &&& strike.units >= 0
            &&& date_valid(expiration)
            &&& year_in_window(expiration)
        },
    }
}

pub open spec fn asset_str(u: CryptoAsset) -> Seq<char> {
    match u {
        CryptoAsset::BTC => "BTC"@,
        CryptoAsset::ETH => "ETH"@,
    }
}

pub open spec fn option_type_str(t: OptionType) -> Seq<char> {
    match t {
        OptionType::Call => "C"@,
        OptionType::Put => "P"@,
    }
}

/// The canonical Okex id of a product.
pub open spec fn spec_okex_id(p: Product) -> Seq<char> {
    match p {
        Product::Option { underlying, settlement: _, strike, expiration, option_type } => {
            asset_str(underlying) + seq!['-'] + "USD"@ + seq!['-'] + spec_format_yymmdd(expiration)
                + seq!['-'] + spec_format_decimal(strike) + seq!['-'] + option_type_str(option_type)
        },
    }
}

/// The canonical Deribit id of a product.
pub open spec fn spec_deribit_id(p: Product) -> Seq<char> {
    match p {
        Product::Option { underlying, settlement: _, strike, expiration, option_type } => {
            asset_str(underlying) + seq!['-'] + spec_format_ddmmmyy(expiration) + seq!['-']
                + spec_format_decimal(strike) + seq!['-'] + option_type_str(option_type)
        },
    }
}

impl Product {
    /// Parse an Okex instrument id, accepting exactly what
    /// [`spec_from_okex`] describes.
    pub fn from_okex_exhchange(s: &str) -> (r: Option<Product>)
        ensures
            r == spec_from_okex(s@),
            r matches Some(p) ==> product_canonical(p),
    {
        let parts = split_str(s, '-');
        if parts.len() != 5 {
            return None;
        }
        proof {
            assert(views_of(parts@)[0] == parts@[0]@);
            assert(views_of(parts@)[1] == parts@[1]@);
            assert(views_of(parts@)[2] == parts@[2]@);
            assert(views_of(parts@)[3] == parts@[3]@);
            assert(views_of(parts@)[4] == parts@[4]@);
        }
        let underlying = if str_eq(parts[0], "BTC") {
            CryptoAsset::BTC
        } else if str_eq(parts[0], "ETH") {
            CryptoAsset::ETH
        } else {
            return None;
        };
        let settlement = if str_eq(parts[1], "USD") {
            SettlementAsset::USD
        } else {
            return None;
        };
        let expiration = match Date::parse_yymmdd(parts[2]) {
            Some(d) => d,
            None => {
                return None;
            },
        };
        let strike = match Decimal::parse(parts[3]) {
            Some(d) => d,
            None => Decimal::zero(),
        };
        let option_type = if str_eq(parts[4], "C") {
            OptionType::Call
        } else if str_eq(parts[4], "P") {
            OptionType::Put
        } else {
            return None;
        };
        proof {
            lemma_pow10_vals();
            lemma_split_on_parts_free(s@, '-');
            lemma_spec_parse_props(parts@[3]@);
        }
        Some(Product::Option { underlying, settlement, strike, expiration, option_type })
    }

    /// Parse a Deribit instrument id, accepting exactly what
    /// [`spec_from_deribit`] describes.
    pub fn from_deribit_exchange(s: &str) -> (r: Option<Product>)
        ensures
            r == spec_from_deribit(s@),
            r matches Some(p) ==> product_canonical(p),
    {
        let parts = split_str(s, '-');
        if parts.len() != 4 {
            return None;
        }
        proof {
            assert(views_of(parts@)[0] == parts@[0]@);
            assert(views_of(parts@)[1] == parts@[1]@);
            assert(views_of(parts@)[2] == parts@[2]@);
            assert(views_of(parts@)[3] == parts@[3]@);
        }
        let underlying = if str_eq(parts[0], "BTC") {
            CryptoAsset::BTC
        } else if str_eq(parts[0], "ETH") {
            CryptoAsset::ETH
        } else {
            return None;
        };
        let expiration = match Date::parse_ddmmmyy(parts[1]) {
            Some(d) => d,
            None => {
                return None;
            },
        };
        let strike = match Decimal::parse(parts[2]) {
            Some(d) => d,
            None => Decimal::zero(),
        };
        let option_type = if str_eq(parts[3], "C") {
            OptionType::Call
        } else if str_eq(parts[3], "P") {
            OptionType::Put
        } else {
            return None;
        };
        proof {
            lemma_pow10_vals();
            lemma_split_on_parts_free(s@, '-');
            lemma_spec_parse_props(parts@[2]@);
        }
        Some(
            Product::Option {
                underlying,
                settlement: SettlementAsset::USD,
                strike,
                expiration,
                option_type,
            },
        )
    }

    /// The canonical Okex id of this product.
    pub fn to_okex_instrument_id(&self) -> (r: String)
        requires
            product_canonical(*self),
        ensures
            r@ == spec_okex_id(*self),
    {
        proof {
            reveal_strlit("-");
            lemma_pow10_vals();
        }
        match self {
            Product::Option { underlying, settlement: _, strike, expiration, option_type } => {
                let mut out = String::new();
                let a: &str = match underlying {
                    CryptoAsset::BTC => "BTC",
                    CryptoAsset::ETH => "ETH",
                };
                out.append(a);
                out.append("-");
                out.append("USD");
                out.append("-");
                let ds = expiration.format_yymmdd();
                out.append(ds.as_str());
                out.append("-");
                let ss = strike.to_string();
                out.append(ss.as_str());
                out.append("-");
                let t: &str = match option_type {
                    OptionType::Call => "C",
                    OptionType::Put => "P",
                };
                out.append(t);
                proof {
                    assert(out@ =~= spec_okex_id(*self));
                }
                out
            },
        }
    }

    /// The canonical Deribit id of this product.
    pub fn to_deribit_instrument_id(&self) -> (r: String)
        requires
            product_canonical(*self),
        ensures
            r@ == spec_deribit_id(*self),
    {
        proof {
            reveal_strlit("-");
            lemma_pow10_vals();
        }
        match self {
            Product::Option { underlying, settlement: _, strike, expiration, option_type } => {
                let mut out = String::new();
                let a: &str = match underlying {
                    CryptoAsset::BTC => "BTC",
                    CryptoAsset::ETH => "ETH",
                };
                out.append(a);
                out.append("-");
                let ds = expiration.format_ddmmmyy();
                out.append(ds.as_str());
                out.append("-");
                let ss = strike.to_string();
                out.append(ss.as_str());
                out.append("-");
                let t: &str = match option_type {
                    OptionType::Call => "C",
                    OptionType::Put => "P",
                };
                out.append(t);
                proof {
                    assert(out@ =~= spec_deribit_id(*self));
                }
                out
            },
        }
    }
}

/// The asset names contain no dash and differ from each other.
proof fn lemma_asset_strs()
    ensures
        forall|i: int| 0 <= i < asset_str(CryptoAsset::BTC).len() ==> asset_str(CryptoAsset::BTC)[i]
            != '-',
        forall|i: int| 0 <= i < asset_str(CryptoAsset::ETH).len() ==> asset_str(CryptoAsset::ETH)[i]
            != '-',
        asset_of(asset_str(CryptoAsset::BTC)) == Some(CryptoAsset::BTC),
        asset_of(asset_str(CryptoAsset::ETH)) == Some(CryptoAsset::ETH),
{
    reveal_strlit("BTC");
    reveal_strlit("ETH");
    assert("BTC"@.len() == 3);
    assert("ETH"@.len() == 3);
    assert("BTC"@ != "ETH"@) by {
        assert("BTC"@[0] == 'B');
        assert("ETH"@[0] == 'E');
    }
}

/// The option-type letters contain no dash and differ from each other.
proof fn lemma_option_type_strs()
    ensures
        forall|t: OptionType, i: int|
            0 <= i < option_type_str(t).len() ==> #[trigger] option_type_str(t)[i] != '-',
        forall|t: OptionType| #[trigger] option_type_of(option_type_str(t)) == Some(t),
{
    reveal_strlit("C");
    reveal_strlit("P");
    assert("C"@.len() == 1);
    assert("P"@.len() == 1);
    assert("C"@ != "P"@) by {
        assert("C"@[0] == 'C');
        assert("P"@[0] == 'P');
    }
    assert forall|t: OptionType, i: int|
        0 <= i < option_type_str(t).len() implies #[trigger] option_type_str(t)[i] != '-' by {
        match t {
            OptionType::Call => assert(option_type_str(t)[i] == 'C'),
            OptionType::Put => assert(option_type_str(t)[i] == 'P'),
        }
    }
    assert forall|t: OptionType| #[trigger] option_type_of(option_type_str(t)) == Some(t) by {
    }
}

/// Reparsing a formatted Okex id restores the product exactly.
pub proof fn lemma_okex_id_roundtrip(p: Product)
    requires
        product_canonical(p),
    ensures
        spec_from_okex(spec_okex_id(p)) == Some(p),
{
    reveal_strlit("USD");
    lemma_asset_strs();
    lemma_option_type_strs();
    match p {
        Product::Option { underlying, settlement, strike, expiration, option_type } => {
            let a0 = asset_str(underlying);
            let a1 = "USD"@;
            let a2 = spec_format_yymmdd(expiration);
            let a3 = spec_format_decimal(strike);
            let a4 = option_type_str(option_type);
            lemma_format_yymmdd_chars(expiration);
            lemma_format_decimal_chars(strike);
            assert(forall|i: int| 0 <= i < a1.len() ==> a1[i] != '-');
            assert forall|i: int| 0 <= i < a2.len() implies a2[i] != '-' by {
                assert(is_digit(a2[i]));
            }
            assert forall|i: int| 0 <= i < a3.len() implies a3[i] != '-' by {
                assert(is_digit(a3[i]) || a3[i] == '.');
            }
            let s = spec_okex_id(p);
            let r1 = a1 + seq!['-'] + a2 + seq!['-'] + a3 + seq!['-'] + a4;
            let r2 = a2 + seq!['-'] + a3 + seq!['-'] + a4;
            let r3 = a3 + seq!['-'] + a4;
            assert(s =~= a0 + seq!['-'] + r1);
            assert(r1 =~= a1 + seq!['-'] + r2);
            assert(r2 =~= a2 + seq!['-'] + r3);
            assert(r3 =~= a3 + seq!['-'] + a4);
            lemma_split_on_step(a0, r1, '-');
            lemma_split_on_step(a1, r2, '-');
            lemma_split_on_step(a2, r3, '-');
            lemma_split_on_step(a3, a4, '-');
            lemma_split_on_whole(a4, '-');
            let parts = split_on(s, '-');
            assert(parts =~= seq![a0, a1, a2, a3, a4]);
            assert(parts.len() == 5);
            assert(asset_of(parts[0]) == Some(underlying));
            assert(settlement_of(parts[1]) == Some(SettlementAsset::USD));
            lemma_yymmdd_roundtrip(expiration);
            assert(spec_parse_yymmdd(parts[2]) == Some(expiration));
            lemma_decimal_format_parse(strike);
            assert(strike_of(parts[3]) == strike);
            assert(option_type_of(parts[4]) == Some(option_type));
        },
    }
}

/// Reparsing a formatted Deribit id restores the product exactly.
pub proof fn lemma_deribit_id_roundtrip(p: Product)
    requires
        product_canonical(p),
    ensures
        spec_from_deribit(spec_deribit_id(p)) == Some(p),
{
    lemma_asset_strs();
    lemma_option_type_strs();
    match p {
        Product::Option { underlying, settlement, strike, expiration, option_type } => {
            let a0 = asset_str(underlying);
            let a1 = spec_format_ddmmmyy(expiration);
            let a2 = spec_format_decimal(strike);
            let a3 = option_type_str(option_type);
            lemma_format_ddmmmyy_chars(expiration);
            lemma_format_decimal_chars(strike);
            assert forall|i: int| 0 <= i < a2.len() implies a2[i] != '-' by {
                assert(is_digit(a2[i]) || a2[i] == '.');
            }
            let s = spec_deribit_id(p);
            let r1 = a1 + seq!['-'] + a2 + seq!['-'] + a3;
            let r2 = a2 + seq!['-'] + a3;
            assert(s =~= a0 + seq!['-'] + r1);
            assert(r1 =~= a1 + seq!['-'] + r2);
            assert(r2 =~= a2 + seq!['-'] + a3);
            lemma_split_on_step(a0, r1, '-');
            lemma_split_on_step(a1, r2, '-');
            lemma_split_on_step(a2, a3, '-');
            lemma_split_on_whole(a3, '-');
            let parts = split_on(s, '-');
            assert(parts =~= seq![a0, a1, a2, a3]);
            assert(parts.len() == 4);
            assert(asset_of(parts[0]) == Some(underlying));
            lemma_ddmmmyy_roundtrip(expiration);
            assert(spec_parse_ddmmmyy(parts[1]) == Some(expiration));
            lemma_decimal_format_parse(strike);
            assert(strike_of(parts[2]) == strike);
            assert(option_type_of(parts[3]) == Some(option_type));
        },
    }
}

/// Every product that an Okex id parses into is canonical, so it reformats
/// to an id that parses back to the same product.
pub proof fn lemma_okex_parse_canonical(s: Seq<char>)
    ensures
        spec_from_okex(s) matches Some(p) ==> product_canonical(p) && spec_from_okex(
            spec_okex_id(p),
        ) == Some(p),
{
    if spec_from_okex(s) is Some {
        let parts = split_on(s, '-');
        lemma_split_on_parts_free(s, '-');
        lemma_parse_yymmdd_props(parts[2]);
        lemma_spec_parse_props(parts[3]);
        crate::decimal::lemma_pow10_pos(36);
        let p = spec_from_okex(s)->Some_0;
        assert(product_canonical(p));
        lemma_okex_id_roundtrip(p);
    }
}

/// Every product that a Deribit id parses into is canonical, so it reformats
/// to an id that parses back to the same product.
pub proof fn lemma_deribit_parse_canonical(s: Seq<char>)
    ensures
        spec_from_deribit(s) matches Some(p) ==> product_canonical(p) && spec_from_deribit(
            spec_deribit_id(p),
        ) == Some(p),
{
    if spec_from_deribit(s) is Some {
        let parts = split_on(s, '-');
        lemma_split_on_parts_free(s, '-');
        lemma_parse_ddmmmyy_props(parts[1]);
        lemma_spec_parse_props(parts[2]);
        crate::decimal::lemma_pow10_pos(36);
        let p = spec_from_deribit(s)->Some_0;
        assert(product_canonical(p));
        lemma_deribit_id_roundtrip(p);
    }
}

} // verus!
