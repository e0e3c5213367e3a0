use arbitrage::{CryptoAsset, Date, Decimal, OptionType, Product, SettlementAsset};

fn dec(s: &str) -> Decimal {
    Decimal::parse(s).unwrap()
}

#[test]
fn test_from_okex_exchange() {
    let product = Product::from_okex_exhchange("BTC-USD-250221-99000-C").unwrap();
    assert_eq!(
        product,
        Product::Option {
            underlying: CryptoAsset::BTC,
            settlement: SettlementAsset::USD,
            strike: dec("99000"),
            expiration: Date { year: 2025, month: 2, day: 21 },
            option_type: OptionType::Call,
        }
    );
}

#[test]
fn test_from_deribit_exchange() {
    let product = Product::from_deribit_exchange("BTC-21FEB25-99000-C").unwrap();
    assert_eq!(
        product,
        Product::Option {
            underlying: CryptoAsset::BTC,
            settlement: SettlementAsset::USD,
            strike: dec("99000"),
            expiration: Date { year: 2025, month: 2, day: 21 },
            option_type: OptionType::Call,
        }
    );
}

#[test]
fn okex_and_deribit_ids_name_the_same_product() {
    let a = Product::from_okex_exhchange("BTC-USD-250221-99000-C").unwrap();
    let b = Product::from_deribit_exchange("BTC-21FEB25-99000-C").unwrap();
    assert_eq!(a, b);
}

#[test]
fn okex_id_with_four_fields_is_rejected() {
    assert!(Product::from_okex_exhchange("BTC-USD-250221-99000").is_none());
}

#[test]
fn unknown_asset_is_rejected() {
    assert!(Product::from_okex_exhchange("DOGE-USD-250221-99000-C").is_none());
    assert!(Product::from_deribit_exchange("DOGE-21FEB25-99000-C").is_none());
}

#[test]
fn malformed_date_is_rejected() {
    assert!(Product::from_okex_exhchange("BTC-USD-250231-99000-C").is_none());
    assert!(Product::from_deribit_exchange("BTC-31FEB25-99000-C").is_none());
    assert!(Product::from_okex_exhchange("BTC-USD-25X221-99000-C").is_none());
}

#[test]
fn malformed_strike_denotes_zero() {
    let product = Product::from_okex_exhchange("BTC-USD-250221-oops-C").unwrap();
    match product {
        Product::Option { strike, .. } => assert_eq!(strike, Decimal::from_units(0)),
    }
}

#[test]
fn okex_id_round_trip() {
    let id = "ETH-USD-250221-2400.5-P";
    let product = Product::from_okex_exhchange(id).unwrap();
    let formatted = product.to_okex_instrument_id();
    assert_eq!(formatted, id);
    assert_eq!(Product::from_okex_exhchange(&formatted).unwrap(), product);
}

#[test]
fn deribit_id_round_trip() {
    let id = "BTC-10MAY24-66000-C";
    let product = Product::from_deribit_exchange(id).unwrap();
    let formatted = product.to_deribit_instrument_id();
    assert_eq!(formatted, id);
    assert_eq!(Product::from_deribit_exchange(&formatted).unwrap(), product);
}

#[test]
fn deribit_day_without_padding_parses() {
    let product = Product::from_deribit_exchange("BTC-1JUN24-50000-C").unwrap();
    match product {
        Product::Option { expiration, .. } => {
            assert_eq!(expiration, Date { year: 2024, month: 6, day: 1 });
        }
    }
}

#[test]
fn deribit_month_case_is_ignored() {
    let a = Product::from_deribit_exchange("BTC-21feb25-99000-C").unwrap();
    let b = Product::from_deribit_exchange("BTC-21FEB25-99000-C").unwrap();
    assert_eq!(a, b);
}
