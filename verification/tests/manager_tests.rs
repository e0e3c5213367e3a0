use arbitrage::{
    CryptoAsset, Date, Decimal, Exchange, ExchangeProduct, OptionType, OrderBook,
    OrderBookManager, OrderBookUpdate, Product, SettlementAsset,
};

fn dec(s: &str) -> Decimal {
    Decimal::parse(s).unwrap()
}

fn call_product(strike: &str) -> Product {
    Product::Option {
        underlying: CryptoAsset::BTC,
        settlement: SettlementAsset::USD,
        strike: dec(strike),
        option_type: OptionType::Call,
        expiration: Date { year: 2025, month: 2, day: 21 },
    }
}

fn update_for(
    exchange: Exchange,
    product: Product,
    bids: Vec<(Decimal, Decimal)>,
    asks: Vec<(Decimal, Decimal)>,
) -> OrderBookUpdate {
    OrderBookUpdate {
        exchange_product: ExchangeProduct { exchange, product },
        bids,
        asks,
    }
}

#[test]
fn test_arbitrage_okex_buy_deribit_sell() {
    let product = call_product("90000");
    let mut manager = OrderBookManager::new();
    manager.apply_update(update_for(
        Exchange::Okex,
        product,
        vec![(dec("0.018"), dec("5400")), (dec("0.019"), dec("1000"))],
        vec![(dec("0.015"), dec("1000")), (dec("0.021"), dec("5400"))],
    ));
    manager.apply_update(update_for(
        Exchange::Deribit,
        product,
        vec![(dec("0.018"), dec("5400")), (dec("0.019"), dec("1000"))],
        vec![(dec("0.020"), dec("1000")), (dec("0.021"), dec("5400"))],
    ));

    let arbitrage_opportunity = manager.check_arbitrage_opportunities(&product).unwrap();
    assert_eq!(arbitrage_opportunity.buy_exchange, Exchange::Okex);
    assert_eq!(arbitrage_opportunity.sell_exchange, Exchange::Deribit);
    assert_eq!(arbitrage_opportunity.product, product);
    assert_eq!(arbitrage_opportunity.buy_price, dec("0.015"));
    assert_eq!(arbitrage_opportunity.sell_price, dec("0.019"));
    assert_eq!(arbitrage_opportunity.size, dec("1000"));
}

#[test]
fn test_arbitrage_deribit_buy_okex_sell() {
    let product = call_product("90000");
    let mut manager = OrderBookManager::new();
    manager.apply_update(update_for(
        Exchange::Deribit,
        product,
        vec![(dec("0.018"), dec("5400")), (dec("0.019"), dec("1000"))],
        vec![(dec("0.015"), dec("1000")), (dec("0.021"), dec("5400"))],
    ));
    manager.apply_update(update_for(
        Exchange::Okex,
        product,
        vec![(dec("0.018"), dec("5400")), (dec("0.019"), dec("1000"))],
        vec![(dec("0.020"), dec("1000")), (dec("0.021"), dec("5400"))],
    ));

    let arbitrage_opportunity = manager.check_arbitrage_opportunities(&product).unwrap();
    assert_eq!(arbitrage_opportunity.buy_exchange, Exchange::Deribit);
    assert_eq!(arbitrage_opportunity.sell_exchange, Exchange::Okex);
    assert_eq!(arbitrage_opportunity.product, product);
    assert_eq!(arbitrage_opportunity.buy_price, dec("0.015"));
    assert_eq!(arbitrage_opportunity.sell_price, dec("0.019"));
    assert_eq!(arbitrage_opportunity.size, dec("1000"));
}

#[test]
fn test_arbitrage_none_for_different_products() {
    let product1 = call_product("90000");
    let product2 = Product::Option {
        underlying: CryptoAsset::BTC,
        settlement: SettlementAsset::USD,
        strike: dec("90000"),
        option_type: OptionType::Put,
        expiration: Date { year: 2025, month: 2, day: 21 },
    };

    let mut manager = OrderBookManager::new();
    manager.apply_update(update_for(Exchange::Okex, product1, vec![], vec![]));
    manager.apply_update(update_for(Exchange::Deribit, product1, vec![], vec![]));
    manager.apply_update(update_for(Exchange::Okex, product2, vec![], vec![]));

    assert!(manager.check_arbitrage_opportunities(&product2).is_none());
}

#[test]
fn opportunity_detected_on_update_matches_later_check() {
    let product = call_product("90000");
    let mut manager = OrderBookManager::new();
    manager.apply_update(update_for(
        Exchange::Okex,
        product,
        vec![],
        vec![(dec("0.015"), dec("1000"))],
    ));
    let detected = manager.apply_update(update_for(
        Exchange::Deribit,
        product,
        vec![(dec("0.019"), dec("5400"))],
        vec![],
    ));
    let checked = manager.check_arbitrage_opportunities(&product);
    assert_eq!(detected, checked);
    let o = detected.unwrap();
    assert!(o.sell_price.units > o.buy_price.units);
    assert!(o.size.units > 0);
    assert_eq!(o.size, dec("1000"));
}

#[test]
fn delete_on_zero_clears_best_bid() {
    let product = call_product("90000");
    let key = ExchangeProduct { exchange: Exchange::Okex, product };
    let mut book = OrderBook::new(&key);
    book.update(OrderBookUpdate {
        exchange_product: key,
        bids: vec![(dec("100"), dec("5"))],
        asks: vec![],
    });
    assert!(book.best_bid().is_some());
    book.update(OrderBookUpdate {
        exchange_product: key,
        bids: vec![(dec("100"), dec("0"))],
        asks: vec![],
    });
    assert!(book.best_bid().is_none());
    // Deleting the same price again changes nothing.
    book.update(OrderBookUpdate {
        exchange_product: key,
        bids: vec![(dec("100"), dec("0"))],
        asks: vec![],
    });
    assert!(book.best_bid().is_none());
}

#[test]
fn same_price_twice_in_one_batch_last_write_wins() {
    let product = call_product("90000");
    let key = ExchangeProduct { exchange: Exchange::Okex, product };
    let mut book = OrderBook::new(&key);
    book.update(OrderBookUpdate {
        exchange_product: key,
        bids: vec![(dec("100"), dec("5")), (dec("100"), dec("7"))],
        asks: vec![],
    });
    assert_eq!(book.best_bid().unwrap(), (dec("100"), dec("7")));
}

#[test]
fn snapshot_applied_twice_leaves_the_book_unchanged() {
    let product = call_product("90000");
    let key = ExchangeProduct { exchange: Exchange::Deribit, product };
    let snapshot = OrderBookUpdate {
        exchange_product: key,
        bids: vec![(dec("0.018"), dec("5400")), (dec("0.019"), dec("1000"))],
        asks: vec![(dec("0.020"), dec("1000")), (dec("0.021"), dec("5400"))],
    };
    let mut book = OrderBook::new(&key);
    book.update(snapshot.clone());
    let bid1 = book.best_bid();
    let ask1 = book.best_ask();
    book.update(snapshot);
    assert_eq!(book.best_bid(), bid1);
    assert_eq!(book.best_ask(), ask1);
}

#[test]
fn crossed_books_are_accepted_as_input() {
    // A book whose best bid lies above its best ask is legitimate input.
    let product = call_product("90000");
    let key = ExchangeProduct { exchange: Exchange::Okex, product };
    let mut book = OrderBook::new(&key);
    book.update(OrderBookUpdate {
        exchange_product: key,
        bids: vec![(dec("10"), dec("1"))],
        asks: vec![(dec("5"), dec("1"))],
    });
    let (bid, _) = book.best_bid().unwrap();
    let (ask, _) = book.best_ask().unwrap();
    assert!(bid.units > ask.units);
}

#[test]
fn best_bid_is_max_and_best_ask_is_min() {
    let product = call_product("90000");
    let key = ExchangeProduct { exchange: Exchange::Okex, product };
    let mut book = OrderBook::new(&key);
    book.update(OrderBookUpdate {
        exchange_product: key,
        bids: vec![(dec("3"), dec("1")), (dec("9"), dec("2")), (dec("5"), dec("4"))],
        asks: vec![(dec("12"), dec("1")), (dec("11"), dec("2")), (dec("14"), dec("4"))],
    });
    assert_eq!(book.best_bid().unwrap(), (dec("9"), dec("2")));
    assert_eq!(book.best_ask().unwrap(), (dec("11"), dec("2")));
}
