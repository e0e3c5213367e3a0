use arbitrage::{
    Decimal, DeribitChannelData, DeribitChannelMessage, DeribitRequest, DeribitRequestMethod,
    DeribitRequestParams, DeribitResponse, DeribitResponseMethod, Exchange,
};

fn dec(s: &str) -> Decimal {
    Decimal::parse(s).unwrap()
}

#[test]
fn test_serialize_request() {
    let request = DeribitRequest {
        method: DeribitRequestMethod::PublicSubscribe,
        id: "1".to_string(),
        jsonrpc: "2.0".to_string(),
        params: DeribitRequestParams::Channels(vec![
            "book.BTC-10MAY24-66000-C.none.20.100ms".to_string(),
        ]),
    };

    let serialized: serde_json::Value =
        serde_json::from_str(&request.to_json_string()).unwrap();

    let expected: serde_json::Value = serde_json::from_str(
        r#"{
            "method": "public/subscribe",
            "id": "1",
            "jsonrpc": "2.0",
            "params": {"channels": ["book.BTC-10MAY24-66000-C.none.20.100ms"]}
        }"#,
    )
    .unwrap();

    assert_eq!(serialized, expected);
}

#[test]
fn test_serialize_response() {
    let response = r#"{
        "jsonrpc": "2.0",
        "id": "1",
        "result": ["book.BTC-10MAY24-66000-C.none.20.100ms"]
    }"#;

    let deserialized = DeribitResponse::from_text(response).unwrap();

    assert_eq!(deserialized.jsonrpc, "2.0");
    assert_eq!(deserialized.id, "1");
    assert_eq!(
        deserialized.result,
        vec!["book.BTC-10MAY24-66000-C.none.20.100ms"]
    );
}

#[test]
fn test_deserialize_order_book() {
    let json = r#"{
        "jsonrpc": "2.0",
        "method": "subscription",
        "params": {
            "channel": "book.BTC-10MAY24-66000-C.none.20.100ms",
            "data": {
                "instrument_name": "BTC-10MAY24-66000-C",
                "timestamp": 1717219200,
                "asks": [[66000, 100]],
                "bids": [[65000, 100]]
            }
        }
    }"#;

    let deserialized = DeribitChannelMessage::from_text(json).unwrap();

    assert_eq!(deserialized.params.channel, "book.BTC-10MAY24-66000-C.none.20.100ms");
    assert_eq!(deserialized.method, DeribitResponseMethod::Subscription);

    let DeribitChannelData::OrderBook(order_book) = deserialized.params.data;
    let asks = order_book.asks;
    let bids = order_book.bids;

    assert_eq!(asks.len(), 1);
    assert_eq!(bids.len(), 1);

    assert_eq!(asks[0].price, dec("66000"));
    assert_eq!(asks[0].amount, dec("100"));

    assert_eq!(bids[0].price, dec("65000"));
    assert_eq!(bids[0].amount, dec("100"));
}

#[test]
fn numeric_levels_keep_their_exact_tokens() {
    // 0.1 has no exact binary representation; the decimal survives exactly
    // because the token text is parsed, never a float.
    let json = r#"{
        "jsonrpc": "2.0",
        "method": "subscription",
        "params": {
            "channel": "c",
            "data": {
                "instrument_name": "BTC-21FEB25-99000-C",
                "timestamp": 1,
                "asks": [[0.1, 1000.25]],
                "bids": []
            }
        }
    }"#;
    let m = DeribitChannelMessage::from_text(json).unwrap();
    let DeribitChannelData::OrderBook(book) = m.params.data;
    assert_eq!(book.asks[0].price, dec("0.1"));
    assert_eq!(book.asks[0].amount, dec("1000.25"));
    let update = book.to_order_book_update().unwrap();
    assert_eq!(update.exchange_product.exchange, Exchange::Deribit);
    assert_eq!(update.asks, vec![(dec("0.1"), dec("1000.25"))]);
}

#[test]
fn book_with_bad_instrument_is_dropped() {
    let json = r#"{
        "jsonrpc": "2.0",
        "method": "subscription",
        "params": {
            "channel": "c",
            "data": {
                "instrument_name": "BTC-99XXX99-1-C",
                "timestamp": 1,
                "asks": [],
                "bids": []
            }
        }
    }"#;
    let m = DeribitChannelMessage::from_text(json).unwrap();
    let DeribitChannelData::OrderBook(book) = m.params.data;
    assert!(book.to_order_book_update().is_none());
}

#[test]
fn malformed_deribit_frames_are_rejected() {
    assert!(DeribitResponse::from_text("{}").is_none());
    assert!(DeribitChannelMessage::from_text(r#"{"jsonrpc":"2.0","method":"other","params":{}}"#).is_none());
    // A three-element level fails the frame.
    assert!(DeribitChannelMessage::from_text(
        r#"{"jsonrpc":"2.0","method":"subscription","params":{"channel":"c",
            "data":{"instrument_name":"BTC-21FEB25-1-C","timestamp":1,
                    "asks":[[1,2,3]],"bids":[]}}}"#
    )
    .is_none());
}
