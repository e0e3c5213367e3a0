use arbitrage::{
    Decimal, Exchange, OkexAction, OkexArg, OkexEvent, OkexMessage, OkexOperation, OkexRequest,
    OkexResponse, OkexResponseData,
};

fn dec(s: &str) -> Decimal {
    Decimal::parse(s).unwrap()
}

#[test]
fn test_serialize_subscribe() {
    let request = OkexRequest {
        op: OkexOperation::Subscribe,
        args: vec![OkexArg { channel: "books".to_string(), instance_id: "BTC-USDT".to_string() }],
    };

    let expected_json: serde_json::Value = serde_json::from_str(
        r#"{"op":"subscribe","args":[{"channel":"books","instId":"BTC-USDT"}]}"#,
    )
    .unwrap();

    let actual_json: serde_json::Value =
        serde_json::from_str(&request.to_json_string()).unwrap();
    assert_eq!(expected_json, actual_json);
}

#[test]
fn test_deserialize_subscribe_response() {
    let response_json = r#"{
        "event": "subscribe",
        "arg": {"channel": "books", "instId": "BTC-USDT"},
        "connId": "1234567890"
    }"#;

    let response = OkexResponse::from_text(response_json).unwrap();
    assert_eq!(response.event, OkexEvent::Subscribe);
    match response.response_data {
        OkexResponseData::Subscribe(subscribe_response) => {
            assert_eq!(subscribe_response.arg.channel, "books");
            assert_eq!(subscribe_response.arg.instance_id, "BTC-USDT");
        }
        _ => panic!("Expected Subscribe response"),
    }
    assert_eq!(response.connection_id, "1234567890");
}

#[test]
fn test_deserialize_error() {
    let response_json = r#"{
        "event": "error",
        "code": "1234567890",
        "msg": "Error message",
        "connId": "1234567890"
    }"#;

    let response = OkexResponse::from_text(response_json).unwrap();
    assert_eq!(response.event, OkexEvent::Error);
    match response.response_data {
        OkexResponseData::Error(error) => {
            assert_eq!(error.code, "1234567890");
            assert_eq!(error.message, "Error message");
        }
        _ => panic!("Expected Error response"),
    }
    assert_eq!(response.connection_id, "1234567890");
}

#[test]
fn test_deserialize_snapshot_message() {
    let message_json = r#"{
        "action": "snapshot",
        "arg": {"channel": "books", "instId": "BTC-USDT"},
        "data": [
            {
                "ts": "1234567890",
                "checksum": 1234567890,
                "prevSeqId": null,
                "seqId": 1234567890,
                "asks": [["84000.00000000", "1.00000000", "0", "1.0"], ["83000.00000000", "1.00000000", "0", "1.0"]],
                "bids": [["84000.00000000", "1.00000000", "0", "1.0"], ["83000.00000000", "1.00000000", "0", "1.0"]]
            }
        ]
    }"#;

    let message = OkexMessage::from_text(message_json).unwrap();
    assert_eq!(message.action, OkexAction::Snapshot);
    assert_eq!(message.arg.channel, "books");
    assert_eq!(message.arg.instance_id, "BTC-USDT");
    assert_eq!(message.data.len(), 1);
    let data = message.data[0].clone();
    assert_eq!(data.timestamp, 1234567890);
    assert_eq!(data.asks.len(), 2);
    assert_eq!(data.bids.len(), 2);
    assert_eq!(data.asks[0].price, dec("84000"));
    assert_eq!(data.asks[0].amount, dec("1"));
    assert_eq!(data.asks[1].price, dec("83000"));
    assert_eq!(data.asks[1].amount, dec("1"));
    assert_eq!(data.bids[0].price, dec("84000"));
    assert_eq!(data.bids[0].amount, dec("1"));
    assert_eq!(data.bids[1].price, dec("83000"));
}

#[test]
fn test_deserialize_update_message() {
    let message_json = r#"{
        "action": "update",
        "arg": {"channel": "books", "instId": "BTC-USDT"},
        "data": [
            {
                "ts": "1234567890",
                "asks": [["84000.00000000", "1.00000000"], ["83000.00000000", "1.00000000"]],
                "bids": [["84000.00000000", "1.00000000"], ["83000.00000000", "1.00000000"]]
            }
        ]
    }"#;

    let message = OkexMessage::from_text(message_json).unwrap();
    assert_eq!(message.action, OkexAction::Update);
    assert_eq!(message.arg.channel, "books");
    assert_eq!(message.arg.instance_id, "BTC-USDT");
    assert_eq!(message.data.len(), 1);
    let data = message.data[0].clone();
    assert_eq!(data.timestamp, 1234567890);
    assert_eq!(data.asks.len(), 2);
    assert_eq!(data.bids.len(), 2);
    assert_eq!(data.asks[0].price, dec("84000"));
    assert_eq!(data.asks[0].amount, dec("1"));
    assert_eq!(data.asks[1].price, dec("83000"));
    assert_eq!(data.asks[1].amount, dec("1"));
    assert_eq!(data.bids[0].price, dec("84000"));
    assert_eq!(data.bids[0].amount, dec("1"));
    assert_eq!(data.bids[1].price, dec("83000"));
    assert_eq!(data.bids[1].amount, dec("1"));
}

#[test]
fn snapshot_normalizes_to_one_update() {
    let message_json = r#"{
        "action": "snapshot",
        "arg": {"channel": "books", "instId": "BTC-USD-250221-99000-C"},
        "data": [
            {"ts": "1", "asks": [["0.015", "1000"]], "bids": [["0.014", "5"]]},
            {"ts": "2", "asks": [["0.016", "7"]], "bids": []}
        ]
    }"#;
    let message = OkexMessage::from_text(message_json).unwrap();
    let update = message.to_order_book_update().unwrap();
    assert_eq!(update.exchange_product.exchange, Exchange::Okex);
    assert_eq!(update.asks, vec![(dec("0.015"), dec("1000")), (dec("0.016"), dec("7"))]);
    assert_eq!(update.bids, vec![(dec("0.014"), dec("5"))]);
}

#[test]
fn frame_with_unknown_instrument_is_dropped() {
    let message_json = r#"{
        "action": "update",
        "arg": {"channel": "books", "instId": "BTC-USDT"},
        "data": [{"ts": "1", "asks": [], "bids": []}]
    }"#;
    let message = OkexMessage::from_text(message_json).unwrap();
    assert!(message.to_order_book_update().is_none());
}

#[test]
fn malformed_frames_are_rejected() {
    assert!(OkexMessage::from_text("not json").is_none());
    assert!(OkexMessage::from_text(r#"{"action":"snap","arg":{},"data":[]}"#).is_none());
    // A price that is not a decimal token fails the frame.
    assert!(OkexMessage::from_text(
        r#"{"action":"update","arg":{"channel":"books","instId":"X"},
            "data":[{"ts":"1","asks":[["abc","1"]],"bids":[]}]}"#
    )
    .is_none());
    // A non-digit timestamp fails the frame.
    assert!(OkexMessage::from_text(
        r#"{"action":"update","arg":{"channel":"books","instId":"X"},
            "data":[{"ts":"12a","asks":[],"bids":[]}]}"#
    )
    .is_none());
}

#[test]
fn request_escaping_survives_a_json_round_trip() {
    let request = OkexRequest {
        op: OkexOperation::Unsubscribe,
        args: vec![OkexArg {
            channel: "books".to_string(),
            instance_id: "we\"ird\\id\u{1}".to_string(),
        }],
    };
    let v: serde_json::Value = serde_json::from_str(&request.to_json_string()).unwrap();
    assert_eq!(v["op"], "unsubscribe");
    assert_eq!(v["args"][0]["instId"], "we\"ird\\id\u{1}");
}
