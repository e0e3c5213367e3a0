use arbitrage::{
    ArbitrageError, ArbitrageOpportunity, ConsumerAction, ConsumerEvent, ConsumerPhase,
    CryptoAsset, Date, Decimal, DeribitExchangeCallback, Exchange, OkexExchangeCallback,
    OkexOperation, OptionType, Product, SettlementAsset, WsConsumerState,
    get_products_to_subscibe, Backoff, DeribitRequestParams,
};

fn dec(s: &str) -> Decimal {
    Decimal::parse(s).unwrap()
}

#[test]
fn products_from_csv_are_distinct_and_unsubscribed() {
    let ps = get_products_to_subscibe("a,b,a,c,b");
    let ids: Vec<&str> = ps.iter().map(|p| p.product_id.as_str()).collect();
    assert_eq!(ids, vec!["a", "b", "c"]);
    assert!(ps.iter().all(|p| !p.subscribed));
}

#[test]
fn empty_csv_gives_one_empty_id() {
    let ps = get_products_to_subscibe("");
    assert_eq!(ps.len(), 1);
    assert_eq!(ps[0].product_id, "");
}

#[test]
fn okex_subscribe_requests_only_pending_products() {
    let mut cb = OkexExchangeCallback::new(get_products_to_subscibe("id1,id2"));
    let req = cb.subscribe_products();
    assert!(matches!(req.op, OkexOperation::Subscribe));
    assert_eq!(req.args.len(), 2);
    assert_eq!(req.args[0].channel, "books");
    assert_eq!(req.args[0].instance_id, "id1");
    assert_eq!(req.args[1].instance_id, "id2");
    // Everything is now in flight: a second connect sends nothing new.
    let req2 = cb.subscribe_products();
    assert_eq!(req2.args.len(), 0);
}

#[test]
fn okex_ack_flips_subscribed_and_disconnect_resets() {
    let mut cb = OkexExchangeCallback::new(get_products_to_subscibe("id1,id2"));
    let _ = cb.subscribe_products();
    let ack = r#"{"event":"subscribe","arg":{"channel":"books","instId":"id1"},"connId":"x"}"#;
    let r = cb.handle_text(ack);
    assert!(r.is_none());
    assert!(cb.products_to_subscribe[0].subscribed);
    assert!(!cb.products_to_subscribe[1].subscribed);
    assert_eq!(cb.inflight_subscription_requests, vec!["id2".to_string()]);
    cb.on_disconnect();
    assert!(cb.products_to_subscribe.iter().all(|p| !p.subscribed));
    assert!(cb.inflight_subscription_requests.is_empty());
    // After the reset a reconnect resubscribes everything.
    let req = cb.subscribe_products();
    assert_eq!(req.args.len(), 2);
}

#[test]
fn okex_error_response_changes_nothing() {
    let mut cb = OkexExchangeCallback::new(get_products_to_subscibe("id1"));
    let _ = cb.subscribe_products();
    let err = r#"{"event":"error","code":"60012","msg":"bad request","connId":"x"}"#;
    assert!(cb.handle_text(err).is_none());
    assert!(!cb.products_to_subscribe[0].subscribed);
    assert_eq!(cb.inflight_subscription_requests.len(), 1);
}

#[test]
fn okex_data_frame_normalizes_to_an_update() {
    let mut cb = OkexExchangeCallback::new(get_products_to_subscibe("BTC-USD-250221-99000-C"));
    let frame = r#"{
        "action":"snapshot",
        "arg":{"channel":"books","instId":"BTC-USD-250221-99000-C"},
        "data":[{"ts":"1","asks":[["0.015","1000"]],"bids":[["0.014","2"]]}]
    }"#;
    let update = cb.handle_text(frame).unwrap();
    assert_eq!(update.exchange_product.exchange, Exchange::Okex);
    assert_eq!(update.asks, vec![(dec("0.015"), dec("1000"))]);
    assert_eq!(update.bids, vec![(dec("0.014"), dec("2"))]);
}

#[test]
fn deribit_subscribe_builds_one_request_per_product() {
    let mut cb = DeribitExchangeCallback::new(get_products_to_subscibe("chan.a,chan.b"));
    let reqs = cb.subscribe_products();
    assert_eq!(reqs.len(), 2);
    assert_eq!(reqs[0].id, "0");
    assert_eq!(reqs[1].id, "1");
    assert_eq!(reqs[0].jsonrpc, "2.0");
    let DeribitRequestParams::Channels(cs) = &reqs[0].params;
    assert_eq!(cs, &vec!["chan.a".to_string()]);
    assert!(cb.subscribe_products().is_empty());
}

#[test]
fn deribit_response_acknowledges_each_listed_channel() {
    let mut cb = DeribitExchangeCallback::new(get_products_to_subscibe("chan.a,chan.b"));
    let _ = cb.subscribe_products();
    let ack = r#"{"jsonrpc":"2.0","id":"0","result":["chan.a"]}"#;
    assert!(cb.handle_text(ack).is_none());
    assert!(cb.products_to_subscribe[0].subscribed);
    assert!(!cb.products_to_subscribe[1].subscribed);
    assert_eq!(cb.inflight_subscription_requests, vec!["chan.b".to_string()]);
}

#[test]
fn deribit_notification_normalizes_to_an_update() {
    let mut cb = DeribitExchangeCallback::new(get_products_to_subscibe("c"));
    let frame = r#"{
        "jsonrpc":"2.0","method":"subscription",
        "params":{"channel":"c","data":{
            "instrument_name":"BTC-21FEB25-99000-C","timestamp":1,
            "asks":[[0.02, 1000]],"bids":[[0.019, 5400]]}}
    }"#;
    let update = cb.handle_text(frame).unwrap();
    assert_eq!(update.exchange_product.exchange, Exchange::Deribit);
    assert_eq!(update.asks, vec![(dec("0.02"), dec("1000"))]);
    assert_eq!(update.bids, vec![(dec("0.019"), dec("5400"))]);
}

#[test]
fn consumer_walks_the_reconnect_schedule() {
    let mut st = WsConsumerState::new(Backoff::new(3, 32));
    assert!(matches!(st.step(ConsumerEvent::WakeIdle), ConsumerAction::Connect));
    assert!(matches!(st.step(ConsumerEvent::ConnectFailed), ConsumerAction::Retry));
    assert!(matches!(
        st.step(ConsumerEvent::WakeIdle),
        ConsumerAction::SleepThenConnect(1)
    ));
    assert!(matches!(
        st.step(ConsumerEvent::WakeIdle),
        ConsumerAction::SleepThenConnect(2)
    ));
    assert!(matches!(
        st.step(ConsumerEvent::WakeIdle),
        ConsumerAction::FailExhausted(3)
    ));
}

#[test]
fn consumer_resets_backoff_on_connect_and_counts_frames() {
    let mut st = WsConsumerState::new(Backoff::new(3, 32));
    let _ = st.step(ConsumerEvent::WakeIdle);
    let _ = st.step(ConsumerEvent::ConnectFailed);
    let _ = st.step(ConsumerEvent::WakeIdle);
    assert!(matches!(
        st.step(ConsumerEvent::ConnectSucceeded),
        ConsumerAction::InvokeOnConnect
    ));
    assert_eq!(st.phase, ConsumerPhase::Connected);
    assert!(matches!(st.step(ConsumerEvent::FrameReceived), ConsumerAction::DispatchMessage));
    assert!(matches!(st.step(ConsumerEvent::FrameReceived), ConsumerAction::DispatchMessage));
    assert!(matches!(
        st.step(ConsumerEvent::HeartbeatTick),
        ConsumerAction::LogHeartbeat(2)
    ));
    assert!(matches!(
        st.step(ConsumerEvent::HeartbeatTick),
        ConsumerAction::LogHeartbeat(0)
    ));
    // After the reset the next wake connects immediately again.
    let _ = st.step(ConsumerEvent::StreamEnded(ArbitrageError::GenericError(
        "boom".to_string(),
    )));
    assert!(matches!(st.step(ConsumerEvent::WakeIdle), ConsumerAction::Connect));
}

#[test]
fn consumer_classifies_stream_endings() {
    let mut st = WsConsumerState::new(Backoff::new(3, 32));
    let _ = st.step(ConsumerEvent::WakeIdle);
    let _ = st.step(ConsumerEvent::ConnectSucceeded);
    assert!(matches!(
        st.step(ConsumerEvent::StreamEnded(ArbitrageError::Warning("w".to_string()))),
        ConsumerAction::DisconnectThenRetry
    ));
    let _ = st.step(ConsumerEvent::WakeIdle);
    let _ = st.step(ConsumerEvent::ConnectSucceeded);
    assert!(matches!(
        st.step(ConsumerEvent::StreamEnded(ArbitrageError::Exit)),
        ConsumerAction::DisconnectThenExit
    ));
    let _ = st.step(ConsumerEvent::WakeIdle);
    let _ = st.step(ConsumerEvent::ConnectSucceeded);
    match st.step(ConsumerEvent::StreamEnded(ArbitrageError::UnrecoverableError(
        "fatal".to_string(),
    ))) {
        ConsumerAction::DisconnectThenTerminate(m) => assert_eq!(m, "fatal"),
        _ => panic!("expected termination"),
    }
    let _ = st.step(ConsumerEvent::WakeIdle);
    let _ = st.step(ConsumerEvent::ConnectSucceeded);
    assert!(matches!(
        st.step(ConsumerEvent::Shutdown),
        ConsumerAction::DisconnectThenExit
    ));
}

#[test]
fn opportunity_serializes_to_the_published_frame() {
    let o = ArbitrageOpportunity {
        product: Product::Option {
            underlying: CryptoAsset::BTC,
            settlement: SettlementAsset::USD,
            strike: dec("90000"),
            expiration: Date { year: 2025, month: 2, day: 21 },
            option_type: OptionType::Call,
        },
        buy_exchange: Exchange::Okex,
        sell_exchange: Exchange::Deribit,
        buy_price: dec("0.015"),
        sell_price: dec("0.019"),
        size: dec("1000"),
    };
    let v: serde_json::Value = serde_json::from_str(&o.to_json_string()).unwrap();
    assert_eq!(v["product"]["Option"]["underlying"], "BTC");
    assert_eq!(v["product"]["Option"]["settlement"], "USD");
    assert_eq!(v["product"]["Option"]["strike"], "90000");
    assert_eq!(v["product"]["Option"]["expiration"], "2025-02-21");
    assert_eq!(v["product"]["Option"]["option_type"], "Call");
    assert_eq!(v["buy_exchange"], "Okex");
    assert_eq!(v["sell_exchange"], "Deribit");
    assert_eq!(v["buy_price"], "0.015");
    assert_eq!(v["sell_price"], "0.019");
    assert_eq!(v["size"], "1000");
}
