use vstd::prelude::*;
use crate::decimal::{spec_parse_decimal, Decimal};
use crate::json::{
    append_json_string, json_escape, json_get, obj_lookup, parse_u64, push_char, spec_parse_u64,
    JsonVal,
};
use crate::message::{OrderBookUpdate, OrderBookUpdateV};
use crate::product::{spec_from_deribit, Exchange, ExchangeProduct, Product};
use crate::text::str_eq;

verus! {

// ---------------------------------------------------------------------------
// Deribit frames
// ---------------------------------------------------------------------------

#[derive(Clone, Copy, PartialEq, Eq, Structural, Debug)]
pub enum DeribitRequestMethod {
    PublicSubscribe,
    PublicUnsubscribe,
}

#[derive(Clone, Copy, PartialEq, Eq, Structural, Debug)]
pub enum DeribitResponseMethod {
    Subscription,
}

#[derive(Clone, Debug)]
pub enum DeribitRequestParams {
    Channels(Vec<String>),
}

/// An outbound JSON-RPC request.
#[derive(Clone, Debug)]
pub struct DeribitRequest {
    pub method: DeribitRequestMethod,
    pub id: String,
    pub jsonrpc: String,
    pub params: DeribitRequestParams,
}

/// A JSON-RPC answer listing the channels a request subscribed.
#[derive(Clone, Debug)]
pub struct DeribitResponse {
    pub jsonrpc: String,
    pub id: String,
    pub result: Vec<String>,
}

/// A pushed subscription notification.
#[derive(Clone, Debug)]
pub struct DeribitChannelMessage {
    pub jsonrpc: String,
    pub method: DeribitResponseMethod,
    pub params: DerbitResponseParams,
}

#[derive(Clone, Debug)]
pub struct DerbitResponseParams {
    pub channel: String,
    pub data: DeribitChannelData,
}

#[derive(Clone, Debug)]
pub enum DeribitChannelData {
    OrderBook(DeribitOrderBook),
}

/// A book snapshot or delta for one instrument.
#[derive(Clone, Debug)]
pub struct DeribitOrderBook {
    pub instrument_name: String,
    pub timestamp: u64,
    pub asks: Vec<OrderBookEntry>,
    pub bids: Vec<OrderBookEntry>,
}

/// One price level of a venue frame.
#[derive(Clone, Copy, PartialEq, Eq, Structural, Debug)]
pub struct OrderBookEntry {
    pub price: Decimal,
    pub amount: Decimal,
}

// ---------------------------------------------------------------------------
// Views
// ---------------------------------------------------------------------------

pub struct DeribitResponseV {
    pub jsonrpc: Seq<char>,
    pub id: Seq<char>,
    pub result: Seq<Seq<char>>,
}

impl View for DeribitResponse {
    type V = DeribitResponseV;

    open spec fn view(&self) -> DeribitResponseV {
        DeribitResponseV {
            jsonrpc: self.jsonrpc@,
            id: self.id@,
            result: self.result@.map_values(|s: String| s@),
        }
    }
}

pub struct DeribitOrderBookV {
    pub instrument_name: Seq<char>,
    pub timestamp: u64,
    pub asks: Seq<OrderBookEntry>,
    pub bids: Seq<OrderBookEntry>,
}

impl View for DeribitOrderBook {
    type V = DeribitOrderBookV;

    open spec fn view(&self) -> DeribitOrderBookV {
        DeribitOrderBookV {
            instrument_name: self.instrument_name@,
            timestamp: self.timestamp,
            asks: self.asks@,
            bids: self.bids@,
        }
    }
}

pub struct DeribitChannelMessageV {
    pub jsonrpc: Seq<char>,
    pub method: DeribitResponseMethod,
    pub channel: Seq<char>,
    pub data: DeribitOrderBookV,
}

impl View for DeribitChannelMessage {
    type V = DeribitChannelMessageV;

    open spec fn view(&self) -> DeribitChannelMessageV {
        DeribitChannelMessageV {
            jsonrpc: self.jsonrpc@,
            method: self.method,
            channel: self.params.channel@,
            data: match self.params.data {
                DeribitChannelData::OrderBook(b) => b@,
            },
        }
    }
}

// ---------------------------------------------------------------------------
// Decoding
// ---------------------------------------------------------------------------

/// One price level: an array of exactly two number tokens, both decimal.
pub open spec fn spec_deribit_entry(j: JsonVal) -> Option<OrderBookEntry> {
    match j {
        JsonVal::Arr(items) => {
            if items@.len() == 2 {
                match (items@[0], items@[1]) {
                    (JsonVal::Num(p), JsonVal::Num(a)) => match (spec_parse_decimal(p@),
                    spec_parse_decimal(a@)) {
                        (Some(pd), Some(ad)) => Some(OrderBookEntry { price: pd, amount: ad }),
                        _ => None,
                    },
                    _ => None,
                }
            } else {
                None
            }
        },
        _ => None,
    }
}

/// An array of price levels.
pub open spec fn spec_deribit_entries(j: JsonVal) -> Option<Seq<OrderBookEntry>> {
    match j {
        JsonVal::Arr(items) => {
            if forall|k: int|
                0 <= k < items@.len() ==> spec_deribit_entry(#[trigger] items@[k]) is Some {
                Some(Seq::new(items@.len(), |k: int| spec_deribit_entry(items@[k])->Some_0))
            } else {
                None
            }
        },
        _ => None,
    }
}

/// A book object: `instrument_name`, an integer `timestamp`, and the two
/// sides.
pub open spec fn spec_deribit_book(j: JsonVal) -> Option<DeribitOrderBookV> {
    match j {
        JsonVal::Obj(fields) => match (obj_lookup(fields@, "instrument_name"@), obj_lookup(
            fields@,
            "timestamp"@,
        )) {
            (Some(JsonVal::Str(name)), Some(JsonVal::Num(t))) => match spec_parse_u64(t@) {
                Some(ts) => match (obj_lookup(fields@, "asks"@), obj_lookup(fields@, "bids"@)) {
                    (Some(aj), Some(bj)) => match (spec_deribit_entries(aj), spec_deribit_entries(
                        bj,
                    )) {
                        (Some(asks), Some(bids)) => Some(
                            DeribitOrderBookV {
                                instrument_name: name@,
                                timestamp: ts,
                                asks,
                                bids,
                            },
                        ),
                        _ => None,
                    },
                    _ => None,
                },
                None => None,
            },
            _ => None,
        },
        _ => None,
    }
}

/// A JSON-RPC answer: `jsonrpc` and `id` strings and a `result` array of
/// channel names.
pub open spec fn spec_deribit_response(j: JsonVal) -> Option<DeribitResponseV> {
    match j {
        JsonVal::Obj(fields) => match (obj_lookup(fields@, "jsonrpc"@), obj_lookup(fields@, "id"@),
        obj_lookup(fields@, "result"@)) {
            (Some(JsonVal::Str(rpc)), Some(JsonVal::Str(id)), Some(JsonVal::Arr(items))) => {
                if forall|k: int| 0 <= k < items@.len() ==> (#[trigger] items@[k]) is Str {
                    Some(
                        DeribitResponseV {
                            jsonrpc: rpc@,
                            id: id@,
                            result: Seq::new(items@.len(), |k: int| items@[k]->Str_0@),
                        },
                    )
                } else {
                    None
                }
            },
            _ => None,
        },
        _ => None,
    }
}

/// A pushed notification: `method` of `subscription` and params holding the
/// channel and a book.
pub open spec fn spec_deribit_channel_message(j: JsonVal) -> Option<DeribitChannelMessageV> {
    match j {
        JsonVal::Obj(fields) => match (obj_lookup(fields@, "jsonrpc"@), obj_lookup(
            fields@,
            "method"@,
        ), obj_lookup(fields@, "params"@)) {
            (Some(JsonVal::Str(rpc)), Some(JsonVal::Str(m)), Some(JsonVal::Obj(params))) => {
                if m@ == "subscription"@ {
                    match (obj_lookup(params@, "channel"@), obj_lookup(params@, "data"@)) {
                        (Some(JsonVal::Str(channel)), Some(dj)) => match spec_deribit_book(dj) {
                            Some(book) => Some(
                                DeribitChannelMessageV {
                                    jsonrpc: rpc@,
                                    method: DeribitResponseMethod::Subscription,
                                    channel: channel@,
                                    data: book,
                                },
                            ),
                            None => None,
                        },
                        _ => None,
                    }
                } else {
                    None
                }
            },
            _ => None,
        },
        _ => None,
    }
}

impl OrderBookEntry {
    /// Decode one price level, accepting exactly what
    /// [`spec_deribit_entry`] describes.
    pub fn from_deribit_json(j: &JsonVal) -> (r: Option<OrderBookEntry>)
        ensures
            r == spec_deribit_entry(*j),
    {
        match j {
            JsonVal::Arr(items) => {
                if items.len() != 2 {
                    return None;
                }
                let price = match &items[0] {
                    JsonVal::Num(p) => match Decimal::parse(p.as_str()) {
                        Some(d) => d,
                        None => {
                            return None;
                        },
                    },
                    _ => {
                        return None;
                    },
                };
                let amount = match &items[1] {
                    JsonVal::Num(a) => match Decimal::parse(a.as_str()) {
                        Some(d) => d,
                        None => {
                            return None;
                        },
                    },
                    _ => {
                        return None;
                    },
                };
                Some(OrderBookEntry { price, amount })
            },
            _ => None,
        }
    }
}

/// Decode an array of price levels, accepting exactly what
/// [`spec_deribit_entries`] describes.
pub fn parse_deribit_entries(j: &JsonVal) -> (r: Option<Vec<OrderBookEntry>>)
    ensures
        match r {
            Some(es) => spec_deribit_entries(*j) == Some(es@),
            None => spec_deribit_entries(*j) is None,
        },
{
    match j {
        JsonVal::Arr(items) => {
            let n = items.len();
            let mut out: Vec<OrderBookEntry> = Vec::new();
            let mut k: usize = 0;
            while k < n
                invariant
                    k <= n,
                    n == items@.len(),
                    *j == JsonVal::Arr(*items),
                    out@.len() == k,
                    forall|m: int|
                        0 <= m < k ==> spec_deribit_entry(#[trigger] items@[m]) == Some(out@[m]),
                decreases n - k,
            {
                match OrderBookEntry::from_deribit_json(&items[k]) {
                    Some(e) => {
                        out.push(e);
                    },
                    None => {
                        return None;
                    },
                }
                k = k + 1;
            }
            proof {
                assert forall|m: int| 0 <= m < items@.len() implies spec_deribit_entry(
                    #[trigger] items@[m],
                ) is Some by {
                }
                assert(out@ =~= Seq::new(
                    items@.len(),
                    |m: int| spec_deribit_entry(items@[m])->Some_0,
                ));
            }
            Some(out)
        },
        _ => None,
    }
}

impl DeribitOrderBook {
    /// Decode a book object, accepting exactly what [`spec_deribit_book`]
    /// describes.
    pub fn from_json(j: &JsonVal) -> (r: Option<DeribitOrderBook>)
        ensures
            match r {
                Some(b) => spec_deribit_book(*j) == Some(b@),
                None => spec_deribit_book(*j) is None,
            },
    {
        let instrument_name = match json_get(j, "instrument_name") {
            Some(JsonVal::Str(n)) => n.clone(),
            _ => {
                return None;
            },
        };
        let timestamp = match json_get(j, "timestamp") {
            Some(JsonVal::Num(t)) => match parse_u64(t.as_str()) {
                Some(ts) => ts,
                None => {
                    return None;
                },
            },
            _ => {
                return None;
            },
        };
        let aj = match json_get(j, "asks") {
            Some(v) => v,
            None => {
                return None;
            },
        };
        let bj = match json_get(j, "bids") {
            Some(v) => v,
            None => {
                return None;
            },
        };
        let asks = match parse_deribit_entries(aj) {
            Some(es) => es,
            None => {
                return None;
            },
        };
        let bids = match parse_deribit_entries(bj) {
            Some(es) => es,
            None => {
                return None;
            },
        };
        Some(DeribitOrderBook { instrument_name, timestamp, asks, bids })
    }
}

impl DeribitResponse {
    /// Decode a JSON-RPC answer, accepting exactly what
    /// [`spec_deribit_response`] describes.
    pub fn from_json(j: &JsonVal) -> (r: Option<DeribitResponse>)
        ensures
            match r {
                Some(resp) => spec_deribit_response(*j) == Some(resp@),
                None => spec_deribit_response(*j) is None,
            },
    {
        let jsonrpc = match json_get(j, "jsonrpc") {
            Some(JsonVal::Str(s)) => s.clone(),
            _ => {
                return None;
            },
        };
        let id = match json_get(j, "id") {
            Some(JsonVal::Str(s)) => s.clone(),
            _ => {
                return None;
            },
        };
        let items = match json_get(j, "result") {
            Some(JsonVal::Arr(items)) => items,
            _ => {
                return None;
            },
        };
        let result = match parse_string_array(items) {
            Some(out) => out,
            None => {
                return None;
            },
        };
        Some(DeribitResponse { jsonrpc, id, result })
    }
}

/// Collect an array of JSON strings.
fn parse_string_array(items: &Vec<JsonVal>) -> (r: Option<Vec<String>>)
    ensures
        match r {
            Some(out) => (forall|k: int|
                0 <= k < items@.len() ==> (#[trigger] items@[k]) is Str) && out@.map_values(
                |s: String| s@,
            ) == Seq::new(items@.len(), |m: int| items@[m]->Str_0@),
            None => exists|k: int| 0 <= k < items@.len() && !((#[trigger] items@[k]) is Str),
        },
{
    let n = items.len();
    let mut result: Vec<String> = Vec::new();
    let mut k: usize = 0;
    while k < n
        invariant
            k <= n,
            n == items@.len(),
            result@.len() == k,
            forall|m: int| 0 <= m < k ==> (#[trigger] items@[m]) is Str,
            forall|m: int| 0 <= m < k ==> (#[trigger] result@[m])@ == items@[m]->Str_0@,
        decreases n - k,
    {
        match &items[k] {
            JsonVal::Str(s) => {
                result.push(s.clone());
            },
            _ => {
                return None;
            },
        }
        k = k + 1;
    }
    proof {
        assert(result@.map_values(|s: String| s@) =~= Seq::new(
            items@.len(),
            |m: int| items@[m]->Str_0@,
        ));
    }
    Some(result)
}

impl DeribitChannelMessage {
    /// Decode a pushed notification, accepting exactly what
    /// [`spec_deribit_channel_message`] describes.
    pub fn from_json(j: &JsonVal) -> (r: Option<DeribitChannelMessage>)
        ensures
            match r {
                Some(m) => spec_deribit_channel_message(*j) == Some(m@),
                None => spec_deribit_channel_message(*j) is None,
            },
    {
        let jsonrpc = match json_get(j, "jsonrpc") {
            Some(JsonVal::Str(s)) => s.clone(),
            _ => {
                return None;
            },
        };
        match json_get(j, "method") {
            Some(JsonVal::Str(m)) => {
                if !str_eq(m.as_str(), "subscription") {
                    return None;
                }
            },
            _ => {
                return None;
            },
        }
        let pj = match json_get(j, "params") {
            Some(v) => v,
            None => {
                return None;
            },
        };
        let channel = match json_get(pj, "channel") {
            Some(JsonVal::Str(c)) => c.clone(),
            _ => {
                return None;
            },
        };
        let dj = match json_get(pj, "data") {
            Some(v) => v,
            None => {
                return None;
            },
        };
        let data = match DeribitOrderBook::from_json(dj) {
            Some(b) => b,
            None => {
                return None;
            },
        };
        Some(
            DeribitChannelMessage {
                jsonrpc,
                method: DeribitResponseMethod::Subscription,
                params: DerbitResponseParams {
                    channel,
                    data: DeribitChannelData::OrderBook(data),
                },
            },
        )
    }
}

// ---------------------------------------------------------------------------
// Normalization
// ---------------------------------------------------------------------------

pub open spec fn entry_pairs(es: Seq<OrderBookEntry>) -> Seq<(Decimal, Decimal)> {
    es.map_values(|e: OrderBookEntry| (e.price, e.amount))
}

/// The one internal update a book frame denotes; a frame whose instrument id
/// does not parse denotes nothing and is dropped.
pub open spec fn spec_deribit_update(b: DeribitOrderBookV) -> Option<OrderBookUpdateV> {
    match spec_from_deribit(b.instrument_name) {
        None => None,
        Some(p) => Some(
            OrderBookUpdateV {
                exchange_product: ExchangeProduct { exchange: Exchange::Deribit, product: p },
                bids: entry_pairs(b.bids),
                asks: entry_pairs(b.asks),
            },
        ),
    }
}

impl DeribitOrderBook {
    /// Normalize this frame into the one internal update it denotes, exactly
    /// as [`spec_deribit_update`] describes.
    pub fn to_order_book_update(&self) -> (r: Option<OrderBookUpdate>)
        ensures
            match r {
                Some(u) => spec_deribit_update(self@) == Some(u@),
                None => spec_deribit_update(self@) is None,
            },
    {
        let product = match Product::from_deribit_exchange(self.instrument_name.as_str()) {
            Some(p) => p,
            None => {
                return None;
            },
        };
        let exchange_product = ExchangeProduct { exchange: Exchange::Deribit, product };
        let mut bids: Vec<(Decimal, Decimal)> = Vec::new();
        let mut asks: Vec<(Decimal, Decimal)> = Vec::new();
        push_deribit_pairs(&mut bids, &self.bids);
        push_deribit_pairs(&mut asks, &self.asks);
        proof {
            assert(bids@ =~= entry_pairs(self@.bids));
            assert(asks@ =~= entry_pairs(self@.asks));
        }
        Some(OrderBookUpdate { exchange_product, bids, asks })
    }
}

/// Append every level of a side as a (price, size) pair.
fn push_deribit_pairs(out: &mut Vec<(Decimal, Decimal)>, es: &Vec<OrderBookEntry>)
    ensures
        final(out)@ == old(out)@ + entry_pairs(es@),
{
    let n = es.len();
    let mut i: usize = 0;
    proof {
        assert(out@ =~= old(out)@ + entry_pairs(es@.take(0)));
    }
    while i < n
        invariant
            i <= n,
            n == es@.len(),
            out@ == old(out)@ + entry_pairs(es@.take(i as int)),
        decreases n - i,
    {
        let e = es[i];
        out.push((e.price, e.amount));
        proof {
            assert(entry_pairs(es@.take(i as int + 1)) =~= entry_pairs(es@.take(i as int)).push(
                (es@[i as int].price, es@[i as int].amount),
            ));
            assert(out@ =~= old(out)@ + entry_pairs(es@.take(i as int + 1)));
        }
        i = i + 1;
    }
    proof {
        assert(es@.take(n as int) =~= es@);
    }
}

// ---------------------------------------------------------------------------
// Encoding
// ---------------------------------------------------------------------------

pub open spec fn method_str(m: DeribitRequestMethod) -> Seq<char> {
    match m {
        DeribitRequestMethod::PublicSubscribe => "public/subscribe"@,
        DeribitRequestMethod::PublicUnsubscribe => "public/unsubscribe"@,
    }
}

/// The channels array, comma-separated JSON strings.
pub open spec fn spec_channels_json(cs: Seq<Seq<char>>) -> Seq<char>
    decreases cs.len(),
{
    if cs.len() == 0 {
        Seq::empty()
    } else if cs.len() == 1 {
        seq!['"'] + json_escape(cs[0]) + seq!['"']
    } else {
        spec_channels_json(cs.drop_last()) + ","@ + seq!['"'] + json_escape(cs.last())
            + seq!['"']
    }
}

/// A whole JSON-RPC request as JSON text.
pub open spec fn spec_deribit_request_json(
    method: DeribitRequestMethod,
    id: Seq<char>,
    jsonrpc: Seq<char>,
    channels: Seq<Seq<char>>,
) -> Seq<char> {
    "{\"method\":"@ + seq!['"'] + method_str(method) + seq!['"'] + ",\"id\":"@ + seq!['"']
        + json_escape(id) + seq!['"'] + ",\"jsonrpc\":"@ + seq!['"'] + json_escape(jsonrpc)
        + seq!['"'] + ",\"params\":{\"channels\":["@ + spec_channels_json(channels) + "]}}"@
}

impl DeribitRequest {
    /// The JSON text of this request, exactly
    /// [`spec_deribit_request_json`].
    pub fn to_json_string(&self) -> (r: String)
        ensures
            ({
                let DeribitRequestParams::Channels(cs) = self.params;
                r@ == spec_deribit_request_json(
                    self.method,
                    self.id@,
                    self.jsonrpc@,
                    cs@.map_values(|c: String| c@),
                )
            }),
    {
        proof {
            reveal_strlit("{\"method\":");
            reveal_strlit(",\"id\":");
            reveal_strlit(",\"jsonrpc\":");
            reveal_strlit(",\"params\":{\"channels\":[");
            reveal_strlit("]}}");
            reveal_strlit(",");
            reveal_strlit("public/subscribe");
            reveal_strlit("public/unsubscribe");
        }
        let mut out = String::new();
        out.append("{\"method\":");
        push_char(&mut out, '"');
        match self.method {
            DeribitRequestMethod::PublicSubscribe => out.append("public/subscribe"),
            DeribitRequestMethod::PublicUnsubscribe => out.append("public/unsubscribe"),
        }
        push_char(&mut out, '"');
        out.append(",\"id\":");
        append_json_string(&mut out, self.id.as_str());
        out.append(",\"jsonrpc\":");
        append_json_string(&mut out, self.jsonrpc.as_str());
        out.append(",\"params\":{\"channels\":[");
        let DeribitRequestParams::Channels(cs) = &self.params;
        let ghost chviews = cs@.map_values(|c: String| c@);
        let ghost head = "{\"method\":"@ + seq!['"'] + method_str(self.method) + seq!['"']
            + ",\"id\":"@ + seq!['"'] + json_escape(self.id@) + seq!['"'] + ",\"jsonrpc\":"@
            + seq!['"'] + json_escape(self.jsonrpc@) + seq!['"'] + ",\"params\":{\"channels\":["@;
        proof {
            assert(out@ =~= head + spec_channels_json(chviews.take(0)));
        }
        let n = cs.len();
        let mut i: usize = 0;
        while i < n
            invariant
                i <= n,
                n == cs@.len(),
                chviews == cs@.map_values(|c: String| c@),
                out@ == head + spec_channels_json(chviews.take(i as int)),
            decreases n - i,
        {
            proof {
                reveal_strlit(",");
            }
            if i > 0 {
                out.append(",");
            }
            append_json_string(&mut out, cs[i].as_str());
            proof {
                assert(chviews[i as int] == cs@[i as int]@);
                assert(chviews.take(i as int + 1).drop_last() =~= chviews.take(i as int));
                assert(chviews.take(i as int + 1).last() == chviews[i as int]);
                if i == 0 {
                    assert(spec_channels_json(chviews.take(1)) =~= seq!['"'] + json_escape(
                        chviews[0],
                    ) + seq!['"']);
                }
                assert(out@ =~= head + spec_channels_json(chviews.take(i as int + 1)));
            }
            i = i + 1;
        }
        proof {
            assert(chviews.take(n as int) =~= chviews);
        }
        out.append("]}}");
        proof {
            assert(out@ =~= spec_deribit_request_json(
                self.method,
                self.id@,
                self.jsonrpc@,
                chviews,
            ));
        }
        out
    }
}

impl DeribitResponse {
    /// Decode a JSON-RPC answer from wire text.
    pub fn from_text(s: &str) -> (r: Option<DeribitResponse>)
        ensures
            match crate::json::json_of(s@) {
                Some(v) => match r {
                    Some(x) => spec_deribit_response(v) == Some(x@),
                    None => spec_deribit_response(v) is None,
                },
                None => r is None,
            },
    {
        match crate::json::parse_json(s) {
            Some(v) => DeribitResponse::from_json(&v),
            None => None,
        }
    }
}

impl DeribitChannelMessage {
    /// Decode a pushed notification from wire text.
    pub fn from_text(s: &str) -> (r: Option<DeribitChannelMessage>)
        ensures
            match crate::json::json_of(s@) {
                Some(v) => match r {
                    Some(x) => spec_deribit_channel_message(v) == Some(x@),
                    None => spec_deribit_channel_message(v) is None,
                },
                None => r is None,
            },
    {
        match crate::json::parse_json(s) {
            Some(v) => DeribitChannelMessage::from_json(&v),
            None => None,
        }
    }
}

} // verus!
