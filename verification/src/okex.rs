use vstd::prelude::*;
use crate::decimal::{spec_parse_decimal, Decimal};
use crate::json::{
    append_json_string, json_escape, json_get, obj_lookup, parse_u64, push_char, spec_parse_u64,
    JsonVal,
};
use crate::message::{OrderBookUpdate, OrderBookUpdateV};
use crate::product::{spec_from_okex, Exchange, ExchangeProduct, Product};
use crate::text::str_eq;

verus! {

// ---------------------------------------------------------------------------
// Okex frames
// ---------------------------------------------------------------------------

#[derive(Clone, Copy, PartialEq, Eq, Structural, Debug)]
pub enum OkexOperation {
    Subscribe,
    Unsubscribe,
}

#[derive(Clone, Copy, PartialEq, Eq, Structural, Debug)]
pub enum OkexEvent {
    Subscribe,
    Unsubscribe,
    Error,
}

#[derive(Clone, Copy, PartialEq, Eq, Structural, Debug)]
pub enum OkexAction {
    Snapshot,
    Update,
}

/// One channel subscription: the channel name and the instrument id.
#[derive(Clone, Debug)]
pub struct OkexArg {
    pub channel: String,
    pub instance_id: String,
}

/// An outbound op/args control frame.
#[derive(Clone, Debug)]
pub struct OkexRequest {
    pub op: OkexOperation,
    pub args: Vec<OkexArg>,
}

/// A control-frame answer: an acknowledged subscription or an error.
#[derive(Clone, Debug)]
pub struct OkexResponse {
    pub event: OkexEvent,
    pub connection_id: String,
    pub response_data: OkexResponseData,
}

#[derive(Clone, Debug)]
pub enum OkexResponseData {
    Subscribe(OkexSubscribeResponse),
    Error(OkexError),
}

#[derive(Clone, Debug)]
pub struct OkexSubscribeResponse {
    pub arg: OkexArg,
}

#[derive(Clone, Debug)]
pub struct OkexError {
    pub code: String,
    pub message: String,
}

/// A data frame: a snapshot or a delta for one instrument.
#[derive(Clone, Debug)]
pub struct OkexMessage {
    pub action: OkexAction,
    pub arg: OkexArg,
    pub data: Vec<OkexData>,
}

#[derive(Clone, Debug)]
pub struct OkexData {
    pub timestamp: u64,
    pub asks: Vec<OrderBookEntry>,
    pub bids: Vec<OrderBookEntry>,
}

/// One price level of a venue frame.
#[derive(Clone, Copy, PartialEq, Eq, Structural, Debug)]
pub struct OrderBookEntry {
    pub price: Decimal,
    pub amount: Decimal,
}

// ---------------------------------------------------------------------------
// Views
// ---------------------------------------------------------------------------

pub struct OkexArgV {
    pub channel: Seq<char>,
    pub instance_id: Seq<char>,
}

impl View for OkexArg {
    type V = OkexArgV;

    open spec fn view(&self) -> OkexArgV {
        OkexArgV { channel: self.channel@, instance_id: self.instance_id@ }
    }
}

pub struct OkexDataV {
    pub timestamp: u64,
    pub asks: Seq<OrderBookEntry>,
    pub bids: Seq<OrderBookEntry>,
}

impl View for OkexData {
    type V = OkexDataV;

    open spec fn view(&self) -> OkexDataV {
        OkexDataV { timestamp: self.timestamp, asks: self.asks@, bids: self.bids@ }
    }
}

pub struct OkexMessageV {
    pub action: OkexAction,
    pub arg: OkexArgV,
    pub data: Seq<OkexDataV>,
}

impl View for OkexMessage {
    type V = OkexMessageV;

    open spec fn view(&self) -> OkexMessageV {
        OkexMessageV {
            action: self.action,
            arg: self.arg@,
            data: self.data@.map_values(|d: OkexData| d@),
        }
    }
}

pub enum OkexResponseDataV {
    Subscribe(OkexArgV),
    Error { code: Seq<char>, message: Seq<char> },
}

pub struct OkexResponseV {
    pub event: OkexEvent,
    pub connection_id: Seq<char>,
    pub response_data: OkexResponseDataV,
}

impl View for OkexResponse {
    type V = OkexResponseV;

    open spec fn view(&self) -> OkexResponseV {
        OkexResponseV {
            event: self.event,
            connection_id: self.connection_id@,
            response_data: match self.response_data {
                OkexResponseData::Subscribe(s) => OkexResponseDataV::Subscribe(s.arg@),
                OkexResponseData::Error(e) => OkexResponseDataV::Error {
                    code: e.code@,
                    message: e.message@,
                },
            },
        }
    }
}

// ---------------------------------------------------------------------------
// Decoding
// ---------------------------------------------------------------------------

/// An arg object: `channel` and `instId` strings.
pub open spec fn spec_okex_arg(j: JsonVal) -> Option<OkexArgV> {
    match j {
        JsonVal::Obj(fields) => match (obj_lookup(fields@, "channel"@), obj_lookup(
            fields@,
            "instId"@,
        )) {
            (Some(JsonVal::Str(c)), Some(JsonVal::Str(inst))) => Some(
                OkexArgV { channel: c@, instance_id: inst@ },
            ),
            _ => None,
        },
        _ => None,
    }
}

/// A price level: an array of strings, at least price and size, both decimal
/// tokens; further elements are ignored.
pub open spec fn spec_okex_entry(j: JsonVal) -> Option<OrderBookEntry> {
    match j {
        JsonVal::Arr(items) => {
            if items@.len() >= 2 && (forall|k: int|
                0 <= k < items@.len() ==> (#[trigger] items@[k]) is Str) {
                match (items@[0], items@[1]) {
                    (JsonVal::Str(p), JsonVal::Str(a)) => match (spec_parse_decimal(p@),
                    spec_parse_decimal(a@)) {
                        (Some(pd), Some(ad)) => Some(OrderBookEntry { price: pd, amount: ad }),
                        _ => None,
                    },
                    _ => None,
                }
            } else {
                None
            }
        },
        _ => None,
    }
}

/// An array of price levels.
pub open spec fn spec_okex_entries(j: JsonVal) -> Option<Seq<OrderBookEntry>> {
    match j {
        JsonVal::Arr(items) => {
            if forall|k: int| 0 <= k < items@.len() ==> spec_okex_entry(#[trigger] items@[k]) is Some {
                Some(Seq::new(items@.len(), |k: int| spec_okex_entry(items@[k])->Some_0))
            } else {
                None
            }
        },
        _ => None,
    }
}

/// One data element: a string `ts` of digits, and the two sides.
pub open spec fn spec_okex_data(j: JsonVal) -> Option<OkexDataV> {
    match j {
        JsonVal::Obj(fields) => match obj_lookup(fields@, "ts"@) {
            Some(JsonVal::Str(t)) => match spec_parse_u64(t@) {
                Some(ts) => match (obj_lookup(fields@, "asks"@), obj_lookup(fields@, "bids"@)) {
                    (Some(aj), Some(bj)) => match (spec_okex_entries(aj), spec_okex_entries(bj)) {
                        (Some(asks), Some(bids)) => Some(OkexDataV { timestamp: ts, asks, bids }),
                        _ => None,
                    },
                    _ => None,
                },
                None => None,
            },
            _ => None,
        },
        _ => None,
    }
}

/// A data frame: `action` of `snapshot` or `update`, an `arg`, and a `data`
/// array whose every element decodes.
pub open spec fn spec_okex_message(j: JsonVal) -> Option<OkexMessageV> {
    match j {
        JsonVal::Obj(fields) => match obj_lookup(fields@, "action"@) {
            Some(JsonVal::Str(a)) => {
                let action = if a@ == "snapshot"@ {
                    Some(OkexAction::Snapshot)
                } else if a@ == "update"@ {
                    Some(OkexAction::Update)
                } else {
                    None
                };
                match action {
                    Some(action) => match obj_lookup(fields@, "arg"@) {
                        Some(aj) => match spec_okex_arg(aj) {
                            Some(arg) => match obj_lookup(fields@, "data"@) {
                                Some(JsonVal::Arr(items)) => {
                                    if forall|k: int|
                                        0 <= k < items@.len() ==> spec_okex_data(
                                            #[trigger] items@[k],
                                        ) is Some {
                                        Some(
                                            OkexMessageV {
                                                action,
                                                arg,
                                                data: Seq::new(
                                                    items@.len(),
                                                    |k: int| spec_okex_data(items@[k])->Some_0,
                                                ),
                                            },
                                        )
                                    } else {
                                        None
                                    }
                                },
                                _ => None,
                            },
                            None => None,
                        },
                        None => None,
                    },
                    None => None,
                }
            },
            _ => None,
        },
        _ => None,
    }
}

/// A control-frame answer: `event` and `connId`, then `code`/`msg` on an
/// error and an `arg` otherwise.
pub open spec fn spec_okex_response(j: JsonVal) -> Option<OkexResponseV> {
    match j {
        JsonVal::Obj(fields) => match (obj_lookup(fields@, "event"@), obj_lookup(
            fields@,
            "connId"@,
        )) {
            (Some(JsonVal::Str(ev)), Some(JsonVal::Str(conn))) => {
                let event = if ev@ == "subscribe"@ {
                    Some(OkexEvent::Subscribe)
                } else if ev@ == "unsubscribe"@ {
                    Some(OkexEvent::Unsubscribe)
                } else if ev@ == "error"@ {
                    Some(OkexEvent::Error)
                } else {
                    None
                };
                match event {
                    Some(OkexEvent::Error) => match (obj_lookup(fields@, "code"@), obj_lookup(
                        fields@,
                        "msg"@,
                    )) {
                        (Some(JsonVal::Str(code)), Some(JsonVal::Str(msg))) => Some(
                            OkexResponseV {
                                event: OkexEvent::Error,
                                connection_id: conn@,
                                response_data: OkexResponseDataV::Error {
                                    code: code@,
                                    message: msg@,
                                },
                            },
                        ),
                        _ => None,
                    },
                    Some(event) => match obj_lookup(fields@, "arg"@) {
                        Some(aj) => match spec_okex_arg(aj) {
                            Some(arg) => Some(
                                OkexResponseV {
                                    event,
                                    connection_id: conn@,
                                    response_data: OkexResponseDataV::Subscribe(arg),
                                },
                            ),
                            None => None,
                        },
                        None => None,
                    },
                    None => None,
                }
            },
            _ => None,
        },
        _ => None,
    }
}

impl OkexArg {
    /// Decode an arg object, accepting exactly what [`spec_okex_arg`]
    /// describes.
    pub fn from_json(j: &JsonVal) -> (r: Option<OkexArg>)
        ensures
            match r {
                Some(a) => spec_okex_arg(*j) == Some(a@),
                None => spec_okex_arg(*j) is None,
            },
    {
        let c = match json_get(j, "channel") {
            Some(JsonVal::Str(c)) => c.clone(),
            _ => {
                return None;
            },
        };
        let inst = match json_get(j, "instId") {
            Some(JsonVal::Str(t)) => t.clone(),
            _ => {
                return None;
            },
        };
        Some(OkexArg { channel: c, instance_id: inst })
    }
}

impl OrderBookEntry {
    /// Decode one price level, accepting exactly what [`spec_okex_entry`]
    /// describes.
    pub fn from_okex_json(j: &JsonVal) -> (r: Option<OrderBookEntry>)
        ensures
            r == spec_okex_entry(*j),
    {
        match j {
            JsonVal::Arr(items) => {
                let n = items.len();
                if n < 2 {
                    return None;
                }
                let mut k: usize = 0;
                while k < n
                    invariant
                        k <= n,
                        n == items@.len(),
                        *j == JsonVal::Arr(*items),
                        forall|m: int| 0 <= m < k ==> (#[trigger] items@[m]) is Str,
                    decreases n - k,
                {
                    match &items[k] {
                        JsonVal::Str(_) => {
                        },
                        _ => {
                            return None;
                        },
                    }
                    k = k + 1;
                }
                let price = match &items[0] {
                    JsonVal::Str(p) => match Decimal::parse(p.as_str()) {
                        Some(d) => d,
                        None => {
                            return None;
                        },
                    },
                    _ => {
                        return None;
                    },
                };
                let amount = match &items[1] {
                    JsonVal::Str(a) => match Decimal::parse(a.as_str()) {
                        Some(d) => d,
                        None => {
                            return None;
                        },
                    },
                    _ => {
                        return None;
                    },
                };
                Some(OrderBookEntry { price, amount })
            },
            _ => None,
        }
    }
}

/// Decode an array of price levels, accepting exactly what
/// [`spec_okex_entries`] describes.
pub fn parse_okex_entries(j: &JsonVal) -> (r: Option<Vec<OrderBookEntry>>)
    ensures
        match r {
            Some(es) => spec_okex_entries(*j) == Some(es@),
            None => spec_okex_entries(*j) is None,
        },
{
    match j {
        JsonVal::Arr(items) => {
            let n = items.len();
            let mut out: Vec<OrderBookEntry> = Vec::new();
            let mut k: usize = 0;
            while k < n
                invariant
                    k <= n,
                    n == items@.len(),
                    *j == JsonVal::Arr(*items),
                    out@.len() == k,
                    forall|m: int|
                        0 <= m < k ==> spec_okex_entry(#[trigger] items@[m]) == Some(out@[m]),
                decreases n - k,
            {
                match OrderBookEntry::from_okex_json(&items[k]) {
                    Some(e) => {
                        out.push(e);
                    },
                    None => {
                        return None;
                    },
                }
                k = k + 1;
            }
            proof {
                assert forall|m: int| 0 <= m < items@.len() implies spec_okex_entry(
                    #[trigger] items@[m],
                ) is Some by {
                }
                assert(out@ =~= Seq::new(items@.len(), |m: int| spec_okex_entry(items@[m])->Some_0));
            }
            Some(out)
        },
        _ => None,
    }
}

impl OkexData {
    /// Decode one data element, accepting exactly what [`spec_okex_data`]
    /// describes.
    pub fn from_json(j: &JsonVal) -> (r: Option<OkexData>)
        ensures
            match r {
                Some(d) => spec_okex_data(*j) == Some(d@),
                None => spec_okex_data(*j) is None,
            },
    {
        let timestamp = match json_get(j, "ts") {
            Some(JsonVal::Str(t)) => match parse_u64(t.as_str()) {
                Some(ts) => ts,
                None => {
                    return None;
                },
            },
            _ => {
                return None;
            },
        };
        let aj = match json_get(j, "asks") {
            Some(v) => v,
            None => {
                return None;
            },
        };
        let bj = match json_get(j, "bids") {
            Some(v) => v,
            None => {
                return None;
            },
        };
        let asks = match parse_okex_entries(aj) {
            Some(es) => es,
            None => {
                return None;
            },
        };
        let bids = match parse_okex_entries(bj) {
            Some(es) => es,
            None => {
                return None;
            },
        };
        Some(OkexData { timestamp, asks, bids })
    }
}

impl OkexMessage {
    /// Decode a data frame, accepting exactly what [`spec_okex_message`]
    /// describes.
    pub fn from_json(j: &JsonVal) -> (r: Option<OkexMessage>)
        ensures
            match r {
                Some(m) => spec_okex_message(*j) == Some(m@),
                None => spec_okex_message(*j) is None,
            },
    {
        let action = match json_get(j, "action") {
            Some(JsonVal::Str(a)) => {
                if str_eq(a.as_str(), "snapshot") {
                    OkexAction::Snapshot
                } else if str_eq(a.as_str(), "update") {
                    OkexAction::Update
                } else {
                    return None;
                }
            },
            _ => {
                return None;
            },
        };
        let arg = match json_get(j, "arg") {
            Some(aj) => match OkexArg::from_json(aj) {
                Some(a) => a,
                None => {
                    return None;
                },
            },
            None => {
                return None;
            },
        };
        let items = match json_get(j, "data") {
            Some(JsonVal::Arr(items)) => items,
            _ => {
                return None;
            },
        };
        let data = match parse_okex_data_array(items) {
            Some(ds) => ds,
            None => {
                return None;
            },
        };
        Some(OkexMessage { action, arg, data })
    }
}

/// Decode every element of a `data` array.
fn parse_okex_data_array(items: &Vec<JsonVal>) -> (r: Option<Vec<OkexData>>)
    ensures
        match r {
            Some(ds) => (forall|k: int|
                0 <= k < items@.len() ==> spec_okex_data(#[trigger] items@[k]) is Some)
                && ds@.map_values(|d: OkexData| d@) == Seq::new(
                items@.len(),
                |m: int| spec_okex_data(items@[m])->Some_0,
            ),
            None => exists|k: int|
                0 <= k < items@.len() && spec_okex_data(#[trigger] items@[k]) is None,
        },
{
    let n = items.len();
    let mut data: Vec<OkexData> = Vec::new();
    let mut k: usize = 0;
    while k < n
        invariant
            k <= n,
            n == items@.len(),
            data@.len() == k,
            forall|m: int| 0 <= m < k ==> spec_okex_data(#[trigger] items@[m]) == Some(data@[m]@),
        decreases n - k,
    {
        match OkexData::from_json(&items[k]) {
            Some(d) => {
                data.push(d);
            },
            None => {
                return None;
            },
        }
        k = k + 1;
    }
    proof {
        assert forall|m: int| 0 <= m < items@.len() implies spec_okex_data(
            #[trigger] items@[m],
        ) is Some by {
        }
        assert(data@.map_values(|d: OkexData| d@) =~= Seq::new(
            items@.len(),
            |m: int| spec_okex_data(items@[m])->Some_0,
        ));
    }
    Some(data)
}

impl OkexResponse {
    /// Decode a control-frame answer, accepting exactly what
    /// [`spec_okex_response`] describes.
    pub fn from_json(j: &JsonVal) -> (r: Option<OkexResponse>)
        ensures
            match r {
                Some(resp) => spec_okex_response(*j) == Some(resp@),
                None => spec_okex_response(*j) is None,
            },
    {
        let event = match json_get(j, "event") {
            Some(JsonVal::Str(ev)) => {
                if str_eq(ev.as_str(), "subscribe") {
                    OkexEvent::Subscribe
                } else if str_eq(ev.as_str(), "unsubscribe") {
                    OkexEvent::Unsubscribe
                } else if str_eq(ev.as_str(), "error") {
                    OkexEvent::Error
                } else {
                    return None;
                }
            },
            _ => {
                return None;
            },
        };
        let connection_id = match json_get(j, "connId") {
            Some(JsonVal::Str(c)) => c.clone(),
            _ => {
                return None;
            },
        };
        match event {
            OkexEvent::Error => {
                let code = match json_get(j, "code") {
                    Some(JsonVal::Str(c)) => c.clone(),
                    _ => {
                        return None;
                    },
                };
                let message = match json_get(j, "msg") {
                    Some(JsonVal::Str(m)) => m.clone(),
                    _ => {
                        return None;
                    },
                };
                Some(
                    OkexResponse {
                        event,
                        connection_id,
                        response_data: OkexResponseData::Error(OkexError { code, message }),
                    },
                )
            },
            _ => {
                let arg = match json_get(j, "arg") {
                    Some(aj) => match OkexArg::from_json(aj) {
                        Some(a) => a,
                        None => {
                            return None;
                        },
                    },
                    None => {
                        return None;
                    },
                };
                Some(
                    OkexResponse {
                        event,
                        connection_id,
                        response_data: OkexResponseData::Subscribe(
                            OkexSubscribeResponse { arg },
                        ),
                    },
                )
            },
        }
    }
}

// ---------------------------------------------------------------------------
// Normalization
// ---------------------------------------------------------------------------

pub open spec fn entry_pairs(es: Seq<OrderBookEntry>) -> Seq<(Decimal, Decimal)> {
    es.map_values(|e: OrderBookEntry| (e.price, e.amount))
}

/// The bid levels of every data element, in frame order.
pub open spec fn all_bids(data: Seq<OkexDataV>) -> Seq<(Decimal, Decimal)>
    decreases data.len(),
{
    if data.len() == 0 {
        Seq::empty()
    } else {
        all_bids(data.drop_last()) + entry_pairs(data.last().bids)
    }
}

/// The ask levels of every data element, in frame order.
pub open spec fn all_asks(data: Seq<OkexDataV>) -> Seq<(Decimal, Decimal)>
    decreases data.len(),
{
    if data.len() == 0 {
        Seq::empty()
    } else {
        all_asks(data.drop_last()) + entry_pairs(data.last().asks)
    }
}

/// The one internal update a data frame denotes: a snapshot gathers every
/// data element, a delta takes the first; a frame whose instrument id does
/// not parse, or a delta without data, denotes nothing and is dropped.
pub open spec fn spec_okex_update(m: OkexMessageV) -> Option<OrderBookUpdateV> {
    match spec_from_okex(m.arg.instance_id) {
        None => None,
        Some(p) => {
            let ep = ExchangeProduct { exchange: Exchange::Okex, product: p };
            match m.action {
                OkexAction::Snapshot => Some(
                    OrderBookUpdateV {
                        exchange_product: ep,
                        bids: all_bids(m.data),
                        asks: all_asks(m.data),
                    },
                ),
                OkexAction::Update => if m.data.len() >= 1 {
                    Some(
                        OrderBookUpdateV {
                            exchange_product: ep,
                            bids: entry_pairs(m.data[0].bids),
                            asks: entry_pairs(m.data[0].asks),
                        },
                    )
                } else {
                    None
                },
            }
        },
    }
}

impl OkexMessage {
    /// Normalize this frame into the one internal update it denotes, exactly
    /// as [`spec_okex_update`] describes.
    pub fn to_order_book_update(&self) -> (r: Option<OrderBookUpdate>)
        ensures
            match r {
                Some(u) => spec_okex_update(self@) == Some(u@),
                None => spec_okex_update(self@) is None,
            },
    {
        let product = match Product::from_okex_exhchange(self.arg.instance_id.as_str()) {
            Some(p) => p,
            None => {
                return None;
            },
        };
        let exchange_product = ExchangeProduct { exchange: Exchange::Okex, product };
        match self.action {
            OkexAction::Snapshot => {
                let n = self.data.len();
                let mut bids: Vec<(Decimal, Decimal)> = Vec::new();
                let mut asks: Vec<(Decimal, Decimal)> = Vec::new();
                let mut i: usize = 0;
                proof {
                    assert(bids@ =~= all_bids(self@.data.take(0)));
                    assert(asks@ =~= all_asks(self@.data.take(0)));
                }
                while i < n
                    invariant
                        i <= n,
                        n == self.data@.len(),
                        self@.data.len() == n,
                        self@.data == self.data@.map_values(|d: OkexData| d@),
                        bids@ == all_bids(self@.data.take(i as int)),
                        asks@ == all_asks(self@.data.take(i as int)),
                    decreases n - i,
                {
                    push_pairs(&mut asks, &self.data[i].asks);
                    push_pairs(&mut bids, &self.data[i].bids);
                    proof {
                        assert(self@.data[i as int] == self.data@[i as int]@);
                        assert(self@.data.take(i as int + 1).drop_last() =~= self@.data.take(
                            i as int,
                        ));
                        assert(self@.data.take(i as int + 1).last() == self@.data[i as int]);
                    }
                    i = i + 1;
                }
                proof {
                    assert(self@.data.take(n as int) =~= self@.data);
                }
                Some(OrderBookUpdate { exchange_product, bids, asks })
            },
            OkexAction::Update => {
                if self.data.len() == 0 {
                    return None;
                }
                let mut bids: Vec<(Decimal, Decimal)> = Vec::new();
                let mut asks: Vec<(Decimal, Decimal)> = Vec::new();
                push_pairs(&mut bids, &self.data[0].bids);
                push_pairs(&mut asks, &self.data[0].asks);
                proof {
                    assert(self@.data[0] == self.data@[0]@);
                    assert(bids@ =~= entry_pairs(self@.data[0].bids));
                    assert(asks@ =~= entry_pairs(self@.data[0].asks));
                }
                Some(OrderBookUpdate { exchange_product, bids, asks })
            },
        }
    }
}

/// Append every level of a side as a (price, size) pair.
fn push_pairs(out: &mut Vec<(Decimal, Decimal)>, es: &Vec<OrderBookEntry>)
    ensures
        final(out)@ == old(out)@ + entry_pairs(es@),
{
    let n = es.len();
    let mut i: usize = 0;
    proof {
        assert(out@ =~= old(out)@ + entry_pairs(es@.take(0)));
    }
    while i < n
        invariant
            i <= n,
            n == es@.len(),
            out@ == old(out)@ + entry_pairs(es@.take(i as int)),
        decreases n - i,
    {
        let e = es[i];
        out.push((e.price, e.amount));
        proof {
            assert(entry_pairs(es@.take(i as int + 1)) =~= entry_pairs(es@.take(i as int)).push(
                (es@[i as int].price, es@[i as int].amount),
            ));
            assert(out@ =~= old(out)@ + entry_pairs(es@.take(i as int + 1)));
        }
        i = i + 1;
    }
    proof {
        assert(es@.take(n as int) =~= es@);
    }
}

// ---------------------------------------------------------------------------
// Encoding
// ---------------------------------------------------------------------------

pub open spec fn op_str(op: OkexOperation) -> Seq<char> {
    match op {
        OkexOperation::Subscribe => "subscribe"@,
        OkexOperation::Unsubscribe => "unsubscribe"@,
    }
}

/// One arg as a JSON object.
pub open spec fn spec_okex_arg_json(a: OkexArgV) -> Seq<char> {
    "{\"channel\":"@ + seq!['"'] + json_escape(a.channel) + seq!['"'] + ",\"instId\":"@
        + seq!['"'] + json_escape(a.instance_id) + seq!['"'] + "}"@
}

/// The args array, comma-separated.
pub open spec fn spec_okex_args_json(args: Seq<OkexArgV>) -> Seq<char>
    decreases args.len(),
{
    if args.len() == 0 {
        Seq::empty()
    } else if args.len() == 1 {
        spec_okex_arg_json(args[0])
    } else {
        spec_okex_args_json(args.drop_last()) + ","@ + spec_okex_arg_json(args.last())
    }
}

/// A whole op/args control frame as JSON text.
pub open spec fn spec_okex_request_json(op: OkexOperation, args: Seq<OkexArgV>) -> Seq<char> {
    "{\"op\":"@ + seq!['"'] + op_str(op) + seq!['"'] + ",\"args\":["@ + spec_okex_args_json(args)
        + "]}"@
}

impl OkexRequest {
    /// The JSON text of this frame, exactly [`spec_okex_request_json`].
    pub fn to_json_string(&self) -> (r: String)
        ensures
            r@ == spec_okex_request_json(self.op, self.args@.map_values(|a: OkexArg| a@)),
    {
        proof {
            reveal_strlit("{\"op\":");
            reveal_strlit(",\"args\":[");
            reveal_strlit("]}");
            reveal_strlit(",");
            reveal_strlit("}");
            reveal_strlit("subscribe");
            reveal_strlit("unsubscribe");
        }
        let mut out = String::new();
        out.append("{\"op\":");
        push_char(&mut out, '"');
        match self.op {
            OkexOperation::Subscribe => out.append("subscribe"),
            OkexOperation::Unsubscribe => out.append("unsubscribe"),
        }
        push_char(&mut out, '"');
        out.append(",\"args\":[");
        let ghost argviews = self.args@.map_values(|a: OkexArg| a@);
        let ghost head = "{\"op\":"@ + seq!['"'] + op_str(self.op) + seq!['"'] + ",\"args\":["@;
        proof {
            assert(out@ =~= head + spec_okex_args_json(argviews.take(0)));
        }
        let n = self.args.len();
        let mut i: usize = 0;
        while i < n
            invariant
                i <= n,
                n == self.args@.len(),
                argviews == self.args@.map_values(|a: OkexArg| a@),
                out@ == head + spec_okex_args_json(argviews.take(i as int)),
            decreases n - i,
        {
            proof {
                reveal_strlit(",");
            }
            if i > 0 {
                out.append(",");
            }
            append_okex_arg(&mut out, &self.args[i]);
            proof {
                assert(argviews[i as int] == self.args@[i as int]@);
                assert(argviews.take(i as int + 1).drop_last() =~= argviews.take(i as int));
                assert(argviews.take(i as int + 1).last() == argviews[i as int]);
                if i == 0 {
                    assert(spec_okex_args_json(argviews.take(1)) =~= spec_okex_arg_json(
                        argviews[0],
                    ));
                }
                assert(out@ =~= head + spec_okex_args_json(argviews.take(i as int + 1)));
            }
            i = i + 1;
        }
        proof {
            assert(argviews.take(n as int) =~= argviews);
        }
        out.append("]}");
        proof {
            assert(out@ =~= spec_okex_request_json(self.op, argviews));
        }
        out
    }
}

/// Append one arg as a JSON object.
fn append_okex_arg(out: &mut String, a: &OkexArg)
    ensures
        final(out)@ == old(out)@ + spec_okex_arg_json(a@),
{
    proof {
        reveal_strlit("{\"channel\":");
        reveal_strlit(",\"instId\":");
        reveal_strlit("}");
    }
    out.append("{\"channel\":");
    append_json_string(out, a.channel.as_str());
    out.append(",\"instId\":");
    append_json_string(out, a.instance_id.as_str());
    out.append("}");
    proof {
        assert(final(out)@ =~= old(out)@ + spec_okex_arg_json(a@));
    }
}

impl OkexResponse {
    /// Decode a control-frame answer from wire text.
    pub fn from_text(s: &str) -> (r: Option<OkexResponse>)
        ensures
            match crate::json::json_of(s@) {
                Some(v) => match r {
                    Some(x) => spec_okex_response(v) == Some(x@),
                    None => spec_okex_response(v) is None,
                },
                None => r is None,
            },
    {
        match crate::json::parse_json(s) {
            Some(v) => OkexResponse::from_json(&v),
            None => None,
        }
    }
}

impl OkexMessage {
    /// Decode a data frame from wire text.
    pub fn from_text(s: &str) -> (r: Option<OkexMessage>)
        ensures
            match crate::json::json_of(s@) {
                Some(v) => match r {
                    Some(x) => spec_okex_message(v) == Some(x@),
                    None => spec_okex_message(v) is None,
                },
                None => r is None,
            },
    {
        match crate::json::parse_json(s) {
            Some(v) => OkexMessage::from_json(&v),
            None => None,
        }
    }
}

} // verus!
