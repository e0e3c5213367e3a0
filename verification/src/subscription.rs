use vstd::prelude::*;
use crate::decimal::dec_digits;
use crate::deribit::{
    spec_deribit_channel_message, spec_deribit_response, spec_deribit_update, DeribitChannelData,
    DeribitChannelMessage, DeribitRequest, DeribitRequestMethod, DeribitRequestParams,
    DeribitResponse,
};
use crate::json::{json_of, parse_json};
use crate::message::OrderBookUpdate;
use crate::okex::{
    spec_okex_message, spec_okex_response, spec_okex_update, OkexArg, OkexEvent, OkexMessage,
    OkexOperation, OkexRequest, OkexResponse, OkexResponseData, OkexResponseDataV,
};
use crate::text::{split_on, split_str, str_eq};

verus! {

/// One product a venue adapter is to keep subscribed, and whether the venue
/// has acknowledged it.
#[derive(Clone, Debug)]
pub struct ProductSubscription {
    pub product_id: String,
    pub subscribed: bool,
}

impl View for ProductSubscription {
    type V = (Seq<char>, bool);

    open spec fn view(&self) -> (Seq<char>, bool) {
        (self.product_id@, self.subscribed)
    }
}

/// An adapter's subscription state: the declared products with their flags,
/// and the ids of requests in flight.
#[verifier::ext_equal]
pub struct SubStateV {
    pub products: Seq<(Seq<char>, bool)>,
    pub inflight: Seq<Seq<char>>,
}

pub open spec fn id_in(ids: Seq<Seq<char>>, id: Seq<char>) -> bool {
    exists|i: int| 0 <= i < ids.len() && ids[i] == id
}

/// The distinct segments of a list, first occurrences kept in order.
pub open spec fn dedup_ids(parts: Seq<Seq<char>>) -> Seq<Seq<char>>
    decreases parts.len(),
{
    if parts.len() == 0 {
        Seq::empty()
    } else {
        let rest = dedup_ids(parts.drop_last());
        if id_in(rest, parts.last()) {
            rest
        } else {
            rest.push(parts.last())
        }
    }
}

/// The ids that a connect must request: not yet acknowledged and not already
/// requested, each id requested at most once even when declared twice.
pub open spec fn spec_pending(products: Seq<(Seq<char>, bool)>, inflight: Seq<Seq<char>>) -> Seq<
    Seq<char>,
>
    decreases products.len(),
{
    if products.len() == 0 {
        Seq::empty()
    } else {
        let rest = spec_pending(products.drop_last(), inflight);
        if !products.last().1 && !id_in(inflight + rest, products.last().0) {
            rest.push(products.last().0)
        } else {
            rest
        }
    }
}

/// The pending ids with the index each product stands at.
pub open spec fn spec_pending_idx(
    products: Seq<(Seq<char>, bool)>,
    inflight: Seq<Seq<char>>,
) -> Seq<(int, Seq<char>)>
    decreases products.len(),
{
    if products.len() == 0 {
        Seq::empty()
    } else {
        let rest = spec_pending_idx(products.drop_last(), inflight);
        let rest_ids = rest.map_values(|p: (int, Seq<char>)| p.1);
        if !products.last().1 && !id_in(inflight + rest_ids, products.last().0) {
            rest.push((products.len() - 1, products.last().0))
        } else {
            rest
        }
    }
}

/// All inflight entries except the given id.
pub open spec fn without_id(ids: Seq<Seq<char>>, id: Seq<char>) -> Seq<Seq<char>>
    decreases ids.len(),
{
    if ids.len() == 0 {
        Seq::empty()
    } else {
        let rest = without_id(ids.drop_last(), id);
        if ids.last() == id {
            rest
        } else {
            rest.push(ids.last())
        }
    }
}

/// What an acknowledgement of one id does: the matching products flip to
/// subscribed and the id leaves the in-flight set.
pub open spec fn spec_mark(s: SubStateV, id: Seq<char>) -> SubStateV {
    SubStateV {
        products: s.products.map_values(|p: (Seq<char>, bool)| (p.0, p.1 || p.0 == id)),
        inflight: without_id(s.inflight, id),
    }
}

/// Acknowledgements for a list of ids, applied in order.
pub open spec fn spec_mark_all(s: SubStateV, ids: Seq<Seq<char>>) -> SubStateV
    decreases ids.len(),
{
    if ids.len() == 0 {
        s
    } else {
        spec_mark(spec_mark_all(s, ids.drop_last()), ids.last())
    }
}

/// What a disconnect does: every flag cleared, nothing in flight, so a
/// reconnect resubscribes everything.
pub open spec fn spec_reset(s: SubStateV) -> SubStateV {
    SubStateV {
        products: s.products.map_values(|p: (Seq<char>, bool)| (p.0, false)),
        inflight: Seq::empty(),
    }
}

/// The declared products of a comma-separated configuration value: one
/// unsubscribed entry per distinct segment.
pub fn get_products_to_subscibe(products_to_subscribe: &str) -> (r: Vec<ProductSubscription>)
    ensures
        r@.map_values(|p: ProductSubscription| p@.0) == dedup_ids(
            split_on(products_to_subscribe@, ','),
        ),
        forall|i: int| 0 <= i < r@.len() ==> !(#[trigger] r@[i])@.1,
{
    let parts = split_str(products_to_subscribe, ',');
    let ghost views = crate::text::views_of(parts@);
    let mut out: Vec<ProductSubscription> = Vec::new();
    let n = parts.len();
    let mut i: usize = 0;
    proof {
        assert(out@.map_values(|p: ProductSubscription| p@.0) =~= dedup_ids(views.take(0)));
    }
    while i < n
        invariant
            i <= n,
            n == parts@.len(),
            views == crate::text::views_of(parts@),
            out@.map_values(|p: ProductSubscription| p@.0) == dedup_ids(views.take(i as int)),
            forall|k: int| 0 <= k < out@.len() ==> !(#[trigger] out@[k])@.1,
        decreases n - i,
    {
        let ghost pre = out@.map_values(|p: ProductSubscription| p@.0);
        let dup = contains_id(&out, parts[i]);
        proof {
            assert(views[i as int] == parts@[i as int]@);
            assert(views.take(i as int + 1).drop_last() =~= views.take(i as int));
            assert(views.take(i as int + 1).last() == views[i as int]);
        }
        if !dup {
            let entry = ProductSubscription {
                product_id: parts[i].to_owned(),
                subscribed: false,
            };
            out.push(entry);
            proof {
                assert(out@.map_values(|p: ProductSubscription| p@.0) =~= pre.push(
                    views[i as int],
                ));
            }
        }
        i = i + 1;
    }
    proof {
        assert(views.take(n as int) =~= views);
    }
    out
}

/// Whether some entry carries this id.
fn contains_id(v: &Vec<ProductSubscription>, id: &str) -> (r: bool)
    ensures
        r == id_in(v@.map_values(|p: ProductSubscription| p@.0), id@),
{
    let ghost ids = v@.map_values(|p: ProductSubscription| p@.0);
    let n = v.len();
    let mut i: usize = 0;
    while i < n
        invariant
            i <= n,
            n == v@.len(),
            ids == v@.map_values(|p: ProductSubscription| p@.0),
            forall|k: int| 0 <= k < i ==> ids[k] != id@,
        decreases n - i,
    {
        if str_eq(v[i].product_id.as_str(), id) {
            proof {
                assert(ids[i as int] == id@);
            }
            return true;
        }
        i = i + 1;
    }
    false
}

/// Whether some in-flight id equals this one.
fn contains_str(v: &Vec<String>, id: &str) -> (r: bool)
    ensures
        r == id_in(v@.map_values(|s: String| s@), id@),
{
    let ghost ids = v@.map_values(|s: String| s@);
    let n = v.len();
    let mut i: usize = 0;
    while i < n
        invariant
            i <= n,
            n == v@.len(),
            ids == v@.map_values(|s: String| s@),
            forall|k: int| 0 <= k < i ==> ids[k] != id@,
        decreases n - i,
    {
        if str_eq(v[i].as_str(), id) {
            proof {
                assert(ids[i as int] == id@);
            }
            return true;
        }
        i = i + 1;
    }
    false
}

// ---------------------------------------------------------------------------
// The Okex adapter's decisions
// ---------------------------------------------------------------------------

/// The Okex adapter's subscription tracking and frame handling; the socket
/// around it performs the sends the decisions call for.
#[derive(Clone, Debug)]
pub struct OkexExchangeCallback {
    pub products_to_subscribe: Vec<ProductSubscription>,
    pub inflight_subscription_requests: Vec<String>,
}

impl View for OkexExchangeCallback {
    type V = SubStateV;

    open spec fn view(&self) -> SubStateV {
        SubStateV {
            products: self.products_to_subscribe@.map_values(|p: ProductSubscription| p@),
            inflight: self.inflight_subscription_requests@.map_values(|s: String| s@),
        }
    }
}

impl OkexExchangeCallback {
    pub fn new(products_to_subscribe: Vec<ProductSubscription>) -> (r: OkexExchangeCallback)
        ensures
            r@.products == products_to_subscribe@.map_values(|p: ProductSubscription| p@),
            r@.inflight == Seq::<Seq<char>>::empty(),
    {
        let r = OkexExchangeCallback {
            products_to_subscribe,
            inflight_subscription_requests: Vec::new(),
        };
        proof {
            assert(r@.inflight =~= Seq::<Seq<char>>::empty());
        }
        r
    }

    /// The one batch frame a connect must send: one `books` arg per pending
    /// product, every requested id recorded as in flight.
    pub fn subscribe_products(&mut self) -> (r: OkexRequest)
        ensures
            r.op == OkexOperation::Subscribe,
            r.args@.map_values(|a: OkexArg| a@.instance_id) == spec_pending(
                old(self)@.products,
                old(self)@.inflight,
            ),
            forall|i: int| 0 <= i < r.args@.len() ==> (#[trigger] r.args@[i])@.channel == "books"@,
            final(self)@.products == old(self)@.products,
            final(self)@.inflight == old(self)@.inflight + spec_pending(
                old(self)@.products,
                old(self)@.inflight,
            ),
    {
        proof {
            reveal_strlit("books");
        }
        let ghost products0 = self@.products;
        let ghost inflight0 = self@.inflight;
        let mut args: Vec<OkexArg> = Vec::new();
        let n = self.products_to_subscribe.len();
        let mut i: usize = 0;
        proof {
            assert(args@.map_values(|a: OkexArg| a@.instance_id) =~= spec_pending(
                products0.take(0),
                inflight0,
            ));
            assert(self@.inflight =~= inflight0 + spec_pending(products0.take(0), inflight0));
        }
        while i < n
            invariant
                i <= n,
                n == self.products_to_subscribe@.len(),
                products0.len() == n,
                self@.products == products0,
                args@.map_values(|a: OkexArg| a@.instance_id) == spec_pending(
                    products0.take(i as int),
                    inflight0,
                ),
                forall|k: int|
                    0 <= k < args@.len() ==> (#[trigger] args@[k])@.channel == "books"@,
                self@.inflight == inflight0 + spec_pending(products0.take(i as int), inflight0),
            decreases n - i,
        {
            let ghost pre_pending = spec_pending(products0.take(i as int), inflight0);
            proof {
                assert(products0[i as int] == self.products_to_subscribe@[i as int]@);
                assert(products0.take(i as int + 1).drop_last() =~= products0.take(i as int));
                assert(products0.take(i as int + 1).last() == products0[i as int]);
            }
            let p_subscribed = self.products_to_subscribe[i].subscribed;
            let inflight_now = contains_str(
                &self.inflight_subscription_requests,
                self.products_to_subscribe[i].product_id.as_str(),
            );
            if !p_subscribed && !inflight_now {
                let id = self.products_to_subscribe[i].product_id.clone();
                let ghost pre_inflight = self@.inflight;
                self.inflight_subscription_requests.push(id.clone());
                let ghost pre_args = args@.map_values(|a: OkexArg| a@.instance_id);
                let mut channel = String::new();
                channel.append("books");
                args.push(OkexArg { channel, instance_id: id });
                proof {
                    assert(self@.inflight =~= pre_inflight.push(products0[i as int].0));
                    assert(args@.map_values(|a: OkexArg| a@.instance_id) =~= pre_args.push(
                        products0[i as int].0,
                    ));
                    assert(spec_pending(products0.take(i as int + 1), inflight0) =~= pre_pending.push(
                        products0[i as int].0,
                    ));
                    assert(self@.inflight =~= inflight0 + spec_pending(
                        products0.take(i as int + 1),
                        inflight0,
                    ));
                }
            } else {
                proof {
                    if p_subscribed {
                    } else {
                        assert(id_in(inflight0 + pre_pending, products0[i as int].0));
                    }
                    assert(spec_pending(products0.take(i as int + 1), inflight0) =~= pre_pending);
                }
            }
            i = i + 1;
        }
        proof {
            assert(products0.take(n as int) =~= products0);
        }
        OkexRequest { op: OkexOperation::Subscribe, args }
    }

    /// Flip the acknowledged product to subscribed and drop its in-flight
    /// entry.
    pub fn mark_subscribed(&mut self, id: &str)
        ensures
            final(self)@ == spec_mark(old(self)@, id@),
    {
        mark_products(&mut self.products_to_subscribe, id);
        remove_inflight(&mut self.inflight_subscription_requests, id);
        proof {
            assert(final(self)@ =~~= spec_mark(old(self)@, id@));
        }
    }

    /// Forget every acknowledgement and in-flight request, so that the next
    /// connect resubscribes everything.
    pub fn on_disconnect(&mut self)
        ensures
            final(self)@ == spec_reset(old(self)@),
    {
        reset_products(&mut self.products_to_subscribe);
        self.inflight_subscription_requests = Vec::new();
        proof {
            assert(final(self)@ =~~= spec_reset(old(self)@));
        }
    }

    /// Decode one text frame and decide what it means: an acknowledgement
    /// updates the subscription state, a data frame normalizes to the one
    /// update to forward, and anything else is dropped.
    pub fn handle_text(&mut self, text: &str) -> (r: Option<OrderBookUpdate>)
        ensures
            ({
                match json_of(text@) {
                    None => r is None && final(self)@ == old(self)@,
                    Some(v) => match spec_okex_response(v) {
                        Some(resp) => r is None && (match resp.response_data {
                            OkexResponseDataV::Subscribe(arg) => if resp.event
                                == OkexEvent::Subscribe {
                                final(self)@ == spec_mark(old(self)@, arg.instance_id)
                            } else {
                                final(self)@ == old(self)@
                            },
                            OkexResponseDataV::Error { .. } => final(self)@ == old(self)@,
                        }),
                        None => final(self)@ == old(self)@ && (match spec_okex_message(v) {
                            Some(m) => match spec_okex_update(m) {
                                Some(u) => r matches Some(ru) && ru@ == u,
                                None => r is None,
                            },
                            None => r is None,
                        }),
                    },
                }
            }),
    {
        let v = match parse_json(text) {
            Some(v) => v,
            None => {
                return None;
            },
        };
        match OkexResponse::from_json(&v) {
            Some(resp) => {
                match (resp.event, resp.response_data) {
                    (OkexEvent::Subscribe, OkexResponseData::Subscribe(sr)) => {
                        self.mark_subscribed(sr.arg.instance_id.as_str());
                    },
                    _ => {
                    },
                }
                None
            },
            None => match OkexMessage::from_json(&v) {
                Some(m) => m.to_order_book_update(),
                None => None,
            },
        }
    }
}

/// Flip every product whose id matches.
fn mark_products(v: &mut Vec<ProductSubscription>, id: &str)
    ensures
        final(v)@.map_values(|p: ProductSubscription| p@) == old(v)@.map_values(
            |p: ProductSubscription| p@,
        ).map_values(|p: (Seq<char>, bool)| (p.0, p.1 || p.0 == id@)),
{
    let ghost target = old(v)@.map_values(|p: ProductSubscription| p@).map_values(
        |p: (Seq<char>, bool)| (p.0, p.1 || p.0 == id@),
    );
    let n = v.len();
    let mut out: Vec<ProductSubscription> = Vec::new();
    let mut i: usize = 0;
    while i < n
        invariant
            i <= n,
            n == v@.len(),
            v@ == old(v)@,
            target == old(v)@.map_values(|p: ProductSubscription| p@).map_values(
                |p: (Seq<char>, bool)| (p.0, p.1 || p.0 == id@),
            ),
            out@.len() == i,
            forall|k: int| 0 <= k < i ==> (#[trigger] out@[k])@ == target[k],
        decreases n - i,
    {
        let matched = str_eq(v[i].product_id.as_str(), id);
        let entry = ProductSubscription {
            product_id: v[i].product_id.clone(),
            subscribed: v[i].subscribed || matched,
        };
        out.push(entry);
        i = i + 1;
    }
    *v = out;
    proof {
        assert(final(v)@.map_values(|p: ProductSubscription| p@) =~= target);
    }
}

/// Clear every flag.
fn reset_products(v: &mut Vec<ProductSubscription>)
    ensures
        final(v)@.map_values(|p: ProductSubscription| p@) == old(v)@.map_values(
            |p: ProductSubscription| p@,
        ).map_values(|p: (Seq<char>, bool)| (p.0, false)),
{
    let ghost target = old(v)@.map_values(|p: ProductSubscription| p@).map_values(
        |p: (Seq<char>, bool)| (p.0, false),
    );
    let n = v.len();
    let mut out: Vec<ProductSubscription> = Vec::new();
    let mut i: usize = 0;
    while i < n
        invariant
            i <= n,
            n == v@.len(),
            v@ == old(v)@,
            target == old(v)@.map_values(|p: ProductSubscription| p@).map_values(
                |p: (Seq<char>, bool)| (p.0, false),
            ),
            out@.len() == i,
            forall|k: int| 0 <= k < i ==> (#[trigger] out@[k])@ == target[k],
        decreases n - i,
    {
        let entry = ProductSubscription { product_id: v[i].product_id.clone(), subscribed: false };
        out.push(entry);
        i = i + 1;
    }
    *v = out;
    proof {
        assert(final(v)@.map_values(|p: ProductSubscription| p@) =~= target);
    }
}

/// Drop every in-flight entry that matches.
fn remove_inflight(v: &mut Vec<String>, id: &str)
    ensures
        final(v)@.map_values(|s: String| s@) == without_id(
            old(v)@.map_values(|s: String| s@),
            id@,
        ),
{
    let ghost ids0 = old(v)@.map_values(|s: String| s@);
    let n = v.len();
    let mut out: Vec<String> = Vec::new();
    let mut i: usize = 0;
    proof {
        assert(out@.map_values(|s: String| s@) =~= without_id(ids0.take(0), id@));
    }
    while i < n
        invariant
            i <= n,
            n == v@.len(),
            v@ == old(v)@,
            ids0 == old(v)@.map_values(|s: String| s@),
            out@.map_values(|s: String| s@) == without_id(ids0.take(i as int), id@),
        decreases n - i,
    {
        let ghost pre = out@.map_values(|s: String| s@);
        proof {
            assert(ids0[i as int] == v@[i as int]@);
            assert(ids0.take(i as int + 1).drop_last() =~= ids0.take(i as int));
            assert(ids0.take(i as int + 1).last() == ids0[i as int]);
        }
        if !str_eq(v[i].as_str(), id) {
            out.push(v[i].clone());
            proof {
                assert(out@.map_values(|s: String| s@) =~= pre.push(ids0[i as int]));
            }
        }
        i = i + 1;
    }
    proof {
        assert(ids0.take(n as int) =~= ids0);
    }
    *v = out;
}

// ---------------------------------------------------------------------------
// The Deribit adapter's decisions
// ---------------------------------------------------------------------------

/// The Deribit adapter's subscription tracking and frame handling.
#[derive(Clone, Debug)]
pub struct DeribitExchangeCallback {
    pub products_to_subscribe: Vec<ProductSubscription>,
    pub inflight_subscription_requests: Vec<String>,
}

impl View for DeribitExchangeCallback {
    type V = SubStateV;

    open spec fn view(&self) -> SubStateV {
        SubStateV {
            products: self.products_to_subscribe@.map_values(|p: ProductSubscription| p@),
            inflight: self.inflight_subscription_requests@.map_values(|s: String| s@),
        }
    }
}

impl DeribitExchangeCallback {
    pub fn new(products_to_subscribe: Vec<ProductSubscription>) -> (r: DeribitExchangeCallback)
        ensures
            r@.products == products_to_subscribe@.map_values(|p: ProductSubscription| p@),
            r@.inflight == Seq::<Seq<char>>::empty(),
    {
        let r = DeribitExchangeCallback {
            products_to_subscribe,
            inflight_subscription_requests: Vec::new(),
        };
        proof {
            assert(r@.inflight =~= Seq::<Seq<char>>::empty());
        }
        r
    }

    /// The JSON-RPC requests a connect must send: one per pending product,
    /// its id the product's position, every requested id recorded in flight.
    pub fn subscribe_products(&mut self) -> (r: Vec<DeribitRequest>)
        ensures
            ({
                let pending = spec_pending_idx(old(self)@.products, old(self)@.inflight);
                &&& r@.len() == pending.len()
                &&& forall|k: int|
                    0 <= k < pending.len() ==> {
                        let rq = #[trigger] r@[k];
                        &&& rq.method == DeribitRequestMethod::PublicSubscribe
                        &&& rq.jsonrpc@ == "2.0"@
                        &&& rq.id@ == dec_digits(pending[k].0 as nat)
                        &&& (match rq.params {
                            DeribitRequestParams::Channels(cs) => cs@.map_values(|c: String| c@)
                                =~= seq![pending[k].1],
                        })
                    }
                &&& final(self)@.products == old(self)@.products
                &&& final(self)@.inflight == old(self)@.inflight + pending.map_values(
                    |p: (int, Seq<char>)| p.1,
                )
            }),
    {
        proof {
            reveal_strlit("2.0");
        }
        let ghost products0 = self@.products;
        let ghost inflight0 = self@.inflight;
        let mut reqs: Vec<DeribitRequest> = Vec::new();
        let n = self.products_to_subscribe.len();
        let mut i: usize = 0;
        proof {
            let pend0 = spec_pending_idx(products0.take(0), inflight0);
            assert(pend0 =~= Seq::<(int, Seq<char>)>::empty());
            assert(pend0.map_values(|p: (int, Seq<char>)| p.1) =~= Seq::<Seq<char>>::empty());
            assert(self@.inflight =~= inflight0 + pend0.map_values(|p: (int, Seq<char>)| p.1));
        }
        while i < n
            invariant
                i <= n,
                n == self.products_to_subscribe@.len(),
                products0.len() == n,
                self@.products == products0,
                reqs@.len() == spec_pending_idx(products0.take(i as int), inflight0).len(),
                forall|k: int|
                    0 <= k < reqs@.len() ==> {
                        let rq = #[trigger] reqs@[k];
                        let pending = spec_pending_idx(products0.take(i as int), inflight0);
                        &&& rq.method == DeribitRequestMethod::PublicSubscribe
                        &&& rq.jsonrpc@ == "2.0"@
                        &&& rq.id@ == dec_digits(pending[k].0 as nat)
                        &&& (match rq.params {
                            DeribitRequestParams::Channels(cs) => cs@.map_values(|c: String| c@)
                                =~= seq![pending[k].1],
                        })
                    },
                self@.inflight == inflight0 + spec_pending_idx(
                    products0.take(i as int),
                    inflight0,
                ).map_values(|p: (int, Seq<char>)| p.1),
            decreases n - i,
        {
            let ghost pre_pending = spec_pending_idx(products0.take(i as int), inflight0);
            let ghost pre_ids = pre_pending.map_values(|p: (int, Seq<char>)| p.1);
            proof {
                assert(products0[i as int] == self.products_to_subscribe@[i as int]@);
                assert(products0.take(i as int + 1).drop_last() =~= products0.take(i as int));
                assert(products0.take(i as int + 1).last() == products0[i as int]);
            }
            let p_subscribed = self.products_to_subscribe[i].subscribed;
            let inflight_now = contains_str(
                &self.inflight_subscription_requests,
                self.products_to_subscribe[i].product_id.as_str(),
            );
            if !p_subscribed && !inflight_now {
                let id_str = self.products_to_subscribe[i].product_id.clone();
                let ghost pre_inflight = self@.inflight;
                self.inflight_subscription_requests.push(id_str.clone());
                let mut rpc = String::new();
                rpc.append("2.0");
                let mut rid = String::new();
                crate::decimal::append_dec_digits(&mut rid, i as u128);
                let mut channels: Vec<String> = Vec::new();
                channels.push(id_str);
                let req = DeribitRequest {
                    method: DeribitRequestMethod::PublicSubscribe,
                    id: rid,
                    jsonrpc: rpc,
                    params: DeribitRequestParams::Channels(channels),
                };
                let ghost new_pending = spec_pending_idx(products0.take(i as int + 1), inflight0);
                proof {
                    assert(new_pending =~= pre_pending.push(
                        (i as int, products0[i as int].0),
                    ));
                    assert(new_pending.map_values(|p: (int, Seq<char>)| p.1) =~= pre_ids.push(
                        products0[i as int].0,
                    ));
                    assert(self@.inflight =~= pre_inflight.push(products0[i as int].0));
                    assert(self@.inflight =~= inflight0 + new_pending.map_values(
                        |p: (int, Seq<char>)| p.1,
                    ));
                    assert(req.params->Channels_0@.map_values(|c: String| c@) =~= seq![
                        products0[i as int].0,
                    ]);
                }
                reqs.push(req);
            } else {
                proof {
                    if p_subscribed {
                    } else {
                        assert(id_in(inflight0 + pre_ids, products0[i as int].0));
                    }
                    assert(spec_pending_idx(products0.take(i as int + 1), inflight0)
                        =~= pre_pending);
                }
            }
            i = i + 1;
        }
        proof {
            assert(products0.take(n as int) =~= products0);
        }
        reqs
    }

    /// Flip one acknowledged channel to subscribed and drop its in-flight
    /// entry.
    pub fn mark_subscribed(&mut self, id: &str)
        ensures
            final(self)@ == spec_mark(old(self)@, id@),
    {
        mark_products(&mut self.products_to_subscribe, id);
        remove_inflight(&mut self.inflight_subscription_requests, id);
        proof {
            assert(final(self)@ =~~= spec_mark(old(self)@, id@));
        }
    }

    /// Forget every acknowledgement and in-flight request.
    pub fn on_disconnect(&mut self)
        ensures
            final(self)@ == spec_reset(old(self)@),
    {
        reset_products(&mut self.products_to_subscribe);
        self.inflight_subscription_requests = Vec::new();
        proof {
            assert(final(self)@ =~~= spec_reset(old(self)@));
        }
    }

    /// Decode one text frame and decide what it means: a JSON-RPC answer
    /// acknowledges every channel it lists, a notification normalizes to the
    /// one update to forward, and anything else is dropped.
    pub fn handle_text(&mut self, text: &str) -> (r: Option<OrderBookUpdate>)
        ensures
            ({
                match json_of(text@) {
                    None => r is None && final(self)@ == old(self)@,
                    Some(v) => match spec_deribit_response(v) {
                        Some(resp) => r is None && final(self)@ == spec_mark_all(
                            old(self)@,
                            resp.result,
                        ),
                        None => final(self)@ == old(self)@ && (
                        match spec_deribit_channel_message(v) {
                            Some(m) => match spec_deribit_update(m.data) {
                                Some(u) => r matches Some(ru) && ru@ == u,
                                None => r is None,
                            },
                            None => r is None,
                        }),
                    },
                }
            }),
    {
        let v = match parse_json(text) {
            Some(v) => v,
            None => {
                return None;
            },
        };
        match DeribitResponse::from_json(&v) {
            Some(resp) => {
                let ghost ids = resp@.result;
                let n = resp.result.len();
                let mut k: usize = 0;
                proof {
                    assert(spec_mark_all(old(self)@, ids.take(0)) =~~= old(self)@);
                }
                while k < n
                    invariant
                        k <= n,
                        n == resp.result@.len(),
                        ids == resp.result@.map_values(|s: String| s@),
                        self@ == spec_mark_all(old(self)@, ids.take(k as int)),
                    decreases n - k,
                {
                    self.mark_subscribed(resp.result[k].as_str());
                    proof {
                        assert(ids[k as int] == resp.result@[k as int]@);
                        assert(ids.take(k as int + 1).drop_last() =~= ids.take(k as int));
                        assert(ids.take(k as int + 1).last() == ids[k as int]);
                    }
                    k = k + 1;
                }
                proof {
                    assert(ids.take(n as int) =~= ids);
                }
                None
            },
            None => match DeribitChannelMessage::from_json(&v) {
                Some(m) => {
                    let DeribitChannelData::OrderBook(book) = &m.params.data;
                    book.to_order_book_update()
                },
                None => None,
            },
        }
    }
}

} // verus!
