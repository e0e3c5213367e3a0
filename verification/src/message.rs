use vstd::prelude::*;
use crate::date::spec_format_iso;
use crate::decimal::{spec_format_decimal, Decimal};
use crate::json::push_char;
use crate::product::{
    asset_str, product_canonical, CryptoAsset, Exchange, ExchangeProduct, OptionType, Product,
    SettlementAsset,
};

verus! {

/// One normalized change to a venue's book: price levels to upsert, and
/// zero-size levels to delete, applied in list order.
#[derive(Clone, Debug)]
pub struct OrderBookUpdate {
    pub exchange_product: ExchangeProduct,
    pub bids: Vec<(Decimal, Decimal)>,
    pub asks: Vec<(Decimal, Decimal)>,
}

/// A pair of simultaneously available prices on the two venues where buying
/// on one and selling on the other yields positive profit.
#[derive(Clone, Copy, PartialEq, Eq, Structural, Debug)]
pub struct ArbitrageOpportunity {
    pub product: Product,
    pub buy_exchange: Exchange,
    pub sell_exchange: Exchange,
    pub buy_price: Decimal,
    pub sell_price: Decimal,
    pub size: Decimal,
}

pub struct OrderBookUpdateV {
    pub exchange_product: ExchangeProduct,
    pub bids: Seq<(Decimal, Decimal)>,
    pub asks: Seq<(Decimal, Decimal)>,
}

impl View for OrderBookUpdate {
    type V = OrderBookUpdateV;

    open spec fn view(&self) -> OrderBookUpdateV {
        OrderBookUpdateV {
            exchange_product: self.exchange_product,
            bids: self.bids@,
            asks: self.asks@,
        }
    }
}

/// What flows on the internal bus and on the fan-out broadcast.
#[derive(Clone, Debug)]
pub enum InternalMessage {
    OrderBookUpdate(OrderBookUpdate),
    ArbitrageOpportunity(ArbitrageOpportunity),
}

pub open spec fn exchange_str(e: Exchange) -> Seq<char> {
    match e {
        Exchange::Okex => "Okex"@,
        Exchange::Deribit => "Deribit"@,
    }
}

pub open spec fn option_type_name(t: OptionType) -> Seq<char> {
    match t {
        OptionType::Call => "Call"@,
        OptionType::Put => "Put"@,
    }
}

/// A quoted JSON string; for texts that need no escaping.
pub open spec fn quoted(s: Seq<char>) -> Seq<char> {
    seq!['"'] + s + seq!['"']
}

/// The JSON text of an opportunity: the product as a tagged object, the two
/// venues, and the prices and size as decimal strings.
pub open spec fn spec_opportunity_json(o: ArbitrageOpportunity) -> Seq<char> {
    match o.product {
        Product::Option { underlying, settlement: _, strike, expiration, option_type } => {
            "{\"product\":{\"Option\":{\"underlying\":"@ + quoted(asset_str(underlying))
                + ",\"settlement\":"@ + quoted("USD"@) + ",\"strike\":"@ + quoted(
                spec_format_decimal(strike),
            ) + ",\"expiration\":"@ + quoted(spec_format_iso(expiration)) + ",\"option_type\":"@
                + quoted(option_type_name(option_type)) + "}},\"buy_exchange\":"@ + quoted(
                exchange_str(o.buy_exchange),
            ) + ",\"sell_exchange\":"@ + quoted(exchange_str(o.sell_exchange)) + ",\"buy_price\":"@
                + quoted(spec_format_decimal(o.buy_price)) + ",\"sell_price\":"@ + quoted(
                spec_format_decimal(o.sell_price),
            ) + ",\"size\":"@ + quoted(spec_format_decimal(o.size)) + "}"@
        },
    }
}

impl ArbitrageOpportunity {
    /// The JSON text frame published to subscribers, exactly
    /// [`spec_opportunity_json`].
    #[verifier::rlimit(80)]
    pub fn to_json_string(&self) -> (r: String)
        requires
            product_canonical(self.product),
            self.buy_price.units != i128::MIN,
            self.sell_price.units != i128::MIN,
            self.size.units != i128::MIN,
        ensures
            r@ == spec_opportunity_json(*self),
    {
        proof {
            reveal_strlit("{\"product\":{\"Option\":{\"underlying\":");
            reveal_strlit(",\"settlement\":");
            reveal_strlit(",\"strike\":");
            reveal_strlit(",\"expiration\":");
            reveal_strlit(",\"option_type\":");
            reveal_strlit("}},\"buy_exchange\":");
            reveal_strlit(",\"sell_exchange\":");
            reveal_strlit(",\"buy_price\":");
            reveal_strlit(",\"sell_price\":");
            reveal_strlit(",\"size\":");
            reveal_strlit("}");
            reveal_strlit("BTC");
            reveal_strlit("ETH");
            reveal_strlit("USD");
            reveal_strlit("Call");
            reveal_strlit("Put");
            reveal_strlit("Okex");
            reveal_strlit("Deribit");
        }
        match &self.product {
            Product::Option { underlying, settlement: _, strike, expiration, option_type } => {
                let mut out = String::new();
                out.append("{\"product\":{\"Option\":{\"underlying\":");
                push_char(&mut out, '"');
                out.append(
                    match underlying {
                        CryptoAsset::BTC => "BTC",
                        CryptoAsset::ETH => "ETH",
                    },
                );
                push_char(&mut out, '"');
                out.append(",\"settlement\":");
                push_char(&mut out, '"');
                out.append("USD");
                push_char(&mut out, '"');
                out.append(",\"strike\":");
                push_char(&mut out, '"');
                let st = strike.to_string();
                out.append(st.as_str());
                push_char(&mut out, '"');
                out.append(",\"expiration\":");
                push_char(&mut out, '"');
                let ex = expiration.format_iso();
                out.append(ex.as_str());
                push_char(&mut out, '"');
                out.append(",\"option_type\":");
                push_char(&mut out, '"');
                out.append(
                    match option_type {
                        OptionType::Call => "Call",
                        OptionType::Put => "Put",
                    },
                );
                push_char(&mut out, '"');
                out.append("}},\"buy_exchange\":");
                append_exchange(&mut out, self.buy_exchange);
                out.append(",\"sell_exchange\":");
                append_exchange(&mut out, self.sell_exchange);
                out.append(",\"buy_price\":");
                push_char(&mut out, '"');
                let bp = self.buy_price.to_string();
                out.append(bp.as_str());
                push_char(&mut out, '"');
                out.append(",\"sell_price\":");
                push_char(&mut out, '"');
                let sp = self.sell_price.to_string();
                out.append(sp.as_str());
                push_char(&mut out, '"');
                out.append(",\"size\":");
                push_char(&mut out, '"');
                let sz = self.size.to_string();
                out.append(sz.as_str());
                push_char(&mut out, '"');
                out.append("}");
                proof {
                    assert(out@ =~= spec_opportunity_json(*self));
                }
                out
            },
        }
    }
}

/// Append a quoted venue name.
fn append_exchange(out: &mut String, e: Exchange)
    ensures
        final(out)@ == old(out)@ + quoted(exchange_str(e)),
{
    proof {
        reveal_strlit("Okex");
        reveal_strlit("Deribit");
    }
    push_char(out, '"');
    out.append(
        match e {
            Exchange::Okex => "Okex",
            Exchange::Deribit => "Deribit",
        },
    );
    push_char(out, '"');
    proof {
        assert(final(out)@ =~= old(out)@ + quoted(exchange_str(e)));
    }
}

} // verus!
