use vstd::prelude::*;
use crate::book::{apply_entries, OrderBook};
use crate::decimal::Decimal;
use crate::message::{ArbitrageOpportunity, OrderBookUpdate};
use crate::product::{Exchange, ExchangeProduct, Product};

verus! {

/// The entry with the highest price of a side, carried in full.
pub open spec fn is_best_bid(m: Map<Decimal, Decimal>, e: (Decimal, Decimal)) -> bool {
    &&& m.contains_key(e.0)
    &&& m[e.0] == e.1
    &&& forall|q: Decimal| m.contains_key(q) ==> q.units <= e.0.units
}

/// The entry with the lowest price of a side, carried in full.
pub open spec fn is_best_ask(m: Map<Decimal, Decimal>, e: (Decimal, Decimal)) -> bool {
    &&& m.contains_key(e.0)
    &&& m[e.0] == e.1
    &&& forall|q: Decimal| m.contains_key(q) ==> q.units >= e.0.units
}

pub open spec fn spec_best_bid(m: Map<Decimal, Decimal>) -> Option<(Decimal, Decimal)> {
    if exists|e: (Decimal, Decimal)| is_best_bid(m, e) {
        Some(choose|e: (Decimal, Decimal)| is_best_bid(m, e))
    } else {
        None
    }
}

pub open spec fn spec_best_ask(m: Map<Decimal, Decimal>) -> Option<(Decimal, Decimal)> {
    if exists|e: (Decimal, Decimal)| is_best_ask(m, e) {
        Some(choose|e: (Decimal, Decimal)| is_best_ask(m, e))
    } else {
        None
    }
}

pub proof fn lemma_best_bid_unique(m: Map<Decimal, Decimal>, e: (Decimal, Decimal))
    requires
        is_best_bid(m, e),
    ensures
        spec_best_bid(m) == Some(e),
{
    let w = choose|w: (Decimal, Decimal)| is_best_bid(m, w);
    assert(w.0.units <= e.0.units && e.0.units <= w.0.units);
    assert(w.0 == e.0);
}

pub proof fn lemma_best_ask_unique(m: Map<Decimal, Decimal>, e: (Decimal, Decimal))
    requires
        is_best_ask(m, e),
    ensures
        spec_best_ask(m) == Some(e),
{
    let w = choose|w: (Decimal, Decimal)| is_best_ask(m, w);
    assert(w.0.units >= e.0.units && e.0.units >= w.0.units);
    assert(w.0 == e.0);
}

pub open spec fn min_dec(a: Decimal, b: Decimal) -> Decimal {
    if a.units <= b.units {
        a
    } else {
        b
    }
}

/// The arbitrage decision over the two venues' books for one product: buying
/// the Okex ask and selling the Deribit bid is checked first, the reverse
/// direction second, and a candidate is valid only when the sell price lies
/// above the buy price; the size is the smaller of the two matched levels.
pub open spec fn spec_check_arbitrage(ob: OrderBook, db: OrderBook, product: Product) -> Option<
    ArbitrageOpportunity,
> {
    let c1 = match (spec_best_ask(ob.asks_map()), spec_best_bid(db.bids_map())) {
        (Some(a), Some(b)) => if b.0.units - a.0.units > 0 {
            Some(
                ArbitrageOpportunity {
                    product,
                    buy_exchange: Exchange::Okex,
                    sell_exchange: Exchange::Deribit,
                    buy_price: a.0,
                    sell_price: b.0,
                    size: min_dec(a.1, b.1),
                },
            )
        } else {
            None
        },
        _ => None,
    };
    let c2 = match (spec_best_bid(ob.bids_map()), spec_best_ask(db.asks_map())) {
        (Some(b), Some(a)) => if b.0.units - a.0.units > 0 {
            Some(
                ArbitrageOpportunity {
                    product,
                    buy_exchange: Exchange::Deribit,
                    sell_exchange: Exchange::Okex,
                    buy_price: a.0,
                    sell_price: b.0,
                    size: min_dec(b.1, a.1),
                },
            )
        } else {
            None
        },
        _ => None,
    };
    if c1 is Some {
        c1
    } else if c2 is Some {
        c2
    } else {
        None
    }
}

// ---------------------------------------------------------------------------
// The collection of books, keyed by (venue, product)
// ---------------------------------------------------------------------------

pub open spec fn books_wf(books: Seq<OrderBook>) -> bool {
    &&& forall|i: int| 0 <= i < books.len() ==> (#[trigger] books[i]).wf()
    &&& forall|i: int, j: int|
        0 <= i < j < books.len() ==> books[i].spec_exchange_product()
            != books[j].spec_exchange_product()
}

pub open spec fn seq_has_book(books: Seq<OrderBook>, k: ExchangeProduct) -> bool {
    exists|i: int| 0 <= i < books.len() && (#[trigger] books[i]).spec_exchange_product() == k
}

pub open spec fn seq_book(books: Seq<OrderBook>, k: ExchangeProduct) -> OrderBook {
    books[choose|i: int|
        0 <= i < books.len() && (#[trigger] books[i]).spec_exchange_product() == k]
}

/// With distinct keys, the book found at a key is the one standing at its
/// index.
pub proof fn lemma_seq_book_at(books: Seq<OrderBook>, i: int, k: ExchangeProduct)
    requires
        books_wf(books),
        0 <= i < books.len(),
        books[i].spec_exchange_product() == k,
    ensures
        seq_has_book(books, k),
        seq_book(books, k) == books[i],
{
    let j = choose|j: int|
        0 <= j < books.len() && (#[trigger] books[j]).spec_exchange_product() == k;
    if j != i {
        if j < i {
            assert(books[j].spec_exchange_product() != books[i].spec_exchange_product());
        } else {
            assert(books[i].spec_exchange_product() != books[j].spec_exchange_product());
        }
    }
}

/// Pushing a well-formed book at a fresh key keeps the collection well
/// formed, installs the book at its key, and moves no other book.
proof fn lemma_push_book(books: Seq<OrderBook>, fresh: OrderBook)
    requires
        books_wf(books),
        fresh.wf(),
        !seq_has_book(books, fresh.spec_exchange_product()),
    ensures
        books_wf(books.push(fresh)),
        seq_has_book(books.push(fresh), fresh.spec_exchange_product()),
        seq_book(books.push(fresh), fresh.spec_exchange_product()) == fresh,
        forall|k2: ExchangeProduct|
            k2 != fresh.spec_exchange_product() ==> (seq_has_book(books.push(fresh), k2)
                == seq_has_book(books, k2) && (seq_has_book(books, k2) ==> seq_book(
                books.push(fresh),
                k2,
            ) == seq_book(books, k2))),
{
    let t = books.push(fresh);
    assert forall|i: int| 0 <= i < t.len() implies (#[trigger] t[i]).wf() by {
        if i < books.len() {
            assert(t[i] == books[i]);
        }
    }
    assert forall|i: int, j: int|
        0 <= i < j < t.len() implies t[i].spec_exchange_product()
        != t[j].spec_exchange_product() by {
        if j < books.len() {
            assert(t[i] == books[i] && t[j] == books[j]);
        } else {
            assert(t[i] == books[i] && t[j] == fresh);
            assert(books[i].spec_exchange_product() != fresh.spec_exchange_product());
        }
    }
    lemma_seq_book_at(t, t.len() - 1, fresh.spec_exchange_product());
    assert forall|k2: ExchangeProduct|
        k2 != fresh.spec_exchange_product() implies (seq_has_book(t, k2) == seq_has_book(books, k2)
        && (seq_has_book(books, k2) ==> seq_book(t, k2) == seq_book(books, k2))) by {
        if seq_has_book(t, k2) {
            let i = choose|i: int|
                0 <= i < t.len() && (#[trigger] t[i]).spec_exchange_product() == k2;
            assert(i < books.len());
            assert(books[i].spec_exchange_product() == k2);
        }
        if seq_has_book(books, k2) {
            let i = choose|i: int|
                0 <= i < books.len() && (#[trigger] books[i]).spec_exchange_product() == k2;
            assert(t[i].spec_exchange_product() == k2);
            lemma_seq_book_at(t, i, k2);
            lemma_seq_book_at(books, i, k2);
        }
    }
}

/// Taking the book at `idx` out, rewriting it under the same key, and
/// pushing it back keeps the collection well formed, installs the rewritten
/// book at the key, and moves no other book.
proof fn lemma_books_remove_push(books: Seq<OrderBook>, idx: int, updated: OrderBook, key: ExchangeProduct)
    requires
        books_wf(books),
        0 <= idx < books.len(),
        books[idx].spec_exchange_product() == key,
        updated.wf(),
        updated.spec_exchange_product() == key,
    ensures
        ({
            let t = books.remove(idx).push(updated);
            &&& books_wf(t)
            &&& seq_has_book(t, key)
            &&& seq_book(t, key) == updated
            &&& forall|k2: ExchangeProduct|
                k2 != key ==> (seq_has_book(t, k2) == seq_has_book(books, k2) && (seq_has_book(
                    books,
                    k2,
                ) ==> seq_book(t, k2) == seq_book(books, k2)))
        }),
{
    let rm = books.remove(idx);
    let t = rm.push(updated);
    assert forall|i: int| 0 <= i < rm.len() implies (#[trigger] rm[i]).wf() by {
        if i < idx {
            assert(rm[i] == books[i]);
        } else {
            assert(rm[i] == books[i + 1]);
        }
    }
    assert forall|i: int, j: int|
        0 <= i < j < rm.len() implies rm[i].spec_exchange_product()
        != rm[j].spec_exchange_product() by {
        if j < idx {
            assert(rm[i] == books[i] && rm[j] == books[j]);
        } else if i < idx {
            assert(rm[i] == books[i] && rm[j] == books[j + 1]);
        } else {
            assert(rm[i] == books[i + 1] && rm[j] == books[j + 1]);
        }
    }
    assert forall|i: int| 0 <= i < rm.len() implies (#[trigger] rm[i]).spec_exchange_product()
        != key by {
        if i < idx {
            assert(rm[i] == books[i]);
            assert(books[i].spec_exchange_product() != books[idx].spec_exchange_product());
        } else {
            assert(rm[i] == books[i + 1]);
            assert(books[idx].spec_exchange_product() != books[i + 1].spec_exchange_product());
        }
    }
    assert(!seq_has_book(rm, key));
    lemma_push_book(rm, updated);
    assert forall|k2: ExchangeProduct|
        k2 != key implies (seq_has_book(rm, k2) == seq_has_book(books, k2) && (seq_has_book(
        books,
        k2,
    ) ==> seq_book(rm, k2) == seq_book(books, k2))) by {
        if seq_has_book(rm, k2) {
            let i = choose|i: int|
                0 <= i < rm.len() && (#[trigger] rm[i]).spec_exchange_product() == k2;
            if i < idx {
                assert(books[i].spec_exchange_product() == k2);
            } else {
                assert(books[i + 1].spec_exchange_product() == k2);
            }
        }
        if seq_has_book(books, k2) {
            let i = choose|i: int|
                0 <= i < books.len() && (#[trigger] books[i]).spec_exchange_product() == k2;
            assert(i != idx);
            if i < idx {
                assert(rm[i] == books[i]);
                lemma_seq_book_at(rm, i, k2);
                lemma_seq_book_at(books, i, k2);
            } else {
                assert(rm[i - 1] == books[i]);
                lemma_seq_book_at(rm, i - 1, k2);
                lemma_seq_book_at(books, i, k2);
            }
        }
    }
}

/// Authoritative per-(venue, product) book state, one book per key.
pub struct OrderBookManager {
    books: Vec<OrderBook>,
}

impl OrderBookManager {
    pub closed spec fn wf(&self) -> bool {
        books_wf(self.books@)
    }

    pub closed spec fn has_book(&self, k: ExchangeProduct) -> bool {
        seq_has_book(self.books@, k)
    }

    pub closed spec fn spec_book(&self, k: ExchangeProduct) -> OrderBook {
        seq_book(self.books@, k)
    }

    pub fn new() -> (r: OrderBookManager)
        ensures
            r.wf(),
            forall|k: ExchangeProduct| !r.has_book(k),
    {
        OrderBookManager { books: Vec::new() }
    }

    /// The index of the book standing at a key, if any.
    fn find_index(&self, k: &ExchangeProduct) -> (r: Option<usize>)
        requires
            self.wf(),
        ensures
            match r {
                Some(i) => i < self.books@.len() && self.books@[i as int].spec_exchange_product()
                    == *k && self.has_book(*k) && self.spec_book(*k) == self.books@[i as int],
                None => !self.has_book(*k),
            },
    {
        let n = self.books.len();
        let mut i: usize = 0;
        while i < n
            invariant
                i <= n,
                n == self.books@.len(),
                self.wf(),
                forall|j: int|
                    0 <= j < i ==> (#[trigger] self.books@[j]).spec_exchange_product() != *k,
            decreases n - i,
        {
            let found = {
                let ep = self.books[i].exchange_product();
                ep.product == k.product && ep.exchange == k.exchange
            };
            if found {
                proof {
                    lemma_seq_book_at(self.books@, i as int, *k);
                }
                return Some(i);
            }
            i = i + 1;
        }
        None
    }

    /// The cross-venue arbitrage decision for one product: exactly
    /// [`spec_check_arbitrage`] over the two stored books, and `None` when
    /// either venue holds no book for the product.
    pub fn check_arbitrage_opportunities(&self, product: &Product) -> (r: Option<
        ArbitrageOpportunity,
    >)
        requires
            self.wf(),
        ensures
            ({
                let ok = ExchangeProduct { exchange: Exchange::Okex, product: *product };
                let dk = ExchangeProduct { exchange: Exchange::Deribit, product: *product };
                if self.has_book(ok) && self.has_book(dk) {
                    r == spec_check_arbitrage(self.spec_book(ok), self.spec_book(dk), *product)
                } else {
                    r is None
                }
            }),
            r matches Some(o) ==> o.sell_price.units > o.buy_price.units && o.product == *product,
    {
        let okex_key = ExchangeProduct { exchange: Exchange::Okex, product: *product };
        let deribit_key = ExchangeProduct { exchange: Exchange::Deribit, product: *product };
        let oi = match self.find_index(&okex_key) {
            Some(i) => i,
            None => {
                return None;
            },
        };
        let di = match self.find_index(&deribit_key) {
            Some(i) => i,
            None => {
                return None;
            },
        };
        let ob = &self.books[oi];
        let db = &self.books[di];
        let okex_best_ask = ob.best_ask();
        let deribit_best_bid = db.best_bid();
        proof {
            match okex_best_ask {
                Some(e) => lemma_best_ask_unique(ob.asks_map(), e),
                None => {},
            }
            match deribit_best_bid {
                Some(e) => lemma_best_bid_unique(db.bids_map(), e),
                None => {},
            }
        }
        if let (Some(oa), Some(dbb)) = (okex_best_ask, deribit_best_bid) {
            if dbb.0.units > oa.0.units {
                return Some(
                    ArbitrageOpportunity {
                        product: *product,
                        buy_exchange: Exchange::Okex,
                        sell_exchange: Exchange::Deribit,
                        buy_price: oa.0,
                        sell_price: dbb.0,
                        size: oa.1.min(&dbb.1),
                    },
                );
            }
        }
        let okex_best_bid = ob.best_bid();
        let deribit_best_ask = db.best_ask();
        proof {
            match okex_best_bid {
                Some(e) => lemma_best_bid_unique(ob.bids_map(), e),
                None => {},
            }
            match deribit_best_ask {
                Some(e) => lemma_best_ask_unique(db.asks_map(), e),
                None => {},
            }
        }
        if let (Some(obb), Some(da)) = (okex_best_bid, deribit_best_ask) {
            if obb.0.units > da.0.units {
                return Some(
                    ArbitrageOpportunity {
                        product: *product,
                        buy_exchange: Exchange::Deribit,
                        sell_exchange: Exchange::Okex,
                        buy_price: da.0,
                        sell_price: obb.0,
                        size: obb.1.min(&da.1),
                    },
                );
            }
        }
        None
    }

    /// Apply one update to its book (created empty when absent), then
    /// re-evaluate arbitrage for the product across the two venues.
    pub fn apply_update(&mut self, update: OrderBookUpdate) -> (r: Option<ArbitrageOpportunity>)
        requires
            old(self).wf(),
        ensures
            final(self).wf(),
            ({
                let k = update.exchange_product;
                let base_bids = if old(self).has_book(k) {
                    old(self).spec_book(k).bids_map()
                } else {
                    Map::<Decimal, Decimal>::empty()
                };
                let base_asks = if old(self).has_book(k) {
                    old(self).spec_book(k).asks_map()
                } else {
                    Map::<Decimal, Decimal>::empty()
                };
                &&& final(self).has_book(k)
                &&& final(self).spec_book(k).wf()
                &&& final(self).spec_book(k).bids_map() == apply_entries(base_bids, update.bids@)
                &&& final(self).spec_book(k).asks_map() == apply_entries(base_asks, update.asks@)
            }),
            forall|k2: ExchangeProduct|
                k2 != update.exchange_product ==> (final(self).has_book(k2) == old(self).has_book(
                    k2,
                ) && (old(self).has_book(k2) ==> final(self).spec_book(k2) == old(self).spec_book(
                    k2,
                ))),
            ({
                let ok = ExchangeProduct {
                    exchange: Exchange::Okex,
                    product: update.exchange_product.product,
                };
                let dk = ExchangeProduct {
                    exchange: Exchange::Deribit,
                    product: update.exchange_product.product,
                };
                if final(self).has_book(ok) && final(self).has_book(dk) {
                    r == spec_check_arbitrage(
                        final(self).spec_book(ok),
                        final(self).spec_book(dk),
                        update.exchange_product.product,
                    )
                } else {
                    r is None
                }
            }),
            r matches Some(o) ==> o.sell_price.units > o.buy_price.units && o.product
                == update.exchange_product.product,
    {
        let key = update.exchange_product;
        let product = update.exchange_product.product;
        let idx: usize;
        match self.find_index(&key) {
            Some(i) => {
                idx = i;
            },
            None => {
                let fresh = OrderBook::new(&key);
                let ghost gfresh = fresh;
                proof {
                    assert forall|j: int| 0 <= j < self.books@.len() implies (
                    #[trigger] self.books@[j]).spec_exchange_product() != key by {
                        if self.books@[j].spec_exchange_product() == key {
                            assert(seq_has_book(self.books@, key));
                        }
                    }
                    assert(!seq_has_book(self.books@, gfresh.spec_exchange_product()));
                    lemma_push_book(self.books@, gfresh);
                }
                idx = self.books.len();
                self.books.push(fresh);
            },
        }
        let ghost pre = self.books@;
        proof {
            assert(books_wf(pre));
            assert(0 <= idx < pre.len());
            assert(pre[idx as int].spec_exchange_product() == key);
        }
        let mut book = self.books.remove(idx);
        book.update(update);
        let ghost gbook = book;
        self.books.push(book);
        proof {
            lemma_books_remove_push(pre, idx as int, gbook, key);
            assert(self.books@ == pre.remove(idx as int).push(gbook));
            lemma_seq_book_at(pre, idx as int, key);
            if old(self).has_book(key) {
                assert(pre == old(self).books@);
                assert(seq_book(old(self).books@, key) == pre[idx as int]);
            }
        }
        let r = self.check_arbitrage_opportunities(&product);
        r
    }
}

/// All sizes on both sides are positive.
pub open spec fn book_positive_sizes(b: OrderBook) -> bool {
    &&& forall|p: Decimal| b.bids_map().contains_key(p) ==> b.bids_map()[p].units > 0
    &&& forall|p: Decimal| b.asks_map().contains_key(p) ==> b.asks_map()[p].units > 0
}

/// Every opportunity the arbitrage decision emits sells above the buying
/// price; when every stored size on both books is positive, it also carries
/// a positive size.
pub proof fn lemma_arbitrage_opportunity_sound(ob: OrderBook, db: OrderBook, product: Product)
    requires
        book_positive_sizes(ob),
        book_positive_sizes(db),
    ensures
        spec_check_arbitrage(ob, db, product) matches Some(o) ==> o.sell_price.units
            > o.buy_price.units && o.size.units > 0 && o.product == product,
{
}

/// Applying entries with non-negative sizes to a side whose sizes are
/// positive leaves every stored size positive.
pub proof fn lemma_apply_entries_positive(m: Map<Decimal, Decimal>, es: Seq<(Decimal, Decimal)>)
    requires
        forall|p: Decimal| m.contains_key(p) ==> m[p].units > 0,
        forall|i: int| 0 <= i < es.len() ==> (#[trigger] es[i]).1.units >= 0,
    ensures
        forall|p: Decimal|
            apply_entries(m, es).contains_key(p) ==> apply_entries(m, es)[p].units > 0,
    decreases es.len(),
{
    if es.len() > 0 {
        assert(forall|i: int|
            0 <= i < es.drop_last().len() ==> (#[trigger] es.drop_last()[i]).1.units >= 0) by {
            assert(forall|i: int| 0 <= i < es.len() - 1 ==> es.drop_last()[i] == es[i]);
        }
        lemma_apply_entries_positive(m, es.drop_last());
        assert(es[es.len() - 1].1.units >= 0);
        let prev = apply_entries(m, es.drop_last());
        let e = es.last();
        assert forall|p: Decimal| apply_entries(m, es).contains_key(p) implies apply_entries(
            m,
            es,
        )[p].units > 0 by {
            if e.1.units == 0 {
                assert(prev.contains_key(p) && apply_entries(m, es)[p] == prev[p]);
            } else {
                if p != e.0 {
                    assert(prev.contains_key(p) && apply_entries(m, es)[p] == prev[p]);
                }
            }
        }
    }
}

} // verus!
