use vstd::prelude::*;
use crate::decimal::Decimal;
use crate::message::OrderBookUpdate;
use crate::product::ExchangeProduct;

verus! {

// ---------------------------------------------------------------------------
// One side of a book, as a price-sorted association list
// ---------------------------------------------------------------------------

/// Strictly ascending prices: each price occurs at most once.
pub open spec fn side_sorted(s: Seq<(Decimal, Decimal)>) -> bool {
    forall|i: int, j: int| 0 <= i < j < s.len() ==> s[i].0.units < s[j].0.units
}

/// No stored level has size zero.
pub open spec fn side_no_zero(s: Seq<(Decimal, Decimal)>) -> bool {
    forall|i: int| 0 <= i < s.len() ==> (#[trigger] s[i]).1.units != 0
}

pub open spec fn side_wf(s: Seq<(Decimal, Decimal)>) -> bool {
    side_sorted(s) && side_no_zero(s)
}

/// The price-to-size map denoted by an association list, later entries
/// overriding earlier ones.
pub open spec fn side_map(s: Seq<(Decimal, Decimal)>) -> Map<Decimal, Decimal>
    decreases s.len(),
{
    if s.len() == 0 {
        Map::empty()
    } else {
        side_map(s.drop_last()).insert(s.last().0, s.last().1)
    }
}

/// On a sorted list the map reads off the entries exactly.
pub proof fn lemma_side_map_char(s: Seq<(Decimal, Decimal)>)
    requires
        side_sorted(s),
    ensures
        forall|p: Decimal|
            side_map(s).contains_key(p) <==> (exists|i: int| 0 <= i < s.len() && (#[trigger] s[i]).0
                == p),
        forall|i: int| 0 <= i < s.len() ==> side_map(s)[(#[trigger] s[i]).0] == s[i].1,
    decreases s.len(),
{
    if s.len() > 0 {
        let dl = s.drop_last();
        assert(side_sorted(dl));
        lemma_side_map_char(dl);
        assert forall|i: int| 0 <= i < s.len() implies side_map(s)[(#[trigger] s[i]).0]
            == s[i].1 by {
            if i < s.len() - 1 {
                assert(s[i].0.units < s.last().0.units);
                assert(dl[i] == s[i]);
            }
        }
        assert forall|p: Decimal| side_map(s).contains_key(p) implies (exists|i: int|
            0 <= i < s.len() && (#[trigger] s[i]).0 == p) by {
            if p == s.last().0 {
                assert(s[s.len() - 1].0 == p);
            } else {
                assert(side_map(dl).contains_key(p));
                let i = choose|i: int| 0 <= i < dl.len() && (#[trigger] dl[i]).0 == p;
                assert(dl[i] == s[i]);
                assert(s[i].0 == p);
            }
        }
        assert forall|p: Decimal| (exists|i: int| 0 <= i < s.len() && (#[trigger] s[i]).0 == p)
            implies side_map(s).contains_key(p) by {
            let i = choose|i: int| 0 <= i < s.len() && (#[trigger] s[i]).0 == p;
            if i < s.len() - 1 {
                assert(dl[i] == s[i]);
                assert(dl[i].0 == p);
                assert(side_map(dl).contains_key(p));
            }
        }
    }
}

/// Inserting two bindings commutes when the keys differ, and the second of
/// two bindings at one key wins.
proof fn lemma_insert_facts(m: Map<Decimal, Decimal>, a: Decimal, x: Decimal, b: Decimal, y: Decimal)
    ensures
        a != b ==> m.insert(a, x).insert(b, y) == m.insert(b, y).insert(a, x),
        m.insert(a, x).insert(a, y) == m.insert(a, y),
        a != b ==> m.insert(a, x).remove(b) == m.remove(b).insert(a, x),
{
    if a != b {
        assert(m.insert(a, x).insert(b, y) =~= m.insert(b, y).insert(a, x));
        assert(m.insert(a, x).remove(b) =~= m.remove(b).insert(a, x));
    }
    assert(m.insert(a, x).insert(a, y) =~= m.insert(a, y));
}

/// Removing a price that no entry holds leaves the denoted map unchanged.
proof fn lemma_side_map_remove_absent(s: Seq<(Decimal, Decimal)>, price: Decimal)
    requires
        forall|j: int| 0 <= j < s.len() ==> (#[trigger] s[j]).0 != price,
    ensures
        side_map(s).remove(price) == side_map(s),
    decreases s.len(),
{
    if s.len() == 0 {
        assert(side_map(s).remove(price) =~= side_map(s));
    } else {
        let dl = s.drop_last();
        assert(forall|j: int| 0 <= j < dl.len() ==> (#[trigger] dl[j]).0 != price) by {
            assert(forall|j: int| 0 <= j < dl.len() ==> dl[j] == s[j]);
        }
        lemma_side_map_remove_absent(dl, price);
        lemma_insert_facts(side_map(dl), s.last().0, s.last().1, price, Decimal { units: 0 });
    }
}

/// Inserting a new price at its sorted position denotes a map insert.
proof fn lemma_side_insert(s: Seq<(Decimal, Decimal)>, i: int, price: Decimal, size: Decimal)
    requires
        side_sorted(s),
        0 <= i <= s.len(),
        forall|j: int| 0 <= j < i ==> (#[trigger] s[j]).0.units < price.units,
        forall|j: int| i <= j < s.len() ==> (#[trigger] s[j]).0.units > price.units,
    ensures
        side_sorted(s.insert(i, (price, size))),
        side_map(s.insert(i, (price, size))) == side_map(s).insert(price, size),
    decreases s.len(),
{
    let t = s.insert(i, (price, size));
    assert forall|a: int, b: int| 0 <= a < b < t.len() implies t[a].0.units < t[b].0.units by {
        if a < i && b == i {
        } else if a == i && b > i {
        } else if a < i && b > i {
            assert(t[a] == s[a] && t[b] == s[b - 1]);
        }
    }
    if i == s.len() {
        assert(t.drop_last() =~= s);
        assert(t.last() == (price, size));
    } else {
        let dl = s.drop_last();
        assert(t.drop_last() =~= dl.insert(i, (price, size)));
        assert(t.last() == s.last());
        assert(side_sorted(dl));
        assert(forall|j: int| 0 <= j < i ==> (#[trigger] dl[j]).0.units < price.units) by {
            assert(forall|j: int| 0 <= j < dl.len() ==> dl[j] == s[j]);
        }
        assert(forall|j: int| i <= j < dl.len() ==> (#[trigger] dl[j]).0.units > price.units) by {
            assert(forall|j: int| 0 <= j < dl.len() ==> dl[j] == s[j]);
        }
        lemma_side_insert(dl, i, price, size);
        assert(s.last().0.units > price.units);
        lemma_insert_facts(side_map(dl), price, size, s.last().0, s.last().1);
        assert(side_map(t) == side_map(dl.insert(i, (price, size))).insert(s.last().0, s.last().1));
    }
}

/// Overwriting the entry that holds a price denotes a map insert.
proof fn lemma_side_update(s: Seq<(Decimal, Decimal)>, i: int, price: Decimal, size: Decimal)
    requires
        side_sorted(s),
        0 <= i < s.len(),
        s[i].0 == price,
    ensures
        side_sorted(s.update(i, (price, size))),
        side_map(s.update(i, (price, size))) == side_map(s).insert(price, size),
    decreases s.len(),
{
    let t = s.update(i, (price, size));
    assert forall|a: int, b: int| 0 <= a < b < t.len() implies t[a].0.units < t[b].0.units by {
        assert(t[a].0 == s[a].0 && t[b].0 == s[b].0);
    }
    if i == s.len() - 1 {
        assert(t.drop_last() =~= s.drop_last());
        assert(t.last() == (price, size));
        lemma_insert_facts(side_map(s.drop_last()), price, s.last().1, price, size);
    } else {
        let dl = s.drop_last();
        assert(t.drop_last() =~= dl.update(i, (price, size)));
        assert(t.last() == s.last());
        assert(side_sorted(dl));
        assert(dl[i].0 == price);
        lemma_side_update(dl, i, price, size);
        assert(s.last().0.units > price.units);
        lemma_insert_facts(side_map(dl), price, size, s.last().0, s.last().1);
    }
}

/// Removing the entry that holds a price denotes a map remove.
proof fn lemma_side_remove(s: Seq<(Decimal, Decimal)>, i: int, price: Decimal)
    requires
        side_sorted(s),
        0 <= i < s.len(),
        s[i].0 == price,
    ensures
        side_sorted(s.remove(i)),
        side_map(s.remove(i)) == side_map(s).remove(price),
    decreases s.len(),
{
    let t = s.remove(i);
    assert forall|a: int, b: int| 0 <= a < b < t.len() implies t[a].0.units < t[b].0.units by {
        if b < i {
        } else if a < i && b >= i {
            assert(t[a] == s[a] && t[b] == s[b + 1]);
        } else {
            assert(t[a] == s[a + 1] && t[b] == s[b + 1]);
        }
    }
    if i == s.len() - 1 {
        assert(t =~= s.drop_last());
        assert(forall|j: int| 0 <= j < t.len() ==> (#[trigger] t[j]).0.units < price.units);
        assert(forall|j: int| 0 <= j < t.len() ==> (#[trigger] t[j]).0 != price);
        lemma_side_map_remove_absent(t, price);
        assert(side_map(s).remove(price) =~= side_map(t).insert(price, s.last().1).remove(price));
        assert(side_map(t).insert(price, s.last().1).remove(price) =~= side_map(t).remove(price));
    } else {
        let dl = s.drop_last();
        assert(t.drop_last() =~= dl.remove(i));
        assert(t.last() == s.last());
        assert(side_sorted(dl));
        assert(dl[i].0 == price);
        lemma_side_remove(dl, i, price);
        assert(s.last().0.units > price.units);
        lemma_insert_facts(side_map(dl), s.last().0, s.last().1, price, Decimal { units: 0 });
    }
}

// ---------------------------------------------------------------------------
// Applying update entries to a side
// ---------------------------------------------------------------------------

/// One update entry: a zero size deletes the price, any other size upserts it.
pub open spec fn apply_one(m: Map<Decimal, Decimal>, e: (Decimal, Decimal)) -> Map<
    Decimal,
    Decimal,
> {
    if e.1.units == 0 {
        m.remove(e.0)
    } else {
        m.insert(e.0, e.1)
    }
}

/// Update entries applied in list order: the last write at a price wins.
pub open spec fn apply_entries(m: Map<Decimal, Decimal>, es: Seq<(Decimal, Decimal)>) -> Map<
    Decimal,
    Decimal,
>
    decreases es.len(),
{
    if es.len() == 0 {
        m
    } else {
        apply_one(apply_entries(m, es.drop_last()), es.last())
    }
}

/// The last entry of the list at a price, if any.
pub open spec fn last_write(es: Seq<(Decimal, Decimal)>, p: Decimal) -> Option<Decimal>
    decreases es.len(),
{
    if es.len() == 0 {
        None
    } else if es.last().0 == p {
        Some(es.last().1)
    } else {
        last_write(es.drop_last(), p)
    }
}

/// What applying a list of entries leaves at each price: the last write if
/// there is one, else what the map already held.
pub proof fn lemma_apply_entries_char(m: Map<Decimal, Decimal>, es: Seq<(Decimal, Decimal)>, p: Decimal)
    ensures
        match last_write(es, p) {
            Some(sz) => if sz.units == 0 {
                !apply_entries(m, es).contains_key(p)
            } else {
                apply_entries(m, es).contains_key(p) && apply_entries(m, es)[p] == sz
            },
            None => apply_entries(m, es).contains_key(p) == m.contains_key(p) && (m.contains_key(p)
                ==> apply_entries(m, es)[p] == m[p]),
        },
    decreases es.len(),
{
    if es.len() > 0 {
        lemma_apply_entries_char(m, es.drop_last(), p);
    }
}

/// Applying the same batch twice leaves the same map as applying it once.
pub proof fn lemma_apply_entries_idempotent(m: Map<Decimal, Decimal>, es: Seq<(Decimal, Decimal)>)
    ensures
        apply_entries(apply_entries(m, es), es) == apply_entries(m, es),
{
    let m1 = apply_entries(m, es);
    let m2 = apply_entries(m1, es);
    assert forall|p: Decimal| #[trigger]
        m2.contains_key(p) == m1.contains_key(p) && (m1.contains_key(p) ==> m2[p] == m1[p]) by {
        lemma_apply_entries_char(m, es, p);
        lemma_apply_entries_char(m1, es, p);
    }
    assert(m2 =~= m1);
}

/// A zero-size entry removes its price, and removing it again changes
/// nothing.
pub proof fn lemma_remove_twice(m: Map<Decimal, Decimal>, price: Decimal)
    ensures
        !m.remove(price).contains_key(price),
        m.remove(price).remove(price) == m.remove(price),
{
    assert(m.remove(price).remove(price) =~= m.remove(price));
}

// ---------------------------------------------------------------------------
// The order book
// ---------------------------------------------------------------------------

/// Resting orders for one product on one venue: a price-to-size map for each
/// side. No stored size is ever zero; zero-size inputs are deletions.
#[derive(Clone, Debug)]
pub struct OrderBook {
    exchange_product: ExchangeProduct,
    bids: Vec<(Decimal, Decimal)>,
    asks: Vec<(Decimal, Decimal)>,
}

impl OrderBook {
    pub closed spec fn spec_exchange_product(&self) -> ExchangeProduct {
        self.exchange_product
    }

    /// The (venue, product) pair whose book this is.
    pub fn exchange_product(&self) -> (r: &ExchangeProduct)
        ensures
            *r == self.spec_exchange_product(),
    {
        &self.exchange_product
    }

    pub closed spec fn bids_map(&self) -> Map<Decimal, Decimal> {
        side_map(self.bids@)
    }

    pub closed spec fn asks_map(&self) -> Map<Decimal, Decimal> {
        side_map(self.asks@)
    }

    pub closed spec fn wf(&self) -> bool {
        side_wf(self.bids@) && side_wf(self.asks@)
    }

    pub fn new(exchange_product: &ExchangeProduct) -> (r: OrderBook)
        ensures
            r.wf(),
            r.bids_map() == Map::<Decimal, Decimal>::empty(),
            r.asks_map() == Map::<Decimal, Decimal>::empty(),
            r.spec_exchange_product() == *exchange_product,
    {
        OrderBook { exchange_product: *exchange_product, bids: Vec::new(), asks: Vec::new() }
    }

    /// The highest bid with its size, or `None` on an empty side.
    pub fn best_bid(&self) -> (r: Option<(Decimal, Decimal)>)
        requires
            self.wf(),
        ensures
            match r {
                Some(e) => self.bids_map().contains_key(e.0) && self.bids_map()[e.0] == e.1
                    && forall|q: Decimal|
                    self.bids_map().contains_key(q) ==> q.units <= e.0.units,
                None => self.bids_map() == Map::<Decimal, Decimal>::empty(),
            },
    {
        proof {
            lemma_side_map_char(self.bids@);
        }
        if self.bids.len() == 0 {
            proof {
                assert(self.bids_map() =~= Map::<Decimal, Decimal>::empty());
            }
            None
        } else {
            let e = self.bids[self.bids.len() - 1];
            proof {
                assert forall|q: Decimal| self.bids_map().contains_key(q) implies q.units
                    <= e.0.units by {
                    let i = choose|i: int|
                        0 <= i < self.bids@.len() && (#[trigger] self.bids@[i]).0 == q;
                }
            }
            Some(e)
        }
    }

    /// The lowest ask with its size, or `None` on an empty side.
    pub fn best_ask(&self) -> (r: Option<(Decimal, Decimal)>)
        requires
            self.wf(),
        ensures
            match r {
                Some(e) => self.asks_map().contains_key(e.0) && self.asks_map()[e.0] == e.1
                    && forall|q: Decimal|
                    self.asks_map().contains_key(q) ==> q.units >= e.0.units,
                None => self.asks_map() == Map::<Decimal, Decimal>::empty(),
            },
    {
        proof {
            lemma_side_map_char(self.asks@);
        }
        if self.asks.len() == 0 {
            proof {
                assert(self.asks_map() =~= Map::<Decimal, Decimal>::empty());
            }
            None
        } else {
            let e = self.asks[0];
            proof {
                assert forall|q: Decimal| self.asks_map().contains_key(q) implies q.units
                    >= e.0.units by {
                    let i = choose|i: int|
                        0 <= i < self.asks@.len() && (#[trigger] self.asks@[i]).0 == q;
                    if i > 0 {
                        assert(self.asks@[0].0.units < self.asks@[i].0.units);
                    }
                }
            }
            Some(e)
        }
    }

    /// Upsert one bid level; a zero size deletes the price.
    pub fn add_bid(&mut self, price: Decimal, size: Decimal)
        requires
            old(self).wf(),
        ensures
            final(self).wf(),
            final(self).bids_map() == apply_one(old(self).bids_map(), (price, size)),
            final(self).asks_map() == old(self).asks_map(),
            final(self).spec_exchange_product() == old(self).spec_exchange_product(),
    {
        side_apply(&mut self.bids, price, size);
    }

    /// Upsert one ask level; a zero size deletes the price.
    pub fn add_ask(&mut self, price: Decimal, size: Decimal)
        requires
            old(self).wf(),
        ensures
            final(self).wf(),
            final(self).asks_map() == apply_one(old(self).asks_map(), (price, size)),
            final(self).bids_map() == old(self).bids_map(),
            final(self).spec_exchange_product() == old(self).spec_exchange_product(),
    {
        side_apply(&mut self.asks, price, size);
    }

    /// Apply a whole update: every bid entry in order, then every ask entry.
    pub fn update(&mut self, order_book_update: OrderBookUpdate)
        requires
            old(self).wf(),
        ensures
            final(self).wf(),
            final(self).bids_map() == apply_entries(
                old(self).bids_map(),
                order_book_update.bids@,
            ),
            final(self).asks_map() == apply_entries(
                old(self).asks_map(),
                order_book_update.asks@,
            ),
            final(self).spec_exchange_product() == old(self).spec_exchange_product(),
    {
        let nb = order_book_update.bids.len();
        let mut i: usize = 0;
        while i < nb
            invariant
                i <= nb,
                nb == order_book_update.bids@.len(),
                self.wf(),
                self.bids_map() == apply_entries(
                    old(self).bids_map(),
                    order_book_update.bids@.take(i as int),
                ),
                self.asks_map() == old(self).asks_map(),
                self.spec_exchange_product() == old(self).spec_exchange_product(),
            decreases nb - i,
        {
            let e = order_book_update.bids[i];
            proof {
                let pre = order_book_update.bids@.take(i as int);
                assert(order_book_update.bids@.take(i as int + 1).drop_last() =~= pre);
                assert(order_book_update.bids@.take(i as int + 1).last() == e);
            }
            self.add_bid(e.0, e.1);
            i = i + 1;
        }
        proof {
            assert(order_book_update.bids@.take(nb as int) =~= order_book_update.bids@);
        }
        let na = order_book_update.asks.len();
        let mut j: usize = 0;
        while j < na
            invariant
                j <= na,
                na == order_book_update.asks@.len(),
                self.wf(),
                self.bids_map() == apply_entries(old(self).bids_map(), order_book_update.bids@),
                self.asks_map() == apply_entries(
                    old(self).asks_map(),
                    order_book_update.asks@.take(j as int),
                ),
                self.spec_exchange_product() == old(self).spec_exchange_product(),
            decreases na - j,
        {
            let e = order_book_update.asks[j];
            proof {
                let pre = order_book_update.asks@.take(j as int);
                assert(order_book_update.asks@.take(j as int + 1).drop_last() =~= pre);
                assert(order_book_update.asks@.take(j as int + 1).last() == e);
            }
            self.add_ask(e.0, e.1);
            j = j + 1;
        }
        proof {
            assert(order_book_update.asks@.take(na as int) =~= order_book_update.asks@);
        }
    }
}

/// No stored level of a well-formed book has size zero, on either side.
pub proof fn lemma_book_no_zero_sizes(b: &OrderBook)
    requires
        b.wf(),
    ensures
        forall|p: Decimal| b.bids_map().contains_key(p) ==> b.bids_map()[p].units != 0,
        forall|p: Decimal| b.asks_map().contains_key(p) ==> b.asks_map()[p].units != 0,
{
    lemma_side_map_char(b.view_bids());
    lemma_side_map_char(b.view_asks());
    assert forall|p: Decimal| b.bids_map().contains_key(p) implies b.bids_map()[p].units != 0 by {
        let i = choose|i: int| 0 <= i < b.view_bids().len() && (#[trigger] b.view_bids()[i]).0 == p;
    }
    assert forall|p: Decimal| b.asks_map().contains_key(p) implies b.asks_map()[p].units != 0 by {
        let i = choose|i: int| 0 <= i < b.view_asks().len() && (#[trigger] b.view_asks()[i]).0 == p;
    }
}

impl OrderBook {
    pub closed spec fn view_bids(&self) -> Seq<(Decimal, Decimal)> {
        self.bids@
    }

    pub closed spec fn view_asks(&self) -> Seq<(Decimal, Decimal)> {
        self.asks@
    }
}

/// Find the first position whose price is not below the given one.
fn side_find(side: &Vec<(Decimal, Decimal)>, price: Decimal) -> (i: usize)
    requires
        side_sorted(side@),
    ensures
        i <= side@.len(),
        forall|j: int| 0 <= j < i ==> (#[trigger] side@[j]).0.units < price.units,
        i < side@.len() ==> side@[i as int].0.units >= price.units,
{
    let n = side.len();
    let mut i: usize = 0;
    loop
        invariant
            i <= n,
            n == side@.len(),
            side_sorted(side@),
            forall|j: int| 0 <= j < i ==> (#[trigger] side@[j]).0.units < price.units,
        ensures
            i <= side@.len(),
            forall|j: int| 0 <= j < i ==> (#[trigger] side@[j]).0.units < price.units,
            i < side@.len() ==> side@[i as int].0.units >= price.units,
        decreases n - i,
    {
        if i >= n {
            break;
        }
        if side[i].0.units >= price.units {
            break;
        }
        i = i + 1;
    }
    i
}

/// Apply one entry to one side: delete on zero size, upsert otherwise.
fn side_apply(side: &mut Vec<(Decimal, Decimal)>, price: Decimal, size: Decimal)
    requires
        side_wf(old(side)@),
    ensures
        side_wf(final(side)@),
        side_map(final(side)@) == apply_one(side_map(old(side)@), (price, size)),
{
    let i = side_find(side, price);
    let found = i < side.len() && side[i].0.units == price.units;
    if size.units == 0 {
        if found {
            proof {
                assert(side@[i as int].0 == price);
                lemma_side_remove(side@, i as int, price);
            }
            let _removed = side.remove(i);
            proof {
                assert(side_no_zero(side@)) by {
                    assert(forall|j: int|
                        0 <= j < side@.len() ==> (#[trigger] side@[j]).1.units != 0);
                }
            }
        } else {
            proof {
                assert forall|j: int| 0 <= j < side@.len() implies (#[trigger] side@[j]).0
                    != price by {
                    if j >= i {
                        if j > i {
                            assert(side@[i as int].0.units < side@[j].0.units);
                        }
                    }
                }
                lemma_side_map_remove_absent(side@, price);
            }
        }
    } else {
        if found {
            proof {
                assert(side@[i as int].0 == price);
                lemma_side_update(side@, i as int, price, size);
            }
            let _removed = side.remove(i);
            side.insert(i, (price, size));
            proof {
                assert(side@ =~= old(side)@.update(i as int, (price, size)));
                assert(side_no_zero(side@)) by {
                    assert forall|j: int| 0 <= j < side@.len() implies (#[trigger] side@[j]).1.units
                        != 0 by {
                        if j != i {
                            assert(side@[j] == old(side)@[j]);
                        }
                    }
                }
            }
        } else {
            proof {
                assert forall|j: int| i <= j < side@.len() implies (#[trigger] side@[j]).0.units
                    > price.units by {
                    if j > i {
                        assert(side@[i as int].0.units < side@[j].0.units);
                    }
                }
                lemma_side_insert(side@, i as int, price, size);
            }
            side.insert(i, (price, size));
            proof {
                assert(side_no_zero(side@)) by {
                    assert forall|j: int| 0 <= j < side@.len() implies (#[trigger] side@[j]).1.units
                        != 0 by {
                        if j < i {
                            assert(side@[j] == old(side)@[j]);
                        } else if j > i {
                            assert(side@[j] == old(side)@[j - 1]);
                        }
                    }
                }
            }
        }
    }
}

} // verus!
