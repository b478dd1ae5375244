//! The local order book: snapshot and delta reconciliation with a
//! sequence-gap guard.
use vstd::prelude::*;

use crate::decimal::{parse_units_text, text_units, MAX_UNITS};
use crate::text::text_eq;
use crate::messages::{BybitWebSocketOrderbookData, BybitWebSocketOrderbookResponse};

verus! {

/// One price level: a price and the size resting at it, both in units.
#[derive(Debug, Clone, Copy, PartialEq, Eq, Structural)]
pub struct OrderbookLevel {
    pub price: u128,
    pub size: u128,
}

/// On the bid side higher prices come first, on the ask side lower ones.
pub open spec fn ranks_before(a: u128, b: u128, is_bid: bool) -> bool {
    if is_bid {
        a > b
    } else {
        a < b
    }
}

/// Prices strictly in the side's order, hence unique.
pub open spec fn side_sorted(s: Seq<OrderbookLevel>, is_bid: bool) -> bool {
    forall|i: int, j: int|
        #![trigger s[i], s[j]]
        0 <= i < j < s.len() ==> ranks_before(s[i].price, s[j].price, is_bid)
}

/// Every level holds a nonzero size, and both quantities are in range.
pub open spec fn levels_in_range(s: Seq<OrderbookLevel>) -> bool {
    forall|i: int|
        0 <= i < s.len() ==> 0 < (#[trigger] s[i]).size <= MAX_UNITS && s[i].price <= MAX_UNITS
}

pub open spec fn side_ok(s: Seq<OrderbookLevel>, is_bid: bool) -> bool {
    side_sorted(s, is_bid) && levels_in_range(s)
}

/// Index of the level at `price`, or -1 where the side has none.
pub open spec fn level_index(s: Seq<OrderbookLevel>, price: u128) -> int
    decreases s.len(),
{
    if s.len() == 0 {
        -1
    } else if s.last().price == price {
        s.len() - 1
    } else {
        level_index(s.drop_last(), price)
    }
}

/// Where a level at `price` belongs: after every level that ranks before it.
pub open spec fn insert_position(s: Seq<OrderbookLevel>, price: u128, is_bid: bool) -> int
    decreases s.len(),
{
    if s.len() == 0 {
        0
    } else if ranks_before(s.last().price, price, is_bid) {
        s.len() as int
    } else {
        insert_position(s.drop_last(), price, is_bid)
    }
}

/// One side after one `(price, size)` entry: size 0 removes the level at that
/// price if there is one; another size replaces the size of an existing level
/// or inserts a new level in its place in the order.
pub open spec fn update_side(s: Seq<OrderbookLevel>, price: u128, size: u128, is_bid: bool) -> Seq<
    OrderbookLevel,
> {
    let k = level_index(s, price);
    if size == 0 {
        if k >= 0 {
            s.remove(k)
        } else {
            s
        }
    } else if k >= 0 {
        s.update(k, OrderbookLevel { price, size })
    } else {
        s.insert(insert_position(s, price, is_bid), OrderbookLevel { price, size })
    }
}

/// One side after one text entry. Entries whose fields are not decimals are
/// dropped; in a snapshot, so are entries of size 0.
pub open spec fn entry_update(
    s: Seq<OrderbookLevel>,
    e: [String; 2],
    is_bid: bool,
    snapshot: bool,
) -> Seq<OrderbookLevel> {
    match (text_units(e[0]@), text_units(e[1]@)) {
        (Some(p), Some(z)) => if snapshot && z == 0 {
            s
        } else {
            update_side(s, p, z, is_bid)
        },
        _ => s,
    }
}

/// One side after a list of entries, applied in order.
pub open spec fn apply_entries(
    s: Seq<OrderbookLevel>,
    es: Seq<[String; 2]>,
    is_bid: bool,
    snapshot: bool,
) -> Seq<OrderbookLevel>
    decreases es.len(),
{
    if es.len() == 0 {
        s
    } else {
        entry_update(apply_entries(s, es.drop_last(), is_bid, snapshot), es.last(), is_bid, snapshot)
    }
}

/// Both sides are present and the best bid is not below the best ask.
pub open spec fn crossed(bids: Seq<OrderbookLevel>, asks: Seq<OrderbookLevel>) -> bool {
    bids.len() > 0 && asks.len() > 0 && bids[0].price >= asks[0].price
}

/// A sequence number follows another exactly when it is one more.
pub open spec fn follows(prev: u64, next: u64) -> bool {
    next == prev + 1
}

/// The local view of one symbol's order book.
///
/// `stale` is set while the book cannot be trusted: before the first snapshot,
/// after a sequence gap, and while it is crossed. Only a snapshot clears it.
/// With `check_sequence` set, a delta is applied only to a book that is not
/// stale and only when its sequence number follows the last one.
#[derive(Debug, Clone)]
pub struct LocalOrderbook {
    pub symbol: String,
    pub bids: Vec<OrderbookLevel>,
    pub asks: Vec<OrderbookLevel>,
    pub last_update_id: u64,
    pub last_sequence: u64,
    pub last_timestamp: u64,
    pub stale: bool,
    pub check_sequence: bool,
}

proof fn lemma_level_index(s: Seq<OrderbookLevel>, price: u128)
    ensures
        -1 <= level_index(s, price) < s.len(),
        level_index(s, price) >= 0 ==> s[level_index(s, price)].price == price,
        level_index(s, price) == -1 ==> forall|i: int|
            0 <= i < s.len() ==> (#[trigger] s[i]).price != price,
    decreases s.len(),
{
    if s.len() > 0 && s.last().price != price {
        lemma_level_index(s.drop_last(), price);
        assert forall|i: int| 0 <= i < s.len() && level_index(s, price) == -1 implies (
        #[trigger] s[i]).price != price by {
            if i < s.len() - 1 {
                assert(s.drop_last()[i] == s[i]);
            }
        }
    }
}

proof fn lemma_insert_position(s: Seq<OrderbookLevel>, price: u128, is_bid: bool)
    requires
        side_sorted(s, is_bid),
    ensures
        0 <= insert_position(s, price, is_bid) <= s.len(),
        forall|i: int|
            0 <= i < insert_position(s, price, is_bid) ==> ranks_before(
                (#[trigger] s[i]).price,
                price,
                is_bid,
            ),
        forall|i: int|
            insert_position(s, price, is_bid) <= i < s.len() ==> !ranks_before(
                (#[trigger] s[i]).price,
                price,
                is_bid,
            ),
    decreases s.len(),
{
    if s.len() > 0 {
        let t = s.drop_last();
        assert forall|i: int, j: int| 0 <= i < j < t.len() implies ranks_before(
            #[trigger] t[i].price,
            #[trigger] t[j].price,
            is_bid,
        ) by {
            assert(t[i] == s[i] && t[j] == s[j]);
        }
        lemma_insert_position(t, price, is_bid);
        if ranks_before(s.last().price, price, is_bid) {
            assert forall|i: int| 0 <= i < s.len() implies ranks_before(
                (#[trigger] s[i]).price,
                price,
                is_bid,
            ) by {
                if i < s.len() - 1 {
                    assert(ranks_before(s[i].price, s[s.len() - 1].price, is_bid));
                }
            }
        } else {
            assert forall|i: int| 0 <= i < insert_position(s, price, is_bid) implies ranks_before(
                (#[trigger] s[i]).price,
                price,
                is_bid,
            ) by {
                assert(t[i] == s[i]);
            }
            assert forall|i: int|
                insert_position(s, price, is_bid) <= i < s.len() implies !ranks_before(
                (#[trigger] s[i]).price,
                price,
                is_bid,
            ) by {
                if i < s.len() - 1 {
                    assert(t[i] == s[i]);
                }
            }
        }
    }
}

/// Applying one entry keeps a side well formed.
pub proof fn lemma_update_side_ok(s: Seq<OrderbookLevel>, price: u128, size: u128, is_bid: bool)
    requires
        side_ok(s, is_bid),
        price <= MAX_UNITS,
        size <= MAX_UNITS,
    ensures
        side_ok(update_side(s, price, size, is_bid), is_bid),
{
    lemma_level_index(s, price);
    let k = level_index(s, price);
    let r = update_side(s, price, size, is_bid);
    if size == 0 {
        if k >= 0 {
            assert forall|i: int, j: int| 0 <= i < j < r.len() implies ranks_before(
                #[trigger] r[i].price,
                #[trigger] r[j].price,
                is_bid,
            ) by {
                let i0 = if i < k {
                    i
                } else {
                    i + 1
                };
                let j0 = if j < k {
                    j
                } else {
                    j + 1
                };
                assert(r[i] == s[i0] && r[j] == s[j0]);
            }
            assert forall|i: int| 0 <= i < r.len() implies 0 < (#[trigger] r[i]).size <= MAX_UNITS
                && r[i].price <= MAX_UNITS by {
                if i >= k {
                    assert(r[i] == s[i + 1]);
                }
            }
        }
    } else if k >= 0 {
        assert forall|i: int, j: int| 0 <= i < j < r.len() implies ranks_before(
            #[trigger] r[i].price,
            #[trigger] r[j].price,
            is_bid,
        ) by {
            assert(r[i].price == s[i].price && r[j].price == s[j].price);
        }
    } else {
        lemma_insert_position(s, price, is_bid);
        let q = insert_position(s, price, is_bid);
        let lvl = OrderbookLevel { price, size };
        assert forall|i: int, j: int| 0 <= i < j < r.len() implies ranks_before(
            #[trigger] r[i].price,
            #[trigger] r[j].price,
            is_bid,
        ) by {
            if i < q && j < q {
                assert(r[i] == s[i] && r[j] == s[j]);
            } else if i < q && j == q {
                assert(r[i] == s[i] && r[j] == lvl);
            } else if i < q {
                assert(r[i] == s[i] && r[j] == s[j - 1]);
            } else if i == q {
                assert(r[i] == lvl && r[j] == s[j - 1]);
                assert(s[j - 1].price != price);
            } else {
                assert(r[i] == s[i - 1] && r[j] == s[j - 1]);
            }
        }
        assert forall|i: int| 0 <= i < r.len() implies 0 < (#[trigger] r[i]).size <= MAX_UNITS
            && r[i].price <= MAX_UNITS by {
            if i < q {
                assert(r[i] == s[i]);
            } else if i > q {
                assert(r[i] == s[i - 1]);
            }
        }
    }
}

/// An entry of size 0 leaves no level at its price. Where the side had no
/// level at that price it is left as it was, so a second such entry changes
/// nothing.
pub proof fn lemma_zero_size_removes(s: Seq<OrderbookLevel>, price: u128, is_bid: bool)
    requires
        side_ok(s, is_bid),
    ensures
        forall|i: int|
            0 <= i < update_side(s, price, 0, is_bid).len() ==> (#[trigger] update_side(
                s,
                price,
                0,
                is_bid,
            )[i]).price != price,
        (forall|i: int| 0 <= i < s.len() ==> (#[trigger] s[i]).price != price) ==> update_side(
            s,
            price,
            0,
            is_bid,
        ) == s,
        update_side(update_side(s, price, 0, is_bid), price, 0, is_bid) == update_side(
            s,
            price,
            0,
            is_bid,
        ),
{
    lemma_level_index(s, price);
    let k = level_index(s, price);
    let r = update_side(s, price, 0, is_bid);
    if k >= 0 {
        assert forall|i: int| 0 <= i < r.len() implies (#[trigger] r[i]).price != price by {
            if i < k {
                assert(r[i] == s[i]);
                assert(ranks_before(s[i].price, s[k].price, is_bid));
            } else {
                assert(r[i] == s[i + 1]);
                assert(ranks_before(s[k].price, s[i + 1].price, is_bid));
            }
        }
    } else {
        assert(r == s);
    }
    lemma_level_index(r, price);
    if level_index(r, price) >= 0 {
        assert(r[level_index(r, price)].price == price);
    }
}

/// An entry with a price the side does not hold and a nonzero size inserts
/// exactly one level, and the side stays in order.
pub proof fn lemma_new_price_inserts_one(
    s: Seq<OrderbookLevel>,
    price: u128,
    size: u128,
    is_bid: bool,
)
    requires
        side_ok(s, is_bid),
        price <= MAX_UNITS,
        0 < size <= MAX_UNITS,
        forall|i: int| 0 <= i < s.len() ==> (#[trigger] s[i]).price != price,
    ensures
        update_side(s, price, size, is_bid).len() == s.len() + 1,
        exists|k: int|
            0 <= k <= s.len() && update_side(s, price, size, is_bid) == s.insert(
                k,
                OrderbookLevel { price, size },
            ),
        side_sorted(update_side(s, price, size, is_bid), is_bid),
{
    lemma_level_index(s, price);
    if level_index(s, price) >= 0 {
        assert(s[level_index(s, price)].price == price);
    }
    lemma_insert_position(s, price, is_bid);
    lemma_update_side_ok(s, price, size, is_bid);
    let k = insert_position(s, price, is_bid);
    assert(update_side(s, price, size, is_bid) == s.insert(k, OrderbookLevel { price, size }));
}

proof fn lemma_entry_update_ok(s: Seq<OrderbookLevel>, e: [String; 2], is_bid: bool, snapshot: bool)
    requires
        side_ok(s, is_bid),
    ensures
        side_ok(entry_update(s, e, is_bid, snapshot), is_bid),
{
    match (text_units(e[0]@), text_units(e[1]@)) {
        (Some(p), Some(z)) => {
            if !(snapshot && z == 0) {
                lemma_update_side_ok(s, p, z, is_bid);
            }
        },
        _ => {},
    }
}

/// However many entries a message carries, and however many messages
/// follow one another, a side stays strictly ordered with unique prices and
/// nonzero sizes.
pub proof fn lemma_apply_entries_ok(
    s: Seq<OrderbookLevel>,
    es: Seq<[String; 2]>,
    is_bid: bool,
    snapshot: bool,
)
    requires
        side_ok(s, is_bid),
    ensures
        side_ok(apply_entries(s, es, is_bid, snapshot), is_bid),
    decreases es.len(),
{
    if es.len() > 0 {
        lemma_apply_entries_ok(s, es.drop_last(), is_bid, snapshot);
        lemma_entry_update_ok(apply_entries(s, es.drop_last(), is_bid, snapshot), es.last(), is_bid, snapshot);
    }
}

fn ranks_before_exec(a: u128, b: u128, is_bid: bool) -> (r: bool)
    ensures
        r == ranks_before(a, b, is_bid),
{
    if is_bid {
        a > b
    } else {
        a < b
    }
}

/// Applies one `(price, size)` entry to one side.
fn update_side_level(side: &mut Vec<OrderbookLevel>, price: u128, size: u128, is_bid: bool)
    requires
        side_ok(old(side)@, is_bid),
        price <= MAX_UNITS,
        size <= MAX_UNITS,
    ensures
        final(side)@ == update_side(old(side)@, price, size, is_bid),
        side_ok(final(side)@, is_bid),
{
    let ghost s = side@;
    proof {
        lemma_level_index(s, price);
        lemma_update_side_ok(s, price, size, is_bid);
    }
    let mut i: usize = 0;
    while i < side.len() && side[i].price != price
        invariant
            side@ == s,
            i <= s.len(),
            forall|j: int| 0 <= j < i ==> (#[trigger] s[j]).price != price,
        decreases s.len() - i,
    {
        i = i + 1;
    }
    if i < side.len() {
        proof {
            let k = level_index(s, price);
            if k != i as int {
                if k < i {
                    assert(s[k].price != price);
                } else {
                    assert(ranks_before(s[i as int].price, s[k].price, is_bid));
                }
            }
        }
        if size == 0 {
            side.remove(i);
        } else {
            side.set(i, OrderbookLevel { price, size });
        }
    } else if size != 0 {
        proof {
            lemma_insert_position(s, price, is_bid);
        }
        let mut k: usize = 0;
        while k < side.len() && ranks_before_exec(side[k].price, price, is_bid)
            invariant
                side@ == s,
                k <= s.len(),
                forall|j: int| 0 <= j < k ==> ranks_before((#[trigger] s[j]).price, price, is_bid),
            decreases s.len() - k,
        {
            k = k + 1;
        }
        proof {
            let q = insert_position(s, price, is_bid);
            if q < k {
                assert(ranks_before(s[q].price, price, is_bid));
            } else if k < q {
                assert(ranks_before(s[k as int].price, price, is_bid));
            }
        }
        side.insert(k, OrderbookLevel { price, size });
    }
}

/// Applies a list of text entries to one side, in order.
fn apply_side_entries(
    side: &mut Vec<OrderbookLevel>,
    entries: &Vec<[String; 2]>,
    is_bid: bool,
    snapshot: bool,
)
    requires
        side_ok(old(side)@, is_bid),
    ensures
        final(side)@ == apply_entries(old(side)@, entries@, is_bid, snapshot),
        side_ok(final(side)@, is_bid),
{
    let ghost s0 = side@;
    let mut i: usize = 0;
    while i < entries.len()
        invariant
            i <= entries@.len(),
            side_ok(side@, is_bid),
            side@ == apply_entries(s0, entries@.subrange(0, i as int), is_bid, snapshot),
        decreases entries@.len() - i,
    {
        let e = &entries[i];
        let ghost before = side@;
        proof {
            lemma_entry_update_ok(before, *e, is_bid, snapshot);
        }
        let p = parse_units_text(&e[0]);
        let z = parse_units_text(&e[1]);
        match (p, z) {
            (Some(p), Some(z)) => {
                if !(snapshot && z == 0) {
                    update_side_level(side, p, z, is_bid);
                }
            },
            _ => {},
        }
        proof {
            let es = entries@.subrange(0, i + 1);
            assert(es.drop_last() =~= entries@.subrange(0, i as int));
            assert(es.last() == entries@[i as int]);
        }
        i = i + 1;
    }
    proof {
        assert(entries@.subrange(0, entries@.len() as int) =~= entries@);
    }
}

impl LocalOrderbook {
    /// Both sides well formed, and a book that is not stale is not crossed.
    pub open spec fn wf(&self) -> bool {
        &&& side_ok(self.bids@, true)
        &&& side_ok(self.asks@, false)
        &&& (!self.stale ==> !crossed(self.bids@, self.asks@))
    }

    /// A well-formed book that is not stale is never crossed: where both sides
    /// hold levels, the best bid is strictly below the best ask.
    pub proof fn lemma_fresh_book_uncrossed(&self)
        requires
            self.wf(),
            !self.stale,
            self.bids@.len() > 0,
            self.asks@.len() > 0,
        ensures
            self.bids@[0].price < self.asks@[0].price,
    {
    }

    /// An empty book, stale until its first snapshot, with the sequence guard on.
    pub fn new(symbol: String) -> (r: Self)
        ensures
            r.wf(),
            r.symbol == symbol,
            r.bids@.len() == 0,
            r.asks@.len() == 0,
            r.last_update_id == 0,
            r.last_sequence == 0,
            r.last_timestamp == 0,
            r.stale,
            r.check_sequence,
    {
        LocalOrderbook {
            symbol,
            bids: Vec::new(),
            asks: Vec::new(),
            last_update_id: 0,
            last_sequence: 0,
            last_timestamp: 0,
            stale: true,
            check_sequence: true,
        }
    }

    /// Whether the best bid is at or above the best ask.
    pub fn is_crossed(&self) -> (r: bool)
        ensures
            r == crossed(self.bids@, self.asks@),
    {
        self.bids.len() > 0 && self.asks.len() > 0 && self.bids[0].price >= self.asks[0].price
    }

    /// Replaces both sides with the snapshot's levels and takes its ids. The
    /// book is then stale only if the snapshot is crossed.
    pub fn apply_snapshot(&mut self, snapshot: &BybitWebSocketOrderbookData)
        ensures
            final(self).wf(),
            old(self).snapshot_applied(*final(self), *snapshot),
    {
        self.bids.clear();
        self.asks.clear();
        apply_side_entries(&mut self.bids, &snapshot.b, true, true);
        apply_side_entries(&mut self.asks, &snapshot.a, false, true);
        self.last_update_id = snapshot.u;
        self.last_sequence = snapshot.seq;
        self.last_timestamp = snapshot.u;
        self.stale = self.is_crossed();
    }

    /// Marks the book stale, as when its feed was interrupted: it stays so
    /// until the next snapshot.
    pub fn mark_stale(&mut self)
        requires
            old(self).wf(),
        ensures
            final(self).wf(),
            final(self).stale,
            final(self).bids@ == old(self).bids@,
            final(self).asks@ == old(self).asks@,
            final(self).symbol == old(self).symbol,
            final(self).check_sequence == old(self).check_sequence,
            final(self).last_update_id == old(self).last_update_id,
            final(self).last_sequence == old(self).last_sequence,
            final(self).last_timestamp == old(self).last_timestamp,
    {
        self.stale = true;
    }

    /// `next` is this book after the snapshot `d`: both sides rebuilt from
    /// the snapshot's entries alone, its ids taken, stale exactly when the
    /// result is crossed; the symbol and the guard setting kept.
    pub open spec fn snapshot_applied(&self, next: LocalOrderbook, d: BybitWebSocketOrderbookData) -> bool {
        &&& next.bids@ == apply_entries(Seq::empty(), d.b@, true, true)
        &&& next.asks@ == apply_entries(Seq::empty(), d.a@, false, true)
        &&& next.last_update_id == d.u
        &&& next.last_sequence == d.seq
        &&& next.last_timestamp == d.u
        &&& next.stale == crossed(next.bids@, next.asks@)
        &&& next.symbol == self.symbol
        &&& next.check_sequence == self.check_sequence
    }

    /// `next` is this book after the delta `d`. Where the book accepts it,
    /// its entries are applied in order to each side and its ids taken, and
    /// the book is stale if it was or if the result is crossed. Otherwise
    /// levels and ids stay as they were and the book is stale. The symbol and
    /// the guard setting are kept either way.
    pub open spec fn delta_applied(&self, next: LocalOrderbook, d: BybitWebSocketOrderbookData) -> bool {
        &&& next.symbol == self.symbol
        &&& next.check_sequence == self.check_sequence
        &&& if self.accepts(d.seq) {
            &&& next.bids@ == apply_entries(self.bids@, d.b@, true, false)
            &&& next.asks@ == apply_entries(self.asks@, d.a@, false, false)
            &&& next.last_update_id == d.u
            &&& next.last_sequence == d.seq
            &&& next.last_timestamp == d.u
            &&& next.stale == (self.stale || crossed(next.bids@, next.asks@))
        } else {
            &&& next.bids@ == self.bids@
            &&& next.asks@ == self.asks@
            &&& next.last_update_id == self.last_update_id
            &&& next.last_sequence == self.last_sequence
            &&& next.last_timestamp == self.last_timestamp
            &&& next.stale
        }
    }

    /// Whether the book has to be resynchronised after a message: it was
    /// trusted before the message and is stale after it, through a sequence
    /// gap or a crossed result. A fresh subscription brings a fresh snapshot.
    pub fn needs_resync(&self, stale_before: bool) -> (r: bool)
        ensures
            r == (!stale_before && self.stale),
    {
        !stale_before && self.stale
    }

    /// Whether a delta with sequence number `seq` may be applied now.
    pub open spec fn accepts(&self, seq: u64) -> bool {
        !self.check_sequence || (!self.stale && follows(self.last_sequence, seq))
    }

    /// Applies a delta's entries in order and takes its ids, if the book
    /// accepts it; otherwise leaves the levels as they are and marks the book
    /// stale. An applied delta that crosses the book marks it stale too.
    pub fn apply_delta(&mut self, delta: &BybitWebSocketOrderbookData)
        requires
            old(self).wf(),
        ensures
            final(self).wf(),
            old(self).delta_applied(*final(self), *delta),
    {
        let in_sequence = !self.stale && self.last_sequence < u64::MAX && delta.seq
            == self.last_sequence + 1;
        if self.check_sequence && !in_sequence {
            self.stale = true;
            return ;
        }
        apply_side_entries(&mut self.bids, &delta.b, true, false);
        apply_side_entries(&mut self.asks, &delta.a, false, false);
        self.last_update_id = delta.u;
        self.last_sequence = delta.seq;
        self.last_timestamp = delta.u;
        let crossed_now = self.is_crossed();
        self.stale = self.stale || crossed_now;
    }

    /// Applies an order-book message by its type: a `snapshot` replaces the
    /// book, a `delta` goes through `apply_delta`. Returns whether the type
    /// was one of the two; a message of another type leaves the book as it is.
    pub fn apply_message(&mut self, msg: &BybitWebSocketOrderbookResponse) -> (r: bool)
        requires
            old(self).wf(),
        ensures
            final(self).wf(),
            r == (msg.data_type@ == "snapshot"@ || msg.data_type@ == "delta"@),
            msg.data_type@ == "snapshot"@ ==> old(self).snapshot_applied(*final(self), msg.data),
            msg.data_type@ == "delta"@ ==> old(self).delta_applied(*final(self), msg.data),
            !r ==> *final(self) == *old(self),
    {
        if text_eq(msg.data_type.as_str(), "snapshot") {
            proof {
                reveal_strlit("snapshot");
                reveal_strlit("delta");
                assert(msg.data_type@ != "delta"@ || "snapshot"@[0] == "delta"@[0]);
            }
            self.apply_snapshot(&msg.data);
            true
        } else if text_eq(msg.data_type.as_str(), "delta") {
            self.apply_delta(&msg.data);
            true
        } else {
            false
        }
    }

    /// The highest bid, if any.
    pub fn best_bid(&self) -> (r: Option<&OrderbookLevel>)
        ensures
            match r {
                Some(l) => self.bids@.len() > 0 && *l == self.bids@[0],
                None => self.bids@.len() == 0,
            },
    {
        if self.bids.len() > 0 {
            Some(&self.bids[0])
        } else {
            None
        }
    }

    /// The lowest ask, if any.
    pub fn best_ask(&self) -> (r: Option<&OrderbookLevel>)
        ensures
            match r {
                Some(l) => self.asks@.len() > 0 && *l == self.asks@[0],
                None => self.asks@.len() == 0,
            },
    {
        if self.asks.len() > 0 {
            Some(&self.asks[0])
        } else {
            None
        }
    }

    /// Best ask price minus best bid price, in units, if both sides have levels.
    pub fn spread(&self) -> (r: Option<i128>)
        requires
            self.wf(),
        ensures
            r == (if self.bids@.len() > 0 && self.asks@.len() > 0 {
                Some((self.asks@[0].price - self.bids@[0].price) as i128)
            } else {
                None::<i128>
            }),
    {
        if self.bids.len() > 0 && self.asks.len() > 0 {
            let ask = self.asks[0].price as i128;
            let bid = self.bids[0].price as i128;
            Some(ask - bid)
        } else {
            None
        }
    }
}

} // verus!
