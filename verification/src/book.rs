//! The order book of one token, kept as sizes per price in cents, and how
//! snapshots and price changes from the market feed update it.

use crate::foreign::u256_of;
use crate::clob::{token_id_result, token_id_with_prefix, token_result_view, TokenId};
use crate::text::{owned, same_text};
use std::collections::BTreeMap;
use vstd::prelude::*;

verus! {

/// One price level of a snapshot: price in cents and size as text.
pub struct BookLevel {
    pub cents: i32,
    pub size: String,
}

/// A side as the exchange reports it: buy, sell, or any other value. In a
/// price change any other side is a trade, which sets the last price.
#[derive(Debug, Clone, Copy, PartialEq, Eq, Structural)]
pub enum ChangeSide {
    Buy,
    Sell,
    Other,
}

/// One price change of the feed: token, price in cents, new size (if the
/// feed gave one) and side.
pub struct PriceChange {
    pub asset: TokenId,
    pub cents: i32,
    pub size: Option<String>,
    pub side: ChangeSide,
}

/// What applying a batch of price changes did: whether any concerned the
/// watched token, and the position of the last trade among them.
pub struct ChangeOutcome {
    pub changed: bool,
    pub last_trade: Option<usize>,
}

/// Bids and asks of one token: size text per price in cents.
#[derive(Debug, Clone)]
pub struct Orderbook {
    pub bids: BTreeMap<i32, String>,
    pub asks: BTreeMap<i32, String>,
}

/// The levels of a snapshot as a map; a later level for the same price
/// replaces an earlier one.
pub open spec fn levels_map(levels: Seq<BookLevel>) -> Map<i32, String>
    decreases levels.len(),
{
    if levels.len() == 0 {
        Map::empty()
    } else {
        levels_map(levels.drop_last()).insert(levels.last().cents, levels.last().size)
    }
}

/// The size text of a change; a change without a size has size "0".
pub open spec fn size_text(c: PriceChange) -> Seq<char> {
    match c.size {
        Some(s) => s@,
        None => "0"@,
    }
}

/// Whether a size text empties its level.
pub open spec fn empties_level(t: Seq<char>) -> bool {
    t == "0"@ || t == "0.0"@
}

/// One side of the book after a change on that side: the level is removed
/// when the size empties it, else set to the size.
pub open spec fn side_after(m: Map<i32, String>, c: PriceChange) -> Map<i32, String> {
    if empties_level(size_text(c)) {
        m.remove(c.cents)
    } else {
        m.insert(c.cents, c.size->0)
    }
}

/// Bids and asks after one change; changes of other tokens, and trades,
/// leave both sides as they are.
pub open spec fn apply_change(
    book: (Map<i32, String>, Map<i32, String>),
    watched: TokenId,
    c: PriceChange,
) -> (Map<i32, String>, Map<i32, String>) {
    if c.asset != watched {
        book
    } else {
        match c.side {
            ChangeSide::Buy => (side_after(book.0, c), book.1),
            ChangeSide::Sell => (book.0, side_after(book.1, c)),
            ChangeSide::Other => book,
        }
    }
}

/// Bids and asks after the changes, applied in order.
pub open spec fn apply_changes(
    book: (Map<i32, String>, Map<i32, String>),
    watched: TokenId,
    cs: Seq<PriceChange>,
) -> (Map<i32, String>, Map<i32, String>)
    decreases cs.len(),
{
    if cs.len() == 0 {
        book
    } else {
        apply_change(apply_changes(book, watched, cs.drop_last()), watched, cs.last())
    }
}

/// Whether some change concerns the watched token.
pub open spec fn any_watched(watched: TokenId, cs: Seq<PriceChange>) -> bool {
    exists|i: int| 0 <= i < cs.len() && (#[trigger] cs[i]).asset == watched
}

/// Whether a change is a trade of the watched token.
pub open spec fn is_watched_trade(watched: TokenId, c: PriceChange) -> bool {
    c.asset == watched && c.side == ChangeSide::Other
}

/// Position of the last trade of the watched token among the changes.
pub open spec fn last_trade(watched: TokenId, cs: Seq<PriceChange>) -> Option<int>
    decreases cs.len(),
{
    if cs.len() == 0 {
        None
    } else if is_watched_trade(watched, cs.last()) {
        Some(cs.len() - 1)
    } else {
        last_trade(watched, cs.drop_last())
    }
}

/// The position as a spec integer.
pub open spec fn index_view(o: Option<usize>) -> Option<int> {
    match o {
        Some(i) => Some(i as int),
        None => None,
    }
}

/// Size text of a level of one side, empty when the price has no level.
pub open spec fn level_text(m: Map<i32, String>, cents: i32) -> Seq<char> {
    if m.contains_key(cents) {
        m[cents]@
    } else {
        Seq::empty()
    }
}

/// Law: after a snapshot the book has a level at a price exactly when some
/// level of the snapshot has that price, and the level's size is that of
/// the last such level.
pub proof fn law_snapshot_levels(levels: Seq<BookLevel>, cents: i32)
    ensures
        levels_map(levels).contains_key(cents) <==> exists|i: int|
            0 <= i < levels.len() && (#[trigger] levels[i]).cents == cents,
        levels_map(levels).contains_key(cents) ==> exists|i: int|
            0 <= i < levels.len() && (#[trigger] levels[i]).cents == cents && levels_map(levels)[cents]
                == levels[i].size && forall|j: int| i < j < levels.len() ==> (#[trigger] levels[j]).cents != cents,
    decreases levels.len(),
{
    if levels.len() > 0 {
        let init = levels.drop_last();
        law_snapshot_levels(init, cents);
        let last = levels.len() - 1;
        if levels[last].cents == cents {
            assert(levels[last].cents == cents);
        } else {
            if levels_map(init).contains_key(cents) {
                let i = choose|i: int|
                    0 <= i < init.len() && (#[trigger] init[i]).cents == cents
                        && levels_map(init)[cents] == init[i].size && forall|j: int|
                        i < j < init.len() ==> (#[trigger] init[j]).cents != cents;
                assert(levels[i] == init[i]);
                assert forall|j: int| i < j < levels.len() implies (#[trigger] levels[j]).cents != cents by {
                    if j < init.len() {
                        assert(levels[j] == init[j]);
                    }
                }
            }
            assert((exists|i: int| 0 <= i < levels.len() && (#[trigger] levels[i]).cents == cents)
                ==> (exists|i: int| 0 <= i < init.len() && (#[trigger] init[i]).cents == cents)) by {
                if exists|i: int| 0 <= i < levels.len() && (#[trigger] levels[i]).cents == cents {
                    let i = choose|i: int| 0 <= i < levels.len() && (#[trigger] levels[i]).cents == cents;
                    assert(init[i] == levels[i]);
                }
            }
            assert((exists|i: int| 0 <= i < init.len() && (#[trigger] init[i]).cents == cents)
                ==> (exists|i: int| 0 <= i < levels.len() && (#[trigger] levels[i]).cents == cents)) by {
                if exists|i: int| 0 <= i < init.len() && (#[trigger] init[i]).cents == cents {
                    let i = choose|i: int| 0 <= i < init.len() && (#[trigger] init[i]).cents == cents;
                    assert(init[i] == levels[i]);
                }
            }
        }
    }
}

/// Law: changes that all concern other tokens leave the book as it was and
/// are reported as no change.
pub proof fn law_other_tokens_ignored(
    book: (Map<i32, String>, Map<i32, String>),
    watched: TokenId,
    cs: Seq<PriceChange>,
)
    requires
        forall|i: int| 0 <= i < cs.len() ==> (#[trigger] cs[i]).asset != watched,
    ensures
        apply_changes(book, watched, cs) == book,
        !any_watched(watched, cs),
        last_trade(watched, cs) is None,
    decreases cs.len(),
{
    if cs.len() > 0 {
        let init = cs.drop_last();
        assert forall|i: int| 0 <= i < init.len() implies (#[trigger] init[i]).asset != watched by {
            assert(init[i] == cs[i]);
        }
        law_other_tokens_ignored(book, watched, init);
        assert(cs[cs.len() - 1].asset != watched);
    }
}

/// Whether a change is a buy-side change of the watched token.
pub open spec fn is_watched_bid(watched: TokenId, c: PriceChange) -> bool {
    c.asset == watched && c.side == ChangeSide::Buy
}

/// Whether a change is a sell-side change of the watched token.
pub open spec fn is_watched_ask(watched: TokenId, c: PriceChange) -> bool {
    c.asset == watched && c.side == ChangeSide::Sell
}

/// Law: the asks change only through sell-side changes and the bids only
/// through buy-side changes of the watched token; trades change neither.
pub proof fn law_sides_independent(
    book: (Map<i32, String>, Map<i32, String>),
    watched: TokenId,
    cs: Seq<PriceChange>,
)
    ensures
        (forall|i: int| 0 <= i < cs.len() ==> !is_watched_ask(watched, #[trigger] cs[i]))
            ==> apply_changes(book, watched, cs).1 == book.1,
        (forall|i: int| 0 <= i < cs.len() ==> !is_watched_bid(watched, #[trigger] cs[i]))
            ==> apply_changes(book, watched, cs).0 == book.0,
    decreases cs.len(),
{
    if cs.len() > 0 {
        let init = cs.drop_last();
        law_sides_independent(book, watched, init);
        if forall|i: int| 0 <= i < cs.len() ==> !is_watched_ask(watched, #[trigger] cs[i]) {
            assert forall|i: int| 0 <= i < init.len() implies !is_watched_ask(watched, #[trigger] init[i]) by {
                assert(init[i] == cs[i]);
            }
            assert(!is_watched_ask(watched, cs[cs.len() - 1]));
        }
        if forall|i: int| 0 <= i < cs.len() ==> !is_watched_bid(watched, #[trigger] cs[i]) {
            assert forall|i: int| 0 <= i < init.len() implies !is_watched_bid(watched, #[trigger] init[i]) by {
                assert(init[i] == cs[i]);
            }
            assert(!is_watched_bid(watched, cs[cs.len() - 1]));
        }
    }
}

/// Law: one change of the watched token with a size that does not empty
/// its level sets its side's level at its price to its size, whatever that
/// side held before, and leaves every other price and the other side as
/// they were; a change without size, or with size "0" or "0.0", removes its
/// side's level at its price; a trade, or a change of another token,
/// changes nothing.
pub proof fn law_one_change(
    book: (Map<i32, String>, Map<i32, String>),
    watched: TokenId,
    c: PriceChange,
)
    ensures
        c.asset == watched && c.size is Some && c.size->0@ != "0"@ && c.size->0@ != "0.0"@ && c.side == ChangeSide::Buy ==> ({
            let r = apply_change(book, watched, c);
            &&& r.0.contains_key(c.cents)
            &&& r.0[c.cents] == c.size->0
            &&& r.0 == book.0.insert(c.cents, c.size->0)
            &&& r.1 == book.1
        }),
        c.asset == watched && c.size is Some && c.size->0@ != "0"@ && c.size->0@ != "0.0"@ && c.side == ChangeSide::Sell ==> ({
            let r = apply_change(book, watched, c);
            &&& r.1.contains_key(c.cents)
            &&& r.1[c.cents] == c.size->0
            &&& r.1 == book.1.insert(c.cents, c.size->0)
            &&& r.0 == book.0
        }),
        c.asset == watched && (c.size is None || c.size->0@ == "0"@ || c.size->0@ == "0.0"@) && c.side == ChangeSide::Buy ==> ({
            let r = apply_change(book, watched, c);
            &&& !r.0.contains_key(c.cents)
            &&& r.0 == book.0.remove(c.cents)
            &&& r.1 == book.1
        }),
        c.asset == watched && (c.size is None || c.size->0@ == "0"@ || c.size->0@ == "0.0"@) && c.side == ChangeSide::Sell ==> ({
            let r = apply_change(book, watched, c);
            &&& !r.1.contains_key(c.cents)
            &&& r.1 == book.1.remove(c.cents)
            &&& r.0 == book.0
        }),
        c.asset != watched || c.side == ChangeSide::Other ==> apply_change(book, watched, c) == book,
{
    reveal_strlit("0");
}

/// Law: after a batch, the last change decides its price on its side: a
/// watched change with a size that does not empty the level leaves that
/// size there, and one that empties it leaves no level there.
pub proof fn law_last_change_decides(
    book: (Map<i32, String>, Map<i32, String>),
    watched: TokenId,
    cs: Seq<PriceChange>,
)
    requires
        cs.len() > 0,
    ensures
        cs.last().asset == watched && cs.last().size is Some && cs.last().size->0@ != "0"@ && cs.last().size->0@ != "0.0"@ && cs.last().side == ChangeSide::Buy
            ==> apply_changes(book, watched, cs).0.contains_key(cs.last().cents) && apply_changes(
            book,
            watched,
            cs,
        ).0[cs.last().cents] == cs.last().size->0,
        cs.last().asset == watched && cs.last().size is Some && cs.last().size->0@ != "0"@ && cs.last().size->0@ != "0.0"@ && cs.last().side == ChangeSide::Sell
            ==> apply_changes(book, watched, cs).1.contains_key(cs.last().cents) && apply_changes(
            book,
            watched,
            cs,
        ).1[cs.last().cents] == cs.last().size->0,
        cs.last().asset == watched && (cs.last().size is None || cs.last().size->0@ == "0"@ || cs.last().size->0@ == "0.0"@) && cs.last().side == ChangeSide::Buy ==> !apply_changes(
            book,
            watched,
            cs,
        ).0.contains_key(cs.last().cents),
        cs.last().asset == watched && (cs.last().size is None || cs.last().size->0@ == "0"@ || cs.last().size->0@ == "0.0"@) && cs.last().side == ChangeSide::Sell ==> !apply_changes(
            book,
            watched,
            cs,
        ).1.contains_key(cs.last().cents),
{
    law_one_change(apply_changes(book, watched, cs.drop_last()), watched, cs.last());
}

/// Law: the size shown for a price is the level's size text when the side
/// has a level there, and empty text otherwise.
pub proof fn law_level_text(m: Map<i32, String>, cents: i32)
    ensures
        m.contains_key(cents) ==> level_text(m, cents) == m[cents]@,
        !m.contains_key(cents) ==> level_text(m, cents).len() == 0,
{
}

/// Law: the reported trade is the last trade of the watched token among the
/// changes, and there is none exactly when no change is such a trade.
pub proof fn law_last_trade(watched: TokenId, cs: Seq<PriceChange>)
    ensures
        last_trade(watched, cs) is Some ==> ({
            let i = last_trade(watched, cs)->0;
            &&& 0 <= i < cs.len()
            &&& cs[i].asset == watched && cs[i].side == ChangeSide::Other
            &&& forall|j: int| i < j < cs.len() ==> !((#[trigger] cs[j]).asset == watched
                && cs[j].side == ChangeSide::Other)
        }),
        last_trade(watched, cs) is None ==> forall|j: int|
            0 <= j < cs.len() ==> !((#[trigger] cs[j]).asset == watched && cs[j].side
                == ChangeSide::Other),
    decreases cs.len(),
{
    if cs.len() > 0 {
        let init = cs.drop_last();
        law_last_trade(watched, init);
        let n = cs.len() - 1;
        if is_watched_trade(watched, cs.last()) {
            assert(cs[n] == cs.last());
        } else {
            assert(!(cs[n].asset == watched && cs[n].side == ChangeSide::Other));
            if last_trade(watched, init) is Some {
                let i = last_trade(watched, init)->0;
                assert(cs[i] == init[i]);
                assert forall|j: int| i < j < cs.len() implies !((#[trigger] cs[j]).asset == watched
                    && cs[j].side == ChangeSide::Other) by {
                    if j < n {
                        assert(cs[j] == init[j]);
                    }
                }
            } else {
                assert forall|j: int| 0 <= j < cs.len() implies !((#[trigger] cs[j]).asset == watched
                    && cs[j].side == ChangeSide::Other) by {
                    if j < n {
                        assert(cs[j] == init[j]);
                    }
                }
            }
        }
    }
}

/// Parses the watched token id; an error names the id invalid.
pub fn watch_token_id(token_id: &str) -> (r: Result<TokenId, String>)
    ensures
        token_result_view(r) == token_id_result(token_id@, "Invalid Token ID: "@),
        u256_of(token_id@) is Ok ==> r is Ok && r->Ok_0.w0 == u256_of(token_id@)->Ok_0.0 && r->Ok_0.w1
            == u256_of(token_id@)->Ok_0.1 && r->Ok_0.w2 == u256_of(token_id@)->Ok_0.2 && r->Ok_0.w3
            == u256_of(token_id@)->Ok_0.3,
        u256_of(token_id@) is Err ==> r is Err && r->Err_0@ == "Invalid Token ID: "@ + u256_of(token_id@)->Err_0,
{
    token_id_with_prefix(token_id, "Invalid Token ID: ")
}

fn set_level(m: &mut BTreeMap<i32, String>, c: &PriceChange)
    ensures
        final(m)@ == side_after(old(m)@, *c),
{
    let zero: bool = match &c.size {
        Some(s) => same_text(s.as_str(), "0") || same_text(s.as_str(), "0.0"),
        None => {
            proof {
                reveal_strlit("0");
            }
            true
        },
    };
    if zero {
        m.remove(&c.cents);
    } else {
        match &c.size {
            Some(s) => {
                m.insert(c.cents, s.clone());
            },
            None => {},
        }
    }
}

impl Orderbook {
    /// An empty book.
    pub fn new() -> (b: Self)
        ensures
            b.bids@ == Map::<i32, String>::empty(),
            b.asks@ == Map::<i32, String>::empty(),
    {
        Orderbook { bids: BTreeMap::new(), asks: BTreeMap::new() }
    }

    /// Replaces the book with a snapshot's bid and ask levels.
    pub fn replace_levels(&mut self, bids: &Vec<BookLevel>, asks: &Vec<BookLevel>)
        ensures
            final(self).bids@ == levels_map(bids@),
            final(self).asks@ == levels_map(asks@),
    {
        self.bids.clear();
        self.asks.clear();
        let mut i: usize = 0;
        while i < bids.len()
            invariant
                i <= bids.len(),
                self.bids@ == levels_map(bids@.subrange(0, i as int)),
                self.asks@ == Map::<i32, String>::empty(),
            decreases bids.len() - i,
        {
            self.bids.insert(bids[i].cents, bids[i].size.clone());
            assert(bids@.subrange(0, i + 1).drop_last() =~= bids@.subrange(0, i as int));
            i = i + 1;
        }
        assert(bids@.subrange(0, bids.len() as int) =~= bids@);
        let mut j: usize = 0;
        while j < asks.len()
            invariant
                j <= asks.len(),
                self.asks@ == levels_map(asks@.subrange(0, j as int)),
                self.bids@ == levels_map(bids@),
            decreases asks.len() - j,
        {
            self.asks.insert(asks[j].cents, asks[j].size.clone());
            assert(asks@.subrange(0, j + 1).drop_last() =~= asks@.subrange(0, j as int));
            j = j + 1;
        }
        assert(asks@.subrange(0, asks.len() as int) =~= asks@);
    }

    /// Applies the feed's price changes, in order, for the watched token.
    pub fn apply_price_changes(&mut self, watched: &TokenId, changes: &Vec<PriceChange>) -> (out:
        ChangeOutcome)
        ensures
            (final(self).bids@, final(self).asks@) == apply_changes(
                (old(self).bids@, old(self).asks@),
                *watched,
                changes@,
            ),
            out.changed == any_watched(*watched, changes@),
            index_view(out.last_trade) == last_trade(*watched, changes@),
            changes@.len() > 0 && changes@.last().asset == *watched && changes@.last().size is Some && changes@.last().size->0@ != "0"@ && changes@.last().size->0@ != "0.0"@ && changes@.last().side
                == ChangeSide::Buy ==> final(self).bids@.contains_key(changes@.last().cents)
                && final(self).bids@[changes@.last().cents] == changes@.last().size->0,
            changes@.len() > 0 && changes@.last().asset == *watched && changes@.last().size is Some && changes@.last().size->0@ != "0"@ && changes@.last().size->0@ != "0.0"@ && changes@.last().side
                == ChangeSide::Sell ==> final(self).asks@.contains_key(changes@.last().cents)
                && final(self).asks@[changes@.last().cents] == changes@.last().size->0,
            changes@.len() > 0 && changes@.last().asset == *watched && (changes@.last().size is None || changes@.last().size->0@ == "0"@ || changes@.last().size->0@ == "0.0"@) && changes@.last().side
                == ChangeSide::Buy ==> !final(self).bids@.contains_key(changes@.last().cents),
            changes@.len() > 0 && changes@.last().asset == *watched && (changes@.last().size is None || changes@.last().size->0@ == "0"@ || changes@.last().size->0@ == "0.0"@) && changes@.last().side
                == ChangeSide::Sell ==> !final(self).asks@.contains_key(changes@.last().cents),
            changes@.len() > 0 && (changes@.last().asset != *watched || changes@.last().side
                == ChangeSide::Other) ==> (final(self).bids@, final(self).asks@) == apply_changes(
                (old(self).bids@, old(self).asks@),
                *watched,
                changes@.drop_last(),
            ),
            out.changed <==> exists|i: int| 0 <= i < changes@.len() && changes@[i].asset == *watched,
    {
        let ghost start = (self.bids@, self.asks@);
        let mut changed: bool = false;
        let mut trade: Option<usize> = None;
        let mut i: usize = 0;
        while i < changes.len()
            invariant
                i <= changes.len(),
                start == (old(self).bids@, old(self).asks@),
                (self.bids@, self.asks@) == apply_changes(
                    start,
                    *watched,
                    changes@.subrange(0, i as int),
                ),
                changed == any_watched(*watched, changes@.subrange(0, i as int)),
                index_view(trade) == last_trade(*watched, changes@.subrange(0, i as int)),
            decreases changes.len() - i,
        {
            let c: &PriceChange = &changes[i];
            let ghost pre = changes@.subrange(0, i as int);
            let ghost post = changes@.subrange(0, i + 1);
            assert(post.drop_last() =~= pre);
            assert(post.last() == *c);
            if c.asset == *watched {
                match c.side {
                    ChangeSide::Buy => {
                        set_level(&mut self.bids, c);
                    },
                    ChangeSide::Sell => {
                        set_level(&mut self.asks, c);
                    },
                    ChangeSide::Other => {
                        trade = Some(i);
                    },
                }
                changed = true;
                assert(post[i as int] == *c);
            } else {
                assert(any_watched(*watched, post) == any_watched(*watched, pre)) by {
                    if any_watched(*watched, post) {
                        let k = choose|k: int| 0 <= k < post.len() && (#[trigger] post[k]).asset == *watched;
                        assert(pre[k] == post[k]);
                    }
                }
            }
            if !(c.asset == *watched) || c.side != ChangeSide::Other {
                assert(any_watched(*watched, pre) ==> any_watched(*watched, post)) by {
                    if any_watched(*watched, pre) {
                        let k = choose|k: int| 0 <= k < pre.len() && (#[trigger] pre[k]).asset == *watched;
                        assert(post[k] == pre[k]);
                    }
                }
            }
            i = i + 1;
        }
        assert(changes@.subrange(0, changes.len() as int) =~= changes@);
        proof {
            if changes@.len() > 0 {
                law_last_change_decides(start, *watched, changes@);
                law_one_change(apply_changes(start, *watched, changes@.drop_last()), *watched, changes@.last());
            }
        }
        ChangeOutcome { changed, last_trade: trade }
    }

    /// Size text of the bid level at a price in cents, empty when there is
    /// none.
    pub fn bid_size(&self, cents: i32) -> (r: String)
        ensures
            r@ == level_text(self.bids@, cents),
    {
        match self.bids.get(&cents) {
            Some(s) => s.clone(),
            None => {
                proof {
                    reveal_strlit("");
                }
                owned("")
            },
        }
    }

    /// Size text of the ask level at a price in cents, empty when there is
    /// none.
    pub fn ask_size(&self, cents: i32) -> (r: String)
        ensures
            r@ == level_text(self.asks@, cents),
    {
        match self.asks.get(&cents) {
            Some(s) => s.clone(),
            None => {
                proof {
                    reveal_strlit("");
                }
                owned("")
            },
        }
    }
}

} // verus!
