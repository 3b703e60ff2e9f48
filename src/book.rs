//! Resting perp orders of one market and their cancellation. The side of an
//! order is resolved from the owner's own tracking list, never by searching
//! both sides of the book.
use vstd::prelude::*;
use crate::account::{MangoAccount, PerpOpenOrder, PerpPosition, Side};
use crate::error::MangoError;
use crate::oracle::Pubkey;

verus! {

/// A resting limit order.
#[derive(Clone, Copy, Debug, PartialEq, Eq, Structural)]
pub struct Order {
    pub order_id: i128,
    pub owner: Pubkey,
    /// Index of the owner's tracking slot for this order.
    pub owner_slot: u8,
    pub side: Side,
    pub price_lots: i64,
    pub quantity: i64,
    /// Insertion sequence number, for time priority at equal price.
    pub seq_num: u64,
}

/// Both sides of a perp market's book: bids best (highest) price first,
/// asks best (lowest) price first, each first-in first-out at equal price.
#[derive(Clone, Debug)]
pub struct Book {
    pub bids: Vec<Order>,
    pub asks: Vec<Order>,
}

/// `a` comes before `b` on the given side.
pub open spec fn precedes(side: Side, a: Order, b: Order) -> bool {
    match side {
        Side::Bid => a.price_lots > b.price_lots || (a.price_lots == b.price_lots && a.seq_num
            < b.seq_num),
        Side::Ask => a.price_lots < b.price_lots || (a.price_lots == b.price_lots && a.seq_num
            < b.seq_num),
    }
}

pub open spec fn side_sorted(side: Side, s: Seq<Order>) -> bool {
    forall|i: int, j: int| 0 <= i < j < s.len() ==> precedes(side, #[trigger] s[i], #[trigger] s[j])
}

pub open spec fn book_side(book: Book, side: Side) -> Seq<Order> {
    match side {
        Side::Bid => book.bids@,
        Side::Ask => book.asks@,
    }
}

impl Book {
    pub open spec fn wf(&self) -> bool {
        side_sorted(Side::Bid, self.bids@) && side_sorted(Side::Ask, self.asks@)
    }
}

/// Slot `s` of the tracking list records order `id` in `market`.
pub open spec fn tracks(orders: Seq<PerpOpenOrder>, market: u16, id: i128, s: int) -> bool {
    0 <= s < orders.len() && orders[s].active && orders[s].market_index == market
        && orders[s].order_id == id
}

pub open spec fn is_tracked(orders: Seq<PerpOpenOrder>, market: u16, id: i128) -> bool {
    exists|s: int| tracks(orders, market, id, s)
}

/// `k` is the first position of order `id` on a side.
pub open spec fn first_at(s: Seq<Order>, id: i128, k: int) -> bool {
    0 <= k < s.len() && s[k].order_id == id && forall|m: int| 0 <= m < k ==> s[m].order_id != id
}

pub open spec fn on_side(s: Seq<Order>, id: i128) -> bool {
    exists|k: int| 0 <= k < s.len() && s[k].order_id == id
}

/// Slot `p` holds the active perp position in `market`.
pub open spec fn perp_at(perps: Seq<PerpPosition>, market: u16, p: int) -> bool {
    0 <= p < perps.len() && perps[p].active && perps[p].market_index == market && forall|q: int|
        0 <= q < p ==> !(#[trigger] perps[q]).active || perps[q].market_index != market
}

/// The position with the quantity of a cancelled order released from the
/// reserve of its side; `None` on underflow.
pub open spec fn released(pp: PerpPosition, side: Side, quantity: int) -> Option<PerpPosition> {
    match side {
        Side::Bid => if i64::MIN <= pp.bids_base_lots - quantity <= i64::MAX {
            Some(PerpPosition { bids_base_lots: (pp.bids_base_lots - quantity) as i64, ..pp })
        } else {
            None
        },
        Side::Ask => if i64::MIN <= pp.asks_base_lots - quantity <= i64::MAX {
            Some(PerpPosition { asks_base_lots: (pp.asks_base_lots - quantity) as i64, ..pp })
        } else {
            None
        },
    }
}

pub open spec fn with_side(book: Book, side: Side, s: Seq<Order>) -> (Seq<Order>, Seq<Order>) {
    match side {
        Side::Bid => (s, book.asks@),
        Side::Ask => (book.bids@, s),
    }
}

/// What a cancellation of order `id` in `market` by the account `key` does.
pub open spec fn cancel_post(
    a: MangoAccount,
    b: Book,
    key: Pubkey,
    market: u16,
    id: i128,
    r: Result<Order, MangoError>,
    a2: MangoAccount,
    b2: Book,
) -> bool {
    let orders = a.perp_open_orders@;
    &&& (r is Err ==> a2.perp_open_orders@ == orders && a2.perps@ == a.perps@ && b2.bids@
        == b.bids@ && b2.asks@ == b.asks@)
    &&& a2.tokens@ == a.tokens@ && a2.is_bankrupt == a.is_bankrupt && a2.owner == a.owner
    &&& a2.serum3@ == a.serum3@
    &&& a2.group == a.group && a2.account_num == a.account_num
    &&& (a.is_bankrupt ==> r == Err::<Order, MangoError>(MangoError::IsBankrupt))
    &&& (!a.is_bankrupt && !is_tracked(orders, market, id) ==> r == Err::<Order, MangoError>(
        MangoError::InvalidOrderId,
    ))
    &&& (!a.is_bankrupt ==> forall|s: int|
        tracks(orders, market, id, s) ==> {
            let side = orders[s].side;
            let ss = book_side(b, side);
            &&& (!on_side(ss, id) ==> r == Err::<Order, MangoError>(MangoError::InvalidOrderId))
            &&& (forall|k: int|
                first_at(ss, id, k) && ss[k].owner != key ==> r == Err::<Order, MangoError>(
                    MangoError::InvalidOwner,
                ))
            &&& (forall|k: int|
                first_at(ss, id, k) && ss[k].owner == key && (forall|p: int|
                    !perp_at(a.perps@, market, p)) ==> r == Err::<Order, MangoError>(
                    MangoError::StateError,
                ))
            &&& (forall|k: int, p: int|
                first_at(ss, id, k) && ss[k].owner == key && perp_at(a.perps@, market, p)
                    && released(a.perps@[p], side, ss[k].quantity as int) is None ==> r == Err::<
                    Order,
                    MangoError,
                >(MangoError::ArithmeticError))
            &&& (forall|k: int, p: int|
                first_at(ss, id, k) && ss[k].owner == key && perp_at(a.perps@, market, p)
                    && released(a.perps@[p], side, ss[k].quantity as int) is Some ==> {
                    &&& r == Ok::<Order, MangoError>(ss[k])
                    &&& (b2.bids@, b2.asks@) == with_side(b, side, ss.remove(k))
                    &&& a2.perp_open_orders@ == orders.update(
                        s,
                        PerpOpenOrder { active: false, ..orders[s] },
                    )
                    &&& a2.perps@ == a.perps@.update(
                        p,
                        released(a.perps@[p], side, ss[k].quantity as int)->0,
                    )
                })
        })
    &&& (r is Ok ==> !a.is_bankrupt && exists|s: int, k: int, p: int|
        tracks(orders, market, id, s) && first_at(book_side(b, orders[s].side), id, k)
            && perp_at(a.perps@, market, p) && r == Ok::<Order, MangoError>(
            book_side(b, orders[s].side)[k],
        ) && book_side(b, orders[s].side)[k].owner == key && released(
            a.perps@[p],
            orders[s].side,
            book_side(b, orders[s].side)[k].quantity as int,
        ) is Some && a2.perp_open_orders@ == orders.update(
            s,
            PerpOpenOrder { active: false, ..orders[s] },
        ) && a2.perps@ == a.perps@.update(
            p,
            released(a.perps@[p], orders[s].side, book_side(b, orders[s].side)[k].quantity as int)->0,
        ) && (b2.bids@, b2.asks@) == with_side(
            b,
            orders[s].side,
            book_side(b, orders[s].side).remove(k),
        ))
}

impl MangoAccount {
    /// The tracking slot and side of order `id` in `market`, if tracked.
    pub fn find_order_side(&self, market: u16, id: i128) -> (r: Option<(usize, Side)>)
        ensures
            r matches Some((s, side)) ==> tracks(self.perp_open_orders@, market, id, s as int)
                && side == self.perp_open_orders@[s as int].side,
            r is None ==> !is_tracked(self.perp_open_orders@, market, id),
    {
        let mut i: usize = 0;
        while i < self.perp_open_orders.len()
            invariant
                i <= self.perp_open_orders@.len(),
                forall|k: int| 0 <= k < i ==> !tracks(self.perp_open_orders@, market, id, k),
            decreases self.perp_open_orders@.len() - i,
        {
            let o = self.perp_open_orders[i];
            if o.active && o.market_index == market && o.order_id == id {
                return Some((i, o.side));
            }
            i = i + 1;
        }
        None
    }

    /// The slot of the active perp position in `market`, if any.
    pub fn perp_slot(&self, market: u16) -> (r: Option<usize>)
        ensures
            r matches Some(p) ==> perp_at(self.perps@, market, p as int),
            r is None ==> forall|p: int| !perp_at(self.perps@, market, p),
    {
        let mut i: usize = 0;
        while i < self.perps.len()
            invariant
                i <= self.perps@.len(),
                forall|q: int|
                    0 <= q < i ==> !(#[trigger] self.perps@[q]).active || self.perps@[q].market_index
                        != market,
            decreases self.perps@.len() - i,
        {
            let pp = self.perps[i];
            if pp.active && pp.market_index == market {
                return Some(i);
            }
            i = i + 1;
        }
        None
    }
}

fn find_first(s: &Vec<Order>, id: i128) -> (r: Option<usize>)
    ensures
        r matches Some(k) ==> first_at(s@, id, k as int),
        r is None ==> !on_side(s@, id),
{
    let mut i: usize = 0;
    while i < s.len()
        invariant
            i <= s@.len(),
            forall|m: int| 0 <= m < i ==> s@[m].order_id != id,
        decreases s@.len() - i,
    {
        if s[i].order_id == id {
            return Some(i);
        }
        i = i + 1;
    }
    None
}

proof fn lemma_first_unique(s: Seq<Order>, id: i128, k: int, m: int)
    requires
        first_at(s, id, k),
        first_at(s, id, m),
    ensures
        k == m,
{
    if k < m {
        assert(s[k].order_id == id);
    } else if m < k {
        assert(s[m].order_id == id);
    }
}

proof fn lemma_perp_at_unique(perps: Seq<PerpPosition>, market: u16, p: int, q: int)
    requires
        perp_at(perps, market, p),
        perp_at(perps, market, q),
    ensures
        p == q,
{
    if p < q {
        assert(perps[p].active);
    } else if q < p {
        assert(perps[q].active);
    }
}

proof fn lemma_first_perp(perps: Seq<PerpPosition>, market: u16, q: int)
    requires
        0 <= q < perps.len(),
        perps[q].active,
        perps[q].market_index == market,
    ensures
        exists|p: int| perp_at(perps, market, p),
    decreases q,
{
    if exists|q2: int| 0 <= q2 < q && perps[q2].active && perps[q2].market_index == market {
        let q2 = choose|q2: int| 0 <= q2 < q && perps[q2].active && perps[q2].market_index == market;
        lemma_first_perp(perps, market, q2);
    } else {
        assert(perp_at(perps, market, q));
    }
}

/// In a well-formed account every tracked order has its market's perp
/// position, so a cancellation never fails for want of one.
pub proof fn lemma_tracked_order_has_position(a: MangoAccount, market: u16, id: i128, s: int)
    requires
        a.wf(),
        tracks(a.perp_open_orders@, market, id, s),
    ensures
        exists|p: int| perp_at(a.perps@, market, p),
{
    assert(a.perp_open_orders@[s].active);
    let q = choose|q: int|
        0 <= q < a.perps@.len() && a.perps@[q].active && a.perps@[q].market_index
            == a.perp_open_orders@[s].market_index;
    lemma_first_perp(a.perps@, market, q);
}

/// Removing an order keeps a side in price-time order.
pub proof fn lemma_remove_keeps_sorted(side: Side, s: Seq<Order>, k: int)
    requires
        side_sorted(side, s),
        0 <= k < s.len(),
    ensures
        side_sorted(side, s.remove(k)),
{
    let t = s.remove(k);
    assert forall|i: int, j: int| 0 <= i < j < t.len() implies precedes(side, #[trigger] t[i], #[trigger] t[j]) by {
        let i2 = if i < k { i } else { i + 1 };
        let j2 = if j < k { j } else { j + 1 };
        assert(t[i] == s[i2]);
        assert(t[j] == s[j2]);
        assert(precedes(side, s[i2], s[j2]));
    }
}

/// Cancels order `order_id` of the account `account_key` in perp market
/// `market_index`, returning the removed order. The side comes from the account's tracking list
/// (`InvalidOrderId` when absent there or from the book); the order's stored
/// owner must be the account (`InvalidOwner`); a bankrupt account's orders are
/// frozen (`IsBankrupt`). On success the order leaves the book, its tracking
/// slot is freed and its quantity is released from the position's reserve.
/// On error nothing changes.
pub fn cancel_order(
    account: &mut MangoAccount,
    account_key: Pubkey,
    market_index: u16,
    book: &mut Book,
    order_id: i128,
) -> (r: Result<Order, MangoError>)
    requires
        old(account).wf(),
        old(book).wf(),
    ensures
        cancel_post(
            *old(account),
            *old(book),
            account_key,
            market_index,
            order_id,
            r,
            *final(account),
            *final(book),
        ),
        final(account).wf(),
        final(book).wf(),
{
    if account.is_bankrupt {
        return Err(MangoError::IsBankrupt);
    }
    let (slot, side) = match account.find_order_side(market_index, order_id) {
        Some(x) => x,
        None => return Err(MangoError::InvalidOrderId),
    };
    let k = match side {
        Side::Bid => find_first(&book.bids, order_id),
        Side::Ask => find_first(&book.asks, order_id),
    };
    let k = match k {
        Some(k) => k,
        None => return Err(MangoError::InvalidOrderId),
    };
    let order = match side {
        Side::Bid => book.bids[k],
        Side::Ask => book.asks[k],
    };
    if order.owner != account_key {
        return Err(MangoError::InvalidOwner);
    }
    let p = match account.perp_slot(market_index) {
        Some(p) => p,
        None => return Err(MangoError::StateError),
    };
    let pp = account.perps[p];
    let new_pp = match side {
        Side::Bid => match pp.bids_base_lots.checked_sub(order.quantity) {
            Some(v) => PerpPosition { bids_base_lots: v, ..pp },
            None => return Err(MangoError::ArithmeticError),
        },
        Side::Ask => match pp.asks_base_lots.checked_sub(order.quantity) {
            Some(v) => PerpPosition { asks_base_lots: v, ..pp },
            None => return Err(MangoError::ArithmeticError),
        },
    };
    proof {
        let ghost ss = book_side(*old(book), side);
        assert forall|s2: int| tracks(old(account).perp_open_orders@, market_index, order_id, s2) implies s2 == slot by {
            if s2 != slot {
                assert(old(account).perp_open_orders@[s2].order_id != old(account).perp_open_orders@[slot as int].order_id);
            }
        }
        assert forall|k2: int| first_at(ss, order_id, k2) implies k2 == k by {
            lemma_first_unique(ss, order_id, k2, k as int);
        }
        assert forall|p2: int| perp_at(old(account).perps@, market_index, p2) implies p2 == p by {
            lemma_perp_at_unique(old(account).perps@, market_index, p2, p as int);
        }
    }
    let removed = match side {
        Side::Bid => book.bids.remove(k),
        Side::Ask => book.asks.remove(k),
    };
    proof {
        lemma_remove_keeps_sorted(side, book_side(*old(book), side), k as int);
    }
    let oo = account.perp_open_orders[slot];
    account.perp_open_orders.set(slot, PerpOpenOrder { active: false, ..oo });
    account.perps.set(p, new_pp);
    proof {
        let ghost orders = old(account).perp_open_orders@;
        let ghost ss = book_side(*old(book), orders[slot as int].side);
        assert(orders[slot as int].side == side);
        assert(released(old(account).perps@[p as int], side, ss[k as int].quantity as int) == Some(new_pp));
        assert(account.perps@ == old(account).perps@.update(p as int, new_pp));
        assert((book.bids@, book.asks@) == with_side(*old(book), side, ss.remove(k as int)));
        assert(tracks(orders, market_index, order_id, slot as int));
        assert(first_at(ss, order_id, k as int));
        assert(perp_at(old(account).perps@, market_index, p as int));
        assert forall|s2: int|
            0 <= s2 < account.perp_open_orders@.len()
                && (#[trigger] account.perp_open_orders@[s2]).active implies exists|p2: int|
            0 <= p2 < account.perps@.len() && account.perps@[p2].active
                && account.perps@[p2].market_index == account.perp_open_orders@[s2].market_index by {
            assert(orders[s2] == account.perp_open_orders@[s2]);
            assert(orders[s2].active);
            let p2 = choose|p2: int|
                0 <= p2 < old(account).perps@.len() && old(account).perps@[p2].active
                    && old(account).perps@[p2].market_index == orders[s2].market_index;
            assert(account.perps@[p2].active && account.perps@[p2].market_index
                == old(account).perps@[p2].market_index);
        }
    }
    Ok(removed)
}

/// Cancelling the same order twice: the second call cannot succeed after the
/// first did, and fails with `InvalidOrderId`; the reserve is released once.
pub proof fn lemma_cancel_twice(
    a0: MangoAccount,
    b0: Book,
    key: Pubkey,
    market: u16,
    id: i128,
    r1: Result<Order, MangoError>,
    a1: MangoAccount,
    b1: Book,
    r2: Result<Order, MangoError>,
    a2: MangoAccount,
    b2: Book,
)
    requires
        a0.wf(),
        cancel_post(a0, b0, key, market, id, r1, a1, b1),
        cancel_post(a1, b1, key, market, id, r2, a2, b2),
    ensures
        r1 is Ok ==> r2 == Err::<Order, MangoError>(MangoError::InvalidOrderId),
        !(r1 is Ok && r2 is Ok),
{
    if r1 is Ok {
        let orders = a0.perp_open_orders@;
        let s = choose|s: int, k: int, p: int|
            tracks(orders, market, id, s) && first_at(book_side(b0, orders[s].side), id, k)
                && perp_at(a0.perps@, market, p) && r1 == Ok::<Order, MangoError>(
                book_side(b0, orders[s].side)[k],
            ) && book_side(b0, orders[s].side)[k].owner == key && a1.perp_open_orders@
                == orders.update(s, PerpOpenOrder { active: false, ..orders[s] });
        let s0 = s.0;
        assert forall|t: int| !tracks(a1.perp_open_orders@, market, id, t) by {
            if tracks(a1.perp_open_orders@, market, id, t) {
                if t == s0 {
                    assert(!a1.perp_open_orders@[t].active);
                } else {
                    assert(a1.perp_open_orders@[t] == orders[t]);
                    assert(orders[t].order_id != orders[s0].order_id);
                }
            }
        }
        assert(!is_tracked(a1.perp_open_orders@, market, id));
    }
}

/// A perp market's identity, as the cancellation checks it.
#[derive(Clone, Copy, Debug, PartialEq, Eq, Structural)]
pub struct PerpMarket {
    pub group: Pubkey,
    pub perp_market_index: u16,
}

/// The accounts of a perp order cancellation: the group, the owner's
/// account and its address, the market with its book, and the signer.
#[derive(Clone, Debug)]
pub struct PerpCancelOrder {
    pub group: Pubkey,
    pub account: MangoAccount,
    pub account_key: Pubkey,
    pub perp_market: PerpMarket,
    pub book: Book,
    pub owner: Pubkey,
}

/// The account and the market belong to the group, and the signer owns the account.
pub open spec fn accounts_consistent(ctx: PerpCancelOrder) -> bool {
    ctx.account.group == ctx.group && ctx.account.owner == ctx.owner && ctx.perp_market.group
        == ctx.group
}

/// Cancels order `order_id` for the signer of `ctx`. The account and the
/// market must belong to the group and the signer must own the account
/// (`ConstraintHasOne`); then the order is cancelled as `cancel_order` does.
pub fn perp_cancel_order(ctx: &mut PerpCancelOrder, order_id: i128) -> (r: Result<(), MangoError>)
    requires
        old(ctx).account.wf(),
        old(ctx).book.wf(),
    ensures
        !accounts_consistent(*old(ctx)) ==> r == Err::<(), MangoError>(MangoError::ConstraintHasOne)
            && final(ctx).account.tokens@ == old(ctx).account.tokens@
            && final(ctx).account.perps@ == old(ctx).account.perps@
            && final(ctx).account.serum3@ == old(ctx).account.serum3@
            && final(ctx).account.is_bankrupt == old(ctx).account.is_bankrupt
            && final(ctx).account.owner == old(ctx).account.owner
            && final(ctx).account.group == old(ctx).account.group
            && final(ctx).account.account_num == old(ctx).account.account_num
            && final(ctx).account.perp_open_orders@ == old(ctx).account.perp_open_orders@
            && final(ctx).book.bids@ == old(ctx).book.bids@ && final(ctx).book.asks@
            == old(ctx).book.asks@,
        accounts_consistent(*old(ctx)) ==> exists|c: Result<Order, MangoError>|
            cancel_post(
                old(ctx).account,
                old(ctx).book,
                old(ctx).account_key,
                old(ctx).perp_market.perp_market_index,
                order_id,
                c,
                final(ctx).account,
                final(ctx).book,
            ) && (c is Ok <==> r is Ok) && (c matches Err(e) ==> r == Err::<(), MangoError>(e)),
        final(ctx).account.wf(),
        final(ctx).book.wf(),
        final(ctx).group == old(ctx).group && final(ctx).account_key == old(ctx).account_key
            && final(ctx).perp_market == old(ctx).perp_market && final(ctx).owner == old(ctx).owner,
{
    if ctx.account.group != ctx.group || ctx.account.owner != ctx.owner || ctx.perp_market.group
        != ctx.group {
        return Err(MangoError::ConstraintHasOne);
    }
    let key = ctx.account_key;
    let market = ctx.perp_market.perp_market_index;
    let c = cancel_order(&mut ctx.account, key, market, &mut ctx.book, order_id);
    proof {
        assert(cancel_post(
            old(ctx).account,
            old(ctx).book,
            old(ctx).account_key,
            old(ctx).perp_market.perp_market_index,
            order_id,
            c,
            ctx.account,
            ctx.book,
        ));
    }
    match c {
        Ok(_) => Ok(()),
        Err(e) => Err(e),
    }
}

} // verus!
