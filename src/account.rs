//! One participant's positions: fixed-capacity arenas of slots, each with an
//! active flag, freed explicitly when the position closes.
use vstd::prelude::*;
use crate::oracle::Pubkey;

verus! {

/// Side of a resting order.
#[derive(Clone, Copy, Debug, PartialEq, Eq, Structural)]
pub enum Side {
    Bid,
    Ask,
}

/// A token balance, expressed relative to the bank's deposit or borrow index.
#[derive(Clone, Copy, Debug, PartialEq, Eq, Structural)]
pub struct TokenPosition {
    /// Fixed-point bits; negative for a borrow.
    pub indexed_position: i128,
    pub token_index: u16,
    pub active: bool,
}

/// A perpetual-futures position.
#[derive(Clone, Copy, Debug, PartialEq, Eq, Structural)]
pub struct PerpPosition {
    pub market_index: u16,
    pub base_position_lots: i64,
    /// Fixed-point bits of the quote position, unsettled PnL included.
    pub quote_position_native: i128,
    /// Base lots reserved by resting bids.
    pub bids_base_lots: i64,
    /// Base lots reserved by resting asks.
    pub asks_base_lots: i64,
    pub active: bool,
}

/// An open-orders account on an external spot market, tracked for collateral.
#[derive(Clone, Copy, Debug, PartialEq, Eq, Structural)]
pub struct Serum3Orders {
    pub market_index: u16,
    pub base_token_index: u16,
    pub quote_token_index: u16,
    pub active: bool,
}

/// The account's own record of one of its resting perp orders.
#[derive(Clone, Copy, Debug, PartialEq, Eq, Structural)]
pub struct PerpOpenOrder {
    pub market_index: u16,
    pub side: Side,
    pub order_id: i128,
    pub active: bool,
}

/// A cross-margin account.
#[derive(Clone, Debug)]
pub struct MangoAccount {
    pub owner: Pubkey,
    pub group: Pubkey,
    pub account_num: u32,
    pub is_bankrupt: bool,
    pub tokens: Vec<TokenPosition>,
    pub serum3: Vec<Serum3Orders>,
    pub perps: Vec<PerpPosition>,
    pub perp_open_orders: Vec<PerpOpenOrder>,
}

/// Token indices are unique among the active token slots.
pub open spec fn tokens_unique(tokens: Seq<TokenPosition>) -> bool {
    forall|i: int, j: int|
        0 <= i < tokens.len() && 0 <= j < tokens.len() && i != j && tokens[i].active
            && tokens[j].active ==> tokens[i].token_index != tokens[j].token_index
}

/// Order ids are unique within a market among the active order slots.
pub open spec fn orders_unique(orders: Seq<PerpOpenOrder>) -> bool {
    forall|i: int, j: int|
        0 <= i < orders.len() && 0 <= j < orders.len() && i != j && orders[i].active
            && orders[j].active && orders[i].market_index == orders[j].market_index
            ==> orders[i].order_id != orders[j].order_id
}

/// Every active order slot has an active perp position in its market.
pub open spec fn orders_backed(orders: Seq<PerpOpenOrder>, perps: Seq<PerpPosition>) -> bool {
    forall|s: int|
        0 <= s < orders.len() && (#[trigger] orders[s]).active ==> exists|p: int|
            0 <= p < perps.len() && perps[p].active && perps[p].market_index
                == orders[s].market_index
}

impl MangoAccount {
    pub open spec fn wf(&self) -> bool {
        tokens_unique(self.tokens@) && orders_unique(self.perp_open_orders@) && orders_backed(
            self.perp_open_orders@,
            self.perps@,
        )
    }

    /// A fresh account with the given slot capacities, all slots inactive.
    pub fn new(
        owner: Pubkey,
        group: Pubkey,
        account_num: u32,
        token_count: usize,
        serum3_count: usize,
        perp_count: usize,
        perp_oo_count: usize,
    ) -> (r: MangoAccount)
        ensures
            r.wf(),
            r.owner == owner,
            r.group == group,
            r.account_num == account_num,
            !r.is_bankrupt,
            r.tokens@.len() == token_count,
            r.serum3@.len() == serum3_count,
            r.perps@.len() == perp_count,
            r.perp_open_orders@.len() == perp_oo_count,
            forall|i: int| 0 <= i < token_count ==> !(#[trigger] r.tokens@[i]).active,
            forall|i: int| 0 <= i < serum3_count ==> !(#[trigger] r.serum3@[i]).active,
            forall|i: int| 0 <= i < perp_count ==> !(#[trigger] r.perps@[i]).active,
            forall|i: int| 0 <= i < perp_oo_count ==> !(#[trigger] r.perp_open_orders@[i]).active,
    {
        let mut tokens: Vec<TokenPosition> = Vec::new();
        let mut i: usize = 0;
        while i < token_count
            invariant
                i <= token_count,
                tokens@.len() == i,
                forall|k: int| 0 <= k < i ==> !(#[trigger] tokens@[k]).active,
            decreases token_count - i,
        {
            tokens.push(TokenPosition { indexed_position: 0, token_index: 0, active: false });
            i = i + 1;
        }
        let mut serum3: Vec<Serum3Orders> = Vec::new();
        let mut i: usize = 0;
        while i < serum3_count
            invariant
                i <= serum3_count,
                serum3@.len() == i,
                forall|k: int| 0 <= k < i ==> !(#[trigger] serum3@[k]).active,
            decreases serum3_count - i,
        {
            serum3.push(
                Serum3Orders { market_index: 0, base_token_index: 0, quote_token_index: 0, active: false },
            );
            i = i + 1;
        }
        let mut perps: Vec<PerpPosition> = Vec::new();
        let mut i: usize = 0;
        while i < perp_count
            invariant
                i <= perp_count,
                perps@.len() == i,
                forall|k: int| 0 <= k < i ==> !(#[trigger] perps@[k]).active,
            decreases perp_count - i,
        {
            perps.push(
                PerpPosition {
                    market_index: 0,
                    base_position_lots: 0,
                    quote_position_native: 0,
                    bids_base_lots: 0,
                    asks_base_lots: 0,
                    active: false,
                },
            );
            i = i + 1;
        }
        let mut orders: Vec<PerpOpenOrder> = Vec::new();
        let mut i: usize = 0;
        while i < perp_oo_count
            invariant
                i <= perp_oo_count,
                orders@.len() == i,
                forall|k: int| 0 <= k < i ==> !(#[trigger] orders@[k]).active,
            decreases perp_oo_count - i,
        {
            orders.push(
                PerpOpenOrder { market_index: 0, side: Side::Bid, order_id: 0, active: false },
            );
            i = i + 1;
        }
        MangoAccount {
            owner,
            group,
            account_num,
            is_bankrupt: false,
            tokens,
            serum3,
            perps,
            perp_open_orders: orders,
        }
    }

    /// Slot of the active position in `token_index`, if any.
    pub fn token_slot(&self, token_index: u16) -> (r: Option<usize>)
        ensures
            r matches Some(i) ==> i < self.tokens@.len() && self.tokens@[i as int].active
                && self.tokens@[i as int].token_index == token_index,
            r is None ==> forall|i: int|
                0 <= i < self.tokens@.len() ==> !(#[trigger] self.tokens@[i]).active
                    || self.tokens@[i].token_index != token_index,
    {
        let mut i: usize = 0;
        while i < self.tokens.len()
            invariant
                i <= self.tokens@.len(),
                forall|k: int|
                    0 <= k < i ==> !(#[trigger] self.tokens@[k]).active
                        || self.tokens@[k].token_index != token_index,
            decreases self.tokens@.len() - i,
        {
            if self.tokens[i].active && self.tokens[i].token_index == token_index {
                return Some(i);
            }
            i = i + 1;
        }
        None
    }

    /// First inactive token slot, if any.
    pub fn free_token_slot(&self) -> (r: Option<usize>)
        ensures
            r matches Some(i) ==> i < self.tokens@.len() && !self.tokens@[i as int].active
                && forall|k: int| 0 <= k < i ==> (#[trigger] self.tokens@[k]).active,
            r is None ==> forall|i: int|
                0 <= i < self.tokens@.len() ==> (#[trigger] self.tokens@[i]).active,
    {
        let mut i: usize = 0;
        while i < self.tokens.len()
            invariant
                i <= self.tokens@.len(),
                forall|k: int| 0 <= k < i ==> (#[trigger] self.tokens@[k]).active,
            decreases self.tokens@.len() - i,
        {
            if !self.tokens[i].active {
                return Some(i);
            }
            i = i + 1;
        }
        None
    }
}

} // verus!
