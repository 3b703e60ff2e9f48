//! Decisions the submitting client makes before it builds an instruction:
//! which auxiliary accounts a health check needs and in what order, the
//! number of a new account, and which swap route to splice into a flash loan.
use vstd::prelude::*;
use crate::account::MangoAccount;
use itertools::Itertools;

verus! {

/// `s` with every element after its first occurrence removed.
pub open spec fn first_occurrences(s: Seq<u16>) -> Seq<u16>
    decreases s.len(),
{
    if s.len() == 0 {
        s
    } else {
        let p = first_occurrences(s.drop_last());
        if p.contains(s.last()) {
            p
        } else {
            p.push(s.last())
        }
    }
}

/// Relies on `itertools::Itertools::unique`: the elements in order, each
/// only at its first occurrence.
#[verifier::external_body]
fn unique_in_order(v: Vec<u16>) -> (r: Vec<u16>)
    ensures
        r@ == first_occurrences(v@),
{
    v.into_iter().unique().collect()
}

/// Token indices of the first `n` token slots that are active, in slot order.
pub open spec fn active_tokens_prefix(a: MangoAccount, n: int) -> Seq<u16>
    decreases n,
{
    if n <= 0 || n > a.tokens@.len() {
        Seq::empty()
    } else {
        let p = active_tokens_prefix(a, n - 1);
        if a.tokens@[n - 1].active {
            p.push(a.tokens@[n - 1].token_index)
        } else {
            p
        }
    }
}

/// Market indices of the first `n` perp slots that are active, in slot order.
pub open spec fn active_perps_prefix(a: MangoAccount, n: int) -> Seq<u16>
    decreases n,
{
    if n <= 0 || n > a.perps@.len() {
        Seq::empty()
    } else {
        let p = active_perps_prefix(a, n - 1);
        if a.perps@[n - 1].active {
            p.push(a.perps@[n - 1].market_index)
        } else {
            p
        }
    }
}

fn push_active_tokens(a: &MangoAccount, out: &mut Vec<u16>)
    ensures
        final(out)@ == old(out)@ + active_tokens_prefix(*a, a.tokens@.len() as int),
{
    let mut i: usize = 0;
    while i < a.tokens.len()
        invariant
            i <= a.tokens@.len(),
            out@ == old(out)@ + active_tokens_prefix(*a, i as int),
        decreases a.tokens@.len() - i,
    {
        if a.tokens[i].active {
            out.push(a.tokens[i].token_index);
        }
        proof {
            assert(old(out)@ + active_tokens_prefix(*a, i + 1) =~= out@);
        }
        i = i + 1;
    }
}

/// Market indices of the account's active perp positions, in slot order.
pub fn active_perp_markets(a: &MangoAccount) -> (r: Vec<u16>)
    ensures
        r@ == active_perps_prefix(*a, a.perps@.len() as int),
{
    let mut out: Vec<u16> = Vec::new();
    let mut i: usize = 0;
    while i < a.perps.len()
        invariant
            i <= a.perps@.len(),
            out@ == active_perps_prefix(*a, i as int),
        decreases a.perps@.len() - i,
    {
        if a.perps[i].active {
            out.push(a.perps[i].market_index);
        }
        i = i + 1;
    }
    out
}

/// The tokens whose banks and oracles a liquidation's health checks need:
/// those of the liqee's active slots then the liqor's, each once, in that
/// order; a bank is writable when it is the asset's or the liability's.
pub fn liquidation_health_tokens(
    liqee: &MangoAccount,
    liqor: &MangoAccount,
    asset_token_index: u16,
    liab_token_index: u16,
) -> (r: Vec<(u16, bool)>)
    ensures
        r@.len() == first_occurrences(
            active_tokens_prefix(*liqee, liqee.tokens@.len() as int) + active_tokens_prefix(
                *liqor,
                liqor.tokens@.len() as int,
            ),
        ).len(),
        forall|k: int|
            0 <= k < r@.len() ==> (#[trigger] r@[k]).0 == first_occurrences(
                active_tokens_prefix(*liqee, liqee.tokens@.len() as int) + active_tokens_prefix(
                    *liqor,
                    liqor.tokens@.len() as int,
                ),
            )[k] && r@[k].1 == (r@[k].0 == asset_token_index || r@[k].0 == liab_token_index),
{
    let mut all: Vec<u16> = Vec::new();
    push_active_tokens(liqee, &mut all);
    push_active_tokens(liqor, &mut all);
    let unique = unique_in_order(all);
    let mut out: Vec<(u16, bool)> = Vec::new();
    let mut i: usize = 0;
    while i < unique.len()
        invariant
            i <= unique@.len(),
            out@.len() == i,
            forall|k: int|
                0 <= k < i ==> (#[trigger] out@[k]).0 == unique@[k] && out@[k].1 == (unique@[k]
                    == asset_token_index || unique@[k] == liab_token_index),
        decreases unique@.len() - i,
    {
        let t = unique[i];
        out.push((t, t == asset_token_index || t == liab_token_index));
        i = i + 1;
    }
    out
}

/// The number for an owner's next account: one past the largest existing
/// number, zero when there is none; `None` when the largest is `u32::MAX`.
pub fn next_account_num(existing: &Vec<u32>) -> (r: Option<u32>)
    ensures
        existing@.len() == 0 ==> r == Some(0u32),
        existing@.len() > 0 ==> exists|k: int|
            0 <= k < existing@.len() && (forall|m: int|
                0 <= m < existing@.len() ==> existing@[m] <= #[trigger] existing@[k]) && (if existing@[k]
                == u32::MAX {
                r is None
            } else {
                r == Some((existing@[k] + 1) as u32)
            }),
{
    if existing.len() == 0 {
        return Some(0);
    }
    let mut best: usize = 0;
    let mut i: usize = 1;
    while i < existing.len()
        invariant
            0 < existing@.len(),
            1 <= i <= existing@.len(),
            best < i,
            forall|m: int| 0 <= m < i ==> existing@[m] <= existing@[best as int],
        decreases existing@.len() - i,
    {
        if existing[i] > existing[best] {
            best = i;
        }
        i = i + 1;
    }
    let m = existing[best];
    if m == u32::MAX {
        None
    } else {
        Some(m + 1)
    }
}

/// The fee tier a venue grants for MSRM and SRM holdings.
pub fn serum_fee_tier(msrm_balance: u64, srm_balance: u64) -> (r: u64)
    ensures
        r == (if msrm_balance >= 1 {
            6u64
        } else if srm_balance >= 1_000_000 {
            5
        } else if srm_balance >= 100_000 {
            4
        } else if srm_balance >= 10_000 {
            3
        } else if srm_balance >= 1_000 {
            2
        } else if srm_balance >= 100 {
            1
        } else {
            0
        }),
{
    if msrm_balance >= 1 {
        6
    } else if srm_balance >= 1_000_000 {
        5
    } else if srm_balance >= 100_000 {
        4
    } else if srm_balance >= 10_000 {
        3
    } else if srm_balance >= 1_000 {
        2
    } else if srm_balance >= 100 {
        1
    } else {
        0
    }
}

/// `s` holds `pat` as a contiguous run.
pub open spec fn holds_run(s: Seq<char>, pat: Seq<char>) -> bool {
    exists|i: int| 0 <= i <= s.len() - pat.len() && #[trigger] s.subrange(i, i + pat.len()) == pat
}

/// Relies on `str::contains` with a `&str` pattern: whether `pat` occurs in
/// `s` as a substring.
#[verifier::external_body]
fn str_contains(s: &str, pat: &str) -> (r: bool)
    ensures
        r == holds_run(s@, pat@),
{
    s.contains(pat)
}

/// A route is usable when none of its markets' labels mentions `excluded`.
pub open spec fn route_usable(labels: Seq<String>, excluded: Seq<char>) -> bool {
    forall|m: int| 0 <= m < labels.len() ==> !holds_run(#[trigger] labels[m]@, excluded)
}

/// Index of the first route none of whose market labels mentions `excluded`
/// (routes through venues with too many accounts are skipped).
pub fn first_usable_route(routes: &Vec<Vec<String>>, excluded: &str) -> (r: Option<usize>)
    ensures
        r matches Some(k) ==> k < routes@.len() && route_usable(routes@[k as int]@, excluded@)
            && forall|j: int| 0 <= j < k ==> !route_usable(#[trigger] routes@[j]@, excluded@),
        r is None ==> forall|j: int|
            0 <= j < routes@.len() ==> !route_usable(#[trigger] routes@[j]@, excluded@),
{
    let mut k: usize = 0;
    while k < routes.len()
        invariant
            k <= routes@.len(),
            forall|j: int| 0 <= j < k ==> !route_usable(#[trigger] routes@[j]@, excluded@),
        decreases routes@.len() - k,
    {
        let labels = &routes[k];
        let mut m: usize = 0;
        let mut usable = true;
        while m < labels.len()
            invariant
                m <= labels@.len(),
                labels@ == routes@[k as int]@,
                usable ==> forall|q: int| 0 <= q < m ==> !holds_run(#[trigger] labels@[q]@, excluded@),
                !usable ==> !route_usable(labels@, excluded@),
            decreases labels@.len() - m,
        {
            if str_contains(labels[m].as_str(), excluded) {
                usable = false;
            }
            m = m + 1;
        }
        if usable {
            return Some(k);
        }
        k = k + 1;
    }
    None
}

/// One auxiliary account of a health check, named by what it stands for.
#[derive(Clone, Copy, Debug, PartialEq, Eq, Structural)]
pub enum HealthAccountRef {
    Bank { token_index: u16, writable: bool },
    Oracle { token_index: u16 },
    PerpMarket { market_index: u16 },
    OpenOrders { of_liqor: bool, market_index: u16 },
}

/// Market indices of the first `n` open-orders slots that are active.
pub open spec fn active_serum_prefix(a: MangoAccount, n: int) -> Seq<u16>
    decreases n,
{
    if n <= 0 || n > a.serum3@.len() {
        Seq::empty()
    } else {
        let p = active_serum_prefix(a, n - 1);
        if a.serum3@[n - 1].active {
            p.push(a.serum3@[n - 1].market_index)
        } else {
            p
        }
    }
}

fn push_open_orders(a: &MangoAccount, of_liqor: bool, out: &mut Vec<HealthAccountRef>)
    ensures
        final(out)@ == old(out)@ + active_serum_prefix(*a, a.serum3@.len() as int).map_values(
            |m: u16| HealthAccountRef::OpenOrders { of_liqor, market_index: m },
        ),
{
    let mut i: usize = 0;
    while i < a.serum3.len()
        invariant
            i <= a.serum3@.len(),
            out@ == old(out)@ + active_serum_prefix(*a, i as int).map_values(
                |m: u16| HealthAccountRef::OpenOrders { of_liqor, market_index: m },
            ),
        decreases a.serum3@.len() - i,
    {
        if a.serum3[i].active {
            out.push(HealthAccountRef::OpenOrders { of_liqor, market_index: a.serum3[i].market_index });
        }
        proof {
            assert(old(out)@ + active_serum_prefix(*a, i + 1).map_values(
                |m: u16| HealthAccountRef::OpenOrders { of_liqor, market_index: m },
            ) =~= out@);
        }
        i = i + 1;
    }
}

/// The trailing health accounts of a liquidation in their fixed order: the
/// banks of the tokens of `liquidation_health_tokens`, then their oracles,
/// then the liqee's and the liqor's active perp markets, then the liqee's and
/// the liqor's active open-orders accounts.
pub fn liquidation_health_accounts(
    liqee: &MangoAccount,
    liqor: &MangoAccount,
    asset_token_index: u16,
    liab_token_index: u16,
) -> (r: Vec<HealthAccountRef>)
    ensures
        ({
            let toks = first_occurrences(
                active_tokens_prefix(*liqee, liqee.tokens@.len() as int) + active_tokens_prefix(
                    *liqor,
                    liqor.tokens@.len() as int,
                ),
            );
            r@ == toks.map_values(
                |t: u16|
                    HealthAccountRef::Bank {
                        token_index: t,
                        writable: t == asset_token_index || t == liab_token_index,
                    },
            ) + toks.map_values(|t: u16| HealthAccountRef::Oracle { token_index: t }) + (
            active_perps_prefix(*liqee, liqee.perps@.len() as int) + active_perps_prefix(
                *liqor,
                liqor.perps@.len() as int,
            )).map_values(|m: u16| HealthAccountRef::PerpMarket { market_index: m })
                + active_serum_prefix(*liqee, liqee.serum3@.len() as int).map_values(
                |m: u16| HealthAccountRef::OpenOrders { of_liqor: false, market_index: m },
            ) + active_serum_prefix(*liqor, liqor.serum3@.len() as int).map_values(
                |m: u16| HealthAccountRef::OpenOrders { of_liqor: true, market_index: m },
            )
        }),
{
    let tokens = liquidation_health_tokens(liqee, liqor, asset_token_index, liab_token_index);
    let ghost toks = first_occurrences(
        active_tokens_prefix(*liqee, liqee.tokens@.len() as int) + active_tokens_prefix(
            *liqor,
            liqor.tokens@.len() as int,
        ),
    );
    let mut out: Vec<HealthAccountRef> = Vec::new();
    let mut i: usize = 0;
    while i < tokens.len()
        invariant
            i <= tokens@.len() == toks.len(),
            forall|k: int|
                0 <= k < tokens@.len() ==> (#[trigger] tokens@[k]).0 == toks[k] && tokens@[k].1 == (
                tokens@[k].0 == asset_token_index || tokens@[k].0 == liab_token_index),
            out@ =~= toks.take(i as int).map_values(
                |t: u16|
                    HealthAccountRef::Bank {
                        token_index: t,
                        writable: t == asset_token_index || t == liab_token_index,
                    },
            ),
        decreases tokens@.len() - i,
    {
        out.push(HealthAccountRef::Bank { token_index: tokens[i].0, writable: tokens[i].1 });
        proof {
            assert(toks.take(i + 1) =~= toks.take(i as int).push(toks[i as int]));
        }
        i = i + 1;
    }
    proof {
        assert(toks.take(toks.len() as int) =~= toks);
    }
    let ghost banks = out@;
    let mut i: usize = 0;
    while i < tokens.len()
        invariant
            i <= tokens@.len() == toks.len(),
            forall|k: int| 0 <= k < tokens@.len() ==> (#[trigger] tokens@[k]).0 == toks[k],
            out@ =~= banks + toks.take(i as int).map_values(
                |t: u16| HealthAccountRef::Oracle { token_index: t },
            ),
        decreases tokens@.len() - i,
    {
        out.push(HealthAccountRef::Oracle { token_index: tokens[i].0 });
        proof {
            assert(toks.take(i + 1) =~= toks.take(i as int).push(toks[i as int]));
        }
        i = i + 1;
    }
    proof {
        assert(toks.take(toks.len() as int) =~= toks);
    }
    let mut perps = active_perp_markets(liqee);
    let mut more = active_perp_markets(liqor);
    perps.append(&mut more);
    let ghost before_perps = out@;
    let mut i: usize = 0;
    while i < perps.len()
        invariant
            i <= perps@.len(),
            out@ =~= before_perps + perps@.take(i as int).map_values(
                |m: u16| HealthAccountRef::PerpMarket { market_index: m },
            ),
        decreases perps@.len() - i,
    {
        out.push(HealthAccountRef::PerpMarket { market_index: perps[i] });
        proof {
            assert(perps@.take(i + 1) =~= perps@.take(i as int).push(perps@[i as int]));
        }
        i = i + 1;
    }
    proof {
        assert(perps@.take(perps@.len() as int) =~= perps@);
    }
    push_open_orders(liqee, false, &mut out);
    push_open_orders(liqor, true, &mut out);
    out
}

/// The ids of the non-empty slots of an open-orders account, in slot order.
pub open spec fn nonzero_prefix(ids: Seq<u128>, n: int) -> Seq<u128>
    decreases n,
{
    if n <= 0 || n > ids.len() {
        Seq::empty()
    } else if ids[n - 1] != 0 {
        nonzero_prefix(ids, n - 1).push(ids[n - 1])
    } else {
        nonzero_prefix(ids, n - 1)
    }
}

/// The order ids to cancel when cancelling all orders on a spot market:
/// every non-empty slot of the open-orders account, in slot order.
pub fn open_order_ids(ids: &Vec<u128>) -> (r: Vec<u128>)
    ensures
        r@ == nonzero_prefix(ids@, ids@.len() as int),
{
    let mut out: Vec<u128> = Vec::new();
    let mut i: usize = 0;
    while i < ids.len()
        invariant
            i <= ids@.len(),
            out@ == nonzero_prefix(ids@, i as int),
        decreases ids@.len() - i,
    {
        if ids[i] != 0 {
            out.push(ids[i]);
        }
        i = i + 1;
    }
    out
}

} // verus!
