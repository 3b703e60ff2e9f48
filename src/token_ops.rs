//! Deposits and withdrawals; a withdrawal that borrows is gated by init
//! health after the change.
use vstd::prelude::*;
use crate::account::{MangoAccount, TokenPosition};
use crate::error::MangoError;
use crate::fixed_point::{div_bits, fx_div, fx_from_u64, fx_mul, fx_add, in_i128, mul_bits, one};
use crate::health::{account_health, compute_health, native_of, HealthAccounts, HealthType, TokenInfo};

verus! {

/// Indexed position after adding `delta` (fixed-point bits) to the native
/// amount: the new native amount divided by the deposit index when it is not
/// negative, else by the borrow index. `None` on overflow or a zero index.
pub open spec fn indexed_after(indexed: int, bank: TokenInfo, delta: int) -> Option<int> {
    let native = native_of(indexed, bank);
    let n2 = native + delta;
    let index = if n2 >= 0 {
        bank.deposit_index as int
    } else {
        bank.borrow_index as int
    };
    if in_i128(native) && in_i128(n2) && index != 0 && in_i128(div_bits(n2, index)) {
        Some(div_bits(n2, index))
    } else {
        None
    }
}

/// The slot a change in `token_index` goes to: the active position in that
/// token, else the first inactive slot.
pub open spec fn is_target_slot(tokens: Seq<TokenPosition>, token_index: u16, i: int) -> bool {
    0 <= i < tokens.len() && ((tokens[i].active && tokens[i].token_index == token_index) || (
    !tokens[i].active && (forall|k: int|
        0 <= k < tokens.len() ==> !(#[trigger] tokens[k]).active || tokens[k].token_index
            != token_index) && forall|k: int| 0 <= k < i ==> (#[trigger] tokens[k]).active))
}

pub open spec fn has_target_slot(tokens: Seq<TokenPosition>, token_index: u16) -> bool {
    exists|i: int| is_target_slot(tokens, token_index, i)
}

/// The slot a change in `token_index` goes to, when there is one.
pub open spec fn target_slot(tokens: Seq<TokenPosition>, token_index: u16) -> int {
    choose|i: int| is_target_slot(tokens, token_index, i)
}

/// Token slots after `delta` native bits are added in the bank's token;
/// `None` when no slot is available or on overflow.
pub open spec fn tokens_after_change(
    tokens: Seq<TokenPosition>,
    bank: TokenInfo,
    delta: int,
) -> Option<Seq<TokenPosition>> {
    if has_target_slot(tokens, bank.token_index) {
        let i = target_slot(tokens, bank.token_index);
        match indexed_after(slot_indexed(tokens, i), bank, delta) {
            Some(v) => Some(tokens_with(tokens, i, bank.token_index, v)),
            None => None,
        }
    } else {
        None
    }
}

/// The error of a change that cannot be booked: no slot, or overflow.
pub open spec fn change_error(tokens: Seq<TokenPosition>, bank: TokenInfo) -> MangoError {
    if has_target_slot(tokens, bank.token_index) {
        MangoError::ArithmeticError
    } else {
        MangoError::StateError
    }
}

/// Under unique token indices there is at most one target slot.
pub proof fn lemma_target_slot_unique(tokens: Seq<TokenPosition>, token_index: u16, i: int, j: int)
    requires
        crate::account::tokens_unique(tokens),
        is_target_slot(tokens, token_index, i),
        is_target_slot(tokens, token_index, j),
    ensures
        i == j,
{
    if i != j {
        if tokens[i].active && tokens[j].active {
        } else if !tokens[i].active && !tokens[j].active {
            if i < j {
                assert(tokens[i].active);
            } else {
                assert(tokens[j].active);
            }
        } else if tokens[i].active {
            assert(!tokens[i].active || tokens[i].token_index != token_index);
        } else {
            assert(!tokens[j].active || tokens[j].token_index != token_index);
        }
    }
}

/// Value of the position in slot `i` before the change (zero when inactive).
pub open spec fn slot_indexed(tokens: Seq<TokenPosition>, i: int) -> int {
    if tokens[i].active {
        tokens[i].indexed_position as int
    } else {
        0
    }
}

/// All fields but the token slots are equal.
pub open spec fn same_but_tokens(a: MangoAccount, b: MangoAccount) -> bool {
    &&& a.owner == b.owner
    &&& a.group == b.group
    &&& a.account_num == b.account_num
    &&& a.is_bankrupt == b.is_bankrupt
    &&& a.perps@ == b.perps@
    &&& a.serum3@ == b.serum3@
    &&& a.perp_open_orders@ == b.perp_open_orders@
}

pub open spec fn unchanged(a: MangoAccount, b: MangoAccount) -> bool {
    same_but_tokens(a, b) && a.tokens@ == b.tokens@
}

/// Token slots after the position in slot `i` becomes `indexed`.
pub open spec fn tokens_with(
    tokens: Seq<TokenPosition>,
    i: int,
    token_index: u16,
    indexed: int,
) -> Seq<TokenPosition> {
    tokens.update(i, TokenPosition { indexed_position: indexed as i128, token_index, active: true })
}

fn find_target_slot(account: &MangoAccount, token_index: u16) -> (r: Option<usize>)
    ensures
        r matches Some(i) ==> is_target_slot(account.tokens@, token_index, i as int),
        r is None ==> !has_target_slot(account.tokens@, token_index),
{
    match account.token_slot(token_index) {
        Some(i) => Some(i),
        None => {
            let f = account.free_token_slot();
            proof {
                if f is None {
                    assert forall|i: int| !is_target_slot(account.tokens@, token_index, i) by {
                        if 0 <= i < account.tokens@.len() {
                            assert(account.tokens@[i].active);
                        }
                    }
                }
            }
            f
        },
    }
}

/// Adds `delta` native bits to the position in `token_index`, opening a slot
/// when none is active. Leaves the account unchanged on error.
pub(crate) fn change_position(account: &mut MangoAccount, bank: &TokenInfo, delta: i128) -> (r: Result<
    usize,
    MangoError,
>)
    requires
        old(account).wf(),
    ensures
        same_but_tokens(*final(account), *old(account)),
        final(account).wf(),
        r matches Ok(i) ==> is_target_slot(old(account).tokens@, bank.token_index, i as int)
            && indexed_after(slot_indexed(old(account).tokens@, i as int), *bank, delta as int)
            is Some && final(account).tokens@ == tokens_with(
            old(account).tokens@,
            i as int,
            bank.token_index,
            indexed_after(slot_indexed(old(account).tokens@, i as int), *bank, delta as int)->0,
        ),
        r matches Err(e) ==> e == MangoError::StateError || e == MangoError::ArithmeticError,
        r is Ok ==> tokens_after_change(old(account).tokens@, *bank, delta as int) == Some(
            final(account).tokens@,
        ),
        r is Err ==> tokens_after_change(old(account).tokens@, *bank, delta as int) is None,
        r matches Err(e) ==> e == change_error(old(account).tokens@, *bank),
        r matches Err(e) ==> final(account).tokens@ == old(account).tokens@ && (
        !has_target_slot(old(account).tokens@, bank.token_index) && e == MangoError::StateError
            || exists|i: int|
            is_target_slot(old(account).tokens@, bank.token_index, i) && indexed_after(
                slot_indexed(old(account).tokens@, i),
                *bank,
                delta as int,
            ) is None && e == MangoError::ArithmeticError),
{
    let i = match find_target_slot(account, bank.token_index) {
        Some(i) => i,
        None => return Err(MangoError::StateError),
    };
    let t = account.tokens[i];
    let indexed = if t.active {
        t.indexed_position
    } else {
        0
    };
    let index = if indexed >= 0 {
        bank.deposit_index
    } else {
        bank.borrow_index
    };
    let native = match fx_mul(indexed, index) {
        Some(n) => n,
        None => return Err(MangoError::ArithmeticError),
    };
    let n2 = match fx_add(native, delta) {
        Some(n) => n,
        None => return Err(MangoError::ArithmeticError),
    };
    let index2 = if n2 >= 0 {
        bank.deposit_index
    } else {
        bank.borrow_index
    };
    let new_indexed = match fx_div(n2, index2) {
        Some(q) => q,
        None => return Err(MangoError::ArithmeticError),
    };
    proof {
        let ghost j = target_slot(old(account).tokens@, bank.token_index);
        lemma_target_slot_unique(old(account).tokens@, bank.token_index, i as int, j);
    }
    account.tokens.set(
        i,
        TokenPosition { indexed_position: new_indexed, token_index: bank.token_index, active: true },
    );
    Ok(i)
}

/// Deposits `amount` native units of the bank's token into the account.
/// Deposits decrease risk and are not health-gated.
pub fn token_deposit(account: &mut MangoAccount, bank: &TokenInfo, amount: u64) -> (r: Result<
    (),
    MangoError,
>)
    requires
        old(account).wf(),
    ensures
        same_but_tokens(*final(account), *old(account)),
        r is Ok ==> exists|i: int|
            is_target_slot(old(account).tokens@, bank.token_index, i) && indexed_after(
                slot_indexed(old(account).tokens@, i),
                *bank,
                amount as int * one(),
            ) is Some && final(account).tokens@ == tokens_with(
                old(account).tokens@,
                i,
                bank.token_index,
                indexed_after(slot_indexed(old(account).tokens@, i), *bank, amount as int * one())->0,
            ),
        r matches Err(e) ==> final(account).tokens@ == old(account).tokens@ && (e
            == MangoError::StateError || e == MangoError::ArithmeticError),
        r matches Err(e) && e == MangoError::StateError ==> !has_target_slot(
            old(account).tokens@,
            bank.token_index,
        ),
        has_target_slot(old(account).tokens@, bank.token_index) && (forall|i: int|
            is_target_slot(old(account).tokens@, bank.token_index, i) ==> indexed_after(
                slot_indexed(old(account).tokens@, i),
                *bank,
                amount as int * one(),
            ) is Some) ==> r is Ok,
{
    let delta = fx_from_u64(amount);
    match change_position(account, bank, delta) {
        Ok(_) => Ok(()),
        Err(e) => Err(e),
    }
}

/// Withdraws `amount` native units of the bank's token, borrowing what the
/// position does not hold. Refused on a bankrupt account; refused with
/// `InsolvencyError` when init health after the change would be negative.
/// `health_accounts` are those of the account after the change. Returns the
/// init health after the change; on error the account is unchanged.
pub fn token_withdraw(
    account: &mut MangoAccount,
    bank: &TokenInfo,
    amount: u64,
    health_accounts: &HealthAccounts,
) -> (r: Result<i128, MangoError>)
    requires
        old(account).wf(),
    ensures
        r matches Ok(h) ==> h >= 0 && account_health(*final(account), *health_accounts, HealthType::Init)
            == Ok::<int, MangoError>(h as int),
        r matches Ok(_) ==> same_but_tokens(*final(account), *old(account)) && exists|i: int|
            is_target_slot(old(account).tokens@, bank.token_index, i) && indexed_after(
                slot_indexed(old(account).tokens@, i),
                *bank,
                -(amount as int * one()),
            ) is Some && final(account).tokens@ == tokens_with(
                old(account).tokens@,
                i,
                bank.token_index,
                indexed_after(slot_indexed(old(account).tokens@, i), *bank, -(amount as int * one()))->0,
            ),
        r is Err ==> unchanged(*final(account), *old(account)),
        old(account).is_bankrupt ==> r == Err::<i128, MangoError>(MangoError::IsBankrupt),
        !old(account).is_bankrupt ==> match tokens_after_change(
            old(account).tokens@,
            *bank,
            -(amount as int * one()),
        ) {
            None => r == Err::<i128, MangoError>(change_error(old(account).tokens@, *bank)),
            Some(t) => match health_of_tokens(*old(account), t, *health_accounts) {
                Err(e) => r == Err::<i128, MangoError>(e),
                Ok(h) => if h >= 0 {
                    r == Ok::<i128, MangoError>(h as i128)
                } else {
                    r == Err::<i128, MangoError>(MangoError::InsolvencyError)
                },
            },
        },
        r matches Err(e) && e == MangoError::InsolvencyError ==> exists|i: int, h: int|
            is_target_slot(old(account).tokens@, bank.token_index, i) && indexed_after(
                slot_indexed(old(account).tokens@, i),
                *bank,
                -(amount as int * one()),
            ) is Some && h < 0 && health_of_tokens(
                *old(account),
                tokens_with(
                    old(account).tokens@,
                    i,
                    bank.token_index,
                    indexed_after(slot_indexed(old(account).tokens@, i), *bank, -(amount as int * one()))->0,
                ),
                *health_accounts,
            ) == Ok::<int, MangoError>(h),
        !old(account).is_bankrupt && (forall|i: int|
            is_target_slot(old(account).tokens@, bank.token_index, i) ==> indexed_after(
                slot_indexed(old(account).tokens@, i),
                *bank,
                -(amount as int * one()),
            ) is Some && (health_of_tokens(
                *old(account),
                tokens_with(
                    old(account).tokens@,
                    i,
                    bank.token_index,
                    indexed_after(slot_indexed(old(account).tokens@, i), *bank, -(amount as int * one()))->0,
                ),
                *health_accounts,
            ) matches Ok(h) && h >= 0)) && has_target_slot(old(account).tokens@, bank.token_index)
            ==> r is Ok,
{
    if account.is_bankrupt {
        return Err(MangoError::IsBankrupt);
    }
    let saved = account.tokens.clone();
    let delta = fx_from_u64(amount);
    let neg = 0 - delta;
    let i = match change_position(account, bank, neg) {
        Ok(i) => i,
        Err(e) => return Err(e),
    };
    let h = match compute_health(account, health_accounts, HealthType::Init) {
        Ok(h) => h,
        Err(e) => {
            account.tokens = saved;
            return Err(e);
        },
    };
    if h < 0 {
        account.tokens = saved;
        return Err(MangoError::InsolvencyError);
    }
    Ok(h)
}

/// Init health of an account whose token slots are replaced by `tokens`.
pub open spec fn health_of_tokens(
    a: MangoAccount,
    tokens: Seq<TokenPosition>,
    h: HealthAccounts,
) -> Result<int, MangoError> {
    crate::health::full_health(
        tokens,
        a.perps@,
        a.serum3@,
        h.tokens@,
        h.perps@,
        h.open_orders@,
        HealthType::Init,
    )
}

} // verus!
