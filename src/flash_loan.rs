//! The flash-loan bracket: `Begin` records vault balances and hands out the
//! loans; `End` books the vaults' net outflow as the account's change of
//! position and re-checks init health unconditionally.
use vstd::prelude::*;
use crate::account::MangoAccount;
use crate::error::MangoError;
use crate::fixed_point::{fx_add, fx_from_u64, fx_mul, in_i128, mul_bits};
use crate::health::{account_health, compute_health, full_health, HealthAccounts, HealthType, TokenInfo};
use crate::account::TokenPosition;
use crate::fixed_point::one;
use crate::token_ops::{change_position, same_but_tokens, tokens_after_change, unchanged};

verus! {

/// What `Begin` recorded: the vault balances before the loans, and the loans.
#[derive(Clone, Debug)]
pub struct FlashLoanRecord {
    pub vault_balances: Vec<u64>,
    pub loan_amounts: Vec<u64>,
}

/// Opens a bracket over the given vaults. Each loan must be covered by its
/// vault; the vaults' balances after the loans are returned with the record.
pub fn flash_loan_begin(vault_balances: &Vec<u64>, loan_amounts: &Vec<u64>) -> (r: Result<
    (FlashLoanRecord, Vec<u64>),
    MangoError,
>)
    ensures
        r is Ok <==> vault_balances@.len() == loan_amounts@.len() && forall|i: int|
            0 <= i < loan_amounts@.len() ==> loan_amounts@[i] <= vault_balances@[i],
        r matches Ok((rec, after)) ==> rec.vault_balances@ == vault_balances@
            && rec.loan_amounts@ == loan_amounts@ && after@.len() == vault_balances@.len()
            && forall|i: int|
            0 <= i < after@.len() ==> after@[i] == vault_balances@[i] - loan_amounts@[i],
        r is Err ==> r == Err::<(FlashLoanRecord, Vec<u64>), MangoError>(
            MangoError::InvalidArgument,
        ),
{
    if vault_balances.len() != loan_amounts.len() {
        return Err(MangoError::InvalidArgument);
    }
    let mut after: Vec<u64> = Vec::new();
    let mut i: usize = 0;
    while i < loan_amounts.len()
        invariant
            i <= loan_amounts@.len() == vault_balances@.len(),
            after@.len() == i,
            forall|k: int| 0 <= k < i ==> loan_amounts@[k] <= vault_balances@[k],
            forall|k: int| 0 <= k < i ==> after@[k] == vault_balances@[k] - loan_amounts@[k],
        decreases loan_amounts@.len() - i,
    {
        if loan_amounts[i] > vault_balances[i] {
            return Err(MangoError::InvalidArgument);
        }
        after.push(vault_balances[i] - loan_amounts[i]);
        i = i + 1;
    }
    Ok((FlashLoanRecord { vault_balances: vault_balances.clone(), loan_amounts: loan_amounts.clone() }, after))
}

/// Token slots after the first `n` vault changes of a bracket are booked:
/// each vault's change since `Begin` is added to the position in its bank's
/// token. `None` when a change cannot be booked.
pub open spec fn tokens_after_bracket(
    tokens: Seq<TokenPosition>,
    banks: Seq<TokenInfo>,
    before: Seq<u64>,
    now: Seq<u64>,
    fee_rate: int,
    n: nat,
) -> Option<Seq<TokenPosition>>
    decreases n,
{
    if n == 0 {
        Some(tokens)
    } else {
        match tokens_after_bracket(tokens, banks, before, now, fee_rate, (n - 1) as nat) {
            None => None,
            Some(t) => match owed_change(before[n - 1] as int, now[n - 1] as int, fee_rate) {
                None => None,
                Some(d) => tokens_after_change(t, banks[n - 1], d),
            },
        }
    }
}

/// The change booked for one vault: an outflow is owed back with the fee
/// (`fee_rate` of it, fixed-point), an inflow is a deposit. `None` on overflow.
pub open spec fn owed_change(before: int, now: int, fee_rate: int) -> Option<int> {
    let outflow = (before - now) * one();
    let fee = mul_bits(outflow, fee_rate);
    if outflow > 0 {
        if in_i128(fee) && in_i128(outflow + fee) {
            Some(-(outflow + fee))
        } else {
            None
        }
    } else {
        Some(-outflow)
    }
}

fn owed(before: u64, now: u64, fee_rate: i128) -> (r: Option<i128>)
    ensures
        r matches Some(d) ==> owed_change(before as int, now as int, fee_rate as int) == Some(d as int),
        r is None ==> owed_change(before as int, now as int, fee_rate as int) is None,
{
    let outflow = fx_from_u64(before) - fx_from_u64(now);
    proof {
        assert(outflow == (before - now) * one()) by (nonlinear_arith)
            requires outflow == before * one() - now * one();
    }
    if outflow > 0 {
        let fee = match fx_mul(outflow, fee_rate) {
            Some(f) => f,
            None => return None,
        };
        match fx_add(outflow, fee) {
            Some(t) => Some(0 - t),
            None => None,
        }
    } else {
        Some(0 - outflow)
    }
}

proof fn lemma_bracket_none(
    tokens: Seq<TokenPosition>,
    banks: Seq<TokenInfo>,
    before: Seq<u64>,
    now: Seq<u64>,
    fee_rate: int,
    n: nat,
    m: nat,
)
    requires
        n <= m,
        tokens_after_bracket(tokens, banks, before, now, fee_rate, n) is None,
    ensures
        tokens_after_bracket(tokens, banks, before, now, fee_rate, m) is None,
    decreases m - n,
{
    if n < m {
        lemma_bracket_none(tokens, banks, before, now, fee_rate, n, (m - 1) as nat);
    }
}

/// Closes a bracket: for each bank, the vault's change since `Begin` is
/// booked on the account (an outflow, plus `loan_fee_rate` of it as fee, as
/// a withdrawal or borrow; an inflow as a deposit), then init health is recomputed over `health_accounts`. A
/// negative health rejects the whole bracket with `InsolvencyError`. On error
/// the account is unchanged. Returns the init health.
pub fn flash_loan_end(
    account: &mut MangoAccount,
    record: &FlashLoanRecord,
    vault_balances_now: &Vec<u64>,
    banks: &Vec<TokenInfo>,
    loan_fee_rate: i128,
    health_accounts: &HealthAccounts,
) -> (r: Result<i128, MangoError>)
    requires
        old(account).wf(),
    ensures
        r matches Ok(h) ==> h >= 0 && account_health(*final(account), *health_accounts, HealthType::Init)
            == Ok::<int, MangoError>(h as int),
        r is Ok ==> same_but_tokens(*final(account), *old(account)) && tokens_after_bracket(
            old(account).tokens@,
            banks@,
            record.vault_balances@,
            vault_balances_now@,
            loan_fee_rate as int,
            banks@.len(),
        ) == Some(final(account).tokens@),
        r is Err ==> unchanged(*final(account), *old(account)),
        record.vault_balances@.len() != vault_balances_now@.len() || record.vault_balances@.len()
            != banks@.len() ==> r == Err::<i128, MangoError>(MangoError::InvalidArgument),
        record.vault_balances@.len() == vault_balances_now@.len() == banks@.len()
            ==> match tokens_after_bracket(
            old(account).tokens@,
            banks@,
            record.vault_balances@,
            vault_balances_now@,
            loan_fee_rate as int,
            banks@.len(),
        ) {
            None => r == Err::<i128, MangoError>(MangoError::StateError) || r == Err::<
                i128,
                MangoError,
            >(MangoError::ArithmeticError),
            Some(t) => match full_health(
                t,
                old(account).perps@,
                old(account).serum3@,
                health_accounts.tokens@,
                health_accounts.perps@,
                health_accounts.open_orders@,
                HealthType::Init,
            ) {
                Err(e) => r == Err::<i128, MangoError>(e),
                Ok(h) => if h >= 0 {
                    r == Ok::<i128, MangoError>(h as i128)
                } else {
                    r == Err::<i128, MangoError>(MangoError::InsolvencyError)
                },
            },
        },
{
    if record.vault_balances.len() != vault_balances_now.len() || record.vault_balances.len()
        != banks.len() {
        return Err(MangoError::InvalidArgument);
    }
    let saved = account.tokens.clone();
    let mut i: usize = 0;
    while i < banks.len()
        invariant
            i <= banks@.len() == record.vault_balances@.len() == vault_balances_now@.len(),
            account.wf(),
            same_but_tokens(*account, *old(account)),
            saved@ == old(account).tokens@,
            tokens_after_bracket(
                old(account).tokens@,
                banks@,
                record.vault_balances@,
                vault_balances_now@,
                loan_fee_rate as int,
                i as nat,
            ) == Some(account.tokens@),
        decreases banks@.len() - i,
    {
        let change = match owed(record.vault_balances[i], vault_balances_now[i], loan_fee_rate) {
            Some(d) => d,
            None => {
                proof {
                    lemma_bracket_none(
                        old(account).tokens@,
                        banks@,
                        record.vault_balances@,
                        vault_balances_now@,
                        loan_fee_rate as int,
                        (i + 1) as nat,
                        banks@.len(),
                    );
                }
                account.tokens = saved;
                return Err(MangoError::ArithmeticError);
            },
        };
        match change_position(account, &banks[i], change) {
            Ok(_) => {},
            Err(e) => {
                proof {
                    lemma_bracket_none(
                        old(account).tokens@,
                        banks@,
                        record.vault_balances@,
                        vault_balances_now@,
                        loan_fee_rate as int,
                        (i + 1) as nat,
                        banks@.len(),
                    );
                }
                account.tokens = saved;
                return Err(e);
            },
        }
        i = i + 1;
    }
    let h = match compute_health(account, health_accounts, HealthType::Init) {
        Ok(h) => h,
        Err(e) => {
            account.tokens = saved;
            return Err(e);
        },
    };
    if h < 0 {
        account.tokens = saved;
        return Err(MangoError::InsolvencyError);
    }
    Ok(h)
}

} // verus!
