//! The single-leg swap in which the requester signs for the forwarded call
//! and the engine holds nothing.

use vstd::prelude::*;
use crate::account::{AccountMeta, GrantedAccount, Instruction, InstructionView, Transfer};
use crate::dispatch::{
    assemble, first_with_key, forwarded_call, has_key, lemma_first_exists,
    lemma_forwarded_call_never_escalates, references_resolve, references_resolved,
    resolve_references, AccountReferences, AccountReferencesView,
};
use crate::error::RaceswapError;
use crate::fee::{fee, fee_of, lemma_fee_at_most_amount};
use crate::key::Key;
use crate::permissions::Mediation;

verus! {

/// The treasury's rate on a single-leg swap, in basis points.
pub const TREASURY_FEE_BPS: u16 = 20;

/// The named accounts of a single-leg swap.
#[derive(Clone, Copy, Debug)]
pub struct ExecuteSwap {
    /// The requester, who pays the fee and signs.
    pub user: Key,
    /// Where the treasury fee is paid.
    pub treasury: Key,
    /// The program that the swap is forwarded to.
    pub jupiter_program: Key,
}

/// A single-leg swap request.
#[derive(Clone, Debug)]
pub struct ExecuteSwapParams {
    /// The input amount. Must not be zero.
    pub amount: u64,
    /// The least output the requester accepts. It travels with the request
    /// for the callee; this leg has no destination of the engine's to hold it
    /// against.
    pub min_out: u64,
    /// The accounts of the forwarded call.
    pub jupiter_accounts: AccountReferences,
    /// The callee's own instruction encoding. Never interpreted.
    pub jupiter_data: Vec<u8>,
}

/// The mathematical content of [`ExecuteSwapParams`].
pub struct ExecuteSwapParamsView {
    pub amount: u64,
    pub min_out: u64,
    pub jupiter_accounts: AccountReferencesView,
    pub jupiter_data: Seq<u8>,
}

impl View for ExecuteSwapParams {
    type V = ExecuteSwapParamsView;

    open spec fn view(&self) -> ExecuteSwapParamsView {
        ExecuteSwapParamsView {
            amount: self.amount,
            min_out: self.min_out,
            jupiter_accounts: self.jupiter_accounts@,
            jupiter_data: self.jupiter_data@,
        }
    }
}

/// What is to be done for a single-leg swap, in this order: the fee
/// transfer, where there is one, then the forwarded call.
#[derive(Clone, Debug)]
pub struct SwapPlan {
    /// The treasury fee. `None` where the fee is zero: no transfer of nothing
    /// is ever issued.
    pub fee_transfer: Option<Transfer>,
    pub call: Instruction,
}

/// The mathematical content of a [`SwapPlan`].
pub struct SwapPlanView {
    pub fee_transfer: Option<Transfer>,
    pub call: InstructionView,
}

impl View for SwapPlan {
    type V = SwapPlanView;

    open spec fn view(&self) -> SwapPlanView {
        SwapPlanView { fee_transfer: self.fee_transfer, call: self.call@ }
    }
}

/// The transfer that pays a fee of `lamports`, or none where the fee is zero.
pub open spec fn fee_transfer_of(from: Key, to: Key, lamports: int) -> Option<Transfer> {
    if lamports > 0 {
        Some(Transfer { from, to, lamports: lamports as u64 })
    } else {
        None
    }
}

/// Builds [`fee_transfer_of`].
pub fn fee_transfer(from: &Key, to: &Key, lamports: u64) -> (transfer: Option<Transfer>)
    ensures
        transfer == fee_transfer_of(*from, *to, lamports as int),
        transfer is None <==> lamports == 0,
{
    if lamports > 0 {
        Some(Transfer { from: *from, to: *to, lamports })
    } else {
        None
    }
}

/// What a single-leg swap comes to.
///
/// A zero amount is rejected first, then a reference that names no supplied
/// account. Otherwise the fee is the treasury's rate on the amount, and the
/// forwarded call presents each referenced account with the privileges the
/// outer call holds on it.
pub open spec fn swap_outcome(
    ctx: ExecuteSwap,
    params: ExecuteSwapParamsView,
    supplied: Seq<GrantedAccount>,
) -> Result<SwapPlanView, RaceswapError> {
    if params.amount == 0 {
        Err(RaceswapError::InvalidAmount)
    } else if !references_resolve(params.jupiter_accounts, supplied) {
        Err(RaceswapError::AccountMismatch)
    } else {
        Ok(
            SwapPlanView {
                fee_transfer: fee_transfer_of(
                    ctx.user,
                    ctx.treasury,
                    fee_of(params.amount as int, TREASURY_FEE_BPS as int),
                ),
                call: forwarded_call(
                    ctx.jupiter_program,
                    references_resolved(params.jupiter_accounts, supplied),
                    Mediation::Direct,
                    params.jupiter_data,
                ),
            },
        )
    }
}

/// Validates a single-leg swap and plans it.
pub fn execute_swap(ctx: &ExecuteSwap, params: &ExecuteSwapParams, supplied: &Vec<GrantedAccount>) -> (out:
    Result<SwapPlan, RaceswapError>)
    ensures
        match out {
            Ok(plan) => swap_outcome(*ctx, params@, supplied@) == Ok::<SwapPlanView, RaceswapError>(
                plan@,
            ),
            Err(e) => swap_outcome(*ctx, params@, supplied@) == Err::<SwapPlanView, RaceswapError>(
                e,
            ),
        },
{
    if params.amount == 0 {
        return Err(RaceswapError::InvalidAmount);
    }
    let resolved = match resolve_references(&params.jupiter_accounts, supplied) {
        Ok(resolved) => resolved,
        Err(e) => {
            return Err(e);
        },
    };
    let lamports: u64 = fee(params.amount, TREASURY_FEE_BPS);
    let transfer = fee_transfer(&ctx.user, &ctx.treasury, lamports);
    let call = assemble(&ctx.jupiter_program, &resolved, &Mediation::Direct, &params.jupiter_data);
    Ok(SwapPlan { fee_transfer: transfer, call })
}

/// A fee of zero is never transferred: a planned swap holds a fee transfer
/// exactly when the treasury's rate on its amount is above zero, and the
/// transfer is of that fee, from the requester to the treasury.
pub proof fn lemma_zero_fee_is_not_transferred(
    ctx: ExecuteSwap,
    params: ExecuteSwapParamsView,
    supplied: Seq<GrantedAccount>,
)
    ensures
        swap_outcome(ctx, params, supplied) matches Ok(plan) ==> ({
            let due = fee_of(params.amount as int, TREASURY_FEE_BPS as int);
            &&& plan.fee_transfer is None <==> due == 0
            &&& plan.fee_transfer matches Some(transfer) ==> transfer.lamports == due
                && transfer.from == ctx.user && transfer.to == ctx.treasury
        }),
{
    lemma_fee_at_most_amount(params.amount as int, TREASURY_FEE_BPS as int);
}

/// Whether `meta` presents a supplied account with no more than the outer
/// call holds on it: it is writable exactly when that account is, and it
/// signs only if that account signed.
pub open spec fn within_grant(meta: AccountMeta, supplied: Seq<GrantedAccount>) -> bool {
    exists|j: int|
        0 <= j < supplied.len() && (#[trigger] supplied[j]).key == meta.pubkey
            && supplied[j].is_writable == meta.is_writable && (meta.is_signer
            ==> supplied[j].is_signer)
}

/// No planned call gives an account more than the outer call holds on it,
/// whatever the request asked for.
pub proof fn lemma_plan_never_escalates(
    ctx: ExecuteSwap,
    params: ExecuteSwapParamsView,
    supplied: Seq<GrantedAccount>,
)
    ensures
        swap_outcome(ctx, params, supplied) matches Ok(plan) ==> ({
            &&& plan.call.program_id == ctx.jupiter_program
            &&& plan.call.data == params.jupiter_data
            &&& forall|i: int|
                0 <= i < plan.call.accounts.len() ==> within_grant(
                    #[trigger] plan.call.accounts[i],
                    supplied,
                )
        }),
{
    if swap_outcome(ctx, params, supplied) is Ok {
        let resolved = references_resolved(params.jupiter_accounts, supplied);
        let call = forwarded_call(
            ctx.jupiter_program,
            resolved,
            Mediation::Direct,
            params.jupiter_data,
        );
        lemma_forwarded_call_never_escalates(
            ctx.jupiter_program,
            resolved,
            Mediation::Direct,
            params.jupiter_data,
        );
        assert forall|i: int| 0 <= i < call.accounts.len() implies within_grant(
            #[trigger] call.accounts[i],
            supplied,
        ) by {
            match params.jupiter_accounts {
                AccountReferencesView::Full(refs) => {
                    assert(has_key(supplied, refs[i].pubkey));
                    let k = choose|k: int|
                        0 <= k < supplied.len() && (#[trigger] supplied[k]).key == refs[i].pubkey;
                    lemma_first_exists(supplied, refs[i].pubkey, k);
                    let j = first_with_key(supplied, refs[i].pubkey);
                    assert(resolved[i].account == supplied[j]);
                },
                AccountReferencesView::Indexed(refs) => {
                    let j = refs[i].index as int;
                    assert(resolved[i].account == supplied[j]);
                },
            }
        }
    }
}

} // verus!
