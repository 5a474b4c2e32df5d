//! The two-leg swap in which the input rests in a program-owned holding
//! account while an optional reflection leg and the main leg convert it.
//!
//! The engine decides; the surrounding program acts. Each decision is a
//! transition from a state and the outcome of the last action to the next
//! state and the next action. A failure at any point ends the swap: there is
//! no state to resume from and nothing to undo.

use vstd::prelude::*;
use crate::account::{GrantedAccount, Instruction, InstructionView, Transfer};
use crate::authority::{lemma_derivation_is_a_function, DerivedAuthority};
use crate::balance::{settle, settled, BalanceSnapshot, Leg};
use crate::config::RaceswapConfig;
use crate::dispatch::{
    forwarded_call, leg_fits, leg_resolved, optional_leg_view, Cursor, SerializedInstruction,
    SerializedInstructionView,
};
use crate::error::RaceswapError;
use crate::fee::{fee, fee_of, lemma_fee_at_most_amount};
use crate::key::Key;
use crate::permissions::Mediation;

verus! {

/// Least length of a mint record.
pub const MINT_LEN: usize = 82;

/// Where a mint record holds its number of decimals.
pub const MINT_DECIMALS_OFFSET: usize = 44;

/// A token account as the outer call supplied it.
#[derive(Clone, Copy, Debug)]
pub struct TokenAccount {
    /// The account's address.
    pub key: Key,
    /// The token program that owns the record.
    pub program: Key,
    /// The mint whose tokens the account holds.
    pub mint: Key,
    /// Who may spend from the account.
    pub owner: Key,
}

/// A mint as the outer call supplied it: who owns the record, and the record.
#[derive(Clone, Debug)]
pub struct MintAccount {
    pub key: Key,
    /// The program that owns the record.
    pub program: Key,
    /// The record, undecoded.
    pub data: Vec<u8>,
}

/// The mathematical content of a [`MintAccount`].
pub struct MintAccountView {
    pub key: Key,
    pub program: Key,
    pub data: Seq<u8>,
}

impl View for MintAccount {
    type V = MintAccountView;

    open spec fn view(&self) -> MintAccountView {
        MintAccountView { key: self.key, program: self.program, data: self.data@ }
    }
}

/// The named accounts of a two-leg swap, and the addresses it is held to.
#[derive(Clone, Debug)]
pub struct ExecuteRaceswap {
    /// The address of the program that runs the engine.
    pub program_id: Key,
    /// The address of the configuration record.
    pub config_key: Key,
    pub config: RaceswapConfig,
    /// The requester.
    pub user: Key,
    pub input_mint: MintAccount,
    pub user_input: TokenAccount,
    pub user_main_destination: TokenAccount,
    pub user_reflection_destination: TokenAccount,
    /// The account that the treasury fee is paid into.
    pub treasury_fee_destination: Key,
    /// The holding account.
    pub input_vault: TokenAccount,
    /// The token program of the input side.
    pub input_token_program: Key,
    /// The program that the legs are forwarded to.
    pub jupiter_program: Key,
    /// The token programs that a destination may belong to.
    pub token_program: Key,
    pub token_2022_program: Key,
}

/// The mathematical content of [`ExecuteRaceswap`].
pub struct ExecuteRaceswapView {
    pub program_id: Key,
    pub config_key: Key,
    pub config: RaceswapConfig,
    pub user: Key,
    pub input_mint: MintAccountView,
    pub user_input: TokenAccount,
    pub user_main_destination: TokenAccount,
    pub user_reflection_destination: TokenAccount,
    pub treasury_fee_destination: Key,
    pub input_vault: TokenAccount,
    pub input_token_program: Key,
    pub jupiter_program: Key,
    pub token_program: Key,
    pub token_2022_program: Key,
}

impl View for ExecuteRaceswap {
    type V = ExecuteRaceswapView;

    open spec fn view(&self) -> ExecuteRaceswapView {
        ExecuteRaceswapView {
            program_id: self.program_id,
            config_key: self.config_key,
            config: self.config,
            user: self.user,
            input_mint: self.input_mint@,
            user_input: self.user_input,
            user_main_destination: self.user_main_destination,
            user_reflection_destination: self.user_reflection_destination,
            treasury_fee_destination: self.treasury_fee_destination,
            input_vault: self.input_vault,
            input_token_program: self.input_token_program,
            jupiter_program: self.jupiter_program,
            token_program: self.token_program,
            token_2022_program: self.token_2022_program,
        }
    }
}

/// A two-leg swap request.
#[derive(Clone, Debug)]
pub struct ExecuteRaceswapParams {
    pub input_mint: Key,
    pub main_output_mint: Key,
    pub reflection_mint: Key,
    /// The input amount. Must not be zero.
    pub total_input_amount: u64,
    /// The least the main leg must realize.
    pub min_main_out: u64,
    /// The least the reflection leg must realize, where it runs.
    pub min_reflection_out: u64,
    /// Turns the reflection leg off.
    pub disable_reflection: bool,
    pub main_leg: Option<SerializedInstruction>,
    pub reflection_leg: Option<SerializedInstruction>,
}

/// The mathematical content of [`ExecuteRaceswapParams`].
pub struct ExecuteRaceswapParamsView {
    pub input_mint: Key,
    pub main_output_mint: Key,
    pub reflection_mint: Key,
    pub total_input_amount: u64,
    pub min_main_out: u64,
    pub min_reflection_out: u64,
    pub disable_reflection: bool,
    pub main_leg: Option<SerializedInstructionView>,
    pub reflection_leg: Option<SerializedInstructionView>,
}

impl View for ExecuteRaceswapParams {
    type V = ExecuteRaceswapParamsView;

    open spec fn view(&self) -> ExecuteRaceswapParamsView {
        ExecuteRaceswapParamsView {
            input_mint: self.input_mint,
            main_output_mint: self.main_output_mint,
            reflection_mint: self.reflection_mint,
            total_input_amount: self.total_input_amount,
            min_main_out: self.min_main_out,
            min_reflection_out: self.min_reflection_out,
            disable_reflection: self.disable_reflection,
            main_leg: optional_leg_view(self.main_leg),
            reflection_leg: optional_leg_view(self.reflection_leg),
        }
    }
}

/// Announced when a swap is committed.
#[derive(Clone, Copy, Debug)]
pub struct SwapExecuted {
    pub user: Key,
    pub input_mint: Key,
    pub main_output_mint: Key,
    pub reflection_output_mint: Key,
    pub total_in: u64,
    pub main_amount: u64,
    pub reflection_amount: u64,
    pub treasury_amount: u64,
}

/// A checked transfer of tokens.
#[derive(Clone, Copy, Debug)]
pub struct TokenTransfer {
    pub from: Key,
    pub mint: Key,
    pub to: Key,
    pub authority: Key,
    pub amount: u64,
    pub decimals: u8,
}

/// What the engine worked out of a request before anything was moved.
#[derive(Clone, Copy, Debug)]
pub struct Quote {
    /// Decimals of the input mint.
    pub decimals: u8,
    /// The authority that owns the holding account.
    pub authority: DerivedAuthority,
    /// The treasury fee, in native currency.
    pub treasury_fee: u64,
    /// The share of the input that the reflection leg converts.
    pub reflection_amount: u64,
    /// Whether a reflection leg must run: reflection is enabled and its share
    /// is not zero.
    pub reflection_required: bool,
}

/// How far a swap has come.
///
/// A swap is decoded, pays its fee, moves the input into holding, runs the
/// reflection leg where one is required, runs the main leg, is verified and
/// is committed. In the first four states an action is under way and the
/// swap waits for its outcome. Between the main leg's return and the commit
/// nothing is moved: a swap passes through the two states in between within
/// the transition that commits it.
#[derive(Clone, Copy, Debug, PartialEq, Eq, Structural)]
pub enum Phase {
    /// The request is validated. The fee transfer is under way.
    Decoded,
    /// The fee is paid, or was zero. The input is on its way into holding.
    FeePaid,
    /// The input is held. The first leg is under way: the reflection leg
    /// where one is required, else the main leg.
    InputHeld,
    /// The reflection leg met its minimum. The main leg is under way.
    ReflectionLegDone,
    /// The main leg met its minimum.
    MainLegDone,
    /// No supplied account is left over.
    Verified,
    /// Every check passed, and the swap is announced.
    Committed,
}

/// The state of a swap in progress.
#[derive(Clone, Copy, Debug)]
pub struct Swap {
    pub phase: Phase,
    pub quote: Quote,
    /// The supplied accounts consumed so far, those of the leg under way included.
    pub cursor: Cursor,
    /// What the reflection leg realized, once it is done.
    pub reflection_received: u64,
    /// What the main leg realized, once it is done.
    pub main_received: u64,
}

/// What the surrounding program is to do next.
#[derive(Clone, Debug)]
pub enum Action {
    /// Pay the treasury fee.
    PayFee(Transfer),
    /// Move the input into the holding account.
    HoldInput(TokenTransfer),
    /// Record the balance of the leg's destination, invoke the call, then
    /// read the balance again.
    Forward { leg: Leg, call: Instruction },
    /// Announce the committed swap.
    Emit(SwapExecuted),
}

/// The mathematical content of an [`Action`].
pub enum ActionView {
    PayFee(Transfer),
    HoldInput(TokenTransfer),
    Forward { leg: Leg, call: InstructionView },
    Emit(SwapExecuted),
}

impl View for Action {
    type V = ActionView;

    open spec fn view(&self) -> ActionView {
        match self {
            Action::PayFee(transfer) => ActionView::PayFee(*transfer),
            Action::HoldInput(transfer) => ActionView::HoldInput(*transfer),
            Action::Forward { leg, call } => ActionView::Forward { leg: *leg, call: call@ },
            Action::Emit(event) => ActionView::Emit(*event),
        }
    }
}

/// How the last action ended.
#[derive(Clone, Copy, Debug)]
pub enum Event {
    /// The transfer was made.
    Performed,
    /// The forwarded call returned. The snapshot holds the balance of its
    /// leg's destination before the call and as read again after it.
    LegReturned(BalanceSnapshot),
    /// The forwarded call failed.
    CalleeFailed,
}

/// Reads the number of decimals out of a mint record. A record shorter than
/// a mint is rejected; nothing is read past its end.
pub fn mint_decimals(data: &Vec<u8>) -> (out: Result<u8, RaceswapError>)
    ensures
        data@.len() < 82 ==> out == Err::<u8, RaceswapError>(RaceswapError::InvalidInputMint),
        data@.len() >= 82 ==> out == Ok::<u8, RaceswapError>(data@[44]),
{
    if data.len() < MINT_LEN {
        Err(RaceswapError::InvalidInputMint)
    } else {
        Ok(data[MINT_DECIMALS_OFFSET])
    }
}

/// Whether a destination is bound as the request declares: to the mint, to
/// the requester, and to one of the two token programs.
pub open spec fn destination_bound(ctx: ExecuteRaceswapView, account: TokenAccount, mint: Key) -> bool {
    &&& account.mint == mint
    &&& account.owner == ctx.user
    &&& (account.program == ctx.token_program || account.program == ctx.token_2022_program)
}

/// Decides [`destination_bound`].
pub fn check_destination(ctx: &ExecuteRaceswap, account: &TokenAccount, mint: &Key) -> (bound: bool)
    ensures
        bound == destination_bound(ctx@, *account, *mint),
{
    account.mint == *mint && account.owner == ctx.user && (account.program == ctx.token_program
        || account.program == ctx.token_2022_program)
}

/// The share of the input that the reflection leg converts: nothing where
/// reflection is disabled, else the reflection rate on the input.
pub open spec fn reflection_share(config: RaceswapConfig, params: ExecuteRaceswapParamsView) -> int {
    if params.disable_reflection {
        0
    } else {
        fee_of(params.total_input_amount as int, config.reflection_fee_bps as int)
    }
}

/// What a request comes to before anything is moved, given what the
/// derivation of the swap authority yielded. The first rule that the request
/// breaks decides the error.
pub open spec fn quoted(
    ctx: ExecuteRaceswapView,
    params: ExecuteRaceswapParamsView,
    derived: Option<DerivedAuthority>,
) -> Result<Quote, RaceswapError> {
    if ctx.input_mint.program != ctx.input_token_program {
        Err(RaceswapError::InvalidInputMintOwner)
    } else if ctx.input_mint.data.len() < 82 {
        Err(RaceswapError::InvalidInputMint)
    } else if params.total_input_amount == 0 {
        Err(RaceswapError::InvalidAmount)
    } else if derived is None {
        Err(RaceswapError::BumpMissing)
    } else if ctx.input_vault.owner != derived->0.address {
        Err(RaceswapError::InvalidVaultOwner)
    } else if !ctx.config.wf() {
        Err(RaceswapError::InvalidFeeConfig)
    } else if ctx.treasury_fee_destination != ctx.config.treasury_wallet {
        Err(RaceswapError::InvalidTreasuryAccount)
    } else if !destination_bound(ctx, ctx.user_main_destination, params.main_output_mint) {
        Err(RaceswapError::InvalidMainAccount)
    } else if ctx.input_vault.mint != params.input_mint {
        Err(RaceswapError::InvalidVaultMint)
    } else if ctx.user_input.mint != params.input_mint || ctx.user_input.owner != ctx.user {
        Err(RaceswapError::InvalidUserSource)
    } else if reflection_share(ctx.config, params) != 0 && !destination_bound(
        ctx,
        ctx.user_reflection_destination,
        params.reflection_mint,
    ) {
        Err(RaceswapError::InvalidReflectionAccount)
    } else {
        Ok(
            Quote {
                decimals: ctx.input_mint.data[44],
                authority: derived->0,
                treasury_fee: fee_of(
                    params.total_input_amount as int,
                    ctx.config.treasury_fee_bps as int,
                ) as u64,
                reflection_amount: reflection_share(ctx.config, params) as u64,
                reflection_required: reflection_share(ctx.config, params) != 0,
            },
        )
    }
}

/// Validates a request and works out its amounts, given what the derivation
/// of the swap authority yielded.
pub fn quote(ctx: &ExecuteRaceswap, params: &ExecuteRaceswapParams, derived: Option<DerivedAuthority>) -> (out:
    Result<Quote, RaceswapError>)
    ensures
        out == quoted(ctx@, params@, derived),
        out matches Ok(q) ==> q.reflection_amount <= params.total_input_amount && q.treasury_fee
            <= params.total_input_amount,
{
    if ctx.input_mint.program != ctx.input_token_program {
        return Err(RaceswapError::InvalidInputMintOwner);
    }
    let decimals = match mint_decimals(&ctx.input_mint.data) {
        Ok(decimals) => decimals,
        Err(e) => {
            return Err(e);
        },
    };
    if params.total_input_amount == 0 {
        return Err(RaceswapError::InvalidAmount);
    }
    let authority = match derived {
        Some(authority) => authority,
        None => {
            return Err(RaceswapError::BumpMissing);
        },
    };
    match authority.check_vault_owner(&ctx.input_vault.owner) {
        Ok(()) => {},
        Err(e) => {
            return Err(e);
        },
    }
    if !ctx.config.is_valid() {
        return Err(RaceswapError::InvalidFeeConfig);
    }
    if ctx.treasury_fee_destination != ctx.config.treasury_wallet {
        return Err(RaceswapError::InvalidTreasuryAccount);
    }
    if !check_destination(ctx, &ctx.user_main_destination, &params.main_output_mint) {
        return Err(RaceswapError::InvalidMainAccount);
    }
    if ctx.input_vault.mint != params.input_mint {
        return Err(RaceswapError::InvalidVaultMint);
    }
    if ctx.user_input.mint != params.input_mint || ctx.user_input.owner != ctx.user {
        return Err(RaceswapError::InvalidUserSource);
    }
    let reflection_amount: u64 = if params.disable_reflection {
        0
    } else {
        fee(params.total_input_amount, ctx.config.reflection_fee_bps)
    };
    let reflection_required = reflection_amount != 0;
    if reflection_required && !check_destination(
        ctx,
        &ctx.user_reflection_destination,
        &params.reflection_mint,
    ) {
        return Err(RaceswapError::InvalidReflectionAccount);
    }
    let treasury_fee: u64 = fee(params.total_input_amount, ctx.config.treasury_fee_bps);
    Ok(Quote { decimals, authority, treasury_fee, reflection_amount, reflection_required })
}

/// The transfer that moves the input into holding.
pub open spec fn input_transfer(ctx: ExecuteRaceswapView, params: ExecuteRaceswapParamsView, quote: Quote) -> TokenTransfer {
    TokenTransfer {
        from: ctx.user_input.key,
        mint: ctx.input_mint.key,
        to: ctx.input_vault.key,
        authority: ctx.user,
        amount: params.total_input_amount,
        decimals: quote.decimals,
    }
}

/// The state and the first action of a swap, given what the derivation of the
/// swap authority yielded. A fee of zero is not transferred: the swap then
/// starts with its fee paid.
pub open spec fn opened(
    ctx: ExecuteRaceswapView,
    params: ExecuteRaceswapParamsView,
    derived: Option<DerivedAuthority>,
) -> Result<(Swap, ActionView), RaceswapError> {
    match quoted(ctx, params, derived) {
        Err(e) => Err(e),
        Ok(quote) => {
            let swap = Swap {
                phase: Phase::Decoded,
                quote,
                cursor: Cursor { consumed: 0 },
                reflection_received: 0,
                main_received: 0,
            };
            if quote.treasury_fee > 0 {
                Ok(
                    (
                        swap,
                        ActionView::PayFee(
                            Transfer {
                                from: ctx.user,
                                to: ctx.treasury_fee_destination,
                                lamports: quote.treasury_fee,
                            },
                        ),
                    ),
                )
            } else {
                Ok(
                    (
                        Swap { phase: Phase::FeePaid, ..swap },
                        ActionView::HoldInput(input_transfer(ctx, params, quote)),
                    ),
                )
            }
        },
    }
}

/// The error of a request that lacks a leg.
pub open spec fn missing(which: Leg) -> RaceswapError {
    match which {
        Leg::Reflection => RaceswapError::MissingReflectionLeg,
        Leg::Main => RaceswapError::MissingMainLeg,
    }
}

/// Forwarding a leg: the leg takes its accounts from the cursor, and the
/// swap moves to `phase` with the cursor past them. A leg that the request
/// lacks, or that finds too few accounts left, ends the swap.
pub open spec fn leg_forwarded(
    swap: Swap,
    which: Leg,
    leg: Option<SerializedInstructionView>,
    phase: Phase,
    ctx: ExecuteRaceswapView,
    supplied: Seq<GrantedAccount>,
) -> Result<(Swap, ActionView), RaceswapError> {
    match leg {
        None => Err(missing(which)),
        Some(leg) => if !leg_fits(leg, supplied, swap.cursor.consumed as int) {
            Err(RaceswapError::AccountMismatch)
        } else {
            Ok(
                (
                    Swap {
                        phase,
                        cursor: Cursor {
                            consumed: (swap.cursor.consumed + leg.accounts_len) as usize,
                        },
                        ..swap
                    },
                    ActionView::Forward {
                        leg: which,
                        call: forwarded_call(
                            ctx.jupiter_program,
                            leg_resolved(leg, supplied, swap.cursor.consumed as int),
                            Mediation::Derived(swap.quote.authority.address),
                            leg.data,
                        ),
                    },
                ),
            )
        },
    }
}

/// The first leg of a swap whose input is held: the reflection leg where one
/// is required; else the main leg, and a reflection leg must then be absent.
pub open spec fn first_leg(
    swap: Swap,
    ctx: ExecuteRaceswapView,
    params: ExecuteRaceswapParamsView,
    supplied: Seq<GrantedAccount>,
) -> Result<(Swap, ActionView), RaceswapError> {
    if swap.quote.reflection_required {
        leg_forwarded(swap, Leg::Reflection, params.reflection_leg, Phase::InputHeld, ctx, supplied)
    } else if params.reflection_leg is Some {
        Err(RaceswapError::UnexpectedReflectionLeg)
    } else {
        leg_forwarded(swap, Leg::Main, params.main_leg, Phase::InputHeld, ctx, supplied)
    }
}

/// What is announced for a committed swap.
pub open spec fn announcement(swap: Swap, ctx: ExecuteRaceswapView, params: ExecuteRaceswapParamsView) -> SwapExecuted {
    SwapExecuted {
        user: ctx.user,
        input_mint: params.input_mint,
        main_output_mint: params.main_output_mint,
        reflection_output_mint: params.reflection_mint,
        total_in: params.total_input_amount,
        main_amount: swap.main_received,
        reflection_amount: swap.reflection_received,
        treasury_amount: swap.quote.treasury_fee,
    }
}

/// The return of the reflection leg: its destination is held against its
/// minimum, then the main leg is forwarded.
pub open spec fn reflected(
    swap: Swap,
    snapshot: BalanceSnapshot,
    ctx: ExecuteRaceswapView,
    params: ExecuteRaceswapParamsView,
    supplied: Seq<GrantedAccount>,
) -> Result<(Swap, ActionView), RaceswapError> {
    match settled(Leg::Reflection, snapshot, params.min_reflection_out) {
        Err(e) => Err(e),
        Ok(received) => leg_forwarded(
            Swap { reflection_received: received, ..swap },
            Leg::Main,
            params.main_leg,
            Phase::ReflectionLegDone,
            ctx,
            supplied,
        ),
    }
}

/// The main leg is done once its destination shows an increase of at least
/// the minimum.
pub open spec fn main_leg_done(swap: Swap, snapshot: BalanceSnapshot, params: ExecuteRaceswapParamsView) -> Result<
    Swap,
    RaceswapError,
> {
    match settled(Leg::Main, snapshot, params.min_main_out) {
        Err(e) => Err(e),
        Ok(received) => Ok(Swap { phase: Phase::MainLegDone, main_received: received, ..swap }),
    }
}

/// A swap whose legs are done is verified once the cursor has consumed every
/// supplied account.
pub open spec fn verified(swap: Swap, supplied: Seq<GrantedAccount>) -> Result<Swap, RaceswapError> {
    if swap.cursor.consumed != supplied.len() {
        Err(RaceswapError::AccountMismatch)
    } else {
        Ok(Swap { phase: Phase::Verified, ..swap })
    }
}

/// The return of the main leg: the leg is done, the swap is verified, and
/// it is committed with its announcement.
pub open spec fn committed(
    swap: Swap,
    snapshot: BalanceSnapshot,
    ctx: ExecuteRaceswapView,
    params: ExecuteRaceswapParamsView,
    supplied: Seq<GrantedAccount>,
) -> Result<(Swap, ActionView), RaceswapError> {
    match main_leg_done(swap, snapshot, params) {
        Err(e) => Err(e),
        Ok(done) => match verified(done, supplied) {
            Err(e) => Err(e),
            Ok(checked) => Ok(
                (
                    Swap { phase: Phase::Committed, ..checked },
                    ActionView::Emit(announcement(checked, ctx, params)),
                ),
            ),
        },
    }
}

impl Swap {
    /// Whether `event` is an outcome of the action that this state has under
    /// way: a transfer is performed; a forwarded call returns or fails.
    pub open spec fn awaits(self, event: Event) -> bool {
        match self.phase {
            Phase::Decoded | Phase::FeePaid => event is Performed,
            Phase::InputHeld | Phase::ReflectionLegDone => event is LegReturned
                || event is CalleeFailed,
            Phase::MainLegDone | Phase::Verified | Phase::Committed => false,
        }
    }
}

/// The transition of the engine: the state and the action that follow `swap`
/// once `event` reports how its action ended.
///
/// A forwarded call that failed ends the swap, and so does every event that
/// is no outcome of the action under way: nothing but the outcome that a
/// state waits for takes a swap further.
pub open spec fn next(
    swap: Swap,
    event: Event,
    ctx: ExecuteRaceswapView,
    params: ExecuteRaceswapParamsView,
    supplied: Seq<GrantedAccount>,
) -> Result<(Swap, ActionView), RaceswapError> {
    match (swap.phase, event) {
        (Phase::Decoded, Event::Performed) => Ok(
            (
                Swap { phase: Phase::FeePaid, ..swap },
                ActionView::HoldInput(input_transfer(ctx, params, swap.quote)),
            ),
        ),
        (Phase::FeePaid, Event::Performed) => first_leg(swap, ctx, params, supplied),
        (Phase::InputHeld, Event::LegReturned(snapshot)) => if swap.quote.reflection_required {
            reflected(swap, snapshot, ctx, params, supplied)
        } else {
            committed(swap, snapshot, ctx, params, supplied)
        },
        (Phase::ReflectionLegDone, Event::LegReturned(snapshot)) => committed(
            swap,
            snapshot,
            ctx,
            params,
            supplied,
        ),
        _ => Err(RaceswapError::SwapCpiFailed),
    }
}

/// Whether an outcome of the engine, as computed, is the one specified.
pub open spec fn matches_outcome(
    out: Result<(Swap, Action), RaceswapError>,
    expected: Result<(Swap, ActionView), RaceswapError>,
) -> bool {
    match out {
        Ok((swap, action)) => expected == Ok::<(Swap, ActionView), RaceswapError>((swap, action@)),
        Err(e) => expected == Err::<(Swap, ActionView), RaceswapError>(e),
    }
}

/// Opens a swap on a request, given what the derivation of the swap
/// authority yielded.
pub fn open(ctx: &ExecuteRaceswap, params: &ExecuteRaceswapParams, derived: Option<DerivedAuthority>) -> (out:
    Result<(Swap, Action), RaceswapError>)
    ensures
        matches_outcome(out, opened(ctx@, params@, derived)),
{
    let quote = match quote(ctx, params, derived) {
        Ok(quote) => quote,
        Err(e) => {
            return Err(e);
        },
    };
    let swap = Swap {
        phase: Phase::Decoded,
        quote,
        cursor: Cursor::start(),
        reflection_received: 0,
        main_received: 0,
    };
    if quote.treasury_fee > 0 {
        let transfer = Transfer {
            from: ctx.user,
            to: ctx.treasury_fee_destination,
            lamports: quote.treasury_fee,
        };
        Ok((swap, Action::PayFee(transfer)))
    } else {
        Ok((Swap { phase: Phase::FeePaid, ..swap }, hold_input(ctx, params, &quote)))
    }
}

/// Begins a two-leg swap: validates the request against the accounts it came
/// with and hands out the first action.
///
/// The derivation of the swap authority yields one result for the
/// configuration's address, and what is returned is [`opened`] of it.
pub fn execute_raceswap(ctx: &ExecuteRaceswap, params: &ExecuteRaceswapParams) -> (out: Result<
    (Swap, Action),
    RaceswapError,
>)
    ensures
        exists|derived: Option<DerivedAuthority>| #[trigger]
            DerivedAuthority::derives_from(derived, ctx.config_key, ctx.program_id)
                && matches_outcome(out, opened(ctx@, params@, derived)),
        forall|derived: Option<DerivedAuthority>| #[trigger]
            DerivedAuthority::derives_from(derived, ctx.config_key, ctx.program_id)
                ==> matches_outcome(out, opened(ctx@, params@, derived)),
{
    let derived = DerivedAuthority::derive(&ctx.config_key, &ctx.program_id);
    proof {
        assert forall|other: Option<DerivedAuthority>| #[trigger]
            DerivedAuthority::derives_from(other, ctx.config_key, ctx.program_id) implies other
            == derived by {
            lemma_derivation_is_a_function(other, derived, ctx.config_key, ctx.program_id);
        }
    }
    open(ctx, params, derived)
}

fn hold_input(ctx: &ExecuteRaceswap, params: &ExecuteRaceswapParams, quote: &Quote) -> (action: Action)
    ensures
        action@ == ActionView::HoldInput(input_transfer(ctx@, params@, *quote)),
{
    Action::HoldInput(
        TokenTransfer {
            from: ctx.user_input.key,
            mint: ctx.input_mint.key,
            to: ctx.input_vault.key,
            authority: ctx.user,
            amount: params.total_input_amount,
            decimals: quote.decimals,
        },
    )
}

fn forward_leg(
    swap: &Swap,
    which: Leg,
    leg: &Option<SerializedInstruction>,
    phase: Phase,
    ctx: &ExecuteRaceswap,
    supplied: &Vec<GrantedAccount>,
) -> (out: Result<(Swap, Action), RaceswapError>)
    ensures
        matches_outcome(out, leg_forwarded(*swap, which, optional_leg_view(*leg), phase, ctx@, supplied@)),
{
    match leg {
        None => Err(
            match which {
                Leg::Reflection => RaceswapError::MissingReflectionLeg,
                Leg::Main => RaceswapError::MissingMainLeg,
            },
        ),
        Some(leg) => {
            let mut cursor = swap.cursor;
            let mediation = swap.quote.authority.mediation();
            match cursor.prepare_leg(leg, &ctx.jupiter_program, supplied, &mediation) {
                Ok(call) => Ok(
                    (
                        Swap {
                            phase,
                            quote: swap.quote,
                            cursor,
                            reflection_received: swap.reflection_received,
                            main_received: swap.main_received,
                        },
                        Action::Forward { leg: which, call },
                    ),
                ),
                Err(e) => Err(e),
            }
        },
    }
}

/// Holds the main leg's destination against its minimum.
pub fn finish_main_leg(swap: &Swap, snapshot: &BalanceSnapshot, params: &ExecuteRaceswapParams) -> (out:
    Result<Swap, RaceswapError>)
    ensures
        out == main_leg_done(*swap, *snapshot, params@),
{
    match settle(Leg::Main, snapshot, params.min_main_out) {
        Ok(received) => Ok(
            Swap {
                phase: Phase::MainLegDone,
                quote: swap.quote,
                cursor: swap.cursor,
                reflection_received: swap.reflection_received,
                main_received: received,
            },
        ),
        Err(e) => Err(e),
    }
}

/// Holds the cursor against the supplied accounts.
pub fn verify(swap: &Swap, supplied: &Vec<GrantedAccount>) -> (out: Result<Swap, RaceswapError>)
    ensures
        out == verified(*swap, supplied@),
{
    match swap.cursor.finish(supplied) {
        Ok(()) => Ok(
            Swap {
                phase: Phase::Verified,
                quote: swap.quote,
                cursor: swap.cursor,
                reflection_received: swap.reflection_received,
                main_received: swap.main_received,
            },
        ),
        Err(e) => Err(e),
    }
}

/// Builds the announcement of a swap.
pub fn announce(swap: &Swap, ctx: &ExecuteRaceswap, params: &ExecuteRaceswapParams) -> (event: SwapExecuted)
    ensures
        event == announcement(*swap, ctx@, params@),
{
    SwapExecuted {
        user: ctx.user,
        input_mint: params.input_mint,
        main_output_mint: params.main_output_mint,
        reflection_output_mint: params.reflection_mint,
        total_in: params.total_input_amount,
        main_amount: swap.main_received,
        reflection_amount: swap.reflection_received,
        treasury_amount: swap.quote.treasury_fee,
    }
}

fn commit(
    swap: &Swap,
    snapshot: &BalanceSnapshot,
    ctx: &ExecuteRaceswap,
    params: &ExecuteRaceswapParams,
    supplied: &Vec<GrantedAccount>,
) -> (out: Result<(Swap, Action), RaceswapError>)
    ensures
        matches_outcome(out, committed(*swap, *snapshot, ctx@, params@, supplied@)),
{
    let done = match finish_main_leg(swap, snapshot, params) {
        Ok(done) => done,
        Err(e) => {
            return Err(e);
        },
    };
    let checked = match verify(&done, supplied) {
        Ok(checked) => checked,
        Err(e) => {
            return Err(e);
        },
    };
    let event = announce(&checked, ctx, params);
    Ok(
        (
            Swap {
                phase: Phase::Committed,
                quote: checked.quote,
                cursor: checked.cursor,
                reflection_received: checked.reflection_received,
                main_received: checked.main_received,
            },
            Action::Emit(event),
        ),
    )
}

/// Takes a swap one transition further.
///
/// `event` reports how the action that `swap` has under way ended. The
/// result is the next state with the action it puts under way, or the error
/// that ends the swap.
pub fn step(
    swap: Swap,
    event: Event,
    ctx: &ExecuteRaceswap,
    params: &ExecuteRaceswapParams,
    supplied: &Vec<GrantedAccount>,
) -> (out: Result<(Swap, Action), RaceswapError>)
    ensures
        matches_outcome(out, next(swap, event, ctx@, params@, supplied@)),
{
    match (swap.phase, event) {
        (Phase::Decoded, Event::Performed) => Ok(
            (
                Swap {
                    phase: Phase::FeePaid,
                    quote: swap.quote,
                    cursor: swap.cursor,
                    reflection_received: swap.reflection_received,
                    main_received: swap.main_received,
                },
                hold_input(ctx, params, &swap.quote),
            ),
        ),
        (Phase::FeePaid, Event::Performed) => {
            if swap.quote.reflection_required {
                forward_leg(
                    &swap,
                    Leg::Reflection,
                    &params.reflection_leg,
                    Phase::InputHeld,
                    ctx,
                    supplied,
                )
            } else if params.reflection_leg.is_some() {
                Err(RaceswapError::UnexpectedReflectionLeg)
            } else {
                forward_leg(&swap, Leg::Main, &params.main_leg, Phase::InputHeld, ctx, supplied)
            }
        },
        (Phase::InputHeld, Event::LegReturned(snapshot)) => {
            if swap.quote.reflection_required {
                match settle(Leg::Reflection, &snapshot, params.min_reflection_out) {
                    Ok(received) => forward_leg(
                        &Swap {
                            phase: swap.phase,
                            quote: swap.quote,
                            cursor: swap.cursor,
                            reflection_received: received,
                            main_received: swap.main_received,
                        },
                        Leg::Main,
                        &params.main_leg,
                        Phase::ReflectionLegDone,
                        ctx,
                        supplied,
                    ),
                    Err(e) => Err(e),
                }
            } else {
                commit(&swap, &snapshot, ctx, params, supplied)
            }
        },
        (Phase::ReflectionLegDone, Event::LegReturned(snapshot)) => commit(
            &swap,
            &snapshot,
            ctx,
            params,
            supplied,
        ),
        _ => Err(RaceswapError::SwapCpiFailed),
    }
}

/// The number of supplied accounts that a leg of the request consumes.
pub open spec fn leg_accounts(leg: Option<SerializedInstructionView>) -> int {
    match leg {
        Some(leg) => leg.accounts_len as int,
        None => 0,
    }
}

/// The number of supplied accounts that the legs forwarded up to `swap`
/// consume, the leg under way included.
pub open spec fn accounts_due(swap: Swap, params: ExecuteRaceswapParamsView) -> int {
    let reflection = if swap.quote.reflection_required {
        leg_accounts(params.reflection_leg)
    } else {
        0
    };
    match swap.phase {
        Phase::Decoded | Phase::FeePaid => 0,
        Phase::InputHeld => if swap.quote.reflection_required {
            reflection
        } else {
            leg_accounts(params.main_leg)
        },
        Phase::ReflectionLegDone | Phase::MainLegDone | Phase::Verified | Phase::Committed => reflection
            + leg_accounts(params.main_leg),
    }
}

/// The accounting invariant of a swap: the cursor stands exactly past the
/// accounts of the legs forwarded so far, never past the supplied accounts,
/// and a verified or committed swap has consumed every one of them.
pub open spec fn accounted(swap: Swap, params: ExecuteRaceswapParamsView, supplied: Seq<GrantedAccount>) -> bool {
    &&& swap.cursor.consumed == accounts_due(swap, params)
    &&& swap.cursor.consumed <= supplied.len()
    &&& swap.phase is ReflectionLegDone ==> swap.quote.reflection_required
    &&& swap.phase is Verified || swap.phase is Committed ==> swap.cursor.consumed
        == supplied.len()
}

/// A leg that expects `k` accounts takes exactly `k` from the cursor. A leg
/// that finds fewer than `k` left ends the swap with an account mismatch, and
/// so does a main leg that returns with supplied accounts left over.
pub proof fn lemma_leg_accounting(
    swap: Swap,
    which: Leg,
    leg: SerializedInstructionView,
    phase: Phase,
    snapshot: BalanceSnapshot,
    ctx: ExecuteRaceswapView,
    params: ExecuteRaceswapParamsView,
    supplied: Seq<GrantedAccount>,
)
    requires
        supplied.len() <= usize::MAX,
    ensures
        swap.cursor.consumed + leg.accounts_len > supplied.len() ==> leg_forwarded(
            swap,
            which,
            Some(leg),
            phase,
            ctx,
            supplied,
        ) == Err::<(Swap, ActionView), RaceswapError>(RaceswapError::AccountMismatch),
        swap.cursor.consumed + leg.accounts_len <= supplied.len() ==> (leg_forwarded(
            swap,
            which,
            Some(leg),
            phase,
            ctx,
            supplied,
        ) matches Ok((then, ActionView::Forward { call, .. })) && then.cursor.consumed
            == swap.cursor.consumed + leg.accounts_len && call.accounts.len()
            == leg.accounts_len),
        swap.cursor.consumed != supplied.len() ==> (committed(swap, snapshot, ctx, params, supplied)
            matches Err(e) && (e == RaceswapError::AccountMismatch || e
            == RaceswapError::MainBelowMinOut || e == RaceswapError::InvalidMainAccounting)),
        committed(swap, snapshot, ctx, params, supplied) is Ok ==> swap.cursor.consumed
            == supplied.len(),
{
}

/// The accounting invariant holds of every swap that is opened and is kept
/// by every transition. So a swap is committed only when its legs consumed
/// the supplied accounts exactly: none missing, none left over.
pub proof fn lemma_accounting_is_invariant(
    swap: Swap,
    event: Event,
    ctx: ExecuteRaceswapView,
    params: ExecuteRaceswapParamsView,
    derived: Option<DerivedAuthority>,
    supplied: Seq<GrantedAccount>,
)
    requires
        supplied.len() <= usize::MAX,
    ensures
        opened(ctx, params, derived) matches Ok((first, _)) ==> accounted(first, params, supplied),
        accounted(swap, params, supplied) ==> (next(swap, event, ctx, params, supplied) matches Ok(
            (then, _),
        ) ==> accounted(then, params, supplied)),
        !swap.awaits(event) ==> next(swap, event, ctx, params, supplied) == Err::<
            (Swap, ActionView),
            RaceswapError,
        >(RaceswapError::SwapCpiFailed),
{
}

/// The main leg's minimum decides the commit, bound included: a main leg
/// that realizes less ends the swap as below its minimum and leaves no state;
/// one that realizes exactly its minimum is committed, provided the supplied
/// accounts are used up.
pub proof fn lemma_minimum_output_decides_commit(
    swap: Swap,
    snapshot: BalanceSnapshot,
    ctx: ExecuteRaceswapView,
    params: ExecuteRaceswapParamsView,
    supplied: Seq<GrantedAccount>,
)
    requires
        swap.phase is ReflectionLegDone || (swap.phase is InputHeld
            && !swap.quote.reflection_required),
        snapshot.before <= snapshot.after,
    ensures
        snapshot.after - snapshot.before < params.min_main_out ==> next(
            swap,
            Event::LegReturned(snapshot),
            ctx,
            params,
            supplied,
        ) == Err::<(Swap, ActionView), RaceswapError>(RaceswapError::MainBelowMinOut),
        snapshot.after - snapshot.before >= params.min_main_out && swap.cursor.consumed
            == supplied.len() ==> (next(swap, Event::LegReturned(snapshot), ctx, params, supplied)
            matches Ok((then, ActionView::Emit(event))) && then.phase is Committed
            && event.main_amount == snapshot.after - snapshot.before),
{
}

/// Reflection is optional. With reflection disabled, or with a reflection
/// share of zero, no reflection leg is required, and a request that carries
/// one all the same is ended as carrying an unexpected leg. With a share
/// above zero the leg is required, and a request without it is ended too.
pub proof fn lemma_reflection_is_optional(
    swap: Swap,
    ctx: ExecuteRaceswapView,
    params: ExecuteRaceswapParamsView,
    derived: Option<DerivedAuthority>,
    supplied: Seq<GrantedAccount>,
)
    requires
        swap.phase is FeePaid,
    ensures
        quoted(ctx, params, derived) matches Ok(quote) ==> (quote.reflection_required <==> (
        !params.disable_reflection && fee_of(
            params.total_input_amount as int,
            ctx.config.reflection_fee_bps as int,
        ) != 0)),
        !swap.quote.reflection_required && params.reflection_leg is Some ==> next(
            swap,
            Event::Performed,
            ctx,
            params,
            supplied,
        ) == Err::<(Swap, ActionView), RaceswapError>(RaceswapError::UnexpectedReflectionLeg),
        swap.quote.reflection_required && params.reflection_leg is None ==> next(
            swap,
            Event::Performed,
            ctx,
            params,
            supplied,
        ) == Err::<(Swap, ActionView), RaceswapError>(RaceswapError::MissingReflectionLeg),
        !swap.quote.reflection_required && params.reflection_leg is None ==> (next(
            swap,
            Event::Performed,
            ctx,
            params,
            supplied,
        ) matches Ok((_, action)) ==> action matches ActionView::Forward { leg: Leg::Main, .. }),
{
    if quoted(ctx, params, derived) is Ok {
        lemma_fee_at_most_amount(
            params.total_input_amount as int,
            ctx.config.reflection_fee_bps as int,
        );
    }
}

/// A fee of zero is never transferred: a swap opens with a fee transfer
/// exactly when its fee is above zero, the transfer is of the fee and goes to
/// the configured treasury, and no later transition asks for one.
pub proof fn lemma_zero_fee_is_not_transferred(
    swap: Swap,
    event: Event,
    ctx: ExecuteRaceswapView,
    params: ExecuteRaceswapParamsView,
    derived: Option<DerivedAuthority>,
    supplied: Seq<GrantedAccount>,
)
    ensures
        opened(ctx, params, derived) matches Ok((first, action)) ==> ({
            &&& first.quote.treasury_fee == fee_of(
                params.total_input_amount as int,
                ctx.config.treasury_fee_bps as int,
            )
            &&& action is PayFee <==> first.quote.treasury_fee > 0
            &&& action matches ActionView::PayFee(transfer) ==> transfer.lamports
                == first.quote.treasury_fee && transfer.to == ctx.config.treasury_wallet
                && transfer.from == ctx.user
        }),
        next(swap, event, ctx, params, supplied) matches Ok((_, action)) ==> !(action is PayFee),
{
    if quoted(ctx, params, derived) is Ok {
        lemma_fee_at_most_amount(
            params.total_input_amount as int,
            ctx.config.treasury_fee_bps as int,
        );
    }
}

/// No call that the engine forwards gives an account more than the outer
/// call holds on it. Each account of a forwarded call is the supplied account
/// at its place under the cursor; it is writable exactly when that account
/// is, and it signs only if that account signed and is not the derived
/// authority.
pub proof fn lemma_forward_never_escalates(
    swap: Swap,
    event: Event,
    ctx: ExecuteRaceswapView,
    params: ExecuteRaceswapParamsView,
    supplied: Seq<GrantedAccount>,
)
    requires
        supplied.len() <= usize::MAX,
    ensures
        next(swap, event, ctx, params, supplied) matches Ok(
            (then, ActionView::Forward { call, .. }),
        ) ==> ({
            &&& call.program_id == ctx.jupiter_program
            &&& swap.cursor.consumed + call.accounts.len() == then.cursor.consumed
            &&& then.cursor.consumed <= supplied.len()
            &&& forall|i: int|
                0 <= i < call.accounts.len() ==> ({
                    let meta = #[trigger] call.accounts[i];
                    let granted = supplied[swap.cursor.consumed + i];
                    &&& meta.pubkey == granted.key
                    &&& meta.is_writable == granted.is_writable
                    &&& meta.is_signer ==> granted.is_signer && meta.pubkey
                        != swap.quote.authority.address
                })
        }),
{
}

} // verus!
