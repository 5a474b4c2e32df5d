use raceswap::account::{AccountMeta, GrantedAccount};
use raceswap::authority::DerivedAuthority;
use raceswap::balance::{BalanceSnapshot, Leg};
use raceswap::config::RaceswapConfig;
use raceswap::custodial::{
    announce, execute_raceswap, finish_main_leg, mint_decimals, open, quote, step, verify, Action,
    Event, ExecuteRaceswap, ExecuteRaceswapParams, MintAccount, Phase, Swap, TokenAccount,
    MINT_DECIMALS_OFFSET, MINT_LEN,
};
use raceswap::dispatch::SerializedInstruction;
use raceswap::error::RaceswapError;
use raceswap::key::Key;

const USER: u8 = 1;
const TREASURY: u8 = 2;
const JUPITER: u8 = 3;
const PROGRAM: u8 = 4;
const CONFIG: u8 = 5;
const TOKEN: u8 = 6;
const TOKEN_2022: u8 = 7;
const INPUT_MINT: u8 = 20;
const MAIN_MINT: u8 = 21;
const REFLECTION_MINT: u8 = 22;
const AUTHORITY: u8 = 40;

fn key(tag: u8) -> Key {
    Key::new([tag; 32])
}

fn authority() -> DerivedAuthority {
    DerivedAuthority { address: key(AUTHORITY), bump: 255 }
}

fn token(tag: u8, program: u8, mint: u8, owner: Key) -> TokenAccount {
    TokenAccount { key: key(tag), program: key(program), mint: key(mint), owner }
}

const MAIN_BEFORE: u64 = 700;
const REFLECTION_BEFORE: u64 = 50;

fn main_returned(after: u64) -> Event {
    Event::LegReturned(BalanceSnapshot { before: MAIN_BEFORE, after })
}

fn reflection_returned(after: u64) -> Event {
    Event::LegReturned(BalanceSnapshot { before: REFLECTION_BEFORE, after })
}

fn mint_record(decimals: u8) -> Vec<u8> {
    let mut data = vec![0u8; 82];
    data[44] = decimals;
    data
}

fn accounts(reflection_fee_bps: u16, treasury_fee_bps: u16) -> ExecuteRaceswap {
    ExecuteRaceswap {
        program_id: key(PROGRAM),
        config_key: key(CONFIG),
        config: RaceswapConfig {
            authority: key(90),
            treasury_wallet: key(TREASURY),
            reflection_fee_bps,
            treasury_fee_bps,
            bump: 254,
            authority_bump: 255,
        },
        user: key(USER),
        input_mint: MintAccount { key: key(INPUT_MINT), program: key(TOKEN), data: mint_record(6) },
        user_input: token(30, TOKEN, INPUT_MINT, key(USER)),
        user_main_destination: token(31, TOKEN_2022, MAIN_MINT, key(USER)),
        user_reflection_destination: token(32, TOKEN, REFLECTION_MINT, key(USER)),
        treasury_fee_destination: key(TREASURY),
        input_vault: token(33, TOKEN, INPUT_MINT, key(AUTHORITY)),
        input_token_program: key(TOKEN),
        jupiter_program: key(JUPITER),
        token_program: key(TOKEN),
        token_2022_program: key(TOKEN_2022),
    }
}

fn leg(accounts_len: u16, payload: u8) -> SerializedInstruction {
    SerializedInstruction {
        accounts_len,
        data: vec![payload; 3],
        is_writable: vec![true; accounts_len as usize],
        is_signer: vec![true; accounts_len as usize],
    }
}

fn request(amount: u64) -> ExecuteRaceswapParams {
    ExecuteRaceswapParams {
        input_mint: key(INPUT_MINT),
        main_output_mint: key(MAIN_MINT),
        reflection_mint: key(REFLECTION_MINT),
        total_input_amount: amount,
        min_main_out: 100,
        min_reflection_out: 10,
        disable_reflection: false,
        main_leg: Some(leg(3, 0xaa)),
        reflection_leg: None,
    }
}

fn snapshot(before: u64, after: u64) -> BalanceSnapshot {
    BalanceSnapshot { before, after }
}

fn granted(tag: u8, is_signer: bool, is_writable: bool) -> GrantedAccount {
    GrantedAccount { key: key(tag), is_signer, is_writable }
}

fn supplied() -> Vec<GrantedAccount> {
    vec![
        granted(USER, true, true),
        granted(AUTHORITY, true, true),
        granted(50, false, true),
        granted(51, false, false),
        granted(AUTHORITY, false, true),
    ]
}

fn same(meta: &AccountMeta, tag: u8, is_signer: bool, is_writable: bool) -> bool {
    meta.pubkey == key(tag) && meta.is_signer == is_signer && meta.is_writable == is_writable
}

fn held(ctx: &ExecuteRaceswap, params: &ExecuteRaceswapParams) -> Swap {
    let (swap, _) = open(ctx, params, Some(authority())).unwrap();
    match swap.phase {
        Phase::Decoded => step(swap, Event::Performed, ctx, params, &Vec::new()).unwrap().0,
        _ => swap,
    }
}

fn rejected(ctx: &ExecuteRaceswap, params: &ExecuteRaceswapParams) -> RaceswapError {
    open(ctx, params, Some(authority())).unwrap_err()
}

#[test]
fn mint_decimals_are_read_at_their_offset() {
    assert_eq!(MINT_LEN, 82);
    assert_eq!(MINT_DECIMALS_OFFSET, 44);
    assert_eq!(mint_decimals(&mint_record(9)), Ok(9));
    let mut longer = mint_record(6);
    longer.extend_from_slice(&[1, 2, 3]);
    assert_eq!(mint_decimals(&longer), Ok(6));
}

#[test]
fn short_mint_record_is_rejected() {
    assert_eq!(mint_decimals(&vec![9u8; 81]), Err(RaceswapError::InvalidInputMint));
    assert_eq!(mint_decimals(&vec![9u8; 45]), Err(RaceswapError::InvalidInputMint));
    assert_eq!(mint_decimals(&Vec::new()), Err(RaceswapError::InvalidInputMint));
}

#[test]
fn quote_works_out_fee_and_reflection_share() {
    let q = quote(&accounts(100, 20), &request(1_000_000), Some(authority())).unwrap();
    assert_eq!(q.treasury_fee, 2_000);
    assert_eq!(q.reflection_amount, 10_000);
    assert!(q.reflection_required);
    assert_eq!(q.decimals, 6);
    assert!(q.authority.address == key(AUTHORITY));
}

#[test]
fn one_million_at_twenty_bps_without_reflection_runs_only_the_main_leg() {
    let ctx = accounts(0, 20);
    let params = request(1_000_000);
    let list = vec![granted(USER, true, true), granted(50, false, true), granted(51, false, false)];

    let (swap, action) = open(&ctx, &params, Some(authority())).unwrap();
    assert_eq!(swap.phase, Phase::Decoded);
    assert_eq!(swap.quote.treasury_fee, 2_000);
    assert_eq!(swap.quote.reflection_amount, 0);
    assert!(!swap.quote.reflection_required);
    match action {
        Action::PayFee(transfer) => {
            assert_eq!(transfer.lamports, 2_000);
            assert!(transfer.from == key(USER));
            assert!(transfer.to == key(TREASURY));
        }
        other => panic!("expected the fee transfer, got {:?}", other),
    }

    let (swap, action) = step(swap, Event::Performed, &ctx, &params, &list).unwrap();
    assert_eq!(swap.phase, Phase::FeePaid);
    match action {
        Action::HoldInput(transfer) => {
            assert_eq!(transfer.amount, 1_000_000);
            assert_eq!(transfer.decimals, 6);
            assert!(transfer.from == key(30));
            assert!(transfer.to == key(33));
            assert!(transfer.mint == key(INPUT_MINT));
            assert!(transfer.authority == key(USER));
        }
        other => panic!("expected the input transfer, got {:?}", other),
    }

    let (swap, action) = step(swap, Event::Performed, &ctx, &params, &list).unwrap();
    assert_eq!(swap.phase, Phase::InputHeld);
    assert_eq!(swap.cursor.consumed, 3);
    match action {
        Action::Forward { leg, call } => {
            assert_eq!(leg, Leg::Main);
            assert!(call.program_id == key(JUPITER));
            assert_eq!(call.data, vec![0xaa; 3]);
            assert_eq!(call.accounts.len(), 3);
            assert!(same(&call.accounts[0], USER, true, true));
            assert!(same(&call.accounts[1], 50, false, true));
            assert!(same(&call.accounts[2], 51, false, false));
        }
        other => panic!("expected the main leg, got {:?}", other),
    }

    let (swap, action) =
        step(swap, main_returned(1_200), &ctx, &params, &list).unwrap();
    assert_eq!(swap.phase, Phase::Committed);
    match action {
        Action::Emit(event) => {
            assert!(event.user == key(USER));
            assert!(event.input_mint == key(INPUT_MINT));
            assert!(event.main_output_mint == key(MAIN_MINT));
            assert!(event.reflection_output_mint == key(REFLECTION_MINT));
            assert_eq!(event.total_in, 1_000_000);
            assert_eq!(event.main_amount, 500);
            assert_eq!(event.reflection_amount, 0);
            assert_eq!(event.treasury_amount, 2_000);
        }
        other => panic!("expected the announcement, got {:?}", other),
    }
}

#[test]
fn swap_with_reflection_runs_both_legs_in_order() {
    let ctx = accounts(100, 20);
    let mut params = request(1_000_000);
    params.reflection_leg = Some(leg(2, 0xbb));
    let list = supplied();

    let swap = held(&ctx, &params);
    assert_eq!(swap.phase, Phase::FeePaid);
    let (swap, action) = step(swap, Event::Performed, &ctx, &params, &list).unwrap();
    assert_eq!(swap.phase, Phase::InputHeld);
    assert_eq!(swap.cursor.consumed, 2);
    match action {
        Action::Forward { leg, call } => {
            assert_eq!(leg, Leg::Reflection);
            assert_eq!(call.data, vec![0xbb; 3]);
            assert_eq!(call.accounts.len(), 2);
            assert!(same(&call.accounts[0], USER, true, true));
            assert!(same(&call.accounts[1], AUTHORITY, false, true));
        }
        other => panic!("expected the reflection leg, got {:?}", other),
    }

    let (swap, action) = step(swap, reflection_returned(75), &ctx, &params, &list).unwrap();
    assert_eq!(swap.phase, Phase::ReflectionLegDone);
    assert_eq!(swap.reflection_received, 25);
    assert_eq!(swap.cursor.consumed, 5);
    match action {
        Action::Forward { leg, call } => {
            assert_eq!(leg, Leg::Main);
            assert_eq!(call.data, vec![0xaa; 3]);
            assert_eq!(call.accounts.len(), 3);
            assert!(same(&call.accounts[0], 50, false, true));
            assert!(same(&call.accounts[1], 51, false, false));
            assert!(same(&call.accounts[2], AUTHORITY, false, true));
        }
        other => panic!("expected the main leg, got {:?}", other),
    }

    let (swap, action) = step(swap, main_returned(800), &ctx, &params, &list).unwrap();
    assert_eq!(swap.phase, Phase::Committed);
    match action {
        Action::Emit(event) => {
            assert_eq!(event.main_amount, 100);
            assert_eq!(event.reflection_amount, 25);
            assert_eq!(event.treasury_amount, 2_000);
            assert_eq!(event.total_in, 1_000_000);
        }
        other => panic!("expected the announcement, got {:?}", other),
    }
}

#[test]
fn derived_authority_never_signs_a_forwarded_call() {
    let ctx = accounts(0, 20);
    let mut params = request(1_000_000);
    params.main_leg = Some(leg(2, 0xaa));
    let list = vec![granted(AUTHORITY, true, true), granted(USER, true, false)];
    let swap = held(&ctx, &params);
    let (_, action) = step(swap, Event::Performed, &ctx, &params, &list).unwrap();
    match action {
        Action::Forward { call, .. } => {
            assert!(same(&call.accounts[0], AUTHORITY, false, true));
            assert!(same(&call.accounts[1], USER, true, false));
        }
        other => panic!("expected the main leg, got {:?}", other),
    }
}

#[test]
fn zero_fee_opens_with_the_input_transfer() {
    let ctx = accounts(0, 20);
    let (swap, action) = open(&ctx, &request(499), Some(authority())).unwrap();
    assert_eq!(swap.phase, Phase::FeePaid);
    assert_eq!(swap.quote.treasury_fee, 0);
    assert!(matches!(action, Action::HoldInput(transfer) if transfer.amount == 499));

    let ctx = accounts(0, 0);
    let (swap, action) = open(&ctx, &request(u64::MAX), Some(authority())).unwrap();
    assert_eq!(swap.phase, Phase::FeePaid);
    assert!(matches!(action, Action::HoldInput(transfer) if transfer.amount == u64::MAX));
}

#[test]
fn execute_raceswap_derives_the_authority_itself() {
    let mut ctx = accounts(0, 20);
    let params = request(1_000_000);
    assert_eq!(execute_raceswap(&ctx, &params).unwrap_err(), RaceswapError::InvalidVaultOwner);

    let derived = DerivedAuthority::derive(&key(CONFIG), &key(PROGRAM)).unwrap();
    ctx.input_vault.owner = derived.address;
    let (swap, action) = execute_raceswap(&ctx, &params).unwrap();
    assert_eq!(swap.phase, Phase::Decoded);
    assert!(swap.quote.authority.address == derived.address);
    assert_eq!(swap.quote.authority.bump, derived.bump);
    assert!(matches!(action, Action::PayFee(transfer) if transfer.lamports == 2_000));
}

#[test]
fn request_is_held_to_each_rule_in_turn() {
    let good = accounts(100, 20);
    let params = request(1_000_000);

    let mut ctx = good.clone();
    ctx.input_mint.program = key(TOKEN_2022);
    ctx.input_mint.data = Vec::new();
    assert_eq!(rejected(&ctx, &params), RaceswapError::InvalidInputMintOwner);

    let mut ctx = good.clone();
    ctx.input_mint.data = vec![0u8; 81];
    assert_eq!(rejected(&ctx, &request(0)), RaceswapError::InvalidInputMint);

    assert_eq!(rejected(&good, &request(0)), RaceswapError::InvalidAmount);

    assert_eq!(open(&good, &params, None).unwrap_err(), RaceswapError::BumpMissing);

    let mut ctx = good.clone();
    ctx.input_vault.owner = key(USER);
    ctx.config.treasury_fee_bps = 5_000;
    assert_eq!(rejected(&ctx, &params), RaceswapError::InvalidVaultOwner);

    let mut ctx = good.clone();
    ctx.config.treasury_fee_bps = 1_001;
    ctx.user_main_destination.mint = key(99);
    assert_eq!(rejected(&ctx, &params), RaceswapError::InvalidFeeConfig);

    let mut ctx = good.clone();
    ctx.treasury_fee_destination = key(USER);
    ctx.user_main_destination.mint = key(99);
    assert_eq!(rejected(&ctx, &params), RaceswapError::InvalidTreasuryAccount);

    for spoil in 0..3 {
        let mut ctx = good.clone();
        match spoil {
            0 => ctx.user_main_destination.mint = key(99),
            1 => ctx.user_main_destination.owner = key(99),
            _ => ctx.user_main_destination.program = key(99),
        }
        ctx.input_vault.mint = key(99);
        assert_eq!(rejected(&ctx, &params), RaceswapError::InvalidMainAccount);
    }

    let mut ctx = good.clone();
    ctx.input_vault.mint = key(99);
    ctx.user_input.mint = key(99);
    assert_eq!(rejected(&ctx, &params), RaceswapError::InvalidVaultMint);

    for spoil in 0..2 {
        let mut ctx = good.clone();
        match spoil {
            0 => ctx.user_input.mint = key(99),
            _ => ctx.user_input.owner = key(99),
        }
        ctx.user_reflection_destination.mint = key(99);
        assert_eq!(rejected(&ctx, &params), RaceswapError::InvalidUserSource);
    }

    for spoil in 0..3 {
        let mut ctx = good.clone();
        match spoil {
            0 => ctx.user_reflection_destination.mint = key(99),
            1 => ctx.user_reflection_destination.owner = key(99),
            _ => ctx.user_reflection_destination.program = key(99),
        }
        assert_eq!(rejected(&ctx, &params), RaceswapError::InvalidReflectionAccount);
    }
}

#[test]
fn reflection_destination_is_not_looked_at_when_no_leg_is_required() {
    let mut ctx = accounts(100, 20);
    ctx.user_reflection_destination.mint = key(99);
    let mut params = request(1_000_000);
    params.disable_reflection = true;
    assert!(open(&ctx, &params, Some(authority())).is_ok());
    assert!(open(&ctx, &request(99), Some(authority())).is_ok());
    let mut ctx = accounts(0, 20);
    ctx.user_reflection_destination.owner = key(99);
    assert!(open(&ctx, &request(1_000_000), Some(authority())).is_ok());
}

#[test]
fn disabled_reflection_with_a_leg_present_is_unexpected() {
    let ctx = accounts(100, 20);
    let mut params = request(1_000_000);
    params.disable_reflection = true;
    params.reflection_leg = Some(leg(0, 0xbb));
    let swap = held(&ctx, &params);
    assert!(!swap.quote.reflection_required);
    assert_eq!(swap.quote.reflection_amount, 0);
    let out = step(swap, Event::Performed, &ctx, &params, &supplied());
    assert_eq!(out.unwrap_err(), RaceswapError::UnexpectedReflectionLeg);
}

#[test]
fn reflection_share_of_zero_requires_no_leg_and_allows_none() {
    let ctx = accounts(100, 20);
    let mut params = request(99);
    let swap = held(&ctx, &params);
    assert!(!swap.quote.reflection_required);
    let list = vec![granted(USER, true, true), granted(50, false, true), granted(51, false, false)];
    let (_, action) = step(swap, Event::Performed, &ctx, &params, &list).unwrap();
    assert!(matches!(action, Action::Forward { leg: Leg::Main, .. }));

    params.reflection_leg = Some(leg(1, 0xbb));
    let swap = held(&ctx, &params);
    let out = step(swap, Event::Performed, &ctx, &params, &list);
    assert_eq!(out.unwrap_err(), RaceswapError::UnexpectedReflectionLeg);
}

#[test]
fn required_reflection_without_a_leg_is_missing() {
    let ctx = accounts(100, 20);
    let params = request(1_000_000);
    let swap = held(&ctx, &params);
    assert!(swap.quote.reflection_required);
    let out = step(swap, Event::Performed, &ctx, &params, &supplied());
    assert_eq!(out.unwrap_err(), RaceswapError::MissingReflectionLeg);
}

#[test]
fn missing_main_leg_is_reported_when_its_turn_comes() {
    let ctx = accounts(0, 20);
    let mut params = request(1_000_000);
    params.main_leg = None;
    let swap = held(&ctx, &params);
    let out = step(swap, Event::Performed, &ctx, &params, &supplied());
    assert_eq!(out.unwrap_err(), RaceswapError::MissingMainLeg);

    let ctx = accounts(100, 20);
    params.reflection_leg = Some(leg(2, 0xbb));
    let swap = held(&ctx, &params);
    let (swap, _) = step(swap, Event::Performed, &ctx, &params, &supplied()).unwrap();
    let out = step(swap, reflection_returned(75), &ctx, &params, &supplied());
    assert_eq!(out.unwrap_err(), RaceswapError::MissingMainLeg);
}

#[test]
fn leg_that_claims_more_accounts_than_supplied_is_a_mismatch() {
    let ctx = accounts(0, 20);
    let mut params = request(1_000_000);
    params.main_leg = Some(leg(6, 0xaa));
    let swap = held(&ctx, &params);
    let out = step(swap, Event::Performed, &ctx, &params, &supplied());
    assert_eq!(out.unwrap_err(), RaceswapError::AccountMismatch);

    let ctx = accounts(100, 20);
    params.main_leg = Some(leg(4, 0xaa));
    params.reflection_leg = Some(leg(2, 0xbb));
    let swap = held(&ctx, &params);
    let (swap, _) = step(swap, Event::Performed, &ctx, &params, &supplied()).unwrap();
    let out = step(swap, reflection_returned(75), &ctx, &params, &supplied());
    assert_eq!(out.unwrap_err(), RaceswapError::AccountMismatch);
}

#[test]
fn accounts_left_over_after_the_main_leg_are_a_mismatch() {
    let ctx = accounts(0, 20);
    let params = request(1_000_000);
    let swap = held(&ctx, &params);
    let (swap, _) = step(swap, Event::Performed, &ctx, &params, &supplied()).unwrap();
    assert_eq!(swap.cursor.consumed, 3);
    let out = step(swap, main_returned(1_200), &ctx, &params, &supplied());
    assert_eq!(out.unwrap_err(), RaceswapError::AccountMismatch);
}

#[test]
fn main_leg_below_its_minimum_ends_the_swap() {
    let ctx = accounts(0, 20);
    let params = request(1_000_000);
    let list = vec![granted(USER, true, true), granted(50, false, true), granted(51, false, false)];
    let swap = held(&ctx, &params);
    let (swap, _) = step(swap, Event::Performed, &ctx, &params, &list).unwrap();
    let out = step(swap, main_returned(799), &ctx, &params, &list);
    assert_eq!(out.unwrap_err(), RaceswapError::MainBelowMinOut);
    let out = step(swap, main_returned(699), &ctx, &params, &list);
    assert_eq!(out.unwrap_err(), RaceswapError::InvalidMainAccounting);
    let (then, action) = step(swap, main_returned(800), &ctx, &params, &list).unwrap();
    assert_eq!(then.phase, Phase::Committed);
    assert!(matches!(action, Action::Emit(event) if event.main_amount == 100));
}

#[test]
fn reflection_leg_is_held_to_its_minimum_and_must_realize() {
    let ctx = accounts(100, 20);
    let mut params = request(1_000_000);
    params.reflection_leg = Some(leg(2, 0xbb));
    let list = supplied();
    let swap = held(&ctx, &params);
    let (swap, _) = step(swap, Event::Performed, &ctx, &params, &list).unwrap();
    let out = step(swap, reflection_returned(59), &ctx, &params, &list);
    assert_eq!(out.unwrap_err(), RaceswapError::ReflectionBelowMinOut);
    let out = step(swap, reflection_returned(49), &ctx, &params, &list);
    assert_eq!(out.unwrap_err(), RaceswapError::InvalidReflectionAccounting);
    assert!(step(swap, reflection_returned(60), &ctx, &params, &list).is_ok());

    params.min_reflection_out = 0;
    let out = step(swap, reflection_returned(50), &ctx, &params, &list);
    assert_eq!(out.unwrap_err(), RaceswapError::ReflectionBelowMinOut);
    assert!(step(swap, reflection_returned(51), &ctx, &params, &list).is_ok());
}

#[test]
fn failed_callee_ends_the_swap() {
    let ctx = accounts(100, 20);
    let mut params = request(1_000_000);
    params.reflection_leg = Some(leg(2, 0xbb));
    let list = supplied();
    let swap = held(&ctx, &params);
    let (swap, _) = step(swap, Event::Performed, &ctx, &params, &list).unwrap();
    let out = step(swap, Event::CalleeFailed, &ctx, &params, &list);
    assert_eq!(out.unwrap_err(), RaceswapError::SwapCpiFailed);
    let (swap, _) = step(swap, reflection_returned(75), &ctx, &params, &list).unwrap();
    let out = step(swap, Event::CalleeFailed, &ctx, &params, &list);
    assert_eq!(out.unwrap_err(), RaceswapError::SwapCpiFailed);
}

#[test]
fn only_the_awaited_outcome_takes_a_swap_further() {
    let ctx = accounts(100, 20);
    let mut params = request(1_000_000);
    params.reflection_leg = Some(leg(2, 0xbb));
    let list = supplied();
    let returned = reflection_returned(75);
    let ended = |swap: Swap, event: Event| {
        assert_eq!(
            step(swap, event, &ctx, &params, &list).unwrap_err(),
            RaceswapError::SwapCpiFailed
        );
    };

    let (swap, _) = open(&ctx, &params, Some(authority())).unwrap();
    assert_eq!(swap.phase, Phase::Decoded);
    ended(swap, returned);
    ended(swap, Event::CalleeFailed);
    let (swap, _) = step(swap, Event::Performed, &ctx, &params, &list).unwrap();
    assert_eq!(swap.phase, Phase::FeePaid);
    ended(swap, returned);
    ended(swap, Event::CalleeFailed);
    let (swap, _) = step(swap, Event::Performed, &ctx, &params, &list).unwrap();
    assert_eq!(swap.phase, Phase::InputHeld);
    ended(swap, Event::Performed);
    let (swap, _) = step(swap, returned, &ctx, &params, &list).unwrap();
    assert_eq!(swap.phase, Phase::ReflectionLegDone);
    ended(swap, Event::Performed);
    let (swap, _) = step(swap, main_returned(800), &ctx, &params, &list).unwrap();
    assert_eq!(swap.phase, Phase::Committed);
    ended(swap, Event::Performed);
    ended(swap, returned);
    ended(swap, Event::CalleeFailed);
    for phase in [Phase::MainLegDone, Phase::Verified] {
        let between = Swap { phase, ..swap };
        ended(between, Event::Performed);
        ended(between, main_returned(800));
    }
}

#[test]
fn commit_passes_through_done_and_verified() {
    let ctx = accounts(0, 20);
    let params = request(1_000_000);
    let list = vec![granted(USER, true, true), granted(50, false, true), granted(51, false, false)];
    let swap = held(&ctx, &params);
    let (swap, _) = step(swap, Event::Performed, &ctx, &params, &list).unwrap();

    let done = finish_main_leg(&swap, &snapshot(700, 1_200), &params).unwrap();
    assert_eq!(done.phase, Phase::MainLegDone);
    assert_eq!(done.main_received, 500);
    assert_eq!(done.cursor.consumed, 3);
    assert_eq!(
        finish_main_leg(&swap, &snapshot(700, 799), &params).unwrap_err(),
        RaceswapError::MainBelowMinOut
    );

    let checked = verify(&done, &list).unwrap();
    assert_eq!(checked.phase, Phase::Verified);
    assert_eq!(checked.main_received, 500);
    assert_eq!(verify(&done, &supplied()).unwrap_err(), RaceswapError::AccountMismatch);

    let event = announce(&checked, &ctx, &params);
    assert_eq!(event.main_amount, 500);
    assert_eq!(event.reflection_amount, 0);
    assert_eq!(event.treasury_amount, 2_000);
    assert_eq!(event.total_in, 1_000_000);
    assert!(event.user == key(USER));
}
