use raceswap::account::{AccountMeta, GrantedAccount, JupiterAccountInfo, SerializableAccountMeta};
use raceswap::dispatch::AccountReferences;
use raceswap::error::RaceswapError;
use raceswap::key::Key;
use raceswap::passthrough::{
    execute_swap, fee_transfer, ExecuteSwap, ExecuteSwapParams, TREASURY_FEE_BPS,
};

fn key(tag: u8) -> Key {
    Key::new([tag; 32])
}

fn granted(tag: u8, is_signer: bool, is_writable: bool) -> GrantedAccount {
    GrantedAccount { key: key(tag), is_signer, is_writable }
}

fn named() -> ExecuteSwap {
    ExecuteSwap { user: key(1), treasury: key(2), jupiter_program: key(3) }
}

fn supplied() -> Vec<GrantedAccount> {
    vec![granted(1, true, true), granted(20, false, true), granted(21, false, false)]
}

fn indexed(amount: u64, indices: &[(u8, bool)]) -> ExecuteSwapParams {
    ExecuteSwapParams {
        amount,
        min_out: 1,
        jupiter_accounts: AccountReferences::Indexed(
            indices.iter().map(|&(index, is_writable)| JupiterAccountInfo { index, is_writable }).collect(),
        ),
        jupiter_data: vec![9, 8, 7],
    }
}

fn same(meta: &AccountMeta, tag: u8, is_signer: bool, is_writable: bool) -> bool {
    meta.pubkey == key(tag) && meta.is_signer == is_signer && meta.is_writable == is_writable
}

#[test]
fn treasury_rate_is_twenty_basis_points() {
    assert_eq!(TREASURY_FEE_BPS, 20);
}

#[test]
fn one_million_in_pays_two_thousand_to_the_treasury() {
    let plan = execute_swap(&named(), &indexed(1_000_000, &[(0, false)]), &supplied()).unwrap();
    let transfer = plan.fee_transfer.unwrap();
    assert_eq!(transfer.lamports, 2_000);
    assert!(transfer.from == key(1));
    assert!(transfer.to == key(2));
}

#[test]
fn zero_fee_is_not_transferred() {
    let plan = execute_swap(&named(), &indexed(499, &[(0, false)]), &supplied()).unwrap();
    assert!(plan.fee_transfer.is_none());
    let plan = execute_swap(&named(), &indexed(500, &[(0, false)]), &supplied()).unwrap();
    assert_eq!(plan.fee_transfer.unwrap().lamports, 1);
    assert!(fee_transfer(&key(1), &key(2), 0).is_none());
    assert_eq!(fee_transfer(&key(1), &key(2), 1).unwrap().lamports, 1);
}

#[test]
fn zero_amount_is_rejected() {
    let out = execute_swap(&named(), &indexed(0, &[(0, false)]), &supplied());
    assert_eq!(out.unwrap_err(), RaceswapError::InvalidAmount);
    let out = execute_swap(&named(), &indexed(0, &[(9, false)]), &supplied());
    assert_eq!(out.unwrap_err(), RaceswapError::InvalidAmount);
}

#[test]
fn index_five_of_three_accounts_is_rejected() {
    let out = execute_swap(&named(), &indexed(1_000_000, &[(0, true), (5, false)]), &supplied());
    assert_eq!(out.unwrap_err(), RaceswapError::AccountMismatch);
}

#[test]
fn indexed_call_carries_the_granted_privileges() {
    let params = indexed(u64::MAX, &[(2, true), (1, false), (0, false)]);
    let plan = execute_swap(&named(), &params, &supplied()).unwrap();
    assert_eq!(plan.fee_transfer.unwrap().lamports, 36_893_488_147_419_103);
    assert!(plan.call.program_id == key(3));
    assert_eq!(plan.call.data, vec![9, 8, 7]);
    assert_eq!(plan.call.accounts.len(), 3);
    assert!(same(&plan.call.accounts[0], 21, false, false));
    assert!(same(&plan.call.accounts[1], 20, false, true));
    assert!(same(&plan.call.accounts[2], 1, true, true));
}

#[test]
fn full_call_cannot_claim_what_was_not_granted() {
    let params = ExecuteSwapParams {
        amount: 10_000,
        min_out: 0,
        jupiter_accounts: AccountReferences::Full(vec![
            SerializableAccountMeta { pubkey: key(21), is_signer: true, is_writable: true },
            SerializableAccountMeta { pubkey: key(1), is_signer: false, is_writable: false },
            SerializableAccountMeta { pubkey: key(1), is_signer: true, is_writable: false },
        ]),
        jupiter_data: Vec::new(),
    };
    let plan = execute_swap(&named(), &params, &supplied()).unwrap();
    assert_eq!(plan.fee_transfer.unwrap().lamports, 20);
    assert!(plan.call.data.is_empty());
    assert!(same(&plan.call.accounts[0], 21, false, false));
    assert!(same(&plan.call.accounts[1], 1, false, true));
    assert!(same(&plan.call.accounts[2], 1, true, true));
}

#[test]
fn full_call_naming_an_unknown_account_is_rejected() {
    let params = ExecuteSwapParams {
        amount: 10_000,
        min_out: 0,
        jupiter_accounts: AccountReferences::Full(vec![SerializableAccountMeta {
            pubkey: key(99),
            is_signer: false,
            is_writable: false,
        }]),
        jupiter_data: Vec::new(),
    };
    assert_eq!(
        execute_swap(&named(), &params, &supplied()).unwrap_err(),
        RaceswapError::AccountMismatch
    );
}

#[test]
fn call_without_accounts_is_planned() {
    let plan = execute_swap(&named(), &indexed(1, &[]), &Vec::new()).unwrap();
    assert!(plan.fee_transfer.is_none());
    assert!(plan.call.accounts.is_empty());
    assert_eq!(plan.call.data, vec![9, 8, 7]);
}
