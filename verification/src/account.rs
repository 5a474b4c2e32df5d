//! Plain descriptions of the accounts and calls that the engine reasons about.

use vstd::prelude::*;
use crate::key::Key;

verus! {

/// An account as the outer call supplied it, with the privileges that call
/// actually holds on it.
#[derive(Clone, Copy, Debug)]
pub struct GrantedAccount {
    pub key: Key,
    pub is_signer: bool,
    pub is_writable: bool,
}

/// An account as it is presented to a forwarded call.
#[derive(Clone, Copy, Debug)]
pub struct AccountMeta {
    pub pubkey: Key,
    pub is_signer: bool,
    pub is_writable: bool,
}

/// A call to another program: its address, the accounts it may use and its
/// own instruction encoding, which is carried as it came and never read.
#[derive(Clone, Debug)]
pub struct Instruction {
    pub program_id: Key,
    pub accounts: Vec<AccountMeta>,
    pub data: Vec<u8>,
}

/// The mathematical content of an [`Instruction`].
pub struct InstructionView {
    pub program_id: Key,
    pub accounts: Seq<AccountMeta>,
    pub data: Seq<u8>,
}

impl View for Instruction {
    type V = InstructionView;

    open spec fn view(&self) -> InstructionView {
        InstructionView {
            program_id: self.program_id,
            accounts: self.accounts@,
            data: self.data@,
        }
    }
}

/// An account reference in its full form: the address together with the
/// privileges that the request would like the forwarded call to have on it.
#[derive(Clone, Copy, Debug)]
pub struct SerializableAccountMeta {
    pub pubkey: Key,
    pub is_signer: bool,
    pub is_writable: bool,
}

/// An account reference in its compact form: a position in the list of
/// accounts supplied with the outer call, and a writable hint.
#[derive(Clone, Copy, Debug)]
pub struct JupiterAccountInfo {
    pub index: u8,
    pub is_writable: bool,
}

/// A transfer of native currency.
#[derive(Clone, Copy, Debug)]
pub struct Transfer {
    pub from: Key,
    pub to: Key,
    pub lamports: u64,
}

} // verus!
