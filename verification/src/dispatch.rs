//! Resolves the account references of a leg and assembles the forwarded call.
//!
//! A leg names its accounts in one of three ways: by the next entries under a
//! cursor over the accounts supplied with the outer call, by index into that
//! list, or by full address. Whatever the form, each reference is resolved to
//! a supplied account, whose granted privileges alone decide what the
//! forwarded call may do with it.

use vstd::prelude::*;
use crate::account::{
    AccountMeta, GrantedAccount, Instruction, InstructionView, JupiterAccountInfo,
    SerializableAccountMeta,
};
use crate::error::RaceswapError;
use crate::key::Key;
use crate::permissions::{reconcile, reconciled_all, Mediation, Resolved};
use crate::wire::read_bytes;

verus! {

/// One leg of a swap as the request carries it: how many of the supplied
/// accounts it consumes, what it asks for on each, and the callee's payload.
#[derive(Clone, Debug)]
pub struct SerializedInstruction {
    pub accounts_len: u16,
    /// The callee's own instruction encoding. Never interpreted.
    pub data: Vec<u8>,
    /// Requested writable flag per account. Informational only.
    pub is_writable: Vec<bool>,
    /// Requested signer flag per account. A missing flag asks for nothing.
    pub is_signer: Vec<bool>,
}

/// The mathematical content of a [`SerializedInstruction`].
pub struct SerializedInstructionView {
    pub accounts_len: u16,
    pub data: Seq<u8>,
    pub is_writable: Seq<bool>,
    pub is_signer: Seq<bool>,
}

impl View for SerializedInstruction {
    type V = SerializedInstructionView;

    open spec fn view(&self) -> SerializedInstructionView {
        SerializedInstructionView {
            accounts_len: self.accounts_len,
            data: self.data@,
            is_writable: self.is_writable@,
            is_signer: self.is_signer@,
        }
    }
}

/// The mathematical content of a leg that may be absent.
pub open spec fn optional_leg_view(leg: Option<SerializedInstruction>) -> Option<
    SerializedInstructionView,
> {
    match leg {
        Some(leg) => Some(leg@),
        None => None,
    }
}

/// The account references of a single-leg request, in either encoding.
#[derive(Clone, Debug)]
pub enum AccountReferences {
    /// Each reference carries the full address and the requested privileges.
    Full(Vec<SerializableAccountMeta>),
    /// Each reference is an index into the supplied accounts.
    Indexed(Vec<JupiterAccountInfo>),
}

/// The mathematical content of [`AccountReferences`].
pub enum AccountReferencesView {
    Full(Seq<SerializableAccountMeta>),
    Indexed(Seq<JupiterAccountInfo>),
}

impl View for AccountReferences {
    type V = AccountReferencesView;

    open spec fn view(&self) -> AccountReferencesView {
        match self {
            AccountReferences::Full(refs) => AccountReferencesView::Full(refs@),
            AccountReferences::Indexed(refs) => AccountReferencesView::Indexed(refs@),
        }
    }
}

/// The flag at position `i`, or `default` where the list is too short.
pub open spec fn flag_at(flags: Seq<bool>, i: int, default: bool) -> bool {
    if 0 <= i < flags.len() {
        flags[i]
    } else {
        default
    }
}

/// Whether `i` is the first position in `supplied` that holds `key`.
pub open spec fn is_first_with_key(supplied: Seq<GrantedAccount>, key: Key, i: int) -> bool {
    &&& 0 <= i < supplied.len()
    &&& supplied[i].key == key
    &&& forall|j: int| 0 <= j < i ==> (#[trigger] supplied[j]).key != key
}

/// Whether some supplied account holds `key`.
pub open spec fn has_key(supplied: Seq<GrantedAccount>, key: Key) -> bool {
    exists|i: int| 0 <= i < supplied.len() && (#[trigger] supplied[i]).key == key
}

/// The first position in `supplied` that holds `key`, where there is one.
pub open spec fn first_with_key(supplied: Seq<GrantedAccount>, key: Key) -> int {
    choose|i: int| is_first_with_key(supplied, key, i)
}

/// At most one position is the first to hold a key.
pub proof fn lemma_first_with_key_unique(supplied: Seq<GrantedAccount>, key: Key, i: int)
    requires
        is_first_with_key(supplied, key, i),
    ensures
        first_with_key(supplied, key) == i,
        has_key(supplied, key),
{
    let k = first_with_key(supplied, key);
    assert(is_first_with_key(supplied, key, k));
    if k < i {
        assert(supplied[k].key != key);
    }
    if i < k {
        assert(supplied[i].key != key);
    }
}

/// Where some supplied account holds a key, one is the first to hold it.
pub proof fn lemma_first_exists(supplied: Seq<GrantedAccount>, key: Key, i: int)
    requires
        0 <= i < supplied.len(),
        supplied[i].key == key,
    ensures
        is_first_with_key(supplied, key, first_with_key(supplied, key)),
        0 <= first_with_key(supplied, key) <= i,
    decreases i,
{
    if exists|j: int| 0 <= j < i && (#[trigger] supplied[j]).key == key {
        let j = choose|j: int| 0 <= j < i && (#[trigger] supplied[j]).key == key;
        lemma_first_exists(supplied, key, j);
    } else {
        assert(is_first_with_key(supplied, key, i));
        lemma_first_with_key_unique(supplied, key, i);
    }
}

/// Finds the first supplied account that holds `key`.
pub fn lookup(supplied: &Vec<GrantedAccount>, key: &Key) -> (found: Option<usize>)
    ensures
        match found {
            Some(i) => is_first_with_key(supplied@, *key, i as int) && i as int == first_with_key(
                supplied@,
                *key,
            ),
            None => !has_key(supplied@, *key),
        },
{
    let mut i: usize = 0;
    while i < supplied.len()
        invariant
            i <= supplied@.len(),
            forall|j: int| 0 <= j < i ==> (#[trigger] supplied@[j]).key != *key,
        decreases supplied@.len() - i,
    {
        if supplied[i].key == *key {
            proof {
                lemma_first_with_key_unique(supplied@, *key, i as int);
            }
            return Some(i);
        }
        i = i + 1;
    }
    None
}

/// The references of a cursor-fed leg, resolved: the `accounts_len` supplied
/// accounts from `cursor` on, each with the leg's flags for its position.
pub open spec fn leg_resolved(
    leg: SerializedInstructionView,
    supplied: Seq<GrantedAccount>,
    cursor: int,
) -> Seq<Resolved> {
    Seq::new(
        leg.accounts_len as nat,
        |i: int|
            Resolved {
                account: supplied[cursor + i],
                wants_signer: flag_at(leg.is_signer, i, false),
                wants_writable: flag_at(leg.is_writable, i, supplied[cursor + i].is_writable),
            },
    )
}

/// Whether a cursor-fed leg finds all its accounts from `cursor` on.
pub open spec fn leg_fits(leg: SerializedInstructionView, supplied: Seq<GrantedAccount>, cursor: int) -> bool {
    0 <= cursor && cursor + leg.accounts_len <= supplied.len()
}

/// Whether every full reference names the address of a supplied account.
pub open spec fn all_present(refs: Seq<SerializableAccountMeta>, supplied: Seq<GrantedAccount>) -> bool {
    forall|i: int| 0 <= i < refs.len() ==> has_key(supplied, (#[trigger] refs[i]).pubkey)
}

/// Whether every indexed reference points into the supplied accounts.
pub open spec fn all_in_range(refs: Seq<JupiterAccountInfo>, supplied: Seq<GrantedAccount>) -> bool {
    forall|i: int| 0 <= i < refs.len() ==> (#[trigger] refs[i]).index < supplied.len()
}

/// Full references, resolved: each to the first supplied account with its
/// address, asking for the signer status it states.
pub open spec fn full_resolved(refs: Seq<SerializableAccountMeta>, supplied: Seq<GrantedAccount>) -> Seq<
    Resolved,
> {
    Seq::new(
        refs.len(),
        |i: int|
            Resolved {
                account: supplied[first_with_key(supplied, refs[i].pubkey)],
                wants_signer: refs[i].is_signer,
                wants_writable: refs[i].is_writable,
            },
    )
}

/// Indexed references, resolved: each to the supplied account at its index,
/// asking for whatever signer status that account holds.
pub open spec fn indexed_resolved(refs: Seq<JupiterAccountInfo>, supplied: Seq<GrantedAccount>) -> Seq<
    Resolved,
> {
    Seq::new(
        refs.len(),
        |i: int|
            Resolved {
                account: supplied[refs[i].index as int],
                wants_signer: true,
                wants_writable: refs[i].is_writable,
            },
    )
}

/// Whether every reference names a supplied account.
pub open spec fn references_resolve(refs: AccountReferencesView, supplied: Seq<GrantedAccount>) -> bool {
    match refs {
        AccountReferencesView::Full(refs) => all_present(refs, supplied),
        AccountReferencesView::Indexed(refs) => all_in_range(refs, supplied),
    }
}

/// The references of a single-leg request, resolved.
pub open spec fn references_resolved(refs: AccountReferencesView, supplied: Seq<GrantedAccount>) -> Seq<
    Resolved,
> {
    match refs {
        AccountReferencesView::Full(refs) => full_resolved(refs, supplied),
        AccountReferencesView::Indexed(refs) => indexed_resolved(refs, supplied),
    }
}

/// Resolves the references of a single-leg request against the supplied
/// accounts. A reference that names no supplied account is an error; an index
/// past the end is never clamped.
pub fn resolve_references(refs: &AccountReferences, supplied: &Vec<GrantedAccount>) -> (out: Result<
    Vec<Resolved>,
    RaceswapError,
>)
    ensures
        match out {
            Ok(resolved) => references_resolve(refs@, supplied@) && resolved@
                == references_resolved(refs@, supplied@),
            Err(e) => !references_resolve(refs@, supplied@) && e == RaceswapError::AccountMismatch,
        },
{
    let mut resolved: Vec<Resolved> = Vec::new();
    match refs {
        AccountReferences::Full(list) => {
            let mut i: usize = 0;
            while i < list.len()
                invariant
                    i <= list@.len(),
                    resolved@.len() == i,
                    refs@ == AccountReferencesView::Full(list@),
                    forall|j: int| 0 <= j < i ==> has_key(supplied@, (#[trigger] list@[j]).pubkey),
                    forall|j: int|
                        0 <= j < i ==> (#[trigger] resolved@[j]) == full_resolved(
                            list@,
                            supplied@,
                        )[j],
                decreases list@.len() - i,
            {
                match lookup(supplied, &list[i].pubkey) {
                    Some(at) => {
                        resolved.push(
                            Resolved {
                                account: supplied[at],
                                wants_signer: list[i].is_signer,
                                wants_writable: list[i].is_writable,
                            },
                        );
                    },
                    None => {
                        proof {
                            assert(!has_key(supplied@, list@[i as int].pubkey));
                        }
                        return Err(RaceswapError::AccountMismatch);
                    },
                }
                i = i + 1;
            }
            proof {
                assert(resolved@ =~= full_resolved(list@, supplied@));
            }
            Ok(resolved)
        },
        AccountReferences::Indexed(list) => {
            let mut i: usize = 0;
            while i < list.len()
                invariant
                    i <= list@.len(),
                    resolved@.len() == i,
                    refs@ == AccountReferencesView::Indexed(list@),
                    forall|j: int| 0 <= j < i ==> (#[trigger] list@[j]).index < supplied@.len(),
                    forall|j: int|
                        0 <= j < i ==> (#[trigger] resolved@[j]) == indexed_resolved(
                            list@,
                            supplied@,
                        )[j],
                decreases list@.len() - i,
            {
                let at: usize = list[i].index as usize;
                if at >= supplied.len() {
                    proof {
                        assert(list@[i as int].index >= supplied@.len());
                    }
                    return Err(RaceswapError::AccountMismatch);
                }
                resolved.push(
                    Resolved {
                        account: supplied[at],
                        wants_signer: true,
                        wants_writable: list[i].is_writable,
                    },
                );
                i = i + 1;
            }
            proof {
                assert(resolved@ =~= indexed_resolved(list@, supplied@));
            }
            Ok(resolved)
        },
    }
}

/// Resolves a cursor-fed leg: takes exactly `accounts_len` supplied accounts
/// from `cursor` on, or fails where fewer are left.
pub fn resolve_leg(leg: &SerializedInstruction, supplied: &Vec<GrantedAccount>, cursor: usize) -> (out:
    Result<Vec<Resolved>, RaceswapError>)
    ensures
        match out {
            Ok(resolved) => leg_fits(leg@, supplied@, cursor as int) && resolved@ == leg_resolved(
                leg@,
                supplied@,
                cursor as int,
            ),
            Err(e) => !leg_fits(leg@, supplied@, cursor as int) && e
                == RaceswapError::AccountMismatch,
        },
{
    let count: usize = leg.accounts_len as usize;
    if cursor > supplied.len() || count > supplied.len() - cursor {
        return Err(RaceswapError::AccountMismatch);
    }
    let mut resolved: Vec<Resolved> = Vec::new();
    let mut i: usize = 0;
    while i < count
        invariant
            i <= count,
            count == leg@.accounts_len,
            cursor + count <= supplied@.len() <= usize::MAX,
            resolved@.len() == i,
            forall|j: int|
                0 <= j < i ==> (#[trigger] resolved@[j]) == leg_resolved(
                    leg@,
                    supplied@,
                    cursor as int,
                )[j],
        decreases count - i,
    {
        let account = supplied[cursor + i];
        let wants_signer = if i < leg.is_signer.len() {
            leg.is_signer[i]
        } else {
            false
        };
        let wants_writable = if i < leg.is_writable.len() {
            leg.is_writable[i]
        } else {
            account.is_writable
        };
        resolved.push(Resolved { account, wants_signer, wants_writable });
        i = i + 1;
    }
    proof {
        assert(resolved@ =~= leg_resolved(leg@, supplied@, cursor as int));
    }
    Ok(resolved)
}

/// The call that is forwarded for references resolved to `resolved`.
pub open spec fn forwarded_call(
    program_id: Key,
    resolved: Seq<Resolved>,
    mediation: Mediation,
    data: Seq<u8>,
) -> InstructionView {
    InstructionView { program_id, accounts: reconciled_all(resolved, mediation), data }
}

/// Assembles the forwarded call: the fixed target program, the reconciled
/// account list and the payload, byte for byte.
pub fn assemble(program_id: &Key, resolved: &Vec<Resolved>, mediation: &Mediation, data: &Vec<u8>) -> (call:
    Instruction)
    ensures
        call@ == forwarded_call(*program_id, resolved@, *mediation, data@),
{
    let accounts = reconcile(resolved, mediation);
    let payload = read_bytes(data.as_slice(), 0, data.len());
    proof {
        assert(data@.subrange(0, data@.len() as int) =~= data@);
    }
    Instruction { program_id: *program_id, accounts, data: payload }
}

/// A position in the accounts supplied with the outer call. Legs consume
/// accounts from it in order.
#[derive(Clone, Copy, Debug)]
pub struct Cursor {
    pub consumed: usize,
}

impl Cursor {
    /// A cursor at the first supplied account.
    pub fn start() -> (cursor: Cursor)
        ensures
            cursor.consumed == 0,
    {
        Cursor { consumed: 0 }
    }

    /// Prepares the forwarded call of one leg and advances past its accounts.
    ///
    /// A leg that expects `accounts_len` accounts takes exactly that many from
    /// the cursor. Where fewer are left, nothing is taken and the leg fails
    /// with an account mismatch.
    pub fn prepare_leg(
        &mut self,
        leg: &SerializedInstruction,
        program_id: &Key,
        supplied: &Vec<GrantedAccount>,
        mediation: &Mediation,
    ) -> (out: Result<Instruction, RaceswapError>)
        ensures
            match out {
                Ok(call) => ({
                    &&& leg_fits(leg@, supplied@, old(self).consumed as int)
                    &&& final(self).consumed == old(self).consumed + leg@.accounts_len
                    &&& call@ == forwarded_call(
                        *program_id,
                        leg_resolved(leg@, supplied@, old(self).consumed as int),
                        *mediation,
                        leg@.data,
                    )
                }),
                Err(e) => ({
                    &&& !leg_fits(leg@, supplied@, old(self).consumed as int)
                    &&& final(self).consumed == old(self).consumed
                    &&& e == RaceswapError::AccountMismatch
                }),
            },
    {
        match resolve_leg(leg, supplied, self.consumed) {
            Ok(resolved) => {
                let call = assemble(program_id, &resolved, mediation, &leg.data);
                assert(self.consumed + leg.accounts_len <= supplied.len());
                self.consumed = self.consumed + leg.accounts_len as usize;
                Ok(call)
            },
            Err(e) => Err(e),
        }
    }

    /// Accepts the end of the last leg only if every supplied account was
    /// consumed: a trailing account that no leg accounts for is an error.
    pub fn finish(&self, supplied: &Vec<GrantedAccount>) -> (out: Result<(), RaceswapError>)
        ensures
            out is Ok <==> self.consumed == supplied@.len(),
            out is Err ==> out == Err::<(), RaceswapError>(RaceswapError::AccountMismatch),
    {
        if self.consumed == supplied.len() {
            Ok(())
        } else {
            Err(RaceswapError::AccountMismatch)
        }
    }
}

/// Whatever a request asks for, a forwarded call presents each account with
/// no more than the outer call holds on it: it signs only if the outer call's
/// account signed and is not the derived authority, and it is writable
/// exactly when the outer call's account is.
pub proof fn lemma_forwarded_call_never_escalates(
    program_id: Key,
    resolved: Seq<Resolved>,
    mediation: Mediation,
    data: Seq<u8>,
)
    ensures
        forwarded_call(program_id, resolved, mediation, data).accounts.len() == resolved.len(),
        forall|i: int|
            #![trigger forwarded_call(program_id, resolved, mediation, data).accounts[i]]
            0 <= i < resolved.len() ==> ({
                let meta = forwarded_call(program_id, resolved, mediation, data).accounts[i];
                &&& meta.pubkey == resolved[i].account.key
                &&& meta.is_writable == resolved[i].account.is_writable
                &&& meta.is_signer ==> resolved[i].account.is_signer && !mediation.withholds(
                    meta.pubkey,
                )
            }),
{
}

/// The accounts that a cursor-fed leg resolves to are the supplied accounts
/// from the cursor on, one for one and in order, whatever flags the leg carries.
pub proof fn lemma_leg_takes_the_next_accounts(
    leg: SerializedInstructionView,
    supplied: Seq<GrantedAccount>,
    cursor: int,
)
    requires
        leg_fits(leg, supplied, cursor),
    ensures
        leg_resolved(leg, supplied, cursor).len() == leg.accounts_len,
        forall|i: int|
            0 <= i < leg.accounts_len ==> (#[trigger] leg_resolved(leg, supplied, cursor)[i]).account
                == supplied[cursor + i],
{
}

} // verus!
