//! Reconciles the privileges a request asks for with those the outer call holds.
//!
//! A forwarded call never sees an account with more privilege than the outer
//! call was given on it, and the derived authority never signs a forwarded call.

use vstd::prelude::*;
use crate::account::{AccountMeta, GrantedAccount};
use crate::key::Key;

verus! {

/// How the engine's own authority takes part in a swap.
#[derive(Clone, Copy, Debug)]
pub enum Mediation {
    /// The requester signs for the forwarded call; no address is withheld.
    Direct,
    /// A program-derived authority owns the holding account. Its only
    /// legitimate signing context is the outer call, never a forwarded one.
    Derived(Key),
}

impl Mediation {
    /// Whether `key` is the derived authority, whose signer bit is always withheld.
    pub open spec fn withholds(self, key: Key) -> bool {
        match self {
            Mediation::Direct => false,
            Mediation::Derived(authority) => authority == key,
        }
    }

    /// Decides [`Mediation::withholds`].
    pub fn is_withheld(&self, key: &Key) -> (withheld: bool)
        ensures
            withheld == self.withholds(*key),
    {
        match self {
            Mediation::Direct => false,
            Mediation::Derived(authority) => *authority == *key,
        }
    }
}

/// One reference of a leg after it was resolved to an account of the outer
/// call, with what the request asks for on it.
#[derive(Clone, Copy, Debug)]
pub struct Resolved {
    /// The account, with the privileges actually granted on it.
    pub account: GrantedAccount,
    /// Whether the request wants the account to sign the forwarded call.
    pub wants_signer: bool,
    /// Whether the request wants the account writable. Informational only.
    pub wants_writable: bool,
}

/// The account-meta presented to the forwarded call for one resolved reference.
///
/// Writability is the granted bit alone. The signer bit is the lesser of the
/// requested and the granted bit, and false for the derived authority.
pub open spec fn reconciled(r: Resolved, mediation: Mediation) -> AccountMeta {
    AccountMeta {
        pubkey: r.account.key,
        is_signer: r.wants_signer && r.account.is_signer && !mediation.withholds(r.account.key),
        is_writable: r.account.is_writable,
    }
}

/// The account-meta list for a whole leg.
pub open spec fn reconciled_all(resolved: Seq<Resolved>, mediation: Mediation) -> Seq<AccountMeta> {
    Seq::new(resolved.len(), |i: int| reconciled(resolved[i], mediation))
}

/// Reconciles one resolved reference.
pub fn reconcile_one(r: &Resolved, mediation: &Mediation) -> (meta: AccountMeta)
    ensures
        meta == reconciled(*r, *mediation),
        meta.is_signer ==> r.account.is_signer && !mediation.withholds(meta.pubkey),
        meta.is_writable == r.account.is_writable,
{
    let withheld = mediation.is_withheld(&r.account.key);
    AccountMeta {
        pubkey: r.account.key,
        is_signer: r.wants_signer && r.account.is_signer && !withheld,
        is_writable: r.account.is_writable,
    }
}

/// Reconciles the references of a leg, in order.
///
/// No produced account-meta signs unless the outer call's account signed and
/// is not the derived authority, and each is writable exactly when the outer
/// call's account is, whatever the request asked for.
pub fn reconcile(resolved: &Vec<Resolved>, mediation: &Mediation) -> (metas: Vec<AccountMeta>)
    ensures
        metas@ == reconciled_all(resolved@, *mediation),
        metas@.len() == resolved@.len(),
        forall|i: int|
            0 <= i < metas@.len() ==> (#[trigger] metas@[i]).pubkey == resolved@[i].account.key,
        forall|i: int|
            0 <= i < metas@.len() && (#[trigger] metas@[i]).is_signer ==> resolved@[i].account.is_signer
                && !mediation.withholds(metas@[i].pubkey),
        forall|i: int|
            0 <= i < metas@.len() ==> (#[trigger] metas@[i]).is_writable
                == resolved@[i].account.is_writable,
{
    let mut metas: Vec<AccountMeta> = Vec::new();
    let mut i: usize = 0;
    while i < resolved.len()
        invariant
            i <= resolved@.len(),
            metas@.len() == i,
            forall|j: int| 0 <= j < i ==> metas@[j] == reconciled(resolved@[j], *mediation),
        decreases resolved@.len() - i,
    {
        let meta = reconcile_one(&resolved[i], mediation);
        metas.push(meta);
        i = i + 1;
    }
    proof {
        assert(metas@ =~= reconciled_all(resolved@, *mediation));
    }
    metas
}

/// A reconciled account signs only if the outer call's account signed and is
/// not the derived authority, whatever signer status the request asked for.
pub proof fn lemma_signer_is_never_escalated(r: Resolved, mediation: Mediation)
    ensures
        reconciled(r, mediation).is_signer ==> r.account.is_signer && !mediation.withholds(
            r.account.key,
        ),
        mediation.withholds(r.account.key) ==> !reconciled(r, mediation).is_signer,
        !r.account.is_signer ==> !reconciled(r, mediation).is_signer,
{
}

/// A reconciled account is writable exactly when the outer call's account is:
/// two requests that differ only in what they ask for get the same bit.
pub proof fn lemma_writable_is_the_grant(
    account: GrantedAccount,
    wants_signer: bool,
    wants_writable: bool,
    mediation: Mediation,
)
    ensures
        reconciled(Resolved { account, wants_signer, wants_writable }, mediation).is_writable
            == account.is_writable,
{
}

} // verus!
