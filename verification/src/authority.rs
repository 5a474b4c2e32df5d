//! The program-derived authority that owns the holding account.
//!
//! The authority is computed from the configuration's address, never stored
//! and never handed to the engine in a way that would confer signer status.

use vstd::prelude::*;
use anchor_lang::prelude::Pubkey;
use crate::error::RaceswapError;
use crate::key::Key;
use crate::permissions::Mediation;

verus! {

/// Seed under which the configuration record's address is derived.
pub const CONFIG_SEED: [u8; 15] = [
    114, 97, 99, 101, 115, 119, 97, 112, 45, 99, 111, 110, 102, 105, 103,
];

/// Seed under which the swap authority's address is derived.
pub const AUTHORITY_SEED: [u8; 18] = [
    114, 97, 99, 101, 115, 119, 97, 112, 45, 97, 117, 116, 104, 111, 114, 105, 116, 121,
];

/// The address and bump seed that the ledger's derivation yields for the two
/// seeds `seed` and `key` under `program_id`, or `None` where no bump seed
/// yields an address.
pub uninterp spec fn program_address(seed: Seq<u8>, key: Seq<u8>, program_id: Seq<u8>) -> Option<
    (Seq<u8>, u8),
>;

/// Calls `Pubkey::try_find_program_address`, which anchor-lang hands on from
/// solana-program, with the two seeds `seed` and the bytes of `key`.
///
/// Trusted, not proved: what comes back is the derivation's result for these
/// seeds and this program, and that result depends on nothing else. The call
/// searches the bump seeds from 255 downwards for the first that hashes to an
/// address off the curve; it returns `None` where it finds none, and never
/// panics.
#[verifier::external_body]
fn try_find_program_address(seed: &[u8], key: &Key, program_id: &Key) -> (found: Option<(Key, u8)>)
    ensures
        found matches Some((address, bump)) ==> program_address(seed@, key@, program_id@) == Some(
            (address@, bump),
        ),
        found is None ==> program_address(seed@, key@, program_id@) is None,
{
    let program = Pubkey::new_from_array(program_id.bytes);
    match Pubkey::try_find_program_address(&[seed, &key.bytes], &program) {
        Some((address, bump)) => Some((Key { bytes: address.to_bytes() }, bump)),
        None => None,
    }
}

/// The authority derived for one configuration.
#[derive(Clone, Copy, Debug)]
pub struct DerivedAuthority {
    pub address: Key,
    pub bump: u8,
}

impl DerivedAuthority {
    /// Whether `found` is what the derivation yields for the configuration at
    /// `config_key` under `program_id`.
    pub open spec fn derives_from(
        found: Option<DerivedAuthority>,
        config_key: Key,
        program_id: Key,
    ) -> bool {
        match found {
            Some(authority) => program_address(AUTHORITY_SEED@, config_key@, program_id@) == Some(
                (authority.address@, authority.bump),
            ),
            None => program_address(AUTHORITY_SEED@, config_key@, program_id@) is None,
        }
    }

    /// Derives the swap authority of the configuration at `config_key`.
    pub fn derive(config_key: &Key, program_id: &Key) -> (found: Option<DerivedAuthority>)
        ensures
            Self::derives_from(found, *config_key, *program_id),
    {
        match try_find_program_address(AUTHORITY_SEED.as_slice(), config_key, program_id) {
            Some((address, bump)) => Some(DerivedAuthority { address, bump }),
            None => None,
        }
    }

    /// The mediation under which this authority's signer bit is withheld.
    pub fn mediation(&self) -> (mediation: Mediation)
        ensures
            mediation == Mediation::Derived(self.address),
    {
        Mediation::Derived(self.address)
    }

    /// Accepts a holding account only if this authority owns it.
    pub fn check_vault_owner(&self, vault_owner: &Key) -> (checked: Result<(), RaceswapError>)
        ensures
            checked is Ok <==> *vault_owner == self.address,
            checked is Err ==> checked == Err::<(), RaceswapError>(RaceswapError::InvalidVaultOwner),
    {
        if *vault_owner == self.address {
            Ok(())
        } else {
            Err(RaceswapError::InvalidVaultOwner)
        }
    }
}

/// The derivation yields at most one authority for a configuration.
pub proof fn lemma_derivation_is_a_function(
    a: Option<DerivedAuthority>,
    b: Option<DerivedAuthority>,
    config_key: Key,
    program_id: Key,
)
    requires
        DerivedAuthority::derives_from(a, config_key, program_id),
        DerivedAuthority::derives_from(b, config_key, program_id),
    ensures
        a == b,
{
    if a is Some && b is Some {
        crate::key::lemma_key_eq_by_view(a->0.address, b->0.address);
    }
}

} // verus!
