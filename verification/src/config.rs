//! The fee configuration: its invariant, its creation and its change.

use vstd::prelude::*;
use crate::authority::{lemma_derivation_is_a_function, DerivedAuthority};
use crate::error::RaceswapError;
use crate::fee::{BPS_DENOMINATOR, MAX_FEE_BPS};
use crate::key::Key;
use crate::wire::{read_key, read_u16, u16_le, DecodeError};

verus! {

/// Whether a pair of fee rates may be configured: each is at most
/// [`MAX_FEE_BPS`] and together they stay below a full share.
pub open spec fn rates_valid(reflection_fee_bps: u16, treasury_fee_bps: u16) -> bool {
    &&& reflection_fee_bps <= 1_000
    &&& treasury_fee_bps <= 1_000
    &&& reflection_fee_bps + treasury_fee_bps < 10_000
}

/// Decides [`rates_valid`].
pub fn check_rates(reflection_fee_bps: u16, treasury_fee_bps: u16) -> (valid: bool)
    ensures
        valid == rates_valid(reflection_fee_bps, treasury_fee_bps),
{
    let total: u32 = reflection_fee_bps as u32 + treasury_fee_bps as u32;
    reflection_fee_bps <= MAX_FEE_BPS && treasury_fee_bps <= MAX_FEE_BPS && (total as u64)
        < BPS_DENOMINATOR
}

/// The stored configuration.
#[derive(Clone, Copy, Debug)]
pub struct RaceswapConfig {
    /// The only principal that may change the configuration.
    pub authority: Key,
    /// Where the treasury fee is paid.
    pub treasury_wallet: Key,
    /// Share of the input that is swapped into the reflection token.
    pub reflection_fee_bps: u16,
    /// Share of the input amount that is charged as the treasury fee.
    pub treasury_fee_bps: u16,
    /// Bump seed of the configuration record's own address.
    pub bump: u8,
    /// Bump seed of the authority derived for this configuration.
    pub authority_bump: u8,
}

impl RaceswapConfig {
    /// Size of the stored record in bytes.
    pub const LEN: usize = 70;

    /// The invariant of every accepted configuration.
    pub open spec fn wf(&self) -> bool {
        rates_valid(self.reflection_fee_bps, self.treasury_fee_bps)
    }

    /// Decides [`RaceswapConfig::wf`].
    pub fn is_valid(&self) -> (valid: bool)
        ensures
            valid == self.wf(),
    {
        check_rates(self.reflection_fee_bps, self.treasury_fee_bps)
    }

    /// The configuration after `params` is applied: every field that `params`
    /// names is replaced, every other field and both bump seeds are kept.
    pub open spec fn updated(self, params: UpdateConfigParams) -> RaceswapConfig {
        RaceswapConfig {
            authority: match params.new_authority {
                Some(authority) => authority,
                None => self.authority,
            },
            treasury_wallet: match params.treasury_wallet {
                Some(wallet) => wallet,
                None => self.treasury_wallet,
            },
            reflection_fee_bps: match params.reflection_fee_bps {
                Some(bps) => bps,
                None => self.reflection_fee_bps,
            },
            treasury_fee_bps: match params.treasury_fee_bps {
                Some(bps) => bps,
                None => self.treasury_fee_bps,
            },
            bump: self.bump,
            authority_bump: self.authority_bump,
        }
    }

    /// What is announced after this configuration was stored.
    pub open spec fn announcement(self) -> ConfigUpdated {
        ConfigUpdated {
            authority: self.authority,
            treasury_wallet: self.treasury_wallet,
            reflection_fee_bps: self.reflection_fee_bps,
            treasury_fee_bps: self.treasury_fee_bps,
        }
    }

    /// Builds the announcement of this configuration.
    pub fn announce(&self) -> (event: ConfigUpdated)
        ensures
            event == self.announcement(),
    {
        ConfigUpdated {
            authority: self.authority,
            treasury_wallet: self.treasury_wallet,
            reflection_fee_bps: self.reflection_fee_bps,
            treasury_fee_bps: self.treasury_fee_bps,
        }
    }
}

/// What the creation of the configuration is asked to store.
#[derive(Clone, Copy, Debug)]
pub struct InitializeConfigParams {
    pub authority: Key,
    pub treasury_wallet: Key,
    pub reflection_fee_bps: u16,
    pub treasury_fee_bps: u16,
}

/// A change of the configuration. A field that is `None` is left as it is.
#[derive(Clone, Copy, Debug)]
pub struct UpdateConfigParams {
    pub new_authority: Option<Key>,
    pub treasury_wallet: Option<Key>,
    pub reflection_fee_bps: Option<u16>,
    pub treasury_fee_bps: Option<u16>,
}

impl Default for UpdateConfigParams {
    fn default() -> (params: UpdateConfigParams)
        ensures
            params.new_authority is None,
            params.treasury_wallet is None,
            params.reflection_fee_bps is None,
            params.treasury_fee_bps is None,
    {
        UpdateConfigParams {
            new_authority: None,
            treasury_wallet: None,
            reflection_fee_bps: None,
            treasury_fee_bps: None,
        }
    }
}

/// Announced whenever a configuration was stored.
#[derive(Clone, Copy, Debug)]
pub struct ConfigUpdated {
    pub authority: Key,
    pub treasury_wallet: Key,
    pub reflection_fee_bps: u16,
    pub treasury_fee_bps: u16,
}

/// Where a configuration is created.
#[derive(Clone, Copy, Debug)]
pub struct InitializeConfig {
    /// Address of the configuration record.
    pub config: Key,
    /// Bump seed of that address.
    pub bump: u8,
    /// Address of the program that owns the record.
    pub program_id: Key,
}

/// A stored configuration together with the principal that signed for its change.
#[derive(Clone, Copy, Debug)]
pub struct UpdateConfig {
    pub config: RaceswapConfig,
    /// The signer of the outer call.
    pub authority: Key,
}

/// The configuration that `initialize_config` stores for `params` when the
/// derivation yields `authority`.
pub open spec fn initial_config(
    ctx: InitializeConfig,
    params: InitializeConfigParams,
    authority: DerivedAuthority,
) -> RaceswapConfig {
    RaceswapConfig {
        authority: params.authority,
        treasury_wallet: params.treasury_wallet,
        reflection_fee_bps: params.reflection_fee_bps,
        treasury_fee_bps: params.treasury_fee_bps,
        bump: ctx.bump,
        authority_bump: authority.bump,
    }
}

/// The configuration that `initialize_config` builds once the derivation's
/// result is known, or why it builds none.
pub open spec fn initialize_outcome(
    ctx: InitializeConfig,
    params: InitializeConfigParams,
    derived: Option<DerivedAuthority>,
) -> Result<RaceswapConfig, RaceswapError> {
    if !rates_valid(params.reflection_fee_bps, params.treasury_fee_bps) {
        Err(RaceswapError::InvalidFeeConfig)
    } else {
        match derived {
            Some(authority) => Ok(initial_config(ctx, params, authority)),
            None => Err(RaceswapError::BumpMissing),
        }
    }
}

/// Validates `params` and builds the configuration to store, given what the
/// derivation of the swap authority yielded.
///
/// Rates out of bounds are rejected before anything else; a derivation that
/// found no bump seed is rejected next.
pub fn build_config(
    ctx: &InitializeConfig,
    params: &InitializeConfigParams,
    derived: Option<DerivedAuthority>,
) -> (out: Result<RaceswapConfig, RaceswapError>)
    ensures
        out == initialize_outcome(*ctx, *params, derived),
        out matches Ok(config) ==> config.wf(),
{
    if !check_rates(params.reflection_fee_bps, params.treasury_fee_bps) {
        return Err(RaceswapError::InvalidFeeConfig);
    }
    match derived {
        Some(authority) => Ok(
            RaceswapConfig {
                authority: params.authority,
                treasury_wallet: params.treasury_wallet,
                reflection_fee_bps: params.reflection_fee_bps,
                treasury_fee_bps: params.treasury_fee_bps,
                bump: ctx.bump,
                authority_bump: authority.bump,
            },
        ),
        None => Err(RaceswapError::BumpMissing),
    }
}

/// What `initialize_config` returns once the derivation's result is known:
/// the configuration of [`initialize_outcome`] together with its announcement.
pub open spec fn initialized(
    ctx: InitializeConfig,
    params: InitializeConfigParams,
    derived: Option<DerivedAuthority>,
) -> Result<(RaceswapConfig, ConfigUpdated), RaceswapError> {
    match initialize_outcome(ctx, params, derived) {
        Ok(config) => Ok((config, config.announcement())),
        Err(e) => Err(e),
    }
}

/// Creates the configuration.
///
/// The derivation of the swap authority yields one result for the record's
/// address, and what is returned is [`initialized`] of it. Rates out of
/// bounds are rejected whatever the derivation yields.
pub fn initialize_config(ctx: &InitializeConfig, params: &InitializeConfigParams) -> (out: Result<
    (RaceswapConfig, ConfigUpdated),
    RaceswapError,
>)
    ensures
        exists|derived: Option<DerivedAuthority>| #[trigger]
            DerivedAuthority::derives_from(derived, ctx.config, ctx.program_id) && out
                == initialized(*ctx, *params, derived),
        forall|derived: Option<DerivedAuthority>| #[trigger]
            DerivedAuthority::derives_from(derived, ctx.config, ctx.program_id) ==> out
                == initialized(*ctx, *params, derived),
        !rates_valid(params.reflection_fee_bps, params.treasury_fee_bps) ==> out == Err::<
            (RaceswapConfig, ConfigUpdated),
            RaceswapError,
        >(RaceswapError::InvalidFeeConfig),
        out matches Ok((config, _)) ==> config.wf(),
{
    let derived = DerivedAuthority::derive(&ctx.config, &ctx.program_id);
    proof {
        assert forall|other: Option<DerivedAuthority>| #[trigger]
            DerivedAuthority::derives_from(other, ctx.config, ctx.program_id) implies other
            == derived by {
            lemma_derivation_is_a_function(other, derived, ctx.config, ctx.program_id);
        }
    }
    match build_config(ctx, params, derived) {
        Ok(config) => {
            let event = config.announce();
            Ok((config, event))
        },
        Err(e) => Err(e),
    }
}

/// What `update_config` returns, and leaves in place, for a stored
/// configuration, a signer and a change.
pub open spec fn update_outcome(ctx: UpdateConfig, params: UpdateConfigParams) -> Result<
    RaceswapConfig,
    RaceswapError,
> {
    let next = ctx.config.updated(params);
    if ctx.authority != ctx.config.authority {
        Err(RaceswapError::Unauthorized)
    } else if !next.wf() {
        Err(RaceswapError::InvalidFeeConfig)
    } else {
        Ok(next)
    }
}

/// Changes the stored configuration.
///
/// Only the configured authority may change it. A change that would leave
/// the rates outside the invariant is rejected. A rejected change leaves the
/// stored configuration as it was.
pub fn update_config(ctx: &mut UpdateConfig, params: &UpdateConfigParams) -> (out: Result<
    ConfigUpdated,
    RaceswapError,
>)
    ensures
        final(ctx).authority == old(ctx).authority,
        match update_outcome(*old(ctx), *params) {
            Ok(next) => final(ctx).config == next && next.wf() && out == Ok::<
                ConfigUpdated,
                RaceswapError,
            >(next.announcement()),
            Err(e) => final(ctx).config == old(ctx).config && out == Err::<
                ConfigUpdated,
                RaceswapError,
            >(e),
        },
{
    if ctx.authority != ctx.config.authority {
        return Err(RaceswapError::Unauthorized);
    }
    let next = RaceswapConfig {
        authority: match params.new_authority {
            Some(authority) => authority,
            None => ctx.config.authority,
        },
        treasury_wallet: match params.treasury_wallet {
            Some(wallet) => wallet,
            None => ctx.config.treasury_wallet,
        },
        reflection_fee_bps: match params.reflection_fee_bps {
            Some(bps) => bps,
            None => ctx.config.reflection_fee_bps,
        },
        treasury_fee_bps: match params.treasury_fee_bps {
            Some(bps) => bps,
            None => ctx.config.treasury_fee_bps,
        },
        bump: ctx.config.bump,
        authority_bump: ctx.config.authority_bump,
    };
    if !next.is_valid() {
        return Err(RaceswapError::InvalidFeeConfig);
    }
    ctx.config = next;
    Ok(next.announce())
}

/// Every configuration that creation or change accepts satisfies the
/// invariant: each rate is at most a tenth and together they stay below a
/// full share.
pub proof fn lemma_accepted_config_is_valid(
    init: InitializeConfig,
    init_params: InitializeConfigParams,
    derived: Option<DerivedAuthority>,
    ctx: UpdateConfig,
    params: UpdateConfigParams,
)
    ensures
        initialize_outcome(init, init_params, derived) matches Ok(config) ==> config.wf(),
        update_outcome(ctx, params) matches Ok(config) ==> config.wf(),
        forall|config: RaceswapConfig| #[trigger]
            config.wf() ==> config.reflection_fee_bps <= 1_000 && config.treasury_fee_bps <= 1_000
                && config.reflection_fee_bps + config.treasury_fee_bps < 10_000,
{
}

/// The stored record of a configuration: the authority, the treasury, the
/// reflection rate, the treasury rate and the two bump seeds, seventy bytes
/// in all.
pub open spec fn encode_config(config: RaceswapConfig) -> Seq<u8> {
    config.authority@ + config.treasury_wallet@ + u16_le(config.reflection_fee_bps) + u16_le(
        config.treasury_fee_bps,
    ) + seq![config.bump] + seq![config.authority_bump]
}

/// Reads a configuration out of its stored record. The record is read as it
/// stands: whether its rates satisfy the invariant is for
/// [`RaceswapConfig::is_valid`] to say.
pub fn parse_config(bytes: &[u8]) -> (out: Result<RaceswapConfig, DecodeError>)
    ensures
        match out {
            Ok(config) => encode_config(config) == bytes@,
            Err(e) => e == DecodeError::Malformed && bytes@.len() != 70,
        },
{
    if bytes.len() != RaceswapConfig::LEN {
        return Err(DecodeError::Malformed);
    }
    let config = RaceswapConfig {
        authority: read_key(bytes, 0),
        treasury_wallet: read_key(bytes, 32),
        reflection_fee_bps: read_u16(bytes, 64),
        treasury_fee_bps: read_u16(bytes, 66),
        bump: bytes[68],
        authority_bump: bytes[69],
    };
    proof {
        let parts = bytes@.subrange(0, 32) + bytes@.subrange(32, 64) + bytes@.subrange(64, 66)
            + bytes@.subrange(66, 68) + bytes@.subrange(68, 69) + bytes@.subrange(69, 70);
        assert(parts =~= bytes@);
        assert(bytes@.subrange(68, 69) =~= seq![config.bump]);
        assert(bytes@.subrange(69, 70) =~= seq![config.authority_bump]);
    }
    Ok(config)
}

} // verus!
