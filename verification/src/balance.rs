//! Checks what a leg realized against what the request demands.

use vstd::prelude::*;
use crate::error::RaceswapError;

verus! {

/// The legs of a swap.
#[derive(Clone, Copy, Debug, PartialEq, Eq, Structural)]
pub enum Leg {
    /// The optional leg that converts the reflection share.
    Reflection,
    /// The mandatory leg that converts the rest.
    Main,
}

/// A destination's balance before and after one leg. Lives for that leg only.
#[derive(Clone, Copy, Debug)]
pub struct BalanceSnapshot {
    pub before: u64,
    pub after: u64,
}

/// What a leg realized, or why its outcome is rejected.
///
/// A balance that went down is an accounting violation of its own kind. An
/// increase below the minimum is rejected; an increase equal to the minimum
/// is accepted. A reflection leg must also realize more than nothing.
pub open spec fn settled(leg: Leg, snapshot: BalanceSnapshot, minimum: u64) -> Result<
    u64,
    RaceswapError,
> {
    let delta = snapshot.after - snapshot.before;
    match leg {
        Leg::Main => if snapshot.after < snapshot.before {
            Err(RaceswapError::InvalidMainAccounting)
        } else if delta < minimum {
            Err(RaceswapError::MainBelowMinOut)
        } else {
            Ok(delta as u64)
        },
        Leg::Reflection => if snapshot.after < snapshot.before {
            Err(RaceswapError::InvalidReflectionAccounting)
        } else if delta < minimum || delta == 0 {
            Err(RaceswapError::ReflectionBelowMinOut)
        } else {
            Ok(delta as u64)
        },
    }
}

/// Computes the increase of a leg's destination with a checked subtraction
/// and holds it against the minimum.
pub fn settle(leg: Leg, snapshot: &BalanceSnapshot, minimum: u64) -> (out: Result<u64, RaceswapError>)
    ensures
        out == settled(leg, *snapshot, minimum),
        out matches Ok(delta) ==> delta == snapshot.after - snapshot.before && delta >= minimum,
{
    match snapshot.after.checked_sub(snapshot.before) {
        None => match leg {
            Leg::Main => Err(RaceswapError::InvalidMainAccounting),
            Leg::Reflection => Err(RaceswapError::InvalidReflectionAccounting),
        },
        Some(delta) => match leg {
            Leg::Main => if delta < minimum {
                Err(RaceswapError::MainBelowMinOut)
            } else {
                Ok(delta)
            },
            Leg::Reflection => if delta < minimum || delta == 0 {
                Err(RaceswapError::ReflectionBelowMinOut)
            } else {
                Ok(delta)
            },
        },
    }
}

/// The minimum of the main leg is inclusive: an increase short of it is
/// rejected as below the minimum, an increase that meets it exactly is
/// accepted, and so is every larger one.
pub proof fn lemma_main_minimum_is_inclusive(snapshot: BalanceSnapshot, minimum: u64)
    requires
        snapshot.before <= snapshot.after,
    ensures
        snapshot.after - snapshot.before < minimum ==> settled(Leg::Main, snapshot, minimum) == Err::<
            u64,
            RaceswapError,
        >(RaceswapError::MainBelowMinOut),
        snapshot.after - snapshot.before == minimum ==> settled(Leg::Main, snapshot, minimum) == Ok::<
            u64,
            RaceswapError,
        >(minimum),
        snapshot.after - snapshot.before >= minimum ==> settled(Leg::Main, snapshot, minimum) is Ok,
{
}

/// A reflection leg that realizes nothing is rejected even where the request
/// asks for no minimum.
pub proof fn lemma_reflection_must_realize(snapshot: BalanceSnapshot, minimum: u64)
    ensures
        settled(Leg::Reflection, snapshot, minimum) matches Ok(delta) ==> delta > 0 && delta
            >= minimum,
        snapshot.after == snapshot.before ==> settled(Leg::Reflection, snapshot, minimum) == Err::<
            u64,
            RaceswapError,
        >(RaceswapError::ReflectionBelowMinOut),
{
}

} // verus!
