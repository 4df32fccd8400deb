//! Why a request is refused.

use vstd::prelude::*;
use crate::ident::Address;

verus! {

/// Typed contract errors. Each has a fixed numeric code, see
/// [`RouterError::code`]; codes are append-only.
#[derive(Clone, Copy, Debug, PartialEq, Eq, Structural)]
pub enum RouterError {
    /// The admin was set when the contract was deployed.
    AlreadyInitialized,
    /// An admin-gated request came before any admin was set.
    NotInitialized,
    /// A pair has the same source and destination.
    SourceEqualsDestination,
    /// A fee above [`MAX_FEE_BPS`](crate::config::MAX_FEE_BPS).
    FeeBpsTooHigh,
    /// The pair is not a registered route.
    PairNotRegistered,
    /// An amount, bound or cap of the wrong sign.
    AmountMustBePositive,
    /// No admin handover is pending.
    NoPendingAdminTransfer,
    /// The caller is not the proposed admin.
    NotPendingAdmin,
    /// The router is paused.
    ContractPaused,
    /// The amount is below the pair's minimum.
    AmountBelowMin,
    /// The amount is above the pair's maximum.
    AmountAboveMax,
    /// The amount is above the pair's reported liquidity.
    InsufficientLiquidity,
    /// The schema is not at its first version.
    MigrationVersionMismatch,
    /// The governance timelock of a handover has not elapsed.
    TimelockNotElapsed,
    /// The caller is neither the admin nor the liquidity oracle.
    NotAuthorized,
    /// A route was entered while another one held the lock.
    ReentrantCall,
    /// The pair's cooldown since its last route has not elapsed.
    RouteCooldownActive,
    /// A batch of more than [`MAX_BATCH_SIZE`](crate::config::MAX_BATCH_SIZE) entries.
    BatchTooLarge,
    /// A batch without entries.
    EmptyBatch,
    /// A cooldown above [`MAX_COOLDOWN_SECS`](crate::config::MAX_COOLDOWN_SECS).
    CooldownTooLarge,
}

/// The numeric code under which clients see `error`.
pub open spec fn error_code(error: RouterError) -> u32 {
    match error {
        RouterError::AlreadyInitialized => 1,
        RouterError::NotInitialized => 2,
        RouterError::SourceEqualsDestination => 3,
        RouterError::FeeBpsTooHigh => 4,
        RouterError::PairNotRegistered => 5,
        RouterError::AmountMustBePositive => 6,
        RouterError::NoPendingAdminTransfer => 7,
        RouterError::NotPendingAdmin => 8,
        RouterError::ContractPaused => 9,
        RouterError::AmountBelowMin => 10,
        RouterError::AmountAboveMax => 11,
        RouterError::InsufficientLiquidity => 12,
        RouterError::MigrationVersionMismatch => 13,
        RouterError::TimelockNotElapsed => 14,
        RouterError::NotAuthorized => 15,
        RouterError::ReentrantCall => 16,
        RouterError::RouteCooldownActive => 17,
        RouterError::BatchTooLarge => 18,
        RouterError::EmptyBatch => 19,
        RouterError::CooldownTooLarge => 20,
    }
}

impl RouterError {
    /// The numeric code under which clients see the error.
    pub fn code(self) -> (code: u32)
        ensures
            code == error_code(self),
    {
        match self {
            RouterError::AlreadyInitialized => 1,
            RouterError::NotInitialized => 2,
            RouterError::SourceEqualsDestination => 3,
            RouterError::FeeBpsTooHigh => 4,
            RouterError::PairNotRegistered => 5,
            RouterError::AmountMustBePositive => 6,
            RouterError::NoPendingAdminTransfer => 7,
            RouterError::NotPendingAdmin => 8,
            RouterError::ContractPaused => 9,
            RouterError::AmountBelowMin => 10,
            RouterError::AmountAboveMax => 11,
            RouterError::InsufficientLiquidity => 12,
            RouterError::MigrationVersionMismatch => 13,
            RouterError::TimelockNotElapsed => 14,
            RouterError::NotAuthorized => 15,
            RouterError::ReentrantCall => 16,
            RouterError::RouteCooldownActive => 17,
            RouterError::BatchTooLarge => 18,
            RouterError::EmptyBatch => 19,
            RouterError::CooldownTooLarge => 20,
        }
    }
}

/// Why a request is refused: by a rule of the contract, or because the
/// signature of address `A` is missing.
#[derive(Debug, PartialEq, Eq)]
pub enum Rejection<A> {
    /// A rule of the contract refuses the request.
    Contract(RouterError),
    /// The request needs the signature of this address and does not carry it.
    Unauthorized(A),
}

impl View for Rejection<Address> {
    type V = Rejection<Seq<char>>;

    open spec fn view(&self) -> Rejection<Seq<char>> {
        match *self {
            Rejection::Contract(error) => Rejection::Contract(error),
            Rejection::Unauthorized(address) => Rejection::Unauthorized(address@),
        }
    }
}

} // verus!
