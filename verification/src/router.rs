//! The contract type and the checks that its entrypoints share.

use vstd::prelude::*;
use crate::error::Rejection;
use crate::error::RouterError;
use crate::ident::Address;
use crate::ident::Symbol;
use crate::invocation::Invocation;
use crate::rules::admin;
use crate::rules::admin_refusal;
use crate::rules::live_admin_refusal;
use crate::rules::paused;
use crate::rules::refuse;
use crate::rules::registered;
use crate::storage::DataKey;

verus! {

/// The StableRoute router contract: one function per entrypoint.
pub struct StableRouteRouter;

/// Refused by a rule of the contract.
pub(crate) fn refused<T>(error: RouterError) -> (result: Result<T, Rejection<Address>>)
    ensures
        result matches Err(e) && Some(e@) == refuse(error),
{
    Err(Rejection::Contract(error))
}

impl StableRouteRouter {
    /// The admin, who must have signed.
    pub(crate) fn require_admin(inv: &Invocation) -> (result: Result<Address, Rejection<Address>>)
        requires
            inv.wf(),
        ensures
            match admin_refusal(inv@) {
                Some(why) => result matches Err(e) && e@ == why,
                None => result matches Ok(a) && Some(a@) == admin(inv@.slots),
            },
    {
        match inv.storage.get_address(&DataKey::Admin) {
            Some(admin) => if inv.signed_by(&admin) {
                Ok(admin)
            } else {
                Err(Rejection::Unauthorized(admin))
            },
            None => refused(RouterError::NotInitialized),
        }
    }

    /// The admin, who must have signed; the router must not be paused.
    pub(crate) fn require_live_admin(inv: &Invocation) -> (result: Result<
        Address,
        Rejection<Address>,
    >)
        requires
            inv.wf(),
        ensures
            match live_admin_refusal(inv@) {
                Some(why) => result matches Err(e) && e@ == why,
                None => result matches Ok(a) && Some(a@) == admin(inv@.slots),
            },
    {
        if Self::is_paused(inv) {
            return refused(RouterError::ContractPaused);
        }
        Self::require_admin(inv)
    }

    /// Whether the router is paused.
    pub fn is_paused(inv: &Invocation) -> (result: bool)
        requires
            inv.wf(),
        ensures
            result == paused(inv@.slots),
    {
        inv.storage.get_bool(&DataKey::Paused).unwrap_or(false)
    }

    /// Whether the pair is a registered route.
    pub fn is_pair_registered(inv: &Invocation, source: Symbol, destination: Symbol) -> (result: bool)
        requires
            inv.wf(),
        ensures
            result == registered(inv@.slots, source@, destination@),
    {
        inv.storage.get_bool(&DataKey::Pair(source, destination)).unwrap_or(false)
    }

    /// Whether the pair is a registered route, as a refusal.
    pub(crate) fn require_pair_registered(
        inv: &Invocation,
        source: &Symbol,
        destination: &Symbol,
    ) -> (result: Result<(), Rejection<Address>>)
        requires
            inv.wf(),
        ensures
            if registered(inv@.slots, source@, destination@) {
                result is Ok
            } else {
                result matches Err(e) && Some(e@) == refuse(RouterError::PairNotRegistered)
            },
    {
        if Self::is_pair_registered(inv, source.clone(), destination.clone()) {
            Ok(())
        } else {
            refused(RouterError::PairNotRegistered)
        }
    }
}

} // verus!
