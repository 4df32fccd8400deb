//! Admin, emergency stop and protocol-wide settings.

use vstd::prelude::*;
use crate::error::Rejection;
use crate::error::RouterError;
use crate::event::Event;
use crate::ident::Address;
use crate::ident::Symbol;
use crate::invocation::Invocation;
use crate::request::effect;
use crate::request::refusal;
use crate::request::Request;
use crate::router::StableRouteRouter;
use crate::router::refused;
use crate::rules::admin;
use crate::rules::answered;
use crate::rules::oracle;
use crate::storage::DataKey;
use crate::storage::Value;

verus! {

impl StableRouteRouter {
    /// Name of the contract version.
    pub fn version() -> (version: Symbol)
        ensures
            version@ == "ROUTER_V2"@,
    {
        proof {
            reveal_strlit("ROUTER_V2");
        }
        Symbol::new("ROUTER_V2").unwrap()
    }

    /// Set the admin at deployment. `admin` signs.
    pub fn __constructor(
        inv: &mut Invocation,
        admin: Address,
    ) -> (result: Result<(), Rejection<Address>>)
        requires
            old(inv).wf(),
        ensures
            final(inv).wf(),
            answered(
                old(inv)@,
                final(inv)@,
                result,
                refusal(old(inv)@, Request::Constructor(admin@)),
                effect(old(inv)@, Request::Constructor(admin@)),
            ),
    {
        if !inv.signed_by(&admin) {
            return Err(Rejection::Unauthorized(admin));
        }
        inv.put(DataKey::Admin, Value::Address(admin.clone()));
        inv.emit(Event::Init(admin));
        Ok(())
    }

    /// Always refused: the admin is set at deployment, and nobody can claim the
    /// role through this entrypoint.
    pub fn init(inv: &mut Invocation, admin: Address) -> (result: Result<(), Rejection<Address>>)
        requires
            old(inv).wf(),
        ensures
            final(inv).wf(),
            answered(
                old(inv)@,
                final(inv)@,
                result,
                refusal(old(inv)@, Request::Init(admin@)),
                effect(old(inv)@, Request::Init(admin@)),
            ),
    {
        refused(RouterError::AlreadyInitialized)
    }

    /// Advance the storage schema from its first to its second version.
    /// Admin-gated, refused while paused; works once.
    pub fn migrate_v1_to_v2(inv: &mut Invocation) -> (result: Result<(), Rejection<Address>>)
        requires
            old(inv).wf(),
        ensures
            final(inv).wf(),
            answered(
                old(inv)@,
                final(inv)@,
                result,
                refusal(old(inv)@, Request::MigrateV1ToV2),
                effect(old(inv)@, Request::MigrateV1ToV2),
            ),
    {
        if let Err(e) = Self::require_live_admin(inv) {
            return Err(e);
        }
        if Self::get_schema_version(inv) != 1 {
            return refused(RouterError::MigrationVersionMismatch);
        }
        inv.put(DataKey::SchemaVersion, Value::U32(2));
        Ok(())
    }

    /// Pause the router: until it is unpaused, every request that may change
    /// the state is refused, but for pausing, unpausing and upgrading.
    /// Admin-gated.
    pub fn pause(inv: &mut Invocation) -> (result: Result<(), Rejection<Address>>)
        requires
            old(inv).wf(),
        ensures
            final(inv).wf(),
            answered(
                old(inv)@,
                final(inv)@,
                result,
                refusal(old(inv)@, Request::Pause),
                effect(old(inv)@, Request::Pause),
            ),
    {
        if let Err(e) = Self::require_admin(inv) {
            return Err(e);
        }
        inv.put(DataKey::Paused, Value::Bool(true));
        inv.emit(Event::Paused(true));
        Ok(())
    }

    /// Resume after a pause. Admin-gated.
    pub fn unpause(inv: &mut Invocation) -> (result: Result<(), Rejection<Address>>)
        requires
            old(inv).wf(),
        ensures
            final(inv).wf(),
            answered(
                old(inv)@,
                final(inv)@,
                result,
                refusal(old(inv)@, Request::Unpause),
                effect(old(inv)@, Request::Unpause),
            ),
    {
        if let Err(e) = Self::require_admin(inv) {
            return Err(e);
        }
        inv.put(DataKey::Paused, Value::Bool(false));
        inv.emit(Event::Paused(false));
        Ok(())
    }

    /// Set the governance delay of the next handover, in seconds; a handover
    /// already proposed keeps its time. Admin-gated, refused while paused.
    pub fn set_timelock(
        inv: &mut Invocation,
        delay_seconds: u64,
    ) -> (result: Result<(), Rejection<Address>>)
        requires
            old(inv).wf(),
        ensures
            final(inv).wf(),
            answered(
                old(inv)@,
                final(inv)@,
                result,
                refusal(old(inv)@, Request::SetTimelock(delay_seconds)),
                effect(old(inv)@, Request::SetTimelock(delay_seconds)),
            ),
    {
        if let Err(e) = Self::require_live_admin(inv) {
            return Err(e);
        }
        inv.put(DataKey::Timelock, Value::U64(delay_seconds));
        Ok(())
    }

    /// First step of a handover: propose a new admin, who may accept once the
    /// governance delay has elapsed. Admin-gated, refused while paused.
    pub fn propose_admin_transfer(
        inv: &mut Invocation,
        new_admin: Address,
    ) -> (result: Result<(), Rejection<Address>>)
        requires
            old(inv).wf(),
        ensures
            final(inv).wf(),
            answered(
                old(inv)@,
                final(inv)@,
                result,
                refusal(old(inv)@, Request::ProposeAdminTransfer(new_admin@)),
                effect(old(inv)@, Request::ProposeAdminTransfer(new_admin@)),
            ),
    {
        if let Err(e) = Self::require_live_admin(inv) {
            return Err(e);
        }
        let eta: u64 = inv.timestamp.saturating_add(Self::get_timelock(inv));
        inv.put(DataKey::PendingAdmin, Value::Address(new_admin.clone()));
        inv.put(DataKey::PendingAdminEta, Value::U64(eta));
        inv.emit(Event::Queued(new_admin, eta));
        Ok(())
    }

    /// Second step of a handover: the proposed admin claims the role. `caller`
    /// signs. Refused while paused.
    pub fn accept_admin_transfer(
        inv: &mut Invocation,
        caller: Address,
    ) -> (result: Result<(), Rejection<Address>>)
        requires
            old(inv).wf(),
        ensures
            final(inv).wf(),
            answered(
                old(inv)@,
                final(inv)@,
                result,
                refusal(old(inv)@, Request::AcceptAdminTransfer(caller@)),
                effect(old(inv)@, Request::AcceptAdminTransfer(caller@)),
            ),
    {
        if Self::is_paused(inv) {
            return refused(RouterError::ContractPaused);
        }
        if !inv.signed_by(&caller) {
            return Err(Rejection::Unauthorized(caller));
        }
        match inv.storage.get_address(&DataKey::PendingAdmin) {
            None => return refused(RouterError::NoPendingAdminTransfer),
            Some(pending) => if !pending.same(&caller) {
                return refused(RouterError::NotPendingAdmin);
            },
        }
        if inv.timestamp < Self::get_pending_admin_eta(inv).unwrap_or(0) {
            return refused(RouterError::TimelockNotElapsed);
        }
        inv.put(DataKey::Admin, Value::Address(caller.clone()));
        inv.clear(DataKey::PendingAdmin);
        inv.clear(DataKey::PendingAdminEta);
        inv.emit(Event::Executed(caller));
        Ok(())
    }

    /// Cancel a pending handover. Admin-gated, refused while paused; does nothing
    /// if none is pending.
    pub fn cancel_admin_transfer(inv: &mut Invocation) -> (result: Result<(), Rejection<Address>>)
        requires
            old(inv).wf(),
        ensures
            final(inv).wf(),
            answered(
                old(inv)@,
                final(inv)@,
                result,
                refusal(old(inv)@, Request::CancelAdminTransfer),
                effect(old(inv)@, Request::CancelAdminTransfer),
            ),
    {
        if let Err(e) = Self::require_live_admin(inv) {
            return Err(e);
        }
        inv.clear(DataKey::PendingAdmin);
        inv.clear(DataKey::PendingAdminEta);
        Ok(())
    }

    /// Set who receives protocol fees on settlement. Admin-gated, refused while
    /// paused.
    pub fn set_fee_recipient(
        inv: &mut Invocation,
        recipient: Address,
    ) -> (result: Result<(), Rejection<Address>>)
        requires
            old(inv).wf(),
        ensures
            final(inv).wf(),
            answered(
                old(inv)@,
                final(inv)@,
                result,
                refusal(old(inv)@, Request::SetFeeRecipient(recipient@)),
                effect(old(inv)@, Request::SetFeeRecipient(recipient@)),
            ),
    {
        if let Err(e) = Self::require_live_admin(inv) {
            return Err(e);
        }
        inv.put(DataKey::FeeRecipient, Value::Address(recipient));
        Ok(())
    }

    /// Set the ceiling on the fee of a single route; zero makes routes free.
    /// Admin-gated, refused while paused.
    pub fn set_max_fee_absolute(
        inv: &mut Invocation,
        max_fee: i128,
    ) -> (result: Result<(), Rejection<Address>>)
        requires
            old(inv).wf(),
        ensures
            final(inv).wf(),
            answered(
                old(inv)@,
                final(inv)@,
                result,
                refusal(old(inv)@, Request::SetMaxFeeAbsolute(max_fee)),
                effect(old(inv)@, Request::SetMaxFeeAbsolute(max_fee)),
            ),
    {
        if let Err(e) = Self::require_live_admin(inv) {
            return Err(e);
        }
        if max_fee < 0 {
            return refused(RouterError::AmountMustBePositive);
        }
        inv.put(DataKey::MaxFeeAbsolute, Value::I128(max_fee));
        inv.emit(Event::MaxFee(max_fee));
        Ok(())
    }

    /// Set or rotate the liquidity oracle. Admin-gated, refused while paused.
    pub fn set_oracle(
        inv: &mut Invocation,
        oracle: Address,
    ) -> (result: Result<(), Rejection<Address>>)
        requires
            old(inv).wf(),
        ensures
            final(inv).wf(),
            answered(
                old(inv)@,
                final(inv)@,
                result,
                refusal(old(inv)@, Request::SetOracle(oracle@)),
                effect(old(inv)@, Request::SetOracle(oracle@)),
            ),
    {
        if let Err(e) = Self::require_live_admin(inv) {
            return Err(e);
        }
        inv.put(DataKey::Oracle, Value::Address(oracle.clone()));
        inv.emit(Event::OracleSet(oracle));
        Ok(())
    }

    /// Revoke the liquidity oracle, so that only the admin may report
    /// liquidity. Admin-gated, refused while paused; does nothing but publish if
    /// none is set.
    pub fn remove_oracle(inv: &mut Invocation) -> (result: Result<(), Rejection<Address>>)
        requires
            old(inv).wf(),
        ensures
            final(inv).wf(),
            answered(
                old(inv)@,
                final(inv)@,
                result,
                refusal(old(inv)@, Request::RemoveOracle),
                effect(old(inv)@, Request::RemoveOracle),
            ),
    {
        if let Err(e) = Self::require_live_admin(inv) {
            return Err(e);
        }
        let removed = Self::get_oracle(inv);
        inv.clear(DataKey::Oracle);
        inv.emit(Event::OracleRemoved(removed));
        Ok(())
    }

    /// Announce an upgrade and return the hash of the code that is to be
    /// installed. Admin-gated; available while the router is paused.
    pub fn upgrade(
        inv: &mut Invocation,
        new_wasm_hash: [u8; 32],
    ) -> (result: Result<[u8; 32], Rejection<Address>>)
        requires
            old(inv).wf(),
        ensures
            final(inv).wf(),
            answered(
                old(inv)@,
                final(inv)@,
                result,
                refusal(old(inv)@, Request::Upgrade(new_wasm_hash)),
                effect(old(inv)@, Request::Upgrade(new_wasm_hash)),
            ),
            result matches Ok(hash) ==> hash == new_wasm_hash,
    {
        if let Err(e) = Self::require_admin(inv) {
            return Err(e);
        }
        inv.emit(Event::Upgraded(new_wasm_hash));
        Ok(new_wasm_hash)
    }
}

} // verus!
