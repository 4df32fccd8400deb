//! The requests that may change the state of the contract, as one type.

use vstd::prelude::*;
use crate::error::RouterError;
use crate::invocation::InvocationView;
use crate::rules::accept_effect;
use crate::rules::accept_refusal;
use crate::rules::admin_refusal;
use crate::rules::cancel_effect;
use crate::rules::construct_effect;
use crate::rules::live_admin_refusal;
use crate::rules::migrate_effect;
use crate::rules::migrate_refusal;
use crate::rules::pause_effect;
use crate::rules::propose_effect;
use crate::rules::purge_effect;
use crate::rules::refuse;
use crate::rules::register_batch_effect;
use crate::rules::register_batch_refusal;
use crate::rules::register_effect;
use crate::rules::register_refusal;
use crate::rules::remove_oracle_effect;
use crate::rules::route_effect;
use crate::rules::route_refusal;
use crate::rules::set_bound_refusal;
use crate::rules::set_ceiling_effect;
use crate::rules::set_ceiling_refusal;
use crate::rules::set_cooldown_effect;
use crate::rules::set_cooldown_refusal;
use crate::rules::set_fee_batch_effect;
use crate::rules::set_fee_batch_refusal;
use crate::rules::set_fee_effect;
use crate::rules::set_fee_recipient_effect;
use crate::rules::set_fee_refusal;
use crate::rules::set_liquidity_effect;
use crate::rules::set_liquidity_refusal;
use crate::rules::set_max_effect;
use crate::rules::set_min_effect;
use crate::rules::set_oracle_effect;
use crate::rules::set_timelock_effect;
use crate::rules::signature_refusal;
use crate::rules::unregister_effect;
use crate::rules::upgrade_effect;
use crate::rules::Refusal;
use crate::rules::Text;

verus! {

/// A request that may change the state: an entrypoint and its arguments.
pub enum Request {
    Constructor(Text),
    Init(Text),
    MigrateV1ToV2,
    Pause,
    Unpause,
    SetTimelock(u64),
    ProposeAdminTransfer(Text),
    AcceptAdminTransfer(Text),
    CancelAdminTransfer,
    SetFeeRecipient(Text),
    SetMaxFeeAbsolute(i128),
    SetOracle(Text),
    RemoveOracle,
    Upgrade([u8; 32]),
    RegisterPair(Text, Text),
    RegisterPairs(Seq<(Text, Text)>),
    UnregisterPair(Text, Text),
    PurgePairMetrics(Text, Text),
    SetPairFeeBps(Text, Text, u32),
    SetPairFeesBps(Seq<(Text, Text, u32)>),
    SetPairMinAmount(Text, Text, i128),
    SetPairMaxAmount(Text, Text, i128),
    /// The caller comes first.
    SetPairLiquidity(Text, Text, Text, i128),
    SetPairCooldown(Text, Text, u64),
    ComputeRouteFee(Text, Text, i128),
}

/// Why `request` is refused, if it is.
pub open spec fn refusal(inv: InvocationView, request: Request) -> Refusal {
    match request {
        Request::Constructor(new_admin) => signature_refusal(inv, new_admin),
        Request::Init(..) => refuse(RouterError::AlreadyInitialized),
        Request::MigrateV1ToV2 => migrate_refusal(inv),
        Request::Pause => admin_refusal(inv),
        Request::Unpause => admin_refusal(inv),
        Request::SetTimelock(..) => live_admin_refusal(inv),
        Request::ProposeAdminTransfer(..) => live_admin_refusal(inv),
        Request::AcceptAdminTransfer(caller) => accept_refusal(inv, caller),
        Request::CancelAdminTransfer => live_admin_refusal(inv),
        Request::SetFeeRecipient(..) => live_admin_refusal(inv),
        Request::SetMaxFeeAbsolute(max_fee) => set_ceiling_refusal(inv, max_fee),
        Request::SetOracle(..) => live_admin_refusal(inv),
        Request::RemoveOracle => live_admin_refusal(inv),
        Request::Upgrade(..) => admin_refusal(inv),
        Request::RegisterPair(s, d) => register_refusal(inv, s, d),
        Request::RegisterPairs(pairs) => register_batch_refusal(inv, pairs),
        Request::UnregisterPair(..) => live_admin_refusal(inv),
        Request::PurgePairMetrics(..) => live_admin_refusal(inv),
        Request::SetPairFeeBps(s, d, bps) => set_fee_refusal(inv, s, d, bps),
        Request::SetPairFeesBps(entries) => set_fee_batch_refusal(inv, entries),
        Request::SetPairMinAmount(s, d, n) => set_bound_refusal(inv, s, d, n >= 0),
        Request::SetPairMaxAmount(s, d, n) => set_bound_refusal(inv, s, d, n > 0),
        Request::SetPairLiquidity(caller, s, d, n) => set_liquidity_refusal(inv, caller, s, d, n),
        Request::SetPairCooldown(_, _, secs) => set_cooldown_refusal(inv, secs),
        Request::ComputeRouteFee(s, d, amount) => route_refusal(inv, s, d, amount),
    }
}

/// What the invocation becomes where `request` is accepted.
pub open spec fn effect(inv: InvocationView, request: Request) -> InvocationView {
    match request {
        Request::Constructor(new_admin) => construct_effect(inv, new_admin),
        Request::Init(..) => inv,
        Request::MigrateV1ToV2 => migrate_effect(inv),
        Request::Pause => pause_effect(inv, true),
        Request::Unpause => pause_effect(inv, false),
        Request::SetTimelock(delay) => set_timelock_effect(inv, delay),
        Request::ProposeAdminTransfer(new_admin) => propose_effect(inv, new_admin),
        Request::AcceptAdminTransfer(caller) => accept_effect(inv, caller),
        Request::CancelAdminTransfer => cancel_effect(inv),
        Request::SetFeeRecipient(recipient) => set_fee_recipient_effect(inv, recipient),
        Request::SetMaxFeeAbsolute(max_fee) => set_ceiling_effect(inv, max_fee),
        Request::SetOracle(new_oracle) => set_oracle_effect(inv, new_oracle),
        Request::RemoveOracle => remove_oracle_effect(inv),
        Request::Upgrade(hash) => upgrade_effect(inv, hash),
        Request::RegisterPair(s, d) => register_effect(inv, s, d),
        Request::RegisterPairs(pairs) => register_batch_effect(inv, pairs),
        Request::UnregisterPair(s, d) => unregister_effect(inv, s, d),
        Request::PurgePairMetrics(s, d) => purge_effect(inv, s, d),
        Request::SetPairFeeBps(s, d, bps) => set_fee_effect(inv, s, d, bps),
        Request::SetPairFeesBps(entries) => set_fee_batch_effect(inv, entries),
        Request::SetPairMinAmount(s, d, n) => set_min_effect(inv, s, d, n),
        Request::SetPairMaxAmount(s, d, n) => set_max_effect(inv, s, d, n),
        Request::SetPairLiquidity(_, s, d, n) => set_liquidity_effect(inv, s, d, n),
        Request::SetPairCooldown(s, d, secs) => set_cooldown_effect(inv, s, d, secs),
        Request::ComputeRouteFee(s, d, amount) => route_effect(inv, s, d, amount),
    }
}

/// `request` is not refused.
pub open spec fn accepted(inv: InvocationView, request: Request) -> bool {
    refusal(inv, request) is None
}

} // verus!
