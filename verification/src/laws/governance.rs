//! Who governs the contract, and how that changes.

use vstd::prelude::*;
use crate::error::RouterError;
use crate::invocation::InvocationView;
use crate::laws::batch::agree;
use crate::laws::batch::law_fee_batch;
use crate::laws::batch::law_register_batch;
use crate::request::accepted;
use crate::request::effect;
use crate::request::refusal;
use crate::request::Request;
use crate::rules::admin;
use crate::rules::admin_refusal;
use crate::rules::handover_eta;
use crate::rules::oracle;
use crate::rules::paused;
use crate::rules::pending_admin;
use crate::rules::pending_admin_eta;
use crate::rules::quote_refusal;
use crate::rules::refuse;
use crate::rules::route_fee;
use crate::rules::schema_version;
use crate::rules::timelock;
use crate::rules::Text;
use crate::storage::DataKey;
use crate::storage::Slots;

verus! {

/// The same slots seen by a later or earlier invocation, with other signers.
pub open spec fn resumed(inv: InvocationView, timestamp: u64, signers: Seq<Text>) -> InvocationView {
    InvocationView { timestamp, signers, slots: inv.slots, events: Seq::empty() }
}

/// A batch leaves the slots of the contract as a whole alone.
proof fn lemma_batch_keeps(inv: InvocationView, request: Request, key: DataKey<Text>)
    requires
        request is RegisterPairs || request is SetPairFeesBps,
        !(key is Pair),
        !(key is PairFeeBps),
    ensures
        agree(effect(inv, request).slots, inv.slots, key),
{
    match request {
        Request::RegisterPairs(pairs) => {
            law_register_batch(inv, pairs);
        },
        Request::SetPairFeesBps(entries) => {
            law_fee_batch(inv, entries);
        },
        _ => {},
    }
}

/// The admin changes in two ways only: at deployment, to an admin that signed,
/// and when the proposed admin, having signed, claims a handover whose time
/// has come.
pub proof fn law_admin_changes_by_handover(inv: InvocationView, request: Request)
    requires
        accepted(inv, request),
        admin(effect(inv, request).slots) != admin(inv.slots),
    ensures
        match request {
            Request::Constructor(new_admin) => admin(effect(inv, request).slots) == Some(new_admin)
                && inv.signers.contains(new_admin),
            Request::AcceptAdminTransfer(caller) => {
                &&& pending_admin(inv.slots) == Some(caller)
                &&& inv.signers.contains(caller)
                &&& inv.timestamp >= pending_admin_eta(inv.slots).unwrap_or(0)
                &&& admin(effect(inv, request).slots) == Some(caller)
            },
            _ => false,
        },
{
    if request is RegisterPairs || request is SetPairFeesBps {
        lemma_batch_keeps(inv, request, DataKey::Admin);
    }
}

/// A handover: the admin proposes, and once the delay has passed the proposed
/// admin becomes the admin by claiming it, and nothing is pending any more.
/// Before that, claiming is refused.
pub proof fn law_handover(
    inv: InvocationView,
    new_admin: Text,
    timestamp: u64,
    signers: Seq<Text>,
)
    requires
        accepted(inv, Request::ProposeAdminTransfer(new_admin)),
        signers.contains(new_admin),
    ensures
        ({
            let proposed = effect(inv, Request::ProposeAdminTransfer(new_admin));
            let claim = Request::AcceptAdminTransfer(new_admin);
            let then = resumed(proposed, timestamp, signers);
            &&& admin(proposed.slots) == admin(inv.slots)
            &&& pending_admin(proposed.slots) == Some(new_admin)
            &&& pending_admin_eta(proposed.slots) == Some(handover_eta(inv))
            &&& timestamp < handover_eta(inv) ==> refusal(then, claim) == refuse(
                RouterError::TimelockNotElapsed,
            )
            &&& timestamp >= handover_eta(inv) ==> accepted(then, claim) && admin(
                effect(then, claim).slots,
            ) == Some(new_admin) && pending_admin(effect(then, claim).slots) is None
                && pending_admin_eta(effect(then, claim).slots) is None
        }),
{
}

/// Without a governance delay a handover may be claimed in the same ledger.
pub proof fn law_handover_without_delay(inv: InvocationView)
    requires
        timelock(inv.slots) == 0,
    ensures
        handover_eta(inv) == inv.timestamp,
{
}

/// Nobody but the proposed admin can claim a handover.
pub proof fn law_only_the_proposed_admin_claims(inv: InvocationView, caller: Text)
    requires
        inv.signers.contains(caller),
        pending_admin(inv.slots) != Some(caller),
    ensures
        refusal(inv, Request::AcceptAdminTransfer(caller)) == refuse(
            if paused(inv.slots) {
                RouterError::ContractPaused
            } else if pending_admin(inv.slots) is None {
                RouterError::NoPendingAdminTransfer
            } else {
                RouterError::NotPendingAdmin
            },
        ),
{
}

/// A new proposal replaces a pending one: the earlier nominee can no longer
/// claim, and the delay starts anew.
pub proof fn law_proposal_replaces_proposal(
    inv: InvocationView,
    later: InvocationView,
    first: Text,
    second: Text,
    timestamp: u64,
    signers: Seq<Text>,
)
    requires
        later.slots == effect(inv, Request::ProposeAdminTransfer(first)).slots,
        accepted(later, Request::ProposeAdminTransfer(second)),
        first != second,
        signers.contains(first),
    ensures
        ({
            let proposed = effect(later, Request::ProposeAdminTransfer(second));
            &&& pending_admin(proposed.slots) == Some(second)
            &&& pending_admin_eta(proposed.slots) == Some(handover_eta(later))
            &&& refusal(
                resumed(proposed, timestamp, signers),
                Request::AcceptAdminTransfer(first),
            ) == refuse(RouterError::NotPendingAdmin)
        }),
{
}

/// Changing the governance delay leaves a queued handover as it is: the new
/// delay counts from the next proposal on.
pub proof fn law_delay_spares_queued_handover(inv: InvocationView, delay_seconds: u64)
    ensures
        ({
            let post = effect(inv, Request::SetTimelock(delay_seconds));
            &&& pending_admin(post.slots) == pending_admin(inv.slots)
            &&& pending_admin_eta(post.slots) == pending_admin_eta(inv.slots)
            &&& timelock(post.slots) == delay_seconds
        }),
{
}

/// A cancelled handover cannot be claimed, and cancelling where nothing is
/// pending changes nothing.
pub proof fn law_cancelled_handover_is_gone(
    inv: InvocationView,
    caller: Text,
    timestamp: u64,
    signers: Seq<Text>,
)
    requires
        accepted(inv, Request::CancelAdminTransfer),
        signers.contains(caller),
    ensures
        ({
            let post = effect(inv, Request::CancelAdminTransfer);
            &&& pending_admin(post.slots) is None
            &&& pending_admin_eta(post.slots) is None
            &&& refusal(resumed(post, timestamp, signers), Request::AcceptAdminTransfer(caller))
                == refuse(RouterError::NoPendingAdminTransfer)
            &&& !inv.slots.contains_key(DataKey::PendingAdmin) && !inv.slots.contains_key(
                DataKey::PendingAdminEta,
            ) ==> post == inv
        }),
{
    let post = effect(inv, Request::CancelAdminTransfer);
    if !inv.slots.contains_key(DataKey::PendingAdmin) && !inv.slots.contains_key(
        DataKey::PendingAdminEta,
    ) {
        assert(post.slots =~= inv.slots);
    }
}

/// The former admin, unless it signs beside the new one, passes no admin gate
/// after a handover.
pub proof fn law_former_admin_loses_the_gate(
    inv: InvocationView,
    caller: Text,
    timestamp: u64,
    signers: Seq<Text>,
)
    requires
        accepted(inv, Request::AcceptAdminTransfer(caller)),
        !signers.contains(caller),
    ensures
        admin_refusal(
            resumed(effect(inv, Request::AcceptAdminTransfer(caller)), timestamp, signers),
        ) is Some,
{
}

/// The admin is installed at deployment alone: `init` is always refused.
pub proof fn law_init_is_closed(inv: InvocationView, new_admin: Text)
    ensures
        refusal(inv, Request::Init(new_admin)) == refuse(RouterError::AlreadyInitialized),
{
}

/// The migration runs once: it brings the schema to its second version, and
/// is refused from then on.
pub proof fn law_migrates_once(inv: InvocationView)
    requires
        accepted(inv, Request::MigrateV1ToV2),
    ensures
        schema_version(inv.slots) == 1,
        schema_version(effect(inv, Request::MigrateV1ToV2).slots) == 2,
        refusal(effect(inv, Request::MigrateV1ToV2), Request::MigrateV1ToV2) == refuse(
            RouterError::MigrationVersionMismatch,
        ),
{
}

/// No request but the migration touches the schema version.
pub proof fn law_only_the_migration_moves_the_schema(inv: InvocationView, request: Request)
    requires
        !(request is MigrateV1ToV2),
    ensures
        schema_version(effect(inv, request).slots) == schema_version(inv.slots),
{
    if request is RegisterPairs || request is SetPairFeesBps {
        lemma_batch_keeps(inv, request, DataKey::SchemaVersion);
    }
}

/// The oracle has its power from the moment it is set until it is removed or
/// replaced: a former oracle's reports are refused.
pub proof fn law_removed_oracle_is_refused(
    inv: InvocationView,
    request: Request,
    former: Text,
    timestamp: u64,
    signers: Seq<Text>,
    source: Text,
    destination: Text,
    liquidity: i128,
)
    requires
        request == Request::RemoveOracle || (request matches Request::SetOracle(new_oracle)
            && new_oracle != former),
        accepted(inv, request),
        admin(inv.slots) != Some(former),
        signers.contains(former),
    ensures
        oracle(effect(inv, request).slots) == match request {
            Request::SetOracle(new_oracle) => Some(new_oracle),
            _ => None,
        },
        refusal(
            resumed(effect(inv, request), timestamp, signers),
            Request::SetPairLiquidity(former, source, destination, liquidity),
        ) == refuse(RouterError::NotAuthorized),
{
}

/// An upgrade leaves every slot as it is.
pub proof fn law_upgrade_keeps_the_slots(inv: InvocationView, hash: [u8; 32])
    ensures
        effect(inv, Request::Upgrade(hash)).slots == inv.slots,
{
}

/// While the router is paused, every request that may change the state is
/// refused for that reason, whoever signs. The exceptions are pausing,
/// unpausing and upgrading, and what stands outside the life of the contract:
/// its deployment, and `init`, which is refused anyway.
pub proof fn law_pause_blocks(inv: InvocationView, request: Request)
    requires
        paused(inv.slots),
        !(request is Pause),
        !(request is Unpause),
        !(request is Upgrade),
        !(request is Constructor),
        !(request is Init),
    ensures
        refusal(inv, request) == refuse(RouterError::ContractPaused),
{
}

/// Pausing, unpausing and upgrading do not look at the pause switch: the admin
/// may always do these.
pub proof fn law_pause_spares_the_way_out(inv: InvocationView, request: Request)
    requires
        request is Pause || request is Unpause || request is Upgrade,
    ensures
        refusal(inv, request) == admin_refusal(inv),
{
}

/// Pausing and unpausing take effect, and the latter undoes the former.
pub proof fn law_unpause_undoes_pause(inv: InvocationView)
    ensures
        paused(effect(inv, Request::Pause).slots),
        !paused(effect(inv, Request::Unpause).slots),
        accepted(inv, Request::Pause) ==> accepted(effect(inv, Request::Pause), Request::Unpause),
        forall|key: DataKey<Text>|
            !(key is Paused) ==> #[trigger] agree(
                effect(effect(inv, Request::Pause), Request::Unpause).slots,
                inv.slots,
                key,
            ),
{
}

/// Quotes do not look at the pause switch.
pub proof fn law_pause_leaves_quotes(
    slots: Slots,
    other: Slots,
    source: Text,
    destination: Text,
    amount: i128,
)
    requires
        forall|key: DataKey<Text>| !(key is Paused) ==> #[trigger] agree(slots, other, key),
    ensures
        quote_refusal(slots, source, destination, amount) == quote_refusal(
            other,
            source,
            destination,
            amount,
        ),
        route_fee(slots, source, destination, amount as int) == route_fee(
            other,
            source,
            destination,
            amount as int,
        ),
{
    assert(agree(slots, other, DataKey::Pair(source, destination)));
    assert(agree(slots, other, DataKey::PairFeeBps(source, destination)));
    assert(agree(slots, other, DataKey::MaxFeeAbsolute));
}

} // verus!
