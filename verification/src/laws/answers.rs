//! Which requests are accepted, and what the others are refused for.

use vstd::prelude::*;
use crate::config::MAX_BATCH_SIZE;
use crate::config::MAX_COOLDOWN_SECS;
use crate::config::MAX_FEE_BPS;
use crate::error::Rejection;
use crate::error::RouterError;
use crate::ident::Address;
use crate::invocation::InvocationView;
use crate::request::accepted;
use crate::request::effect;
use crate::request::refusal;
use crate::request::Request;
use crate::rules::admin;
use crate::rules::answered;
use crate::rules::cooldown;
use crate::rules::first_fee_error;
use crate::rules::last_route_at;
use crate::rules::locked;
use crate::rules::max_amount;
use crate::rules::min_amount;
use crate::rules::oracle;
use crate::rules::paused;
use crate::rules::pending_admin;
use crate::rules::pending_admin_eta;
use crate::rules::quote_refusal;
use crate::rules::registered;
use crate::rules::schema_version;
use crate::rules::usable_liquidity;
use crate::rules::Text;
use crate::storage::Slots;

verus! {

/// `request` is refused by the contract with `error`.
pub open spec fn refused_with(inv: InvocationView, request: Request, error: RouterError) -> bool {
    refusal(inv, request) == Some(Rejection::<Text>::Contract(error))
}

/// `request` is refused for want of the signature of `signer`.
pub open spec fn lacks_signature(inv: InvocationView, request: Request, signer: Text) -> bool {
    refusal(inv, request) == Some(Rejection::Unauthorized(signer))
}

/// The pause switch stops `request`.
pub open spec fn stoppable(request: Request) -> bool {
    !(request is Pause) && !(request is Unpause) && !(request is Upgrade) && !(
    request is Constructor) && !(request is Init)
}

/// `request` is the admin's alone.
pub open spec fn admin_gated(request: Request) -> bool {
    !(request is Constructor) && !(request is Init) && !(request is AcceptAdminTransfer) && !(
    request is SetPairLiquidity) && !(request is ComputeRouteFee)
}

/// The admin signed, and the pause switch does not stop `request`.
pub open spec fn gate_is_open(inv: InvocationView, request: Request) -> bool {
    &&& stoppable(request) ==> !paused(inv.slots)
    &&& admin(inv.slots) matches Some(a)
    &&& inv.signers.contains(a)
}

/// The answer to a request is the refusal, and then nothing changed, or
/// success, and then the effect is all that happened.
pub proof fn law_answer_is_refusal_or_effect<T>(
    pre: InvocationView,
    post: InvocationView,
    result: Result<T, Rejection<Address>>,
    request: Request,
)
    requires
        answered(pre, post, result, refusal(pre, request), effect(pre, request)),
    ensures
        result is Ok <==> accepted(pre, request),
        result is Ok ==> post == effect(pre, request),
        result matches Err(e) ==> refusal(pre, request) == Some(e@) && post == pre,
{
}

/// A request is refused as paused exactly where the router is paused and the
/// switch stops it.
pub proof fn law_refused_as_paused(inv: InvocationView, request: Request)
    ensures
        refused_with(inv, request, RouterError::ContractPaused) <==> stoppable(request) && paused(
            inv.slots,
        ),
{
    if let Request::SetPairFeesBps(entries) = request {
        lemma_first_fault(inv.slots, entries);
    }
}

/// A request of the admin that is not stopped is refused as not initialised
/// exactly where there is no admin, and for want of a signature exactly where
/// the admin did not sign.
pub proof fn law_refused_at_the_gate(inv: InvocationView, request: Request, signer: Text)
    requires
        admin_gated(request),
        stoppable(request) ==> !paused(inv.slots),
    ensures
        refused_with(inv, request, RouterError::NotInitialized) <==> admin(inv.slots) is None,
        lacks_signature(inv, request, signer) <==> admin(inv.slots) == Some(signer)
            && !inv.signers.contains(signer),
{
    if let Request::SetPairFeesBps(entries) = request {
        lemma_first_fault(inv.slots, entries);
    }
}

/// What the admin, having signed, may always do while the router is live:
/// set the delay, propose and cancel a handover, name recipient and oracle,
/// remove the oracle, unregister a pair and purge its metrics. Pausing,
/// unpausing and upgrading are open to the admin even while it is paused.
/// Nothing else is asked, whatever the slots hold.
pub proof fn law_admin_may(inv: InvocationView, request: Request)
    requires
        request is SetTimelock || request is ProposeAdminTransfer || request is CancelAdminTransfer
            || request is SetFeeRecipient || request is SetOracle || request is RemoveOracle
            || request is UnregisterPair || request is PurgePairMetrics || request is Pause
            || request is Unpause || request is Upgrade,
    ensures
        accepted(inv, request) <==> gate_is_open(inv, request),
{
}

/// Deployment is accepted exactly where the admin to be signed it.
pub proof fn law_who_deploys(inv: InvocationView, new_admin: Text)
    ensures
        accepted(inv, Request::Constructor(new_admin)) <==> inv.signers.contains(new_admin),
        !inv.signers.contains(new_admin) ==> lacks_signature(
            inv,
            Request::Constructor(new_admin),
            new_admin,
        ),
{
}

/// With the admin gate open, the migration is accepted exactly where the schema is at its
/// first version.
pub proof fn law_when_the_schema_migrates(inv: InvocationView)
    requires
        gate_is_open(inv, Request::MigrateV1ToV2),
    ensures
        accepted(inv, Request::MigrateV1ToV2) <==> schema_version(inv.slots) == 1,
        refused_with(inv, Request::MigrateV1ToV2, RouterError::MigrationVersionMismatch)
            <==> schema_version(inv.slots) != 1,
{
}

/// With the admin gate open, a ceiling is accepted exactly where it is not negative.
pub proof fn law_which_ceilings_are_accepted(inv: InvocationView, max_fee: i128)
    requires
        gate_is_open(inv, Request::SetMaxFeeAbsolute(max_fee)),
    ensures
        accepted(inv, Request::SetMaxFeeAbsolute(max_fee)) <==> max_fee >= 0,
        refused_with(inv, Request::SetMaxFeeAbsolute(max_fee), RouterError::AmountMustBePositive)
            <==> max_fee < 0,
{
}

/// With the admin gate open, a cooldown is accepted exactly up to its limit, for any pair.
pub proof fn law_which_cooldowns_are_accepted(inv: InvocationView, s: Text, d: Text, secs: u64)
    requires
        gate_is_open(inv, Request::SetPairCooldown(s, d, secs)),
    ensures
        accepted(inv, Request::SetPairCooldown(s, d, secs)) <==> secs <= MAX_COOLDOWN_SECS,
        refused_with(inv, Request::SetPairCooldown(s, d, secs), RouterError::CooldownTooLarge)
            <==> secs > MAX_COOLDOWN_SECS,
{
}

/// With the admin gate open, a pair is registered exactly where its ends differ.
pub proof fn law_which_pairs_are_registered(inv: InvocationView, s: Text, d: Text)
    requires
        gate_is_open(inv, Request::RegisterPair(s, d)),
    ensures
        accepted(inv, Request::RegisterPair(s, d)) <==> s != d,
        refused_with(inv, Request::RegisterPair(s, d), RouterError::SourceEqualsDestination)
            <==> s == d,
{
}

/// With the admin gate open, a batch of pairs is refused as empty or too large by its
/// length alone; of another length it is refused exactly where the ends of some
/// pair are equal.
pub proof fn law_which_pair_batches_are_accepted(inv: InvocationView, pairs: Seq<(Text, Text)>)
    requires
        gate_is_open(inv, Request::RegisterPairs(pairs)),
    ensures
        ({
            let request = Request::RegisterPairs(pairs);
            let fits = 0 < pairs.len() <= MAX_BATCH_SIZE;
            &&& refused_with(inv, request, RouterError::EmptyBatch) <==> pairs.len() == 0
            &&& refused_with(inv, request, RouterError::BatchTooLarge) <==> pairs.len()
                > MAX_BATCH_SIZE
            &&& refused_with(inv, request, RouterError::SourceEqualsDestination) <==> fits
                && exists|i: int| 0 <= i < pairs.len() && (#[trigger] pairs[i]).0 == pairs[i].1
            &&& accepted(inv, request) <==> fits && forall|i: int|
                0 <= i < pairs.len() ==> (#[trigger] pairs[i]).0 != pairs[i].1
        }),
{
}

/// With the admin gate open, a fee is accepted exactly where it is within the limit and
/// the pair is registered; the limit is looked at first.
pub proof fn law_which_fees_are_accepted(inv: InvocationView, s: Text, d: Text, bps: u32)
    requires
        gate_is_open(inv, Request::SetPairFeeBps(s, d, bps)),
    ensures
        ({
            let request = Request::SetPairFeeBps(s, d, bps);
            &&& accepted(inv, request) <==> bps <= MAX_FEE_BPS && registered(inv.slots, s, d)
            &&& refused_with(inv, request, RouterError::FeeBpsTooHigh) <==> bps > MAX_FEE_BPS
            &&& refused_with(inv, request, RouterError::PairNotRegistered) <==> bps <= MAX_FEE_BPS
                && !registered(inv.slots, s, d)
        }),
{
}

/// An entry of a batch of fees is within the limit, and its pair registered.
pub open spec fn entry_is_fine(slots: Slots, entry: (Text, Text, u32)) -> bool {
    entry.2 <= MAX_FEE_BPS && registered(slots, entry.0, entry.1)
}

/// The entries before `i` are fine.
pub open spec fn fine_before(slots: Slots, entries: Seq<(Text, Text, u32)>, i: int) -> bool {
    forall|j: int| 0 <= j < i ==> entry_is_fine(slots, #[trigger] entries[j])
}

/// What is wrong with a batch of fees is what is wrong with the first of its
/// entries that is not fine.
proof fn lemma_first_fault(slots: Slots, entries: Seq<(Text, Text, u32)>)
    ensures
        match first_fee_error(slots, entries) {
            None => fine_before(slots, entries, entries.len() as int),
            Some(error) => exists|i: int|
                0 <= i < entries.len() && fine_before(slots, entries, i) && !entry_is_fine(
                    slots,
                    #[trigger] entries[i],
                ) && error == if entries[i].2 > MAX_FEE_BPS {
                    RouterError::FeeBpsTooHigh
                } else {
                    RouterError::PairNotRegistered
                },
        },
    decreases entries.len(),
{
    if entries.len() > 0 {
        let head = entries.drop_last();
        let last = entries.len() - 1;
        lemma_first_fault(slots, head);
        assert forall|j: int| 0 <= j < last implies head[j] == #[trigger] entries[j] by {}
        if let Some(error) = first_fee_error(slots, head) {
            let i = choose|i: int|
                0 <= i < head.len() && fine_before(slots, head, i) && !entry_is_fine(
                    slots,
                    #[trigger] head[i],
                ) && error == if head[i].2 > MAX_FEE_BPS {
                    RouterError::FeeBpsTooHigh
                } else {
                    RouterError::PairNotRegistered
                };
            assert(entries[i] == head[i]);
            assert forall|j: int| 0 <= j < i implies entry_is_fine(slots, #[trigger] entries[j]) by {
                assert(entry_is_fine(slots, head[j]));
            }
        } else {
            assert forall|j: int| 0 <= j < last implies entry_is_fine(
                slots,
                #[trigger] entries[j],
            ) by {
                assert(entry_is_fine(slots, head[j]));
            }
            assert(entries[last] == entries.last());
        }
    }
}

/// With the admin gate open, a batch of fees is refused as empty or too large by its
/// length alone; of another length it is accepted exactly where each entry is
/// within the limit and of a registered pair. Otherwise the first entry that is
/// not decides the error.
pub proof fn law_which_fee_batches_are_accepted(
    inv: InvocationView,
    entries: Seq<(Text, Text, u32)>,
)
    requires
        gate_is_open(inv, Request::SetPairFeesBps(entries)),
    ensures
        ({
            let request = Request::SetPairFeesBps(entries);
            let fits = 0 < entries.len() <= MAX_BATCH_SIZE;
            &&& refused_with(inv, request, RouterError::EmptyBatch) <==> entries.len() == 0
            &&& refused_with(inv, request, RouterError::BatchTooLarge) <==> entries.len()
                > MAX_BATCH_SIZE
            &&& refused_with(inv, request, RouterError::FeeBpsTooHigh) <==> fits && exists|i: int|
                0 <= i < entries.len() && fine_before(inv.slots, entries, i)
                    && (#[trigger] entries[i]).2 > MAX_FEE_BPS
            &&& refused_with(inv, request, RouterError::PairNotRegistered) <==> fits && exists|i:
                int|
                0 <= i < entries.len() && fine_before(inv.slots, entries, i)
                    && (#[trigger] entries[i]).2 <= MAX_FEE_BPS && !registered(
                    inv.slots,
                    entries[i].0,
                    entries[i].1,
                )
            &&& accepted(inv, request) <==> fits && fine_before(
                inv.slots,
                entries,
                entries.len() as int,
            )
        }),
{
    let request = Request::SetPairFeesBps(entries);
    lemma_first_fault(inv.slots, entries);
    if 0 < entries.len() <= MAX_BATCH_SIZE {
        if first_fee_error(inv.slots, entries) is Some {
            let error = first_fee_error(inv.slots, entries).unwrap();
            let i = choose|i: int|
                0 <= i < entries.len() && fine_before(inv.slots, entries, i) && !entry_is_fine(
                    inv.slots,
                    #[trigger] entries[i],
                ) && error == if entries[i].2 > MAX_FEE_BPS {
                    RouterError::FeeBpsTooHigh
                } else {
                    RouterError::PairNotRegistered
                };
            assert forall|k: int|
                0 <= k < entries.len() && fine_before(inv.slots, entries, k) && !entry_is_fine(
                    inv.slots,
                    #[trigger] entries[k],
                ) implies k == i by {
                if k < i {
                    assert(entry_is_fine(inv.slots, entries[k]));
                }
                if i < k {
                    assert(entry_is_fine(inv.slots, entries[i]));
                }
            }
        } else {
            assert forall|k: int| 0 <= k < entries.len() implies entry_is_fine(
                inv.slots,
                #[trigger] entries[k],
            ) by {}
        }
    }
}

/// With the admin gate open, a bound is accepted exactly where it has the right sign and
/// the pair is registered, whatever the history of the pair; the sign is looked
/// at first. A minimum may be zero, a maximum may not.
pub proof fn law_which_bounds_are_accepted(
    inv: InvocationView,
    request: Request,
    s: Text,
    d: Text,
    n: i128,
)
    requires
        request == Request::SetPairMinAmount(s, d, n) || request == Request::SetPairMaxAmount(
            s,
            d,
            n,
        ),
        gate_is_open(inv, request),
    ensures
        ({
            let right = if request is SetPairMinAmount {
                n >= 0
            } else {
                n > 0
            };
            &&& accepted(inv, request) <==> right && registered(inv.slots, s, d)
            &&& refused_with(inv, request, RouterError::AmountMustBePositive) <==> !right
            &&& refused_with(inv, request, RouterError::PairNotRegistered) <==> right
                && !registered(inv.slots, s, d)
        }),
{
}

/// While the router is live, a report of liquidity is accepted exactly where
/// the caller signed, is the admin or the oracle of a contract that has an
/// admin, reports no negative number, and the pair is registered. What was
/// reported or routed before plays no part.
pub proof fn law_which_reports_are_accepted(
    inv: InvocationView,
    caller: Text,
    s: Text,
    d: Text,
    liquidity: i128,
)
    requires
        !paused(inv.slots),
    ensures
        ({
            let request = Request::SetPairLiquidity(caller, s, d, liquidity);
            let signed = inv.signers.contains(caller);
            let entitled = admin(inv.slots) == Some(caller) || oracle(inv.slots) == Some(caller);
            &&& accepted(inv, request) <==> signed && admin(inv.slots) is Some && entitled
                && liquidity >= 0 && registered(inv.slots, s, d)
            &&& lacks_signature(inv, request, caller) <==> !signed
            &&& refused_with(inv, request, RouterError::NotInitialized) <==> signed && admin(
                inv.slots,
            ) is None
            &&& refused_with(inv, request, RouterError::NotAuthorized) <==> signed && admin(
                inv.slots,
            ) is Some && !entitled
            &&& refused_with(inv, request, RouterError::AmountMustBePositive) <==> signed && admin(
                inv.slots,
            ) is Some && entitled && liquidity < 0
            &&& refused_with(inv, request, RouterError::PairNotRegistered) <==> signed && admin(
                inv.slots,
            ) is Some && entitled && liquidity >= 0 && !registered(inv.slots, s, d)
        }),
{
}

/// While the router is live, a claim is accepted exactly where the caller
/// signed, is the nominee, and the queued time has come. Otherwise it is refused
/// for the first of these that fails.
pub proof fn law_which_claims_are_accepted(inv: InvocationView, caller: Text)
    requires
        !paused(inv.slots),
    ensures
        ({
            let request = Request::AcceptAdminTransfer(caller);
            let signed = inv.signers.contains(caller);
            let nominated = pending_admin(inv.slots) == Some(caller);
            let early = pending_admin_eta(inv.slots) matches Some(eta) && inv.timestamp < eta;
            &&& accepted(inv, request) <==> signed && nominated && !early
            &&& lacks_signature(inv, request, caller) <==> !signed
            &&& refused_with(inv, request, RouterError::NoPendingAdminTransfer) <==> signed
                && pending_admin(inv.slots) is None
            &&& refused_with(inv, request, RouterError::NotPendingAdmin) <==> signed
                && pending_admin(inv.slots) is Some && !nominated
            &&& refused_with(inv, request, RouterError::TimelockNotElapsed) <==> signed && nominated
                && early
        }),
{
}

/// The pair was routed less than its cooldown ago.
pub open spec fn too_soon(inv: InvocationView, s: Text, d: Text) -> bool {
    cooldown(inv.slots, s, d) > 0 && (last_route_at(inv.slots, s, d) matches Some(last)
        && inv.timestamp - last < cooldown(inv.slots, s, d))
}

/// While the router is live, a route is accepted exactly where its amount is
/// positive, within the bounds and the liquidity of a registered pair, the
/// cooldown is over and the lock free. Who signed plays no part. Otherwise it is
/// refused for the first of these that fails.
pub proof fn law_which_routes_are_accepted(inv: InvocationView, s: Text, d: Text, amount: i128)
    requires
        !paused(inv.slots),
    ensures
        ({
            let request = Request::ComputeRouteFee(s, d, amount);
            let routable = amount > 0 && registered(inv.slots, s, d);
            let low = amount < min_amount(inv.slots, s, d);
            let high = amount > max_amount(inv.slots, s, d);
            let scarce = amount > usable_liquidity(inv.slots, s, d);
            let soon = too_soon(inv, s, d);
            &&& accepted(inv, request) <==> routable && !low && !high && !scarce && !soon && !locked(
                inv.slots,
            )
            &&& refused_with(inv, request, RouterError::AmountMustBePositive) <==> amount <= 0
            &&& refused_with(inv, request, RouterError::PairNotRegistered) <==> amount > 0
                && !routable
            &&& refused_with(inv, request, RouterError::AmountBelowMin) <==> routable && low
            &&& refused_with(inv, request, RouterError::AmountAboveMax) <==> routable && !low && high
            &&& refused_with(inv, request, RouterError::InsufficientLiquidity) <==> routable && !low
                && !high && scarce
            &&& refused_with(inv, request, RouterError::RouteCooldownActive) <==> routable && !low
                && !high && !scarce && soon
            &&& refused_with(inv, request, RouterError::ReentrantCall) <==> routable && !low && !high
                && !scarce && !soon && locked(inv.slots)
        }),
{
}

/// A quote is given exactly where the amount is positive and the pair, in that
/// direction, is registered; the amount is looked at first.
pub proof fn law_which_quotes_are_given(slots: Slots, s: Text, d: Text, amount: i128)
    ensures
        quote_refusal(slots, s, d, amount) is None <==> amount > 0 && registered(slots, s, d),
        amount <= 0 ==> quote_refusal(slots, s, d, amount) == Some(
            Rejection::<Text>::Contract(RouterError::AmountMustBePositive),
        ),
        amount > 0 && !registered(slots, s, d) ==> quote_refusal(slots, s, d, amount) == Some(
            Rejection::<Text>::Contract(RouterError::PairNotRegistered),
        ),
{
}

} // verus!
