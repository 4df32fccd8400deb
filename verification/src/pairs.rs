//! Registering and configuring pairs.

use vstd::prelude::*;
use crate::config::MAX_BATCH_SIZE;
use crate::config::MAX_COOLDOWN_SECS;
use crate::config::MAX_FEE_BPS;
use crate::error::Rejection;
use crate::error::RouterError;
use crate::event::Event;
use crate::ident::Address;
use crate::ident::Symbol;
use crate::invocation::Invocation;
use crate::request::effect;
use crate::request::refusal;
use crate::request::Request;
use crate::router::StableRouteRouter;
use crate::router::refused;
use crate::rules::Text;
use crate::rules::admin;
use crate::rules::answered;
use crate::rules::batch_refusal;
use crate::rules::clear_config_effect;
use crate::rules::fee_bps;
use crate::rules::fee_entry_error;
use crate::rules::fee_texts;
use crate::rules::first_fee_error;
use crate::rules::max_amount;
use crate::rules::min_amount;
use crate::rules::oracle;
use crate::rules::pair_texts;
use crate::rules::register_batch_effect;
use crate::rules::set_fee_batch_effect;
use crate::storage::DataKey;
use crate::storage::Slots;
use crate::storage::Value;

verus! {

/// Whether some pair of the batch has the same source and destination.
fn has_identity(pairs: &Vec<(Symbol, Symbol)>) -> (found: bool)
    ensures
        found == exists|i: int|
            0 <= i < pairs@.len() && (#[trigger] pair_texts(pairs@)[i]).0 == pair_texts(pairs@)[i].1,
{
    let mut i: usize = 0;
    while i < pairs.len()
        invariant
            i <= pairs@.len(),
            forall|j: int|
                0 <= j < i ==> (#[trigger] pair_texts(pairs@)[j]).0 != pair_texts(pairs@)[j].1,
        decreases pairs@.len() - i,
    {
        if pairs[i].0.same(&pairs[i].1) {
            assert(pair_texts(pairs@)[i as int].0 == pair_texts(pairs@)[i as int].1);
            return true;
        }
        i = i + 1;
    }
    false
}

impl StableRouteRouter {
    /// The checks that every batch of `len` entries has to pass first.
    fn require_batch(inv: &Invocation, len: usize) -> (result: Result<(), Rejection<Address>>)
        requires
            inv.wf(),
        ensures
            match batch_refusal(inv@, len as nat) {
                Some(why) => result matches Err(e) && e@ == why,
                None => result is Ok,
            },
    {
        if let Err(e) = Self::require_live_admin(inv) {
            return Err(e);
        }
        if len == 0 {
            return refused(RouterError::EmptyBatch);
        }
        if len > MAX_BATCH_SIZE as usize {
            return refused(RouterError::BatchTooLarge);
        }
        Ok(())
    }

    /// Register `(source, destination)` as a recognised route. Admin-gated,
    /// refused while paused; registering a pair again re-asserts it.
    pub fn register_pair(
        inv: &mut Invocation,
        source: Symbol,
        destination: Symbol,
    ) -> (result: Result<(), Rejection<Address>>)
        requires
            old(inv).wf(),
        ensures
            final(inv).wf(),
            answered(
                old(inv)@,
                final(inv)@,
                result,
                refusal(old(inv)@, Request::RegisterPair(source@, destination@)),
                effect(old(inv)@, Request::RegisterPair(source@, destination@)),
            ),
    {
        if let Err(e) = Self::require_live_admin(inv) {
            return Err(e);
        }
        if source.same(&destination) {
            return refused(RouterError::SourceEqualsDestination);
        }
        inv.put(DataKey::Pair(source.clone(), destination.clone()), Value::Bool(true));
        inv.emit(Event::PairRegistered(source, destination));
        Ok(())
    }

    /// Register several pairs, all or none. Each entry is checked as by
    /// [`Self::register_pair`] and has its own event; the batch holds between
    /// one and [`MAX_BATCH_SIZE`] entries.
    pub fn register_pairs(
        inv: &mut Invocation,
        pairs: Vec<(Symbol, Symbol)>,
    ) -> (result: Result<(), Rejection<Address>>)
        requires
            old(inv).wf(),
        ensures
            final(inv).wf(),
            answered(
                old(inv)@,
                final(inv)@,
                result,
                refusal(old(inv)@, Request::RegisterPairs(pair_texts(pairs@))),
                effect(old(inv)@, Request::RegisterPairs(pair_texts(pairs@))),
            ),
    {
        let ghost pre = inv@;
        let ghost texts = pair_texts(pairs@);
        if let Err(e) = Self::require_batch(inv, pairs.len()) {
            return Err(e);
        }
        if has_identity(&pairs) {
            return refused(RouterError::SourceEqualsDestination);
        }
        let mut k: usize = 0;
        assert(texts.take(0) =~= Seq::empty());
        while k < pairs.len()
            invariant
                k <= pairs@.len(),
                inv.wf(),
                texts == pair_texts(pairs@),
                inv@ == register_batch_effect(pre, texts.take(k as int)),
            decreases pairs@.len() - k,
        {
            inv.put(DataKey::Pair(pairs[k].0.clone(), pairs[k].1.clone()), Value::Bool(true));
            inv.emit(Event::PairRegistered(pairs[k].0.clone(), pairs[k].1.clone()));
            assert(texts.take(k + 1).drop_last() =~= texts.take(k as int));
            k = k + 1;
        }
        assert(texts.take(pairs@.len() as int) =~= texts);
        Ok(())
    }

    /// Set the fee of a registered pair, in basis points. Admin-gated, refused
    /// while paused.
    pub fn set_pair_fee_bps(
        inv: &mut Invocation,
        source: Symbol,
        destination: Symbol,
        fee_bps: u32,
    ) -> (result: Result<(), Rejection<Address>>)
        requires
            old(inv).wf(),
        ensures
            final(inv).wf(),
            answered(
                old(inv)@,
                final(inv)@,
                result,
                refusal(old(inv)@, Request::SetPairFeeBps(source@, destination@, fee_bps)),
                effect(old(inv)@, Request::SetPairFeeBps(source@, destination@, fee_bps)),
            ),
    {
        if let Err(e) = Self::require_live_admin(inv) {
            return Err(e);
        }
        if fee_bps > MAX_FEE_BPS {
            return refused(RouterError::FeeBpsTooHigh);
        }
        if let Err(e) = Self::require_pair_registered(inv, &source, &destination) {
            return Err(e);
        }
        inv.put(DataKey::PairFeeBps(source.clone(), destination.clone()), Value::U32(fee_bps));
        inv.emit(Event::FeeSet(source, destination, fee_bps));
        Ok(())
    }

    /// What is wrong with the first faulty entry of the batch, if any is.
    fn first_fault(
        inv: &Invocation,
        entries: &Vec<(Symbol, Symbol, u32)>,
    ) -> (fault: Option<RouterError>)
        requires
            inv.wf(),
        ensures
            fault == first_fee_error(inv@.slots, fee_texts(entries@)),
    {
        let ghost texts = fee_texts(entries@);
        let mut i: usize = 0;
        assert(texts.take(0) =~= Seq::empty());
        while i < entries.len()
            invariant
                i <= entries@.len(),
                inv.wf(),
                texts == fee_texts(entries@),
                first_fee_error(inv@.slots, texts.take(i as int)) is None,
            decreases entries@.len() - i,
        {
            let fault: Option<RouterError> = if entries[i].2 > MAX_FEE_BPS {
                Some(RouterError::FeeBpsTooHigh)
            } else if !Self::is_pair_registered(inv, entries[i].0.clone(), entries[i].1.clone()) {
                Some(RouterError::PairNotRegistered)
            } else {
                None
            };
            assert(texts.take(i + 1).drop_last() =~= texts.take(i as int));
            if fault.is_some() {
                proof {
                    lemma_first_fee_error(inv@.slots, texts, i + 1);
                }
                return fault;
            }
            i = i + 1;
        }
        assert(texts.take(entries@.len() as int) =~= texts);
        None
    }

    /// Set the fees of several registered pairs, all or none. Each entry is
    /// checked as by [`Self::set_pair_fee_bps`] and has its own event; the
    /// first faulty entry decides the error. The batch holds between one and
    /// [`MAX_BATCH_SIZE`] entries.
    pub fn set_pair_fees_bps(
        inv: &mut Invocation,
        entries: Vec<(Symbol, Symbol, u32)>,
    ) -> (result: Result<(), Rejection<Address>>)
        requires
            old(inv).wf(),
        ensures
            final(inv).wf(),
            answered(
                old(inv)@,
                final(inv)@,
                result,
                refusal(old(inv)@, Request::SetPairFeesBps(fee_texts(entries@))),
                effect(old(inv)@, Request::SetPairFeesBps(fee_texts(entries@))),
            ),
    {
        let ghost pre = inv@;
        let ghost texts = fee_texts(entries@);
        if let Err(e) = Self::require_batch(inv, entries.len()) {
            return Err(e);
        }
        if let Some(error) = Self::first_fault(inv, &entries) {
            return refused(error);
        }
        let mut k: usize = 0;
        assert(texts.take(0) =~= Seq::empty());
        while k < entries.len()
            invariant
                k <= entries@.len(),
                inv.wf(),
                texts == fee_texts(entries@),
                first_fee_error(pre.slots, texts) is None,
                inv@ == set_fee_batch_effect(pre, texts.take(k as int)),
            decreases entries@.len() - k,
        {
            proof {
                lemma_no_fee_error(pre.slots, texts, k as int);
            }
            inv.put(
                DataKey::PairFeeBps(entries[k].0.clone(), entries[k].1.clone()),
                Value::U32(entries[k].2),
            );
            inv.emit(Event::FeeSet(entries[k].0.clone(), entries[k].1.clone(), entries[k].2));
            assert(texts.take(k + 1).drop_last() =~= texts.take(k as int));
            k = k + 1;
        }
        assert(texts.take(entries@.len() as int) =~= texts);
        Ok(())
    }

    /// Set the smallest routable amount of a registered pair. Admin-gated, refused
    /// while paused.
    pub fn set_pair_min_amount(
        inv: &mut Invocation,
        source: Symbol,
        destination: Symbol,
        min_amount: i128,
    ) -> (result: Result<(), Rejection<Address>>)
        requires
            old(inv).wf(),
        ensures
            final(inv).wf(),
            answered(
                old(inv)@,
                final(inv)@,
                result,
                refusal(old(inv)@, Request::SetPairMinAmount(source@, destination@, min_amount)),
                effect(old(inv)@, Request::SetPairMinAmount(source@, destination@, min_amount)),
            ),
    {
        if let Err(e) = Self::require_live_admin(inv) {
            return Err(e);
        }
        if min_amount < 0 {
            return refused(RouterError::AmountMustBePositive);
        }
        if let Err(e) = Self::require_pair_registered(inv, &source, &destination) {
            return Err(e);
        }
        inv.put(DataKey::PairMinAmount(source, destination), Value::I128(min_amount));
        Ok(())
    }

    /// Set the largest routable amount of a registered pair. Admin-gated, refused
    /// while paused.
    pub fn set_pair_max_amount(
        inv: &mut Invocation,
        source: Symbol,
        destination: Symbol,
        max_amount: i128,
    ) -> (result: Result<(), Rejection<Address>>)
        requires
            old(inv).wf(),
        ensures
            final(inv).wf(),
            answered(
                old(inv)@,
                final(inv)@,
                result,
                refusal(old(inv)@, Request::SetPairMaxAmount(source@, destination@, max_amount)),
                effect(old(inv)@, Request::SetPairMaxAmount(source@, destination@, max_amount)),
            ),
    {
        if let Err(e) = Self::require_live_admin(inv) {
            return Err(e);
        }
        if max_amount <= 0 {
            return refused(RouterError::AmountMustBePositive);
        }
        if let Err(e) = Self::require_pair_registered(inv, &source, &destination) {
            return Err(e);
        }
        inv.put(DataKey::PairMaxAmount(source, destination), Value::I128(max_amount));
        Ok(())
    }

    /// Report the liquidity of a registered pair, in source units.
    ///
    /// `caller` signs, and is the admin or the configured oracle. Refused while
    /// paused.
    pub fn set_pair_liquidity(
        inv: &mut Invocation,
        caller: Address,
        source: Symbol,
        destination: Symbol,
        liquidity: i128,
    ) -> (result: Result<(), Rejection<Address>>)
        requires
            old(inv).wf(),
        ensures
            final(inv).wf(),
            answered(
                old(inv)@,
                final(inv)@,
                result,
                refusal(
                    old(inv)@,
                    Request::SetPairLiquidity(caller@, source@, destination@, liquidity),
                ),
                effect(
                    old(inv)@,
                    Request::SetPairLiquidity(caller@, source@, destination@, liquidity),
                ),
            ),
    {
        if Self::is_paused(inv) {
            return refused(RouterError::ContractPaused);
        }
        if !inv.signed_by(&caller) {
            return Err(Rejection::Unauthorized(caller));
        }
        let is_admin = match inv.storage.get_address(&DataKey::Admin) {
            Some(admin) => admin.same(&caller),
            None => return refused(RouterError::NotInitialized),
        };
        let is_oracle = match inv.storage.get_address(&DataKey::Oracle) {
            Some(oracle) => oracle.same(&caller),
            None => false,
        };
        if !is_admin && !is_oracle {
            return refused(RouterError::NotAuthorized);
        }
        if liquidity < 0 {
            return refused(RouterError::AmountMustBePositive);
        }
        if let Err(e) = Self::require_pair_registered(inv, &source, &destination) {
            return Err(e);
        }
        inv.put(
            DataKey::PairLiquidity(source.clone(), destination.clone()),
            Value::I128(liquidity),
        );
        inv.emit(Event::LiquiditySet(source, destination, liquidity));
        Ok(())
    }

    /// Set the shortest gap between two routes of a pair, in seconds; zero
    /// disables it. Admin-gated, refused while paused; at most
    /// [`MAX_COOLDOWN_SECS`].
    pub fn set_pair_cooldown(
        inv: &mut Invocation,
        source: Symbol,
        destination: Symbol,
        cooldown_secs: u64,
    ) -> (result: Result<(), Rejection<Address>>)
        requires
            old(inv).wf(),
        ensures
            final(inv).wf(),
            answered(
                old(inv)@,
                final(inv)@,
                result,
                refusal(old(inv)@, Request::SetPairCooldown(source@, destination@, cooldown_secs)),
                effect(old(inv)@, Request::SetPairCooldown(source@, destination@, cooldown_secs)),
            ),
    {
        if let Err(e) = Self::require_live_admin(inv) {
            return Err(e);
        }
        if cooldown_secs > MAX_COOLDOWN_SECS {
            return refused(RouterError::CooldownTooLarge);
        }
        inv.put(
            DataKey::PairCooldown(source.clone(), destination.clone()),
            Value::U64(cooldown_secs),
        );
        inv.emit(Event::CooldownSet(source, destination, cooldown_secs));
        Ok(())
    }

    /// Clear fee, bounds and liquidity of a pair. Route count, volume and
    /// last-route time are history and stay.
    fn clear_pair_config(inv: &mut Invocation, source: Symbol, destination: Symbol)
        requires
            old(inv).wf(),
        ensures
            final(inv).wf(),
            final(inv)@ == clear_config_effect(old(inv)@, source@, destination@),
    {
        inv.clear(DataKey::PairFeeBps(source.clone(), destination.clone()));
        inv.clear(DataKey::PairMinAmount(source.clone(), destination.clone()));
        inv.clear(DataKey::PairMaxAmount(source.clone(), destination.clone()));
        inv.clear(DataKey::PairLiquidity(source, destination));
    }

    /// Unregister a pair and clear its fee, bounds and liquidity, so that
    /// registering it again starts from the defaults. Admin-gated, refused while
    /// paused; a pair that was never registered may be unregistered too.
    pub fn unregister_pair(
        inv: &mut Invocation,
        source: Symbol,
        destination: Symbol,
    ) -> (result: Result<(), Rejection<Address>>)
        requires
            old(inv).wf(),
        ensures
            final(inv).wf(),
            answered(
                old(inv)@,
                final(inv)@,
                result,
                refusal(old(inv)@, Request::UnregisterPair(source@, destination@)),
                effect(old(inv)@, Request::UnregisterPair(source@, destination@)),
            ),
    {
        if let Err(e) = Self::require_live_admin(inv) {
            return Err(e);
        }
        inv.clear(DataKey::Pair(source.clone(), destination.clone()));
        Self::clear_pair_config(inv, source.clone(), destination.clone());
        inv.emit(Event::PairUnregistered(source.clone(), destination.clone()));
        inv.emit(Event::ConfigCleared(source, destination));
        Ok(())
    }

    /// Reset route count, volume and last-route time of a pair. Registration
    /// and configuration stay. Admin-gated, refused while paused.
    pub fn purge_pair_metrics(
        inv: &mut Invocation,
        source: Symbol,
        destination: Symbol,
    ) -> (result: Result<(), Rejection<Address>>)
        requires
            old(inv).wf(),
        ensures
            final(inv).wf(),
            answered(
                old(inv)@,
                final(inv)@,
                result,
                refusal(old(inv)@, Request::PurgePairMetrics(source@, destination@)),
                effect(old(inv)@, Request::PurgePairMetrics(source@, destination@)),
            ),
    {
        if let Err(e) = Self::require_live_admin(inv) {
            return Err(e);
        }
        inv.clear(DataKey::PairRouteCount(source.clone(), destination.clone()));
        inv.clear(DataKey::PairVolume(source.clone(), destination.clone()));
        inv.clear(DataKey::PairLastRouteAt(source.clone(), destination.clone()));
        inv.emit(Event::MetricsReset(source, destination));
        Ok(())
    }
}

/// A fault in the first `n` entries is the first fault of all.
proof fn lemma_first_fee_error(slots: Slots, entries: Seq<(Text, Text, u32)>, n: int)
    requires
        0 <= n <= entries.len(),
        first_fee_error(slots, entries.take(n)) is Some,
    ensures
        first_fee_error(slots, entries) == first_fee_error(slots, entries.take(n)),
    decreases entries.len() - n,
{
    if n < entries.len() {
        assert(entries.take(n + 1).drop_last() =~= entries.take(n));
        lemma_first_fee_error(slots, entries, n + 1);
    } else {
        assert(entries.take(n) =~= entries);
    }
}

/// Where no entry is faulty, entry `k` is not.
pub(crate) proof fn lemma_no_fee_error(slots: Slots, entries: Seq<(Text, Text, u32)>, k: int)
    requires
        0 <= k < entries.len(),
        first_fee_error(slots, entries) is None,
    ensures
        fee_entry_error(slots, entries[k].0, entries[k].1, entries[k].2) is None,
    decreases entries.len(),
{
    if k < entries.len() - 1 {
        assert(entries.drop_last()[k] == entries[k]);
        lemma_no_fee_error(slots, entries.drop_last(), k);
    }
}

} // verus!
