//! What the slots say, told from what they hold.

use vstd::prelude::*;
use crate::config::MAX_FEE_BPS;
use crate::rules::admin;
use crate::rules::cooldown;
use crate::rules::fee_bps;
use crate::rules::fee_ceiling;
use crate::rules::last_route_at;
use crate::rules::locked;
use crate::rules::max_amount;
use crate::rules::min_amount;
use crate::rules::oracle;
use crate::rules::paused;
use crate::rules::pending_admin;
use crate::rules::pending_admin_eta;
use crate::rules::registered;
use crate::rules::reported_liquidity;
use crate::rules::route_count;
use crate::rules::schema_version;
use crate::rules::timelock;
use crate::rules::total_routes;
use crate::rules::usable_liquidity;
use crate::rules::volume;
use crate::rules::Text;
use crate::storage::address_at;
use crate::storage::admits;
use crate::storage::sound;
use crate::storage::DataKey;
use crate::storage::Slots;
use crate::storage::Value;

verus! {

/// The slot `key` holds `value`.
pub open spec fn holds(slots: Slots, key: DataKey<Text>, value: Value<Text>) -> bool {
    slots.contains_key(key) && slots[key] == value
}

/// A switch is on where its slot holds `true`, and off otherwise.
pub proof fn law_switches(slots: Slots, s: Text, d: Text)
    ensures
        paused(slots) <==> holds(slots, DataKey::Paused, Value::Bool(true)),
        locked(slots) <==> holds(slots, DataKey::ReentrancyLock, Value::Bool(true)),
        registered(slots, s, d) <==> holds(slots, DataKey::Pair(s, d), Value::Bool(true)),
{
}

/// An address, a time or a ceiling that may be missing is the one that its slot
/// holds, and missing exactly where the slot is empty.
pub proof fn law_optional_slots(slots: Slots, a: Text, t: u64, n: i128, s: Text, d: Text)
    requires
        sound(slots),
    ensures
        admin(slots) == Some(a) <==> holds(slots, DataKey::Admin, Value::Address(a)),
        admin(slots) is None <==> !slots.contains_key(DataKey::Admin),
        pending_admin(slots) == Some(a) <==> holds(slots, DataKey::PendingAdmin, Value::Address(a)),
        pending_admin(slots) is None <==> !slots.contains_key(DataKey::PendingAdmin),
        oracle(slots) == Some(a) <==> holds(slots, DataKey::Oracle, Value::Address(a)),
        oracle(slots) is None <==> !slots.contains_key(DataKey::Oracle),
        address_at(slots, DataKey::FeeRecipient) == Some(a) <==> holds(
            slots,
            DataKey::FeeRecipient,
            Value::Address(a),
        ),
        address_at(slots, DataKey::FeeRecipient) is None <==> !slots.contains_key(
            DataKey::FeeRecipient,
        ),
        pending_admin_eta(slots) == Some(t) <==> holds(
            slots,
            DataKey::PendingAdminEta,
            Value::U64(t),
        ),
        pending_admin_eta(slots) is None <==> !slots.contains_key(DataKey::PendingAdminEta),
        last_route_at(slots, s, d) == Some(t) <==> holds(
            slots,
            DataKey::PairLastRouteAt(s, d),
            Value::U64(t),
        ),
        last_route_at(slots, s, d) is None <==> !slots.contains_key(DataKey::PairLastRouteAt(s, d)),
        fee_ceiling(slots) == Some(n) <==> holds(slots, DataKey::MaxFeeAbsolute, Value::I128(n)),
        fee_ceiling(slots) is None <==> !slots.contains_key(DataKey::MaxFeeAbsolute),
{
    lemma_admitted(slots, DataKey::Admin);
    lemma_admitted(slots, DataKey::PendingAdmin);
    lemma_admitted(slots, DataKey::Oracle);
    lemma_admitted(slots, DataKey::FeeRecipient);
    lemma_admitted(slots, DataKey::PendingAdminEta);
    lemma_admitted(slots, DataKey::PairLastRouteAt(s, d));
    lemma_admitted(slots, DataKey::MaxFeeAbsolute);
}

/// A number with a default is the one that its slot holds, and the default
/// where the slot is empty.
pub proof fn law_slots_with_a_default(slots: Slots, n: u32, t: u64, x: i128, s: Text, d: Text)
    requires
        sound(slots),
    ensures
        holds(slots, DataKey::SchemaVersion, Value::U32(n)) ==> schema_version(slots) == n,
        !slots.contains_key(DataKey::SchemaVersion) ==> schema_version(slots) == 1,
        holds(slots, DataKey::Timelock, Value::U64(t)) ==> timelock(slots) == t,
        !slots.contains_key(DataKey::Timelock) ==> timelock(slots) == 0,
        holds(slots, DataKey::TotalRoutesAllTime, Value::U64(t)) ==> total_routes(slots) == t,
        !slots.contains_key(DataKey::TotalRoutesAllTime) ==> total_routes(slots) == 0,
        holds(slots, DataKey::PairFeeBps(s, d), Value::U32(n)) ==> fee_bps(slots, s, d) == n,
        !slots.contains_key(DataKey::PairFeeBps(s, d)) ==> fee_bps(slots, s, d) == 0,
        holds(slots, DataKey::PairMinAmount(s, d), Value::I128(x)) ==> min_amount(slots, s, d) == x,
        !slots.contains_key(DataKey::PairMinAmount(s, d)) ==> min_amount(slots, s, d) == 0,
        holds(slots, DataKey::PairMaxAmount(s, d), Value::I128(x)) ==> max_amount(slots, s, d) == x,
        !slots.contains_key(DataKey::PairMaxAmount(s, d)) ==> max_amount(slots, s, d) == i128::MAX,
        holds(slots, DataKey::PairCooldown(s, d), Value::U64(t)) ==> cooldown(slots, s, d) == t,
        !slots.contains_key(DataKey::PairCooldown(s, d)) ==> cooldown(slots, s, d) == 0,
        holds(slots, DataKey::PairRouteCount(s, d), Value::U64(t)) ==> route_count(slots, s, d)
            == t,
        !slots.contains_key(DataKey::PairRouteCount(s, d)) ==> route_count(slots, s, d) == 0,
        holds(slots, DataKey::PairVolume(s, d), Value::I128(x)) ==> volume(slots, s, d) == x,
        !slots.contains_key(DataKey::PairVolume(s, d)) ==> volume(slots, s, d) == 0,
{
}

/// Liquidity that was reported is the same to a reader and to a route. Where
/// none was, a reader sees none and a route is not bounded by any.
pub proof fn law_liquidity_has_two_defaults(slots: Slots, s: Text, d: Text, x: i128)
    requires
        sound(slots),
    ensures
        holds(slots, DataKey::PairLiquidity(s, d), Value::I128(x)) ==> reported_liquidity(
            slots,
            s,
            d,
        ) == x && usable_liquidity(slots, s, d) == x,
        !slots.contains_key(DataKey::PairLiquidity(s, d)) ==> reported_liquidity(slots, s, d) == 0
            && usable_liquidity(slots, s, d) == i128::MAX,
{
}

/// A sound slot holds a value that it admits.
proof fn lemma_admitted(slots: Slots, key: DataKey<Text>)
    requires
        sound(slots),
    ensures
        slots.contains_key(key) ==> admits(key, slots[key]),
{
}

/// A sound slot that is not empty holds a value of its type: amounts are not
/// negative, a maximum is positive, and a fee is within the limit.
pub proof fn law_slots_are_typed(slots: Slots, s: Text, d: Text)
    requires
        sound(slots),
    ensures
        slots.contains_key(DataKey::SchemaVersion) ==> slots[DataKey::SchemaVersion] is U32,
        slots.contains_key(DataKey::Timelock) ==> slots[DataKey::Timelock] is U64,
        slots.contains_key(DataKey::TotalRoutesAllTime) ==> slots[DataKey::TotalRoutesAllTime] is U64,
        slots.contains_key(DataKey::PairRouteCount(s, d)) ==> slots[DataKey::PairRouteCount(
            s,
            d,
        )] is U64,
        slots.contains_key(DataKey::PairCooldown(s, d)) ==> slots[DataKey::PairCooldown(s, d)] is U64,
        slots.contains_key(DataKey::PairFeeBps(s, d)) ==> (slots[DataKey::PairFeeBps(s, d)] matches
            Value::U32(n) && n <= MAX_FEE_BPS),
        slots.contains_key(DataKey::PairMinAmount(s, d)) ==> (slots[DataKey::PairMinAmount(
            s,
            d,
        )] matches Value::I128(n) && n >= 0),
        slots.contains_key(DataKey::PairMaxAmount(s, d)) ==> (slots[DataKey::PairMaxAmount(
            s,
            d,
        )] matches Value::I128(n) && n > 0),
        slots.contains_key(DataKey::PairLiquidity(s, d)) ==> (slots[DataKey::PairLiquidity(
            s,
            d,
        )] matches Value::I128(n) && n >= 0),
        slots.contains_key(DataKey::PairVolume(s, d)) ==> (slots[DataKey::PairVolume(s, d)] matches
            Value::I128(n) && n >= 0),
        slots.contains_key(DataKey::MaxFeeAbsolute) ==> (slots[DataKey::MaxFeeAbsolute] matches
            Value::I128(n) && n >= 0),
{
    lemma_admitted(slots, DataKey::SchemaVersion);
    lemma_admitted(slots, DataKey::Timelock);
    lemma_admitted(slots, DataKey::TotalRoutesAllTime);
    lemma_admitted(slots, DataKey::PairRouteCount(s, d));
    lemma_admitted(slots, DataKey::PairCooldown(s, d));
    lemma_admitted(slots, DataKey::PairFeeBps(s, d));
    lemma_admitted(slots, DataKey::PairMinAmount(s, d));
    lemma_admitted(slots, DataKey::PairMaxAmount(s, d));
    lemma_admitted(slots, DataKey::PairLiquidity(s, d));
    lemma_admitted(slots, DataKey::PairVolume(s, d));
    lemma_admitted(slots, DataKey::MaxFeeAbsolute);
}

/// Every value that a slot may come to hold is admitted when it is restored:
/// any switch, address, counter or time, amounts that are not negative, a
/// maximum that is positive and a fee within the limit.
pub proof fn law_slots_can_be_restored(
    b: bool,
    n: u32,
    t: u64,
    x: i128,
    a: Text,
    s: Text,
    d: Text,
)
    ensures
        admits(DataKey::<Text>::Paused, Value::<Text>::Bool(b)),
        admits(DataKey::<Text>::ReentrancyLock, Value::<Text>::Bool(b)),
        admits(DataKey::Pair(s, d), Value::<Text>::Bool(b)),
        admits(DataKey::<Text>::Admin, Value::Address(a)),
        admits(DataKey::<Text>::PendingAdmin, Value::Address(a)),
        admits(DataKey::<Text>::FeeRecipient, Value::Address(a)),
        admits(DataKey::<Text>::Oracle, Value::Address(a)),
        admits(DataKey::<Text>::SchemaVersion, Value::<Text>::U32(n)),
        admits(DataKey::<Text>::TotalRoutesAllTime, Value::<Text>::U64(t)),
        admits(DataKey::<Text>::Timelock, Value::<Text>::U64(t)),
        admits(DataKey::<Text>::PendingAdminEta, Value::<Text>::U64(t)),
        admits(DataKey::PairLastRouteAt(s, d), Value::<Text>::U64(t)),
        admits(DataKey::PairRouteCount(s, d), Value::<Text>::U64(t)),
        admits(DataKey::PairCooldown(s, d), Value::<Text>::U64(t)),
        admits(DataKey::PairFeeBps(s, d), Value::<Text>::U32(n)) <==> n <= MAX_FEE_BPS,
        admits(DataKey::PairMinAmount(s, d), Value::<Text>::I128(x)) <==> x >= 0,
        admits(DataKey::PairMaxAmount(s, d), Value::<Text>::I128(x)) <==> x > 0,
        admits(DataKey::PairLiquidity(s, d), Value::<Text>::I128(x)) <==> x >= 0,
        admits(DataKey::PairVolume(s, d), Value::<Text>::I128(x)) <==> x >= 0,
        admits(DataKey::<Text>::MaxFeeAbsolute, Value::<Text>::I128(x)) <==> x >= 0,
{
}

} // verus!
