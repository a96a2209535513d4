//! The algebra of reaction sides, on its own.
//!
//! One side of a reaction is, mathematically, a finite map from what is on
//! that side to a stoichiometric coefficient. This module defines merging,
//! cancelling and filtering on such maps, and proves the laws that the
//! operations on reactions inherit from them. The key type is left open:
//! nothing here depends on what a species is.
use vstd::prelude::*;

verus! {

/// The coefficient of `key` on a side; a key that is not on the side has
/// coefficient zero.
pub open spec fn coefficient<K>(side: Map<K, nat>, key: K) -> nat {
    if side.dom().contains(key) {
        side[key]
    } else {
        0
    }
}

/// Two sides merged: every key of either, with the sum of its coefficients.
pub open spec fn merged<K>(left: Map<K, nat>, right: Map<K, nat>) -> Map<K, nat> {
    Map::new(
        |key: K| left.dom().contains(key) || right.dom().contains(key),
        |key: K| coefficient(left, key) + coefficient(right, key),
    )
}

/// A side after what it shares with the opposite side has been taken off:
/// the same keys, each coefficient lowered by the opposite coefficient, but
/// not below zero.
pub open spec fn cancelled<K>(side: Map<K, nat>, opposite: Map<K, nat>) -> Map<K, nat> {
    Map::new(
        |key: K| side.dom().contains(key),
        |key: K|
            if side[key] > coefficient(opposite, key) {
                (side[key] - coefficient(opposite, key)) as nat
            } else {
                0
            },
    )
}

/// A side without the keys whose coefficient is zero.
pub open spec fn positive<K>(side: Map<K, nat>) -> Map<K, nat> {
    Map::new(|key: K| side.dom().contains(key) && side[key] > 0, |key: K| side[key])
}

/// The net side: cancelled against the opposite side, zero coefficients
/// dropped.
pub open spec fn net<K>(side: Map<K, nat>, opposite: Map<K, nat>) -> Map<K, nat> {
    positive(cancelled(side, opposite))
}

/// Every coefficient of the side can be held in a `u16`.
pub open spec fn fits_u16<K>(side: Map<K, nat>) -> bool {
    forall|key: K| side.dom().contains(key) ==> #[trigger] side[key] <= u16::MAX
}

/// Merging does not depend on the order of its arguments.
pub proof fn merge_is_commutative<K>(x: Map<K, nat>, y: Map<K, nat>)
    ensures
        merged(x, y) == merged(y, x),
{
    assert(merged(x, y) =~= merged(y, x));
}

/// Merging three sides gives the same result however the merges are grouped.
pub proof fn merge_is_associative<K>(x: Map<K, nat>, y: Map<K, nat>, z: Map<K, nat>)
    ensures
        merged(merged(x, y), z) == merged(x, merged(y, z)),
{
    assert(merged(merged(x, y), z) =~= merged(x, merged(y, z)));
}

/// A net side holds no zero coefficient.
pub proof fn net_has_no_zero_coefficient<K>(side: Map<K, nat>, opposite: Map<K, nat>)
    ensures
        forall|key: K|
            net(side, opposite).dom().contains(key) ==> #[trigger] net(side, opposite)[key] > 0,
{
}

/// After cancelling, nothing stands on both sides.
pub proof fn net_sides_share_no_key<K>(x: Map<K, nat>, y: Map<K, nat>)
    ensures
        forall|key: K| !(net(x, y).dom().contains(key) && net(y, x).dom().contains(key)),
{
}

/// Cancelling conserves the balance: for every key, the difference between
/// the two sides is the same after cancelling as before.
pub proof fn net_conserves_balance<K>(x: Map<K, nat>, y: Map<K, nat>, key: K)
    ensures
        coefficient(net(x, y), key) - coefficient(net(y, x), key) == coefficient(x, key)
            - coefficient(y, key),
{
}

/// Where the two sides have no key in common, cancelling changes nothing but
/// to drop zero coefficients.
pub proof fn net_of_disjoint_sides<K>(x: Map<K, nat>, y: Map<K, nat>)
    requires
        forall|key: K| !(x.dom().contains(key) && y.dom().contains(key)),
    ensures
        net(x, y) == positive(x),
        net(y, x) == positive(y),
{
    assert(net(x, y) =~= positive(x));
    assert(net(y, x) =~= positive(y));
}

/// A side merged with itself and cancelled against the opposite side merged
/// with itself leaves nothing, on both sides, exactly when the two sides
/// mirror each other: every key has the same coefficient on both, a missing
/// key counting as zero. Otherwise some key remains, with twice the
/// difference of its two coefficients.
pub proof fn doubled_sides_cancel_iff_mirrored<K>(x: Map<K, nat>, y: Map<K, nat>)
    ensures
        (net(merged(x, x), merged(y, y)) == Map::<K, nat>::empty() && net(
            merged(y, y),
            merged(x, x),
        ) == Map::<K, nat>::empty()) <==> (forall|key: K|
            coefficient(x, key) == coefficient(y, key)),
        forall|key: K|
            coefficient(x, key) > coefficient(y, key) ==> #[trigger] coefficient(
                net(merged(x, x), merged(y, y)),
                key,
            ) == 2 * (coefficient(x, key) - coefficient(y, key)),
{
    let nx = net(merged(x, x), merged(y, y));
    let ny = net(merged(y, y), merged(x, x));
    if forall|key: K| coefficient(x, key) == coefficient(y, key) {
        assert(nx =~= Map::<K, nat>::empty());
        assert(ny =~= Map::<K, nat>::empty());
    }
    if nx == Map::<K, nat>::empty() && ny == Map::<K, nat>::empty() {
        assert forall|key: K| coefficient(x, key) == coefficient(y, key) by {
            assert(!nx.dom().contains(key));
            assert(!ny.dom().contains(key));
        }
    }
}

} // verus!
