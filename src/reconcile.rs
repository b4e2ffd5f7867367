use vstd::prelude::*;

verus! {

/// Coordinates and velocities of the session model are counted in
/// thousandths of a board unit.
pub const UNITS: i32 = 1000;

/// The largest drift, in thousandths of a unit, up to which a prediction is
/// kept.
pub const RECONCILE_THRESHOLD: u32 = 5000;

/// An entity of the session model: location `(x, y)` and velocity
/// `(dx, dy)`, in thousandths of a board unit.
#[derive(Debug, Clone, Copy, PartialEq, Eq, Structural)]
pub struct Entity {
    pub x: i32,
    pub y: i32,
    pub dx: i32,
    pub dy: i32,
}

pub open spec fn abs_diff(a: i32, b: i32) -> int {
    if a >= b {
        a - b
    } else {
        b - a
    }
}

/// The larger of the per-axis distances between two locations.
pub open spec fn drift(p: Entity, a: Entity) -> int {
    let ex = abs_diff(p.x, a.x);
    let ey = abs_diff(p.y, a.y);
    if ex >= ey {
        ex
    } else {
        ey
    }
}

/// The self entity after a snapshot: the prediction while its drift from the
/// authoritative location is within `threshold`, else the authoritative
/// location with the predicted velocity.
pub open spec fn reconciled(p: Entity, a: Entity, threshold: u32) -> Entity {
    if drift(p, a) <= threshold {
        p
    } else {
        Entity { x: a.x, y: a.y, dx: p.dx, dy: p.dy }
    }
}

fn distance(a: i32, b: i32) -> (r: u64)
    ensures
        r == abs_diff(a, b),
{
    if a >= b {
        (a as i64 - b as i64) as u64
    } else {
        (b as i64 - a as i64) as u64
    }
}

/// The drift between a predicted and an authoritative entity.
pub fn drift_between(predicted: &Entity, authoritative: &Entity) -> (r: u64)
    ensures
        r == drift(*predicted, *authoritative),
{
    let ex = distance(predicted.x, authoritative.x);
    let ey = distance(predicted.y, authoritative.y);
    if ex >= ey {
        ex
    } else {
        ey
    }
}

/// Merges an authoritative self entity into the predicted one.
pub fn reconcile(predicted: Entity, authoritative: Entity, threshold: u32) -> (r: Entity)
    ensures
        r == reconciled(predicted, authoritative, threshold),
{
    if drift_between(&predicted, &authoritative) <= threshold as u64 {
        predicted
    } else {
        Entity { x: authoritative.x, y: authoritative.y, dx: predicted.dx, dy: predicted.dy }
    }
}

/// A prediction within the threshold of the authoritative entity is kept
/// unchanged.
pub proof fn lemma_small_drift_keeps_prediction(p: Entity, a: Entity, threshold: u32)
    requires
        drift(p, a) <= threshold,
    ensures
        reconciled(p, a, threshold) == p,
{
}

/// A prediction beyond the threshold is replaced by the authoritative
/// location exactly; the velocity stays the predicted one.
pub proof fn lemma_large_drift_takes_authority(p: Entity, a: Entity, threshold: u32)
    requires
        drift(p, a) > threshold,
    ensures
        reconciled(p, a, threshold).x == a.x,
        reconciled(p, a, threshold).y == a.y,
        reconciled(p, a, threshold).dx == p.dx,
        reconciled(p, a, threshold).dy == p.dy,
{
}

} // verus!
