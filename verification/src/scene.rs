//! Which intersection a ray meets first.
//!
//! Ray parameters are given as order keys: `i64` values ordered as the
//! parameters they stand for. `order_key` makes one from the bits of a
//! double-precision number.

use vstd::prelude::*;

verus! {

/// The two solutions of a ray's quadratic against one sphere.
#[derive(Clone, Copy, Debug, PartialEq, Eq, Structural)]
pub struct Roots {
    /// The solution with the root subtracted.
    pub near: i64,
    /// The solution with the root added.
    pub far: i64,
}

/// An accepted intersection: the object's place in the scene and the ray
/// parameter at which it is met.
#[derive(Clone, Copy, Debug, PartialEq, Eq, Structural)]
pub struct Hit {
    pub index: usize,
    pub t: i64,
}

impl Roots {
    /// The near solution does not lie behind the far one.
    pub open spec fn ordered(self) -> bool {
        self.near <= self.far
    }
}

/// The bits of a double below its sign bit: exponent and fraction.
pub open spec fn magnitude(bits: u64) -> int {
    bits as int % 0x8000_0000_0000_0000
}

/// The sign bit is set.
pub open spec fn negative(bits: u64) -> bool {
    bits >= 0x8000_0000_0000_0000
}

/// The bits are not a number: the exponent is all ones and the fraction is
/// not zero.
pub open spec fn not_a_number(bits: u64) -> bool {
    magnitude(bits) > 0x7FF0_0000_0000_0000
}

/// The order key of a double given by its bits: its magnitude, negated
/// under a sign bit, so that both zeros share the key 0. What is not a
/// number gets the least `i64`, which lies inside no open interval.
pub open spec fn order_key_spec(bits: u64) -> int {
    if not_a_number(bits) {
        i64::MIN as int
    } else if negative(bits) {
        -magnitude(bits)
    } else {
        magnitude(bits)
    }
}

/// Computes the order key of a double from its bits.
pub fn order_key(bits: u64) -> (key: i64)
    ensures
        key == order_key_spec(bits),
        !not_a_number(bits) ==> -0x7FF0_0000_0000_0000 <= key <= 0x7FF0_0000_0000_0000,
{
    let sign: bool = bits >= 0x8000_0000_0000_0000;
    let low: u64 = if sign {
        bits - 0x8000_0000_0000_0000
    } else {
        bits
    };
    if low > 0x7FF0_0000_0000_0000 {
        i64::MIN
    } else if sign {
        -(low as i64)
    } else {
        low as i64
    }
}

/// Among numbers of one sign, keys are ordered as magnitudes are for
/// positive numbers and against them for negative ones; a negative number's
/// key never exceeds a positive one's; and no key of a number is the key of
/// what is not a number.
pub proof fn lemma_order_key_monotone(a: u64, b: u64)
    requires
        !not_a_number(a),
        !not_a_number(b),
    ensures
        !negative(a) && !negative(b) ==> (order_key_spec(a) < order_key_spec(b) <==> magnitude(a)
            < magnitude(b)),
        negative(a) && negative(b) ==> (order_key_spec(a) < order_key_spec(b) <==> magnitude(a)
            > magnitude(b)),
        negative(a) && !negative(b) ==> order_key_spec(a) <= order_key_spec(b),
        order_key_spec(a) == order_key_spec(b) <==> magnitude(a) == magnitude(b) && (negative(a)
            == negative(b) || magnitude(a) == 0),
        order_key_spec(a) > i64::MIN,
{
}

/// `t` lies strictly inside the interval.
pub open spec fn within(t: int, t_min: int, t_max: int) -> bool {
    t_min < t < t_max
}

/// The parameter at which a sphere is met inside the open interval: the
/// near solution if it lies inside, else the far one if that does. A ray
/// whose quadratic has no solution (`None`) meets nothing.
pub open spec fn accepted_root(roots: Option<Roots>, t_min: int, t_max: int) -> Option<int> {
    match roots {
        None => None,
        Some(r) => if within(r.near as int, t_min, t_max) {
            Some(r.near as int)
        } else if within(r.far as int, t_min, t_max) {
            Some(r.far as int)
        } else {
            None
        },
    }
}

/// The outcome of walking the first `n` objects in order, each tested
/// against the interval that ends at the best parameter found so far.
pub open spec fn scan(objects: Seq<Option<Roots>>, t_min: int, t_max: int, n: nat) -> Option<Hit>
    decreases n,
{
    if n == 0 {
        None
    } else {
        let before = scan(objects, t_min, t_max, (n - 1) as nat);
        let limit = match before {
            Some(h) => h.t as int,
            None => t_max,
        };
        match accepted_root(objects[n - 1], t_min, limit) {
            Some(t) => Some(Hit { index: (n - 1) as usize, t: t as i64 }),
            None => before,
        }
    }
}

/// `hit` is the closest intersection among the first `n` objects, and the
/// first of them in scene order that is as close.
pub open spec fn is_closest(
    objects: Seq<Option<Roots>>,
    t_min: int,
    t_max: int,
    n: nat,
    hit: Option<Hit>,
) -> bool {
    match hit {
        None => forall|j: int|
            0 <= j < n ==> (#[trigger] accepted_root(objects[j], t_min, t_max)).is_none(),
        Some(h) => {
            &&& h.index < n
            &&& accepted_root(objects[h.index as int], t_min, t_max) == Some(h.t as int)
            &&& forall|j: int|
                0 <= j < n ==> match #[trigger] accepted_root(objects[j], t_min, t_max) {
                    Some(t) => h.t <= t && (j < h.index ==> h.t < t),
                    None => true,
                }
        },
    }
}

/// Tests one sphere's solutions against the open interval.
pub fn accept_root(roots: Option<Roots>, t_min: i64, t_max: i64) -> (t: Option<i64>)
    ensures
        match accepted_root(roots, t_min as int, t_max as int) {
            Some(x) => t == Some(x as i64),
            None => t.is_none(),
        },
{
    match roots {
        None => None,
        Some(r) => {
            if t_min < r.near && r.near < t_max {
                Some(r.near)
            } else if t_min < r.far && r.far < t_max {
                Some(r.far)
            } else {
                None
            }
        },
    }
}

/// Walks the scene in order and keeps the closest intersection inside the
/// open interval, shrinking the interval to each one kept, so that a later
/// object replaces an earlier one only where it is strictly closer.
pub fn closest_hit(objects: &Vec<Option<Roots>>, t_min: i64, t_max: i64) -> (hit: Option<Hit>)
    ensures
        hit == scan(objects@, t_min as int, t_max as int, objects@.len()),
        hit matches Some(h) ==> h.index < objects.len() && within(
            h.t as int,
            t_min as int,
            t_max as int,
        ),
        (forall|j: int| 0 <= j < objects.len() && objects[j].is_some() ==> objects[j].unwrap().ordered())
            ==> is_closest(objects@, t_min as int, t_max as int, objects@.len(), hit),
{
    let mut best: Option<Hit> = None;
    let mut closest: i64 = t_max;
    let mut i: usize = 0;
    while i < objects.len()
        invariant
            i <= objects.len(),
            best == scan(objects@, t_min as int, t_max as int, i as nat),
            closest == match best {
                Some(h) => h.t,
                None => t_max,
            },
            best matches Some(h) ==> h.index < i && within(h.t as int, t_min as int, t_max as int),
        decreases objects.len() - i,
    {
        match accept_root(objects[i], t_min, closest) {
            Some(t) => {
                best = Some(Hit { index: i, t });
                closest = t;
            },
            None => {},
        }
        i = i + 1;
    }
    proof {
        if forall|j: int| 0 <= j < objects.len() && objects[j].is_some() ==> objects[j].unwrap().ordered() {
            lemma_scan_is_closest(objects@, t_min as int, t_max as int, objects@.len());
        }
    }
    best
}

/// Shrinking the interval to a parameter already inside it changes nothing
/// for a sphere whose solutions are ordered, but that it no longer accepts
/// a parameter at or beyond the new end.
pub proof fn lemma_shrunk_interval(roots: Option<Roots>, t_min: int, limit: int, t_max: int)
    requires
        limit <= t_max,
        roots matches Some(r) ==> r.ordered(),
    ensures
        accepted_root(roots, t_min, limit) == match accepted_root(roots, t_min, t_max) {
            Some(t) => if t < limit {
                Some(t)
            } else {
                None
            },
            None => None,
        },
{
}

/// Among spheres whose solutions are ordered, the walk returns the globally
/// closest intersection inside the interval, the earliest object winning a
/// tie, and nothing exactly when no object is met inside it.
pub proof fn lemma_scan_is_closest(objects: Seq<Option<Roots>>, t_min: int, t_max: int, n: nat)
    requires
        n <= objects.len() <= usize::MAX,
        forall|j: int| 0 <= j < n && objects[j].is_some() ==> objects[j].unwrap().ordered(),
    ensures
        is_closest(objects, t_min, t_max, n, scan(objects, t_min, t_max, n)),
    decreases n,
{
    if n > 0 {
        let before = scan(objects, t_min, t_max, (n - 1) as nat);
        let after = scan(objects, t_min, t_max, n);
        lemma_scan_is_closest(objects, t_min, t_max, (n - 1) as nat);
        let limit = match before {
            Some(h) => h.t as int,
            None => t_max,
        };
        let last = accepted_root(objects[n - 1], t_min, t_max);
        lemma_shrunk_interval(objects[n - 1], t_min, limit, t_max);
        match after {
            None => {
                assert(before.is_none());
                assert(last.is_none());
            },
            Some(h) => {
                assert forall|j: int| 0 <= j < n implies match #[trigger] accepted_root(
                    objects[j],
                    t_min,
                    t_max,
                ) {
                    Some(t) => h.t <= t && (j < h.index ==> h.t < t),
                    None => true,
                } by {
                    if j < n - 1 {
                        assert(is_closest(objects, t_min, t_max, (n - 1) as nat, before));
                    }
                }
            },
        }
    }
}

} // verus!
