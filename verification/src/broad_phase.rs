//! The broad phase of collision detection: an index of bounding circles,
//! rebuilt for every tick, that reports each touching pair once.

use vstd::prelude::*;
use crate::components::{Collider, Vector2};
use crate::fixed::{add_sat, lemma_square_fits, spec_add_sat, spec_sub_sat, sub_sat};
use crate::world::Entity;

verus! {

/// One bounding circle of the index, with what it stands for.
#[derive(Debug, Clone, Copy)]
pub struct Proxy {
    pub center: Vector2,
    pub radius: i64,
    pub collider: Collider,
    pub entity: Entity,
}

/// A box with sides along the arena's axes.
#[derive(Debug, Clone, Copy, PartialEq, Eq, Structural)]
pub struct Aabb {
    pub mins: Vector2,
    pub maxs: Vector2,
}

/// The smallest box about the circle at `center` with the given radius, as
/// far as coordinates reach.
pub open spec fn bounding_box(center: Vector2, radius: i64) -> Aabb {
    Aabb {
        mins: Vector2 { x: spec_sub_sat(center.x, radius), y: spec_sub_sat(center.y, radius) },
        maxs: Vector2 { x: spec_add_sat(center.x, radius), y: spec_add_sat(center.y, radius) },
    }
}

/// Whether two circles overlap or touch; no margin is added to either.
pub open spec fn overlapping(a: Proxy, b: Proxy) -> bool {
    let dx = a.center.x - b.center.x;
    let dy = a.center.y - b.center.y;
    let reach = a.radius + b.radius;
    reach >= 0 && dx * dx + dy * dy <= reach * reach
}

/// The order in which pairs are reported: by first member, then by second.
pub open spec fn pair_before(a: (usize, usize), b: (usize, usize)) -> bool {
    a.0 < b.0 || (a.0 == b.0 && a.1 < b.1)
}

/// Whether `pairs` is the list of the overlapping pairs among `proxies`:
/// every entry names two proxies, the lower index first, whose circles
/// overlap; the entries are in strictly ascending order; and every
/// overlapping pair is there.
pub open spec fn is_pair_list(proxies: Seq<Proxy>, pairs: Seq<(usize, usize)>) -> bool {
    &&& forall|k: int|
        0 <= k < pairs.len() ==> (#[trigger] pairs[k]).0 < pairs[k].1 < proxies.len()
            && overlapping(proxies[pairs[k].0 as int], proxies[pairs[k].1 as int])
    &&& forall|k: int, l: int|
        0 <= k < l < pairs.len() ==> pair_before(#[trigger] pairs[k], #[trigger] pairs[l])
    &&& forall|i: int, j: int|
        0 <= i < j < proxies.len() && #[trigger] overlapping(proxies[i], proxies[j])
            ==> pairs.contains((i as usize, j as usize))
}

proof fn lemma_out_of_reach(d: int, e: int, reach: int)
    by (nonlinear_arith)
    requires
        0 <= reach < d,
    ensures
        reach * reach < d * d + e * e,
{
    assert(reach * reach < d * d);
    assert(0 <= e * e);
}

proof fn lemma_square_of_negation(d: int)
    by (nonlinear_arith)
    ensures
        (-d) * (-d) == d * d,
{
}

/// Of two numbers from zero on, the greater has the greater square.
pub proof fn lemma_square_monotone(a: int, b: int)
    by (nonlinear_arith)
    requires
        0 <= a <= b,
    ensures
        a * a <= b * b,
{
}

/// Whether the circles of `a` and `b` overlap or touch.
pub fn touching(a: &Proxy, b: &Proxy) -> (r: bool)
    ensures
        r == overlapping(*a, *b),
{
    let reach: i128 = a.radius as i128 + b.radius as i128;
    if reach < 0 {
        return false;
    }
    let dx: i128 = a.center.x as i128 - b.center.x as i128;
    let dy: i128 = a.center.y as i128 - b.center.y as i128;
    let across: i128 = if dx < 0 {
        -dx
    } else {
        dx
    };
    let along: i128 = if dy < 0 {
        -dy
    } else {
        dy
    };
    proof {
        lemma_square_of_negation(dx as int);
        lemma_square_of_negation(dy as int);
    }
    // The boxes about the circles are compared first; only circles whose
    // boxes meet are measured exactly.
    if across > reach {
        proof {
            lemma_out_of_reach(across as int, along as int, reach as int);
        }
        return false;
    }
    if along > reach {
        proof {
            lemma_out_of_reach(along as int, across as int, reach as int);
        }
        return false;
    }
    proof {
        lemma_square_fits(reach as int);
        lemma_square_monotone(across as int, reach as int);
        lemma_square_monotone(along as int, reach as int);
    }
    let span: u128 = (reach as u128) * (reach as u128);
    let xx: u128 = (across as u128) * (across as u128);
    let yy: u128 = (along as u128) * (along as u128);
    yy <= span - xx
}

/// The box about a circle.
pub fn aabb(center: Vector2, radius: i64) -> (vol: Aabb)
    ensures
        vol == bounding_box(center, radius),
{
    Aabb {
        mins: Vector2 { x: sub_sat(center.x, radius), y: sub_sat(center.y, radius) },
        maxs: Vector2 { x: add_sat(center.x, radius), y: add_sat(center.y, radius) },
    }
}

/// The index of bounding circles for one tick.
pub struct BroadPhase {
    pub proxies: Vec<Proxy>,
}

impl BroadPhase {
    pub fn new() -> (b: BroadPhase)
        ensures
            b.proxies@ == Seq::<Proxy>::empty(),
    {
        BroadPhase { proxies: Vec::new() }
    }

    /// Adds a circle to the index and returns its handle.
    pub fn create_proxy(&mut self, center: Vector2, radius: i64, data: (Collider, Entity)) -> (handle:
        usize)
        ensures
            handle == old(self).proxies@.len(),
            final(self).proxies@ == old(self).proxies@.push(
                Proxy { center, radius, collider: data.0, entity: data.1 },
            ),
    {
        let handle = self.proxies.len();
        self.proxies.push(Proxy { center, radius, collider: data.0, entity: data.1 });
        handle
    }

    /// All pairs of circles that overlap, by handle: each pair once, the
    /// lower handle first, in ascending order.
    pub fn intersecting_pairs(&self) -> (pairs: Vec<(usize, usize)>)
        ensures
            is_pair_list(self.proxies@, pairs@),
    {
        let n = self.proxies.len();
        let mut pairs: Vec<(usize, usize)> = Vec::new();
        let mut i: usize = 0;
        while i < n
            invariant
                n == self.proxies@.len(),
                i <= n,
                forall|k: int|
                    0 <= k < pairs@.len() ==> (#[trigger] pairs@[k]).0 < pairs@[k].1 < n
                        && pairs@[k].0 < i && overlapping(
                        self.proxies@[pairs@[k].0 as int],
                        self.proxies@[pairs@[k].1 as int],
                    ),
                forall|k: int, l: int|
                    0 <= k < l < pairs@.len() ==> pair_before(
                        #[trigger] pairs@[k],
                        #[trigger] pairs@[l],
                    ),
                forall|a: int, b: int|
                    0 <= a < b < n && a < i && #[trigger] overlapping(
                        self.proxies@[a],
                        self.proxies@[b],
                    ) ==> pairs@.contains((a as usize, b as usize)),
            decreases n - i,
        {
            let mut j: usize = i + 1;
            while j < n
                invariant
                    n == self.proxies@.len(),
                    i < n,
                    i < j <= n,
                    forall|k: int|
                        0 <= k < pairs@.len() ==> (#[trigger] pairs@[k]).0 < pairs@[k].1 < n && (
                        pairs@[k].0 < i || (pairs@[k].0 == i && pairs@[k].1 < j)) && overlapping(
                            self.proxies@[pairs@[k].0 as int],
                            self.proxies@[pairs@[k].1 as int],
                        ),
                    forall|k: int, l: int|
                        0 <= k < l < pairs@.len() ==> pair_before(
                            #[trigger] pairs@[k],
                            #[trigger] pairs@[l],
                        ),
                    forall|a: int, b: int|
                        0 <= a < b < n && (a < i || (a == i && b < j)) && #[trigger] overlapping(
                            self.proxies@[a],
                            self.proxies@[b],
                        ) ==> pairs@.contains((a as usize, b as usize)),
                decreases n - j,
            {
                if touching(&self.proxies[i], &self.proxies[j]) {
                    let ghost before = pairs@;
                    pairs.push((i, j));
                    proof {
                        assert(pairs@[before.len() as int] == (i, j));
                        assert forall|a: int, b: int|
                            0 <= a < b < n && (a < i || (a == i && b < j + 1))
                                && #[trigger] overlapping(
                                self.proxies@[a],
                                self.proxies@[b],
                            ) implies pairs@.contains((a as usize, b as usize)) by {
                            if a == i && b == j {
                                assert(pairs@[before.len() as int] == (a as usize, b as usize));
                            } else {
                                assert(before.contains((a as usize, b as usize)));
                                let k = choose|k: int|
                                    0 <= k < before.len() && before[k] == (a as usize, b as usize);
                                assert(pairs@[k] == (a as usize, b as usize));
                            }
                        }
                    }
                }
                j = j + 1;
            }
            i = i + 1;
        }
        pairs
    }
}

/// No pair is reported twice, in either order, and no circle is paired
/// with itself.
pub proof fn lemma_pairs_are_unordered(proxies: Seq<Proxy>, pairs: Seq<(usize, usize)>)
    requires
        is_pair_list(proxies, pairs),
    ensures
        forall|k: int| 0 <= k < pairs.len() ==> (#[trigger] pairs[k]).0 != pairs[k].1,
        forall|k: int, l: int|
            0 <= k < pairs.len() && 0 <= l < pairs.len() && k != l ==> #[trigger] pairs[k]
                != #[trigger] pairs[l],
        forall|k: int, l: int|
            0 <= k < pairs.len() && 0 <= l < pairs.len() ==> !((#[trigger] pairs[k]).0
                == (#[trigger] pairs[l]).1 && pairs[k].1 == pairs[l].0),
{
    assert forall|k: int, l: int|
        0 <= k < pairs.len() && 0 <= l < pairs.len() && k != l implies #[trigger] pairs[k]
            != #[trigger] pairs[l] by {
        if k < l {
            assert(pair_before(pairs[k], pairs[l]));
        } else {
            assert(pair_before(pairs[l], pairs[k]));
        }
    }
}

} // verus!
