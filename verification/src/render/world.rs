//! The rules by which a scene turns one ray into one color.
//!
//! A ray is traced in steps: gather and order its crossings, pick the visible
//! one, light it, and follow the reflected and the refracted ray with a budget
//! that shrinks by one at every bounce. The budget alone ends the recursion.

use crate::units::color::{black, fits, rgb, QuantColor};
use crate::units::intersect::{is_hit_at, no_hit, Intersection};
use vstd::prelude::*;

verus! {

/// The crossings of the first `n` shapes, one shape after the other.
pub open spec fn gathered(found: Seq<Vec<Intersection>>, n: int) -> Seq<Intersection>
    decreases n,
{
    if n <= 0 {
        Seq::empty()
    } else {
        gathered(found, n - 1) + found[n - 1]@
    }
}

/// The crossings of `xs` that have key `k`, in their order.
pub open spec fn with_key(xs: Seq<Intersection>, k: i64) -> Seq<Intersection>
    decreases xs.len(),
{
    if xs.len() == 0 {
        Seq::empty()
    } else if xs.last().t == k {
        with_key(xs.drop_last(), k).push(xs.last())
    } else {
        with_key(xs.drop_last(), k)
    }
}

/// The keys of `xs` never fall.
pub open spec fn ascending(xs: Seq<Intersection>) -> bool {
    forall|i: int, j: int| 0 <= i < j < xs.len() ==> xs[i].t <= xs[j].t
}

/// `sorted` holds the crossings of `xs` in ascending order of their keys, and
/// those of one key in the order they have in `xs`. There is one such
/// sequence for every `xs`.
pub open spec fn is_sorting_of(sorted: Seq<Intersection>, xs: Seq<Intersection>) -> bool {
    &&& ascending(sorted)
    &&& forall|k: i64| with_key(sorted, k) == with_key(xs, k)
}

/// Selecting by key goes through concatenation.
pub proof fn lemma_with_key_concat(a: Seq<Intersection>, b: Seq<Intersection>, k: i64)
    ensures
        with_key(a + b, k) == with_key(a, k) + with_key(b, k),
    decreases b.len(),
{
    if b.len() == 0 {
        assert(a + b =~= a);
        assert(with_key(a, k) + with_key(b, k) =~= with_key(a, k));
    } else {
        lemma_with_key_concat(a, b.drop_last(), k);
        assert((a + b).drop_last() =~= a + b.drop_last());
        assert((a + b).last() == b.last());
        if b.last().t == k {
            assert(with_key(a, k) + with_key(b.drop_last(), k).push(b.last()) =~= (with_key(a, k)
                + with_key(b.drop_last(), k)).push(b.last()));
        }
    }
}

/// Where no crossing has key `k`, selecting by `k` leaves nothing.
proof fn lemma_with_key_none(xs: Seq<Intersection>, k: i64)
    requires
        forall|i: int| 0 <= i < xs.len() ==> xs[i].t != k,
    ensures
        with_key(xs, k) == Seq::<Intersection>::empty(),
    decreases xs.len(),
{
    if xs.len() > 0 {
        assert forall|i: int| 0 <= i < xs.drop_last().len() implies xs.drop_last()[i].t != k by {
            assert(xs.drop_last()[i] == xs[i]);
        }
        lemma_with_key_none(xs.drop_last(), k);
    }
}

/// Every crossing selected by `k` has key `k`, and a crossing with key `k`
/// is selected by `k`.
proof fn lemma_with_key_members(xs: Seq<Intersection>, k: i64)
    ensures
        forall|i: int| 0 <= i < with_key(xs, k).len() ==> (#[trigger] with_key(xs, k)[i]).t == k,
        (exists|i: int| 0 <= i < xs.len() && xs[i].t == k) ==> with_key(xs, k).len() > 0,
    decreases xs.len(),
{
    if xs.len() > 0 {
        lemma_with_key_members(xs.drop_last(), k);
        if xs.last().t != k {
            if exists|i: int| 0 <= i < xs.len() && xs[i].t == k {
                let i = choose|i: int| 0 <= i < xs.len() && xs[i].t == k;
                assert(xs.drop_last()[i].t == k);
            }
        }
    }
}

/// The contract of [`intersect`] leaves no choice: two sequences that both
/// hold the crossings of `xs` in ascending order, those of one key in the
/// order of `xs`, are the same.
pub proof fn lemma_sorting_unique(a: Seq<Intersection>, b: Seq<Intersection>, xs: Seq<Intersection>)
    requires
        is_sorting_of(a, xs),
        is_sorting_of(b, xs),
    ensures
        a == b,
{
    lemma_same_selection(a, b);
}

/// Two ascending sequences from which every key selects the same are equal.
proof fn lemma_same_selection(a: Seq<Intersection>, b: Seq<Intersection>)
    requires
        ascending(a),
        ascending(b),
        forall|k: i64| with_key(a, k) == with_key(b, k),
    ensures
        a == b,
    decreases a.len(),
{
    if a.len() == 0 {
        if b.len() > 0 {
            let k = b.last().t;
            assert(with_key(a, k) == with_key(b, k));
        }
        assert(a =~= b);
    } else {
        let m = a.last().t;
        assert(with_key(a, m) == with_key(b, m));
        assert(with_key(a, m).last() == a.last());
        lemma_with_key_members(b, m);
        assert(b.len() > 0) by {
            if b.len() == 0 {
                assert(with_key(b, m).len() == 0);
            }
        }
        let top = b.last().t;
        if top != m {
            assert(with_key(a, top) == with_key(b, top));
            assert(with_key(b, top).len() > 0);
            lemma_with_key_members(a, top);
            lemma_with_key_members(b, top);
            // one of the two sequences holds a key above its last one
            if top > m {
                lemma_with_key_bound(a, top);
            } else {
                lemma_with_key_bound(b, m);
            }
        }
        assert(with_key(b, m).last() == b.last());
        assert(a.last() == b.last());
        assert forall|k: i64| with_key(a.drop_last(), k) == with_key(b.drop_last(), k) by {
            assert(with_key(a, k) == with_key(b, k));
            if k == m {
                assert(with_key(a.drop_last(), k) =~= with_key(a, k).drop_last());
                assert(with_key(b.drop_last(), k) =~= with_key(b, k).drop_last());
            }
        }
        assert(ascending(a.drop_last())) by {
            assert forall|i: int, j: int| 0 <= i < j < a.drop_last().len() implies a.drop_last()[i].t
                <= a.drop_last()[j].t by {
                assert(a.drop_last()[i] == a[i] && a.drop_last()[j] == a[j]);
            }
        }
        assert(ascending(b.drop_last())) by {
            assert forall|i: int, j: int| 0 <= i < j < b.drop_last().len() implies b.drop_last()[i].t
                <= b.drop_last()[j].t by {
                assert(b.drop_last()[i] == b[i] && b.drop_last()[j] == b[j]);
            }
        }
        lemma_same_selection(a.drop_last(), b.drop_last());
        assert(a =~= a.drop_last().push(a.last()));
        assert(b =~= b.drop_last().push(b.last()));
    }
}

/// No key above the last one of an ascending sequence selects anything.
proof fn lemma_with_key_bound(xs: Seq<Intersection>, k: i64)
    requires
        ascending(xs),
        xs.len() > 0,
        xs.last().t < k,
    ensures
        with_key(xs, k).len() == 0,
{
    assert forall|i: int| 0 <= i < xs.len() implies xs[i].t != k by {
        if i < xs.len() - 1 {
            assert(xs[i].t <= xs[xs.len() - 1].t);
        }
    }
    lemma_with_key_none(xs, k);
}

/// Puts `x` into `sorted` behind every crossing whose key is not greater.
fn insert_sorted(sorted: &mut Vec<Intersection>, x: Intersection, Ghost(seen): Ghost<Seq<Intersection>>)
    requires
        is_sorting_of(old(sorted)@, seen),
    ensures
        is_sorting_of(final(sorted)@, seen.push(x)),
        final(sorted).len() == old(sorted).len() + 1,
{
    let mut p: usize = sorted.len();
    while p > 0 && sorted[p - 1].t > x.t
        invariant
            p <= sorted.len(),
            forall|j: int| p <= j < sorted.len() ==> sorted[j].t > x.t,
        decreases p,
    {
        p -= 1;
    }
    let ghost before = sorted@;
    sorted.insert(p, x);
    proof {
        let after = sorted@;
        let head = before.take(p as int);
        let tail = before.skip(p as int);
        let one = Seq::<Intersection>::empty().push(x);
        assert(after =~= head + one + tail);
        assert(before =~= head + tail);
        assert(ascending(after)) by {
            assert forall|i: int, j: int| 0 <= i < j < after.len() implies after[i].t
                <= after[j].t by {
                if j < p {
                    assert(after[i] == before[i] && after[j] == before[j]);
                } else if j == p {
                    assert(after[i] == before[i]);
                    assert(before[p - 1].t <= x.t);
                } else if i < p {
                    assert(after[i] == before[i] && after[j] == before[j - 1]);
                } else if i == p {
                    assert(after[j] == before[j - 1]);
                } else {
                    assert(after[i] == before[i - 1] && after[j] == before[j - 1]);
                }
            }
        }
        assert forall|k: i64| with_key(after, k) == with_key(seen.push(x), k) by {
            lemma_with_key_concat(head + one, tail, k);
            lemma_with_key_concat(head, one, k);
            lemma_with_key_concat(head, tail, k);
            assert(with_key(before, k) == with_key(seen, k));
            assert(seen.push(x).drop_last() =~= seen);
            assert(one.drop_last() =~= Seq::<Intersection>::empty());
            assert(with_key(one.drop_last(), k) =~= Seq::<Intersection>::empty());
            if x.t == k {
                assert forall|i: int| 0 <= i < tail.len() implies tail[i].t != k by {
                    assert(tail[i] == before[p + i]);
                }
                lemma_with_key_none(tail, k);
                assert(with_key(one, k) =~= one);
                assert(with_key(after, k) =~= with_key(head, k) + one);
                assert(with_key(before, k) =~= with_key(head, k));
                assert(with_key(seen.push(x), k) =~= with_key(seen, k).push(x));
            } else {
                assert(with_key(one, k) =~= Seq::<Intersection>::empty());
                assert(with_key(after, k) =~= with_key(head, k) + with_key(tail, k));
            }
        }
    }
}

/// All crossings of a ray with the shapes of a scene, nearest first.
///
/// `found[i]` holds the crossings with the `i`-th shape. The result holds
/// every one of them in ascending order of their keys, and those of one key
/// in the order in which they were found.
pub fn intersect(found: &Vec<Vec<Intersection>>) -> (all: Vec<Intersection>)
    ensures
        is_sorting_of(all@, gathered(found@, found.len() as int)),
{
    let mut all: Vec<Intersection> = Vec::new();
    let mut o: usize = 0;
    while o < found.len()
        invariant
            o <= found.len(),
            is_sorting_of(all@, gathered(found@, o as int)),
        decreases found.len() - o,
    {
        let of_shape = &found[o];
        let mut i: usize = 0;
        while i < of_shape.len()
            invariant
                o < found.len(),
                of_shape == found[o as int],
                i <= of_shape.len(),
                is_sorting_of(all@, gathered(found@, o as int) + of_shape@.take(i as int)),
            decreases of_shape.len() - i,
        {
            let ghost seen = gathered(found@, o as int) + of_shape@.take(i as int);
            insert_sorted(&mut all, of_shape[i], Ghost(seen));
            assert(seen.push(of_shape[i as int]) =~= gathered(found@, o as int) + of_shape@.take(
                i + 1,
            ));
            i += 1;
        }
        assert(of_shape@.take(of_shape.len() as int) =~= of_shape@);
        o += 1;
    }
    all
}

/// The color seen along a ray with the crossings `intersections`: the color
/// that `shade` gives the visible crossing, and black where the ray meets
/// nothing in front of its origin.
pub fn color_at<F: FnOnce(Intersection) -> QuantColor>(
    intersections: &Vec<Intersection>,
    shade: F,
) -> (c: QuantColor)
    requires
        forall|i: int|
            is_hit_at(intersections@, i) ==> call_requires(shade, (intersections@[i],)),
    ensures
        no_hit(intersections@) ==> c == black(),
        forall|i: int|
            is_hit_at(intersections@, i) ==> call_ensures(shade, (intersections@[i],), c),
{
    match Intersection::hit_index(intersections) {
        Some(i) => shade(intersections[i]),
        None => black(),
    }
}

/// The color of a lit point with what its reflection and its refraction add:
/// the channel-wise sum `base + reflected + refracted`, clamped.
pub open spec fn shaded(base: QuantColor, reflected: QuantColor, refracted: QuantColor)
    -> QuantColor {
    rgb(
        base.r + reflected.r + refracted.r,
        base.g + reflected.g + refracted.g,
        base.b + reflected.b + refracted.b,
    ).clamped()
}

/// Combines the color of a lit point with the colors that its reflection and
/// its refraction add, see [`shaded`]. A material that both reflects and
/// transmits hands in the two colors already weighted by its reflectance.
/// The sums must fit the channels.
pub fn shade_hit(base: QuantColor, reflected: QuantColor, refracted: QuantColor) -> (c: QuantColor)
    requires
        fits(base.r + reflected.r) && fits(base.r + reflected.r + refracted.r),
        fits(base.g + reflected.g) && fits(base.g + reflected.g + refracted.g),
        fits(base.b + reflected.b) && fits(base.b + reflected.b + refracted.b),
    ensures
        c == shaded(base, reflected, refracted),
{
    (base + reflected + refracted).clamp()
}

/// What a reflection adds to a point: black where the material does not
/// reflect or the budget of bounces is used up, else the color that `cast`
/// finds along the reflected ray with a budget that is one less.
pub fn reflect_color<F: FnOnce(usize) -> QuantColor>(
    reflective: bool,
    remaining: usize,
    cast: F,
) -> (c: QuantColor)
    requires
        reflective && remaining > 0 ==> call_requires(cast, ((remaining - 1) as usize,)),
    ensures
        remaining == 0 ==> c == black(),
        !reflective ==> c == black(),
        reflective && remaining > 0 ==> call_ensures(cast, ((remaining - 1) as usize,), c),
{
    if !reflective || remaining == 0 {
        black()
    } else {
        cast(remaining - 1)
    }
}

/// What a refraction adds to a point: black where the material is opaque, the
/// budget of bounces is used up, or the surface reflects all light inward,
/// else the color that `cast` finds along the refracted ray with a budget that
/// is one less.
pub fn refract_color<F: FnOnce(usize) -> QuantColor>(
    transparent: bool,
    total_internal_reflection: bool,
    remaining: usize,
    cast: F,
) -> (c: QuantColor)
    requires
        transparent && !total_internal_reflection && remaining > 0 ==> call_requires(
            cast,
            ((remaining - 1) as usize,),
        ),
    ensures
        remaining == 0 ==> c == black(),
        !transparent ==> c == black(),
        total_internal_reflection ==> c == black(),
        transparent && !total_internal_reflection && remaining > 0 ==> call_ensures(
            cast,
            ((remaining - 1) as usize,),
            c,
        ),
{
    if !transparent || remaining == 0 {
        black()
    } else if total_internal_reflection {
        black()
    } else {
        cast(remaining - 1)
    }
}

/// Whether a point lies in shadow. `intersections` are the crossings of the
/// ray from the point toward the light, and `light_distance` is the key of the
/// distance from the point to the light, `None` where the scene has no light.
/// The point is in shadow exactly where there is a light and the visible
/// crossing lies nearer than it.
pub fn is_shadowed(intersections: &Vec<Intersection>, light_distance: Option<i64>) -> (shadowed:
    bool)
    ensures
        shadowed <==> exists|i: int|
            is_hit_at(intersections@, i) && light_distance.is_some()
                && intersections@[i].t < light_distance.unwrap(),
{
    match light_distance {
        None => false,
        Some(distance) => {
            match Intersection::hit_index(intersections) {
                Some(i) => {
                    let shadowed = intersections[i].t < distance;
                    proof {
                        if !shadowed {
                            assert forall|j: int|
                                is_hit_at(intersections@, j) implies !(intersections@[j].t
                                < distance) by {
                                crate::units::intersect::lemma_hit_unique(
                                    intersections@,
                                    i as int,
                                    j,
                                );
                            }
                        }
                    }
                    shadowed
                },
                None => false,
            }
        },
    }
}

} // verus!
