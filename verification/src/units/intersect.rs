//! Intersections of one ray with the shapes of a scene: which of them is
//! visible, and which media meet at it.

use vstd::prelude::*;

verus! {

/// One crossing of a ray and a shape's surface.
///
/// `t` is the order key of the ray parameter of the crossing: keys compare as
/// the parameters do, equal parameters have equal keys, and the parameter zero
/// has key 0. So a crossing in front of the ray's origin has a positive key.
/// `object` is the index of the shape in the scene. Two shapes that are equal
/// in every respect carry one index.
#[derive(Debug, Clone, Copy, PartialEq, Eq, Structural)]
pub struct Intersection {
    /// Order key of the ray parameter
    pub t: i64,
    /// Index of the intersected shape
    pub object: usize,
}

/// No crossing of `xs` lies in front of the ray's origin.
pub open spec fn no_hit(xs: Seq<Intersection>) -> bool {
    forall|j: int| 0 <= j < xs.len() ==> xs[j].t <= 0
}

/// `xs[i]` is the visible crossing of `xs`: it lies in front of the origin, no
/// crossing in front of the origin is nearer, and of several nearest ones it
/// is the first in `xs`.
pub open spec fn is_hit_at(xs: Seq<Intersection>, i: int) -> bool {
    &&& 0 <= i < xs.len()
    &&& xs[i].t > 0
    &&& forall|j: int| 0 <= j < xs.len() && xs[j].t > 0 ==> xs[i].t <= xs[j].t
    &&& forall|j: int| 0 <= j < i && xs[j].t > 0 ==> xs[i].t < xs[j].t
}

/// The shapes that hold the ray after it has passed a crossing with `object`,
/// when `inside` held it before: a shape that was entered is left, any other
/// is entered. Shapes stand in the order in which they were entered.
pub open spec fn toggle(inside: Seq<usize>, object: usize) -> Seq<usize> {
    if exists|i: int| 0 <= i < inside.len() && inside[i] == object {
        inside.remove(first_index(inside, object))
    } else {
        inside.push(object)
    }
}

/// `i` is the first place of `object` in `inside`.
pub open spec fn is_first_index(inside: Seq<usize>, object: usize, i: int) -> bool {
    &&& 0 <= i < inside.len()
    &&& inside[i] == object
    &&& forall|j: int| 0 <= j < i ==> inside[j] != object
}

/// The first place of `object` in `inside`, where it occurs.
pub open spec fn first_index(inside: Seq<usize>, object: usize) -> int {
    choose|i: int| is_first_index(inside, object, i)
}

/// The shapes that hold the ray after the first `n` crossings of `xs`.
pub open spec fn containers(xs: Seq<Intersection>, n: int) -> Seq<usize>
    decreases n,
{
    if n <= 0 {
        Seq::empty()
    } else {
        toggle(containers(xs, n - 1), xs[n - 1].object)
    }
}

/// The shape entered last among `inside`: the medium the ray travels in.
/// `None` where no shape holds the ray.
pub open spec fn innermost(inside: Seq<usize>) -> Option<usize> {
    if inside.len() == 0 {
        None
    } else {
        Some(inside.last())
    }
}

/// `k` is the first crossing of `xs` with key `t`.
pub open spec fn is_first_at(xs: Seq<Intersection>, t: i64, k: int) -> bool {
    &&& 0 <= k < xs.len()
    &&& xs[k].t == t
    &&& forall|j: int| 0 <= j < k ==> xs[j].t != t
}

/// The first place of `object` in `inside`, if it occurs.
fn position(inside: &Vec<usize>, object: usize) -> (p: Option<usize>)
    ensures
        match p {
            Some(i) => is_first_index(inside@, object, i as int),
            None => forall|j: int| 0 <= j < inside.len() ==> inside[j] != object,
        },
{
    let mut i: usize = 0;
    while i < inside.len()
        invariant
            i <= inside.len(),
            forall|j: int| 0 <= j < i ==> inside[j] != object,
        decreases inside.len() - i,
    {
        if inside[i] == object {
            return Some(i);
        }
        i += 1;
    }
    None
}

/// At most one place is the first place of `object`.
pub proof fn lemma_first_index_unique(inside: Seq<usize>, object: usize, i: int)
    requires
        is_first_index(inside, object, i),
    ensures
        first_index(inside, object) == i,
{
    let k = first_index(inside, object);
    assert(is_first_index(inside, object, k));
    if k < i {
        assert(inside[k] != object);
    } else if i < k {
        assert(inside[i] != object);
    }
}

impl Intersection {
    /// The crossing with key `t` on the shape with index `object`.
    pub fn new(t: i64, object: usize) -> (i: Intersection)
        ensures
            i.t == t,
            i.object == object,
    {
        Intersection { t, object }
    }

    /// The place of the visible crossing in `xs`, see [`is_hit_at`]. `None`
    /// exactly where no crossing lies in front of the ray's origin.
    pub fn hit_index(xs: &Vec<Intersection>) -> (h: Option<usize>)
        ensures
            match h {
                Some(i) => is_hit_at(xs@, i as int),
                None => no_hit(xs@),
            },
    {
        let mut best: Option<usize> = None;
        let mut i: usize = 0;
        while i < xs.len()
            invariant
                i <= xs.len(),
                match best {
                    Some(b) => is_hit_at(xs@.take(i as int), b as int),
                    None => no_hit(xs@.take(i as int)),
                },
            decreases xs.len() - i,
        {
            let t = xs[i].t;
            let ghost before = xs@.take(i as int);
            let ghost after = xs@.take(i + 1);
            assert(forall|j: int| 0 <= j < i ==> after[j] == before[j]);
            assert(after[i as int] == xs@[i as int]);
            match best {
                Some(b) => {
                    if t > 0 && t < xs[b].t {
                        best = Some(i);
                    }
                },
                None => {
                    if t > 0 {
                        best = Some(i);
                    }
                },
            }
            i += 1;
        }
        assert(xs@.take(xs.len() as int) =~= xs@);
        best
    }

    /// The visible crossing of `xs`: among those in front of the ray's origin
    /// the nearest, and of several nearest ones the first. `None` exactly where
    /// no crossing lies in front of the origin.
    pub fn hit(xs: Vec<Intersection>) -> (h: Option<Intersection>)
        ensures
            match h {
                Some(x) => exists|i: int| is_hit_at(xs@, i) && xs@[i] == x,
                None => no_hit(xs@),
            },
    {
        match Intersection::hit_index(&xs) {
            Some(i) => Some(xs[i]),
            None => None,
        }
    }

    /// The media on the two sides of the surface at this crossing, each given
    /// by the index of the shape whose material fills it; `None` is empty
    /// space. The first is the medium the ray leaves, the second the one it
    /// enters.
    ///
    /// The crossings of `intersections` are taken in their order, which is to
    /// be ascending. The crossing looked at is the first one with this
    /// crossing's key. The ray leaves the innermost shape that holds it before
    /// that crossing, and enters the innermost shape that holds it after. Where
    /// `intersections` has no crossing with this key, both media are empty
    /// space.
    pub fn compute_refraction_indexes(&self, intersections: &Vec<Intersection>) -> (n: (
        Option<usize>,
        Option<usize>,
    ))
        ensures
            (forall|j: int| 0 <= j < intersections.len() ==> intersections[j].t != self.t) ==> n
                == (None::<usize>, None::<usize>),
            forall|k: int|
                is_first_at(intersections@, self.t, k) ==> n == (
                    innermost(containers(intersections@, k)),
                    innermost(containers(intersections@, k + 1)),
                ),
    {
        let mut inside: Vec<usize> = Vec::new();
        let mut n1: Option<usize> = None;
        let mut n2: Option<usize> = None;
        let mut i: usize = 0;
        while i < intersections.len()
            invariant_except_break
                inside@ == containers(intersections@, i as int),
                forall|j: int| 0 <= j < i ==> intersections[j].t != self.t,
                n1.is_none(),
                n2.is_none(),
            invariant
                i <= intersections.len(),
            ensures
                (forall|j: int| 0 <= j < intersections.len() ==> intersections[j].t != self.t)
                    ==> n1.is_none() && n2.is_none(),
                forall|k: int|
                    is_first_at(intersections@, self.t, k) ==> n1 == innermost(
                        containers(intersections@, k),
                    ) && n2 == innermost(containers(intersections@, k + 1)),
            decreases intersections.len() - i,
        {
            let intersection = intersections[i];
            let found = self.t == intersection.t;
            if found {
                if inside.len() > 0 {
                    n1 = Some(inside[inside.len() - 1]);
                }
            }
            let ghost before = inside@;
            match position(&inside, intersection.object) {
                Some(p) => {
                    proof {
                        lemma_first_index_unique(before, intersection.object, p as int);
                    }
                    inside.remove(p);
                },
                None => {
                    inside.push(intersection.object);
                },
            }
            assert(inside@ == toggle(before, intersection.object));
            assert(inside@ == containers(intersections@, i + 1));
            if found {
                if inside.len() > 0 {
                    n2 = Some(inside[inside.len() - 1]);
                }
                assert(is_first_at(intersections@, self.t, i as int));
                break;
            }
            i += 1;
        }
        (n1, n2)
    }
}

/// There is at most one visible crossing.
pub proof fn lemma_hit_unique(xs: Seq<Intersection>, i: int, j: int)
    requires
        is_hit_at(xs, i),
        is_hit_at(xs, j),
    ensures
        i == j,
{
}

/// No shape is listed twice among the shapes that hold the ray.
pub proof fn lemma_containers_distinct(xs: Seq<Intersection>, n: int)
    requires
        0 <= n <= xs.len(),
    ensures
        containers(xs, n).no_duplicates(),
    decreases n,
{
    if n > 0 {
        lemma_containers_distinct(xs, n - 1);
        let inside = containers(xs, n - 1);
        let object = xs[n - 1].object;
        if exists|i: int| 0 <= i < inside.len() && inside[i] == object {
            let p = first_index(inside, object);
            let witness = choose|i: int| 0 <= i < inside.len() && inside[i] == object;
            assert(0 <= p < inside.len()) by {
                lemma_first_exists(inside, object, witness);
            }
            let out = inside.remove(p);
            assert forall|a: int, b: int| 0 <= a < out.len() && 0 <= b < out.len() && a != b implies out[a] != out[b] by {
                let a2 = if a < p { a } else { a + 1 };
                let b2 = if b < p { b } else { b + 1 };
                assert(out[a] == inside[a2]);
                assert(out[b] == inside[b2]);
            }
        } else {
            let out = inside.push(object);
            assert forall|a: int, b: int| 0 <= a < out.len() && 0 <= b < out.len() && a != b implies out[a] != out[b] by {
                if a < inside.len() && b < inside.len() {
                    assert(out[a] == inside[a]);
                    assert(out[b] == inside[b]);
                } else if a < inside.len() {
                    assert(out[a] == inside[a]);
                } else {
                    assert(out[b] == inside[b]);
                }
            }
        }
    }
}

/// Where `object` occurs in `inside`, it has a first place.
proof fn lemma_first_exists(inside: Seq<usize>, object: usize, at: int)
    requires
        0 <= at < inside.len(),
        inside[at] == object,
    ensures
        is_first_index(inside, object, first_index(inside, object)),
    decreases at,
{
    if forall|j: int| 0 <= j < at ==> inside[j] != object {
        assert(is_first_index(inside, object, at));
    } else {
        let j = choose|j: int| 0 <= j < at && inside[j] == object;
        lemma_first_exists(inside, object, j);
    }
}

} // verus!
