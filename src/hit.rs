use vstd::prelude::*;

verus! {

/// The surface a ray hit, which also selects its shader.
#[derive(Clone, Copy, Debug, PartialEq, Eq, Structural)]
pub enum Material {
    Star,
    Rocky,
    GasGiant,
}

/// Position of each body in the fixed order in which the scene is tested.
pub open spec fn test_order(m: Material) -> int {
    match m {
        Material::Star => 0,
        Material::Rocky => 1,
        Material::GasGiant => 2,
    }
}

/// Candidate hits in test order. Each is the distance key of the body's
/// front intersection, or `None` where the ray misses the body. A distance
/// key orders as the distance it stands for (the bit pattern of a positive
/// finite IEEE-754 single is such a key).
pub open spec fn candidates(star: Option<u32>, rocky: Option<u32>, gas: Option<u32>) -> Seq<
    Option<u32>,
> {
    seq![star, rocky, gas]
}

/// Candidate `i` is the closest hit: it is present, strictly nearer than every
/// present candidate tested before it, and no farther than every one after it.
pub open spec fn is_closest(cands: Seq<Option<u32>>, i: int) -> bool {
    &&& 0 <= i < cands.len()
    &&& cands[i] is Some
    &&& forall|j: int|
        0 <= j < cands.len() && #[trigger] cands[j] is Some ==> {
            &&& j < i ==> cands[i]->0 < cands[j]->0
            &&& i < j ==> cands[i]->0 <= cands[j]->0
        }
}

/// Picks the closest of the three bodies' hits, testing the star, the rocky
/// body and the gas giant in that order; a later body replaces the hit kept
/// so far only when it is strictly nearer.
pub fn closest_hit(star: Option<u32>, rocky: Option<u32>, gas: Option<u32>) -> (r: Option<
    Material,
>)
    ensures
        r is None <==> (star is None && rocky is None && gas is None),
        r matches Some(m) ==> is_closest(candidates(star, rocky, gas), test_order(m)),
{
    let mut best: Option<(u32, Material)> = None;
    if let Some(t) = star {
        best = Some((t, Material::Star));
    }
    if let Some(t) = rocky {
        let nearer = match best {
            Some((b, _)) => t < b,
            None => true,
        };
        if nearer {
            best = Some((t, Material::Rocky));
        }
    }
    if let Some(t) = gas {
        let nearer = match best {
            Some((b, _)) => t < b,
            None => true,
        };
        if nearer {
            best = Some((t, Material::GasGiant));
        }
    }
    match best {
        Some((_, m)) => Some(m),
        None => None,
    }
}

/// The closest hit is unique: ties between bodies are settled by test order,
/// so no two candidates can both be the closest.
pub proof fn lemma_closest_unique(cands: Seq<Option<u32>>, i: int, j: int)
    requires
        is_closest(cands, i),
        is_closest(cands, j),
    ensures
        i == j,
{
    if i < j {
        assert(cands[j] is Some);
        assert(cands[i] is Some);
    } else if j < i {
        assert(cands[i] is Some);
        assert(cands[j] is Some);
    }
}

/// Of two bodies that a ray hits at different distances, the farther one is
/// never the closest hit.
pub proof fn lemma_nearer_body_wins(cands: Seq<Option<u32>>, near: int, far: int)
    requires
        0 <= near < cands.len(),
        0 <= far < cands.len(),
        cands[near] is Some,
        cands[far] is Some,
        cands[near]->0 < cands[far]->0,
    ensures
        !is_closest(cands, far),
{
    if is_closest(cands, far) {
        assert(cands[near] is Some);
    }
}

} // verus!
