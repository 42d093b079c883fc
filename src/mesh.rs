use vstd::prelude::*;

verus! {

/// Number of vertices of a UV sphere with `u` segments around and `v`
/// rings from pole to pole: a grid of `(u + 1) * (v + 1)` vertices.
pub open spec fn vertex_count(u: nat, v: nat) -> nat {
    (u + 1) * (v + 1)
}

/// The grid vertex at ring `j`, segment `i`.
pub open spec fn grid_vertex(u: nat, j: nat, i: nat) -> nat {
    j * (u + 1) + i
}

/// The first triangle of quad `(j, i)`: `[a, b, a + 1]` where `a` is the quad's
/// corner on ring `j` and `b` the one below it on ring `j + 1`.
pub open spec fn upper_triangle(u: nat, j: nat, i: nat) -> Seq<usize> {
    seq![
        grid_vertex(u, j, i) as usize,
        grid_vertex(u, j + 1, i) as usize,
        (grid_vertex(u, j, i) + 1) as usize,
    ]
}

/// The second triangle of quad `(j, i)`: `[b, b + 1, a + 1]`.
pub open spec fn lower_triangle(u: nat, j: nat, i: nat) -> Seq<usize> {
    seq![
        grid_vertex(u, j + 1, i) as usize,
        (grid_vertex(u, j + 1, i) + 1) as usize,
        (grid_vertex(u, j, i) + 1) as usize,
    ]
}

/// The triangle list of a UV sphere: two triangles per quad of the vertex
/// grid, quads taken ring by ring and, within a ring, segment by segment.
pub fn uv_sphere_indices(u: usize, v: usize) -> (tris: Vec<[usize; 3]>)
    requires
        vertex_count(u as nat, v as nat) <= usize::MAX,
    ensures
        tris@.len() == 2 * u * v,
        forall|j: nat, i: nat|
            j < v && i < u ==> {
                &&& (#[trigger] tris@[2 * (j * u + i)])@ == upper_triangle(u as nat, j, i)
                &&& tris@[2 * (j * u + i) + 1]@ == lower_triangle(u as nat, j, i)
            },
        forall|k: int, c: int|
            0 <= k < tris@.len() && 0 <= c < 3 ==> (#[trigger] tris@[k]@[c]) < vertex_count(
                u as nat,
                v as nat,
            ),
{
    proof {
        assert(u + 1 <= (u + 1) * (v + 1)) by (nonlinear_arith);
    }
    let width = u + 1;
    let mut tris: Vec<[usize; 3]> = Vec::new();
    let mut j: usize = 0;
    while j < v
        invariant
            j <= v,
            width == u + 1,
            vertex_count(u as nat, v as nat) <= usize::MAX,
            tris@.len() == 2 * u * j,
            forall|jj: nat, i: nat|
                jj < j && i < u ==> {
                    &&& (#[trigger] tris@[2 * (jj * u + i)])@ == upper_triangle(u as nat, jj, i)
                    &&& tris@[2 * (jj * u + i) + 1]@ == lower_triangle(u as nat, jj, i)
                },
            forall|k: int, c: int|
                0 <= k < tris@.len() && 0 <= c < 3 ==> (#[trigger] tris@[k]@[c]) < vertex_count(
                    u as nat,
                    v as nat,
                ),
        decreases v - j,
    {
        let mut i: usize = 0;
        while i < u
            invariant
                j < v,
                i <= u,
                width == u + 1,
                vertex_count(u as nat, v as nat) <= usize::MAX,
                tris@.len() == 2 * u * j + 2 * i,
                forall|jj: nat, ii: nat|
                    (jj < j && ii < u) || (jj == j && ii < i) ==> {
                        &&& (#[trigger] tris@[2 * (jj * u + ii)])@ == upper_triangle(
                            u as nat,
                            jj,
                            ii,
                        )
                        &&& tris@[2 * (jj * u + ii) + 1]@ == lower_triangle(u as nat, jj, ii)
                    },
                forall|k: int, c: int|
                    0 <= k < tris@.len() && 0 <= c < 3 ==> (#[trigger] tris@[k]@[c])
                        < vertex_count(u as nat, v as nat),
            decreases u - i,
        {
            proof {
                lemma_quad_corners_in_grid(u as nat, v as nat, j as nat, i as nat);
            }
            let a = j * width + i;
            let b = (j + 1) * width + i;
            let ghost old_tris = tris@;
            tris.push([a, b, a + 1]);
            tris.push([b, b + 1, a + 1]);
            proof {
                assert(2 * (j * u + i) == 2 * u * j + 2 * i) by (nonlinear_arith);
                assert(old_tris.len() == 2 * u * j + 2 * i);
                assert(tris@[2 * (j * u + i)]@ == upper_triangle(u as nat, j as nat, i as nat));
                assert(tris@[2 * (j * u + i) + 1]@ == lower_triangle(u as nat, j as nat, i as nat));
            }
            i = i + 1;
            proof {
                assert forall|jj: nat, ii: nat|
                    (jj < j && ii < u) || (jj == j && ii < i) implies {
                        &&& (#[trigger] tris@[2 * (jj * u + ii)])@ == upper_triangle(
                            u as nat,
                            jj,
                            ii,
                        )
                        &&& tris@[2 * (jj * u + ii) + 1]@ == lower_triangle(u as nat, jj, ii)
                    } by {
                    let k = 2 * (jj * u + ii);
                    if jj < j || ii + 1 < i {
                        if jj < j {
                            assert(jj * u + ii < j * u) by (nonlinear_arith)
                                requires
                                    jj < j,
                                    ii < u,
                            ;
                        }
                        assert(k + 1 < old_tris.len());
                        assert(tris@[k] == old_tris[k]);
                        assert(tris@[k + 1] == old_tris[k + 1]);
                    } else {
                        assert(k == 2 * u * j + 2 * (i - 1));
                    }
                }
            }
        }
        proof {
            assert(2 * u * j + 2 * u == 2 * u * (j + 1)) by (nonlinear_arith);
        }
        j = j + 1;
    }
    tris
}

/// The corners of quad `(j, i)` and their right neighbours are vertices of the grid,
/// and their numbers fit in `usize`.
proof fn lemma_quad_corners_in_grid(u: nat, v: nat, j: nat, i: nat)
    requires
        j < v,
        i < u,
    ensures
        grid_vertex(u, j, i) + 1 < vertex_count(u, v),
        grid_vertex(u, j + 1, i) + 1 < vertex_count(u, v),
        j * (u + 1) <= grid_vertex(u, j, i),
        (j + 1) * (u + 1) <= grid_vertex(u, j + 1, i),
{
    assert((j + 1) * (u + 1) + i + 1 < (u + 1) * (v + 1)) by (nonlinear_arith)
        requires
            j < v,
            i < u,
    ;
    assert(j * (u + 1) + i + 1 < (j + 1) * (u + 1)) by (nonlinear_arith)
        requires
            i < u,
    ;
}

} // verus!
