//! The topology of a subdivided quad: a regular grid of vertices and two
//! triangles per grid cell.
use vstd::prelude::*;
use vstd::arithmetic::div_mod::lemma_fundamental_div_mod_converse;

verus! {

/// The grid and triangles of a subdivided quad. `grid[k]` holds the column and
/// row of vertex `k`; each triangle holds three vertex indices.
pub struct QuadTopology {
    pub grid: Vec<(u32, u32)>,
    pub triangles: Vec<(u32, u32, u32)>,
}

/// The lower-left triangle of cell `(i, j)` on rows of `ws` vertices.
pub open spec fn dl_triangle(i: int, j: int, ws: int) -> (u32, u32, u32) {
    (((i + 1) * ws + j) as u32, (i * ws + j) as u32, ((i + 1) * ws + j + 1) as u32)
}

/// The upper-right triangle of cell `(i, j)` on rows of `ws` vertices.
pub open spec fn ur_triangle(i: int, j: int, ws: int) -> (u32, u32, u32) {
    ((i * ws + j) as u32, (i * ws + (j + 1)) as u32, ((i + 1) * ws + j + 1) as u32)
}

/// Vertex `k` of a grid with `w` cells per row: its column and its row.
pub open spec fn quad_vertex(k: int, w: int) -> (u32, u32) {
    ((k % (w + 1)) as u32, (k / (w + 1)) as u32)
}

/// Triangle `k` of a grid with `w` cells per row: cells are taken row by row,
/// and each gives its lower-left then its upper-right triangle.
pub open spec fn quad_triangle(k: int, w: int) -> (u32, u32, u32) {
    let c = k / 2;
    if k % 2 == 0 {
        dl_triangle(c / w, c % w, w + 1)
    } else {
        ur_triangle(c / w, c % w, w + 1)
    }
}

/// Whether `t` is the topology of a quad of `w` by `h` cells.
pub open spec fn is_quad_topology(t: QuadTopology, w: int, h: int) -> bool {
    &&& t.grid@.len() == (w + 1) * (h + 1)
    &&& t.triangles@.len() == 2 * w * h
    &&& forall|k: int| 0 <= k < t.grid@.len() ==> #[trigger] t.grid@[k] == quad_vertex(k, w)
    &&& forall|k: int| 0 <= k < t.triangles@.len() ==> #[trigger] t.triangles@[k] == quad_triangle(k, w)
}

proof fn lemma_split(x: int, d: int, q: int, r: int)
    requires
        d > 0,
        0 <= r < d,
        x == q * d + r,
    ensures
        x / d == q,
        x % d == r,
{
    lemma_fundamental_div_mod_converse(x, d, q, r);
}

/// Builds the vertex grid and the triangles of a quad with `wsubdivs` cells
/// per row and `hsubdivs` rows; every vertex index fits in a `u32`.
pub fn quad_topology(wsubdivs: usize, hsubdivs: usize) -> (r: QuadTopology)
    requires
        wsubdivs > 0,
        hsubdivs > 0,
        (wsubdivs + 1) * (hsubdivs + 1) <= u32::MAX,
    ensures
        is_quad_topology(r, wsubdivs as int, hsubdivs as int),
{
    let ghost w = wsubdivs as int;
    let ghost h = hsubdivs as int;
    proof {
        assert(w + 1 <= (w + 1) * (h + 1)) by (nonlinear_arith)
            requires h >= 0, w >= 0;
        assert(h + 1 <= (w + 1) * (h + 1)) by (nonlinear_arith)
            requires h >= 0, w >= 0;
    }
    let ws: u32 = (wsubdivs + 1) as u32;
    let wc: u32 = wsubdivs as u32;
    let hc: u32 = hsubdivs as u32;

    let mut grid: Vec<(u32, u32)> = Vec::new();
    let mut i: u32 = 0;
    while i <= hc
        invariant
            ws == w + 1,
            wc == w,
            hc == h,
            w > 0,
            h > 0,
            (w + 1) * (h + 1) <= u32::MAX,
            h + 1 <= u32::MAX,
            0 <= i <= h + 1,
            grid@.len() == i * (w + 1),
            forall|k: int| 0 <= k < grid@.len() ==> #[trigger] grid@[k] == quad_vertex(k, w),
        decreases h + 1 - i,
    {
        let mut j: u32 = 0;
        while j <= wc
            invariant
                ws == w + 1,
                wc == w,
                hc == h,
                w > 0,
                h > 0,
                w + 1 <= u32::MAX,
                0 <= i <= h,
                0 <= j <= w + 1,
                grid@.len() == i * (w + 1) + j,
                forall|k: int| 0 <= k < grid@.len() ==> #[trigger] grid@[k] == quad_vertex(k, w),
            decreases w + 1 - j,
        {
            proof {
                lemma_split(i * (w + 1) + j, w + 1, i as int, j as int);
            }
            grid.push((j, i));
            j = j + 1;
        }
        proof {
            assert(grid@.len() == (i + 1) * (w + 1)) by (nonlinear_arith)
                requires grid@.len() == i * (w + 1) + (w + 1);
        }
        i = i + 1;
    }
    proof {
        assert(grid@.len() == (w + 1) * (h + 1)) by (nonlinear_arith)
            requires grid@.len() == (h + 1) * (w + 1);
    }

    let mut triangles: Vec<(u32, u32, u32)> = Vec::new();
    let mut i: u32 = 0;
    while i < hc
        invariant
            ws == w + 1,
            wc == w,
            hc == h,
            w > 0,
            h > 0,
            (w + 1) * (h + 1) <= u32::MAX,
            0 <= i <= h,
            triangles@.len() == 2 * (i * w),
            forall|k: int| 0 <= k < triangles@.len() ==> #[trigger] triangles@[k] == quad_triangle(k, w),
        decreases h - i,
    {
        let mut j: u32 = 0;
        while j < wc
            invariant
                ws == w + 1,
                wc == w,
                hc == h,
                w > 0,
                h > 0,
                (w + 1) * (h + 1) <= u32::MAX,
                0 <= i < h,
                0 <= j <= w,
                triangles@.len() == 2 * (i * w + j),
                forall|k: int| 0 <= k < triangles@.len() ==> #[trigger] triangles@[k] == quad_triangle(k, w),
            decreases w - j,
        {
            let ghost c = i * w + j;
            let ghost n = triangles@.len() as int;
            proof {
                assert((i + 1) * (w + 1) + j + 1 <= (h + 1) * (w + 1) - 1) by (nonlinear_arith)
                    requires 0 <= i < h, 0 <= j < w;
                assert(i * (w + 1) + j + 1 <= (i + 1) * (w + 1) + j + 1) by (nonlinear_arith)
                    requires 0 <= i, 0 <= j, 0 <= w;
                assert((i + 1) * (w + 1) == i * (w + 1) + (w + 1)) by (nonlinear_arith);
                lemma_split(c, w, i as int, j as int);
                lemma_split(n, 2, c, 0);
                lemma_split(n + 1, 2, c, 1);
            }
            let a: u32 = i * ws + j;
            let b: u32 = (i + 1) * ws + j;
            triangles.push((b, a, b + 1));
            triangles.push((a, a + 1, b + 1));
            j = j + 1;
        }
        proof {
            assert(2 * (i * w + w) == 2 * ((i + 1) * w)) by (nonlinear_arith);
        }
        i = i + 1;
    }
    proof {
        assert(2 * (h * w) == 2 * w * h) by (nonlinear_arith);
    }
    QuadTopology { grid, triangles }
}

} // verus!
