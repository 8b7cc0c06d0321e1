//! Index topology of procedurally generated meshes.
//!
//! Each shape numbers its vertices in a fixed order and draws itself as a
//! list of triangles over those numbers. The positions and texture
//! coordinates of the vertices are computed elsewhere; this module owns
//! the numbering, the triangle lists, and the choice between 16-bit and
//! 32-bit index buffers.

use vstd::prelude::*;
use vstd::arithmetic::div_mod::lemma_fundamental_div_mod_converse;

verus! {

/// Index lists longer than this are stored with 32-bit indices, shorter
/// ones with 16-bit indices.
pub const INDICES32_THRESHOLD: usize = 65535;

/// A triangle, as the numbers of its three vertices in drawing order.
pub type Tri = (int, int, int);

/// The `c`-th vertex number of triangle `t`.
pub open spec fn corner(t: Tri, c: int) -> int {
    if c == 0 {
        t.0
    } else if c == 1 {
        t.1
    } else {
        t.2
    }
}

/// The flat index list that draws `tris` in order, three indices each.
pub open spec fn flatten_tris(tris: Seq<Tri>) -> Seq<int> {
    Seq::new(3 * tris.len(), |k: int| corner(tris[k / 3], k % 3))
}

/// The values of a list of 32-bit indices.
pub open spec fn widen32(v: Seq<u32>) -> Seq<int> {
    v.map_values(|x: u32| x as int)
}

/// The values of a list of 16-bit indices.
pub open spec fn widen16(v: Seq<u16>) -> Seq<int> {
    v.map_values(|x: u16| x as int)
}

/// Every index of `ix` names one of the first `n` vertices.
pub open spec fn indices_below(ix: Seq<int>, n: int) -> bool {
    forall|k: int| 0 <= k < ix.len() ==> 0 <= #[trigger] ix[k] < n
}

/// How the quad of a grid cell is cut into two triangles along its
/// diagonal. With `a` the cell's corner at (row, column), `b` the corner one
/// row further, `c` the one a row and a column further, and `d` the one a
/// column further, each variant names its two triangles.
#[derive(Clone, Copy, Debug, PartialEq, Eq)]
pub enum QuadSplit {
    /// `(a, b, c)` then `(c, d, a)`.
    AbcCda,
    /// `(a, b, c)` then `(a, c, d)`.
    AbcAcd,
    /// `(a, d, c)` then `(c, b, a)`.
    AdcCba,
}

/// The first or the second triangle of a quad with corners `a`, `b`, `c`, `d`.
pub open spec fn quad_half(split: QuadSplit, a: int, b: int, c: int, d: int, first: bool) -> Tri {
    match split {
        QuadSplit::AbcCda => if first { (a, b, c) } else { (c, d, a) },
        QuadSplit::AbcAcd => if first { (a, b, c) } else { (a, c, d) },
        QuadSplit::AdcCba => if first { (a, d, c) } else { (c, b, a) },
    }
}

/// Triangle `t` of a grid of quads, `cols` cells to a row, whose vertices
/// are numbered row by row from `offset`, `cols + 1` vertices to a row.
/// Cells are drawn row by row, two triangles each.
pub open spec fn cell_tri(cols: int, offset: int, split: QuadSplit, t: int) -> Tri {
    let n = t / 2;
    let a = offset + (n / cols) * (cols + 1) + n % cols;
    quad_half(split, a, a + cols + 1, a + cols + 2, a + 1, t % 2 == 0)
}

/// The triangles of the first `n` cells of such a grid.
pub open spec fn cells(n: nat, cols: nat, offset: int, split: QuadSplit) -> Seq<Tri> {
    Seq::new(2 * n, |t: int| cell_tri(cols as int, offset, split, t))
}

/// Storage for a mesh's index list: 16-bit indices when the list is at most
/// `INDICES32_THRESHOLD` long, 32-bit indices otherwise. The other vector
/// stays empty.
#[derive(Debug, Clone, Default)]
pub struct MeshIndices {
    pub indices16: Vec<u16>,
    pub indices32: Vec<u32>,
}

impl View for MeshIndices {
    type V = Seq<int>;

    /// The index list held, whichever width holds it.
    open spec fn view(&self) -> Seq<int> {
        widen16(self.indices16@) + widen32(self.indices32@)
    }
}

impl MeshIndices {
    /// Only the width that the list's length calls for is in use.
    pub open spec fn well_sized(&self) -> bool {
        if self@.len() > INDICES32_THRESHOLD {
            self.indices16@.len() == 0
        } else {
            self.indices32@.len() == 0
        }
    }

    /// Stores `v` in the width that its length calls for.
    fn from_u32(v: Vec<u32>) -> (r: Self)
        requires
            v@.len() <= INDICES32_THRESHOLD ==> forall|k: int|
                0 <= k < v@.len() ==> #[trigger] v@[k] <= u16::MAX,
        ensures
            r@ == widen32(v@),
            r.well_sized(),
    {
        if v.len() > INDICES32_THRESHOLD {
            let r = MeshIndices { indices16: Vec::new(), indices32: v };
            assert(r@ =~= widen32(v@));
            r
        } else {
            let mut narrow: Vec<u16> = Vec::with_capacity(v.len());
            let mut k: usize = 0;
            while k < v.len()
                invariant
                    k <= v@.len() <= INDICES32_THRESHOLD,
                    forall|m: int| 0 <= m < v@.len() ==> #[trigger] v@[m] <= u16::MAX,
                    narrow@.len() == k,
                    forall|m: int| 0 <= m < k ==> narrow@[m] as int == #[trigger] v@[m] as int,
                decreases v@.len() - k,
            {
                narrow.push(v[k] as u16);
                k += 1;
            }
            assert(widen16(narrow@) =~= widen32(v@));
            let r = MeshIndices { indices16: narrow, indices32: Vec::new() };
            assert(r@ =~= widen32(v@));
            r
        }
    }
}

proof fn lemma_flatten_push(tris: Seq<Tri>, t: Tri)
    ensures
        flatten_tris(tris.push(t)) == flatten_tris(tris) + seq![t.0, t.1, t.2],
{
    let l = flatten_tris(tris.push(t));
    let r = flatten_tris(tris) + seq![t.0, t.1, t.2];
    assert forall|k: int| 0 <= k < l.len() implies l[k] == r[k] by {
        if k < 3 * tris.len() {
            assert(k / 3 < tris.len());
        } else {
            assert(k / 3 == tris.len());
        }
    }
    assert(l =~= r);
}

/// Appends one triangle to a flat index list.
fn push_tri(out: &mut Vec<u32>, tris: Ghost<Seq<Tri>>, a: u32, b: u32, c: u32)
    requires
        widen32(old(out)@) == flatten_tris(tris@),
    ensures
        widen32(final(out)@) == flatten_tris(tris@.push((a as int, b as int, c as int))),
{
    let ghost start = out@;
    out.push(a);
    out.push(b);
    out.push(c);
    proof {
        lemma_flatten_push(tris@, (a as int, b as int, c as int));
        assert(widen32(out@) =~= widen32(start) + seq![a as int, b as int, c as int]);
    }
}

proof fn lemma_cells_step(n: nat, cols: nat, offset: int, split: QuadSplit)
    ensures
        cells(n + 1, cols, offset, split) == cells(n, cols, offset, split).push(
            cell_tri(cols as int, offset, split, 2 * n as int),
        ).push(cell_tri(cols as int, offset, split, 2 * n as int + 1)),
{
    assert(cells(n + 1, cols, offset, split) =~= cells(n, cols, offset, split).push(
        cell_tri(cols as int, offset, split, 2 * n as int),
    ).push(cell_tri(cols as int, offset, split, 2 * n as int + 1)));
}

/// The two triangles of cell `j` of row `i`.
proof fn lemma_cell_at(i: int, j: int, cols: int, offset: int, split: QuadSplit)
    requires
        0 <= i,
        0 <= j < cols,
    ensures
        ({
            let a = offset + i * (cols + 1) + j;
            let n = i * cols + j;
            &&& cell_tri(cols, offset, split, 2 * n as int) == quad_half(split, a, a + cols + 1, a + cols + 2, a + 1, true)
            &&& cell_tri(cols, offset, split, 2 * n as int + 1) == quad_half(split, a, a + cols + 1, a + cols + 2, a + 1, false)
        }),
{
    let n = i * cols + j;
    lemma_fundamental_div_mod_converse(n, cols, i, j);
    assert((2 * n) / 2 == n);
    assert((2 * n + 1) / 2 == n);
}

/// Appends the triangles of a grid of `rows` by `cols` quads whose vertices
/// are numbered row by row from `offset`.
fn push_cells(out: &mut Vec<u32>, tris: Ghost<Seq<Tri>>, rows: u32, cols: u32, offset: u32, split: QuadSplit)
    requires
        widen32(old(out)@) == flatten_tris(tris@),
        offset + (rows + 1) * (cols + 1) <= u32::MAX + 1,
    ensures
        widen32(final(out)@) == flatten_tris(tris@ + cells((rows * cols) as nat, cols as nat, offset as int, split)),
{
    let mut i: u32 = 0;
    while i < rows
        invariant
            i <= rows,
            offset + (rows + 1) * (cols + 1) <= u32::MAX + 1,
            widen32(out@) == flatten_tris(tris@ + cells((i * cols) as nat, cols as nat, offset as int, split)),
        decreases rows - i,
    {
        assert(offset + i * (cols + 1) + 2 * cols + 1 <= u32::MAX) by (nonlinear_arith)
            requires
                i < rows,
                offset + (rows + 1) * (cols + 1) <= u32::MAX + 1,
        ;
        let row = offset + i * (cols + 1);
        let mut j: u32 = 0;
        while j < cols
            invariant
                i < rows,
                j <= cols,
                row == offset + i * (cols + 1),
                row + 2 * cols + 1 <= u32::MAX,
                widen32(out@) == flatten_tris(tris@ + cells((i * cols + j) as nat, cols as nat, offset as int, split)),
            decreases cols - j,
        {
            let a = row + j;
            let b = a + cols + 1;
            let c = b + 1;
            let d = a + 1;
            let ghost n: nat = (i * cols + j) as nat;
            let ghost before = tris@ + cells(n, cols as nat, offset as int, split);
            let ghost t0 = quad_half(split, a as int, b as int, c as int, d as int, true);
            proof {
                lemma_cell_at(i as int, j as int, cols as int, offset as int, split);
                lemma_cells_step(n, cols as nat, offset as int, split);
                assert(tris@ + cells(n + 1, cols as nat, offset as int, split) =~= before.push(t0).push(
                    quad_half(split, a as int, b as int, c as int, d as int, false),
                ));
            }
            match split {
                QuadSplit::AbcCda => {
                    push_tri(out, Ghost(before), a, b, c);
                    push_tri(out, Ghost(before.push(t0)), c, d, a);
                },
                QuadSplit::AbcAcd => {
                    push_tri(out, Ghost(before), a, b, c);
                    push_tri(out, Ghost(before.push(t0)), a, c, d);
                },
                QuadSplit::AdcCba => {
                    push_tri(out, Ghost(before), a, d, c);
                    push_tri(out, Ghost(before.push(t0)), c, b, a);
                },
            }
            assert(i * cols + j + 1 == i * cols + (j + 1));
            j += 1;
        }
        assert(i * cols + cols == (i + 1) * cols) by (nonlinear_arith);
        i += 1;
    }
}


/// All three vertex numbers of `t` lie in `lo .. hi`.
pub open spec fn tri_within(t: Tri, lo: int, hi: int) -> bool {
    &&& lo <= t.0 < hi
    &&& lo <= t.1 < hi
    &&& lo <= t.2 < hi
}

/// Every triangle of `tris` lies in `lo .. hi`.
pub open spec fn tris_within(tris: Seq<Tri>, lo: int, hi: int) -> bool {
    forall|p: int| 0 <= p < tris.len() ==> tri_within(#[trigger] tris[p], lo, hi)
}

proof fn lemma_within_concat(a: Seq<Tri>, b: Seq<Tri>, lo: int, hi: int)
    requires
        tris_within(a, lo, hi),
        tris_within(b, lo, hi),
    ensures
        tris_within(a + b, lo, hi),
{
    assert forall|p: int| 0 <= p < (a + b).len() implies tri_within(#[trigger] (a + b)[p], lo, hi) by {
        if p >= a.len() {
            assert((a + b)[p] == b[p - a.len()]);
        }
    }
}

proof fn lemma_flatten_within(tris: Seq<Tri>, hi: int)
    requires
        tris_within(tris, 0, hi),
    ensures
        indices_below(flatten_tris(tris), hi),
{
    let f = flatten_tris(tris);
    assert forall|k: int| 0 <= k < f.len() implies 0 <= #[trigger] f[k] < hi by {
        assert(0 <= k / 3 < tris.len());
        assert(tri_within(tris[k / 3], 0, hi));
    }
}

/// A grid of `rows` by `cols` quads numbered from `offset` uses only its
/// own `(rows + 1) * (cols + 1)` vertices.
proof fn lemma_cells_within(rows: nat, cols: nat, offset: int, split: QuadSplit, lo: int, hi: int)
    requires
        lo <= offset,
        offset + (rows + 1) * (cols + 1) <= hi,
    ensures
        tris_within(cells(rows * cols, cols, offset, split), lo, hi),
{
    let s = cells(rows * cols, cols, offset, split);
    assert forall|t: int| 0 <= t < s.len() implies tri_within(#[trigger] s[t], lo, hi) by {
        let n = t / 2;
        let c = cols as int;
        assert(0 <= n < rows * cols);
        assert(cols > 0) by (nonlinear_arith)
            requires
                0 <= n < rows * cols,
        ;
        let i = n / c;
        let j = n % c;
        vstd::arithmetic::div_mod::lemma_fundamental_div_mod(n, c);
        assert(0 <= j < c);
        assert(0 <= i < rows) by (nonlinear_arith)
            requires
                n == c * i + j,
                0 <= j < c,
                0 <= n < rows * c,
        ;
        assert(0 <= i * (c + 1) && i * (c + 1) + c + 1 <= rows * (c + 1)) by (nonlinear_arith)
            requires
                0 <= i < rows,
                c > 0,
        ;
        assert((rows + 1) * (c + 1) == rows * (c + 1) + c + 1) by (nonlinear_arith);
    }
}

/// The triangles `(center, center + j + 2, center + j + 1)` for each `j < n`.
pub open spec fn fan_cw(center: int, n: nat) -> Seq<Tri> {
    Seq::new(n, |j: int| (center, center + j + 2, center + j + 1))
}

/// The triangles `(center, center + j + 1, center + j + 2)` for each `j < n`.
pub open spec fn fan_ccw(center: int, n: nat) -> Seq<Tri> {
    Seq::new(n, |j: int| (center, center + j + 1, center + j + 2))
}

/// The triangles of a fan around vertex `center`, whose ring of `n + 1`
/// vertices follows the center in the numbering; `clockwise` picks the
/// winding.
pub open spec fn fan(center: int, n: nat, clockwise: bool) -> Seq<Tri> {
    if clockwise {
        fan_cw(center, n)
    } else {
        fan_ccw(center, n)
    }
}

/// Appends a fan of `n` triangles around `center`.
fn push_fan(out: &mut Vec<u32>, tris: Ghost<Seq<Tri>>, center: u32, n: u32, clockwise: bool)
    requires
        widen32(old(out)@) == flatten_tris(tris@),
        center + n + 1 <= u32::MAX,
    ensures
        widen32(final(out)@) == flatten_tris(tris@ + fan(center as int, n as nat, clockwise)),
{
    let mut j: u32 = 0;
    while j < n
        invariant
            j <= n,
            center + n + 1 <= u32::MAX,
            widen32(out@) == flatten_tris(tris@ + fan(center as int, j as nat, clockwise)),
        decreases n - j,
    {
        let ghost before = tris@ + fan(center as int, j as nat, clockwise);
        if clockwise {
            push_tri(out, Ghost(before), center, center + j + 2, center + j + 1);
        } else {
            push_tri(out, Ghost(before), center, center + j + 1, center + j + 2);
        }
        proof {
            assert(tris@ + fan(center as int, (j + 1) as nat, clockwise) =~= before.push(
                fan(center as int, (j + 1) as nat, clockwise)[j as int],
            ));
        }
        j += 1;
    }
}

proof fn lemma_fan_within(center: int, n: nat, clockwise: bool, lo: int, hi: int)
    requires
        lo <= center,
        center + n + 2 <= hi,
    ensures
        tris_within(fan(center, n, clockwise), lo, hi),
{
    let s = fan(center, n, clockwise);
    assert forall|p: int| 0 <= p < s.len() implies tri_within(#[trigger] s[p], lo, hi) by {}
}

proof fn lemma_empty_start()
    ensures
        widen32(Seq::<u32>::empty()) == flatten_tris(Seq::<Tri>::empty()),
{
    assert(widen32(Seq::<u32>::empty()) =~= flatten_tris(Seq::<Tri>::empty()));
}

/// A list whose values are all below `hi` fits in 16 bits when `hi` does.
proof fn lemma_narrow_fits(v: Seq<u32>, hi: int)
    requires
        indices_below(widen32(v), hi),
    ensures
        hi <= 65536 ==> forall|k: int| 0 <= k < v.len() ==> #[trigger] v[k] <= u16::MAX,
{
    assert forall|k: int| hi <= 65536 && 0 <= k < v.len() implies #[trigger] v[k] <= u16::MAX by {
        assert(widen32(v)[k] == v[k] as int);
    }
}

// ---------------------------------------------------------------- grid

/// Number of vertices of a grid of `slices_x` by `slices_y` cells.
pub open spec fn spec_grid_vertex_count(slices_x: nat, slices_y: nat) -> int {
    ((slices_x + 1) * (slices_y + 1)) as int
}

/// The triangles of a flat grid: row `i` of cells lies between vertex rows
/// `i` and `i + 1`, each of `slices_x + 1` vertices.
pub open spec fn grid_tris(slices_x: nat, slices_y: nat) -> Seq<Tri> {
    cells(slices_y * slices_x, slices_x, 0, QuadSplit::AbcCda)
}

/// The grid fits in 32-bit counts.
pub open spec fn grid_fits(slices_x: nat, slices_y: nat) -> bool {
    &&& spec_grid_vertex_count(slices_x, slices_y) <= u32::MAX
    &&& 6 * slices_x * slices_y <= u32::MAX
}

/// Number of vertices of a grid of `slices_x` by `slices_y` cells.
pub fn grid_vertex_count(slices_x: u32, slices_y: u32) -> (r: usize)
    requires
        grid_fits(slices_x as nat, slices_y as nat),
    ensures
        r == spec_grid_vertex_count(slices_x as nat, slices_y as nat),
{
    ((slices_x as u64 + 1) * (slices_y as u64 + 1)) as usize
}

/// The index list of a grid of `slices_x` by `slices_y` cells, two
/// triangles per cell.
pub fn grid_indices(slices_x: u32, slices_y: u32) -> (r: MeshIndices)
    requires
        grid_fits(slices_x as nat, slices_y as nat),
    ensures
        r@ == flatten_tris(grid_tris(slices_x as nat, slices_y as nat)),
        r@.len() == 6 * slices_x * slices_y,
        r.well_sized(),
        indices_below(r@, spec_grid_vertex_count(slices_x as nat, slices_y as nat)),
{
    let ghost sx = slices_x as nat;
    let ghost sy = slices_y as nat;
    let ghost vc = spec_grid_vertex_count(sx, sy);
    let mut out: Vec<u32> = Vec::new();
    proof {
        lemma_empty_start();
    }
    assert((slices_y + 1) * (slices_x + 1) <= u32::MAX) by (nonlinear_arith)
        requires
            (slices_x + 1) * (slices_y + 1) <= u32::MAX,
    ;
    push_cells(&mut out, Ghost(Seq::empty()), slices_y, slices_x, 0, QuadSplit::AbcCda);
    proof {
        let tris = grid_tris(sx, sy);
        assert(Seq::<Tri>::empty() + tris =~= tris);
        assert((sy + 1) * (sx + 1) == vc) by (nonlinear_arith)
            requires
                vc == (sx + 1) * (sy + 1),
        ;
        lemma_cells_within(sy, sx, 0, QuadSplit::AbcCda, 0, vc);
        lemma_flatten_within(tris, vc);
        lemma_narrow_fits(out@, vc);
        assert(out@.len() == widen32(out@).len());
        assert(out@.len() == 3 * (2 * (sy * sx)));
        assert(3 * (2 * (sy * sx)) == 6 * sx * sy) by (nonlinear_arith);
        if out@.len() <= INDICES32_THRESHOLD && out@.len() > 0 {
            assert(vc <= 65536) by (nonlinear_arith)
                requires
                    vc == (sx + 1) * (sy + 1),
                    0 < 3 * (2 * (sy * sx)) <= 65535,
            ;
        }
    }
    MeshIndices::from_u32(out)
}


// -------------------------------------------------------------- sphere

/// Number of vertices of a sphere of `levels` latitude bands and `slices`
/// longitude steps: the two poles, and `slices + 1` vertices on each of the
/// `levels - 1` rings between them.
pub open spec fn spec_sphere_vertex_count(levels: nat, slices: nat) -> int {
    2 + (levels - 1) * (slices + 1)
}

/// The band of triangles that closes a sphere at its south pole `pole`,
/// over the last ring, whose vertices follow `ring`.
pub open spec fn sphere_south(ring: int, pole: int, n: nat) -> Seq<Tri> {
    Seq::new(n, |j: int| (ring + j + 1, ring + j + 2, pole))
}

/// The triangles of a sphere: a fan around the north pole (vertex 0), the
/// quads between consecutive rings, and the band around the south pole
/// (the last vertex). A sphere of one level has no triangles.
pub open spec fn sphere_tris(levels: nat, slices: nat) -> Seq<Tri> {
    if levels <= 1 {
        Seq::empty()
    } else {
        fan(0, slices, true) + cells(((levels - 2) * slices) as nat, slices, 1, QuadSplit::AdcCba)
            + sphere_south((levels - 2) * (slices + 1), (levels - 1) * (slices + 1) + 1, slices)
    }
}

/// The sphere has at least one level and fits in 32-bit counts.
pub open spec fn sphere_fits(levels: nat, slices: nat) -> bool {
    &&& levels >= 1
    &&& spec_sphere_vertex_count(levels, slices) <= u32::MAX
    &&& 6 * (levels - 1) * slices <= u32::MAX
}

/// Number of vertices of a sphere of `levels` bands and `slices` steps.
pub fn sphere_vertex_count(levels: u32, slices: u32) -> (r: usize)
    requires
        sphere_fits(levels as nat, slices as nat),
    ensures
        r == spec_sphere_vertex_count(levels as nat, slices as nat),
{
    (2 + (levels as u64 - 1) * (slices as u64 + 1)) as usize
}

/// The index list of a sphere of `levels` latitude bands and `slices`
/// longitude steps.
pub fn sphere_indices(levels: u32, slices: u32) -> (r: MeshIndices)
    requires
        sphere_fits(levels as nat, slices as nat),
    ensures
        r@ == flatten_tris(sphere_tris(levels as nat, slices as nat)),
        r@.len() == 6 * (levels - 1) * slices,
        r.well_sized(),
        indices_below(r@, spec_sphere_vertex_count(levels as nat, slices as nat)),
{
    let ghost l = levels as nat;
    let ghost s = slices as nat;
    let ghost vc = spec_sphere_vertex_count(l, s);
    let mut out: Vec<u32> = Vec::new();
    proof {
        lemma_empty_start();
    }
    if levels > 1 {
        assert(s + 2 <= vc && (l - 2) * (s + 1) + s + 1 == (l - 1) * (s + 1) && (l - 1) * (s + 1) + 2 == vc
            && 0 <= (l - 2) * (s + 1)) by (nonlinear_arith)
            requires
                l >= 2,
                vc == 2 + (l - 1) * (s + 1),
        ;
        let ghost north = fan(0, s, true);
        push_fan(&mut out, Ghost(Seq::empty()), 0, slices, true);
        assert(Seq::<Tri>::empty() + north =~= north);
        push_cells(&mut out, Ghost(north), levels - 2, slices, 1, QuadSplit::AdcCba);
        let ghost upper = north + cells(((l - 2) * s) as nat, s, 1, QuadSplit::AdcCba);
        let ring = (levels - 2) * (slices + 1);
        let pole = (levels - 1) * (slices + 1) + 1;
        let mut j: u32 = 0;
        while j < slices
            invariant
                j <= slices,
                ring + slices + 1 < pole,
                pole <= u32::MAX,
                widen32(out@) == flatten_tris(upper + sphere_south(ring as int, pole as int, j as nat)),
            decreases slices - j,
        {
            let ghost before = upper + sphere_south(ring as int, pole as int, j as nat);
            push_tri(&mut out, Ghost(before), ring + j + 1, ring + j + 2, pole);
            proof {
                assert(upper + sphere_south(ring as int, pole as int, (j + 1) as nat) =~= before.push(
                    (ring + j + 1, ring + j + 2, pole as int),
                ));
            }
            j += 1;
        }
        proof {
            let south = sphere_south(ring as int, pole as int, s);
            lemma_fan_within(0, s, true, 0, vc);
            lemma_cells_within((l - 2) as nat, s, 1, QuadSplit::AdcCba, 0, vc);
            assert(tris_within(south, 0, vc));
            lemma_within_concat(north, cells(((l - 2) * s) as nat, s, 1, QuadSplit::AdcCba), 0, vc);
            lemma_within_concat(upper, south, 0, vc);
            assert(out@.len() == widen32(out@).len());
            assert(3 * (s + 2 * ((l - 2) * s) + s) == 6 * (l - 1) * s) by (nonlinear_arith);
            if out@.len() <= INDICES32_THRESHOLD && out@.len() > 0 {
                assert(vc <= 65536) by (nonlinear_arith)
                    requires
                        l >= 2,
                        vc == 2 + (l - 1) * (s + 1),
                        0 < 3 * (s + 2 * ((l - 2) * s) + s) <= 65535,
                ;
            }
        }
    }
    proof {
        let tris = sphere_tris(l, s);
        if l == 1 {
            assert(6 * (l - 1) * s == 0);
        }
        lemma_flatten_within(tris, vc);
        lemma_narrow_fits(out@, vc);
    }
    MeshIndices::from_u32(out)
}

// ------------------------------------------------------------ cylinder

/// Number of vertices of a cylinder of `slices` steps around and `stacks`
/// steps up: `stacks + 1` rings of `slices + 1` vertices on the side, and
/// for each cap its center and a ring of `slices + 1` vertices.
pub open spec fn spec_cylinder_vertex_count(slices: nat, stacks: nat) -> int {
    ((slices + 1) * (stacks + 3) + 2) as int
}

/// The triangles of a cylinder: the quads of its side, then the fan of its
/// top cap, then the fan of its bottom cap.
pub open spec fn cylinder_tris(slices: nat, stacks: nat) -> Seq<Tri> {
    let top = ((slices + 1) * (stacks + 1)) as int;
    cells(stacks * slices, slices, 0, QuadSplit::AbcAcd) + fan(top, slices, true) + fan(
        top + slices + 2,
        slices,
        false,
    )
}

/// The cylinder fits in 32-bit counts.
pub open spec fn cylinder_fits(slices: nat, stacks: nat) -> bool {
    &&& spec_cylinder_vertex_count(slices, stacks) <= u32::MAX
    &&& 6 * slices * (stacks + 1) <= u32::MAX
}

/// Number of vertices of a cylinder of `slices` steps around and `stacks`
/// steps up.
pub fn cylinder_vertex_count(slices: u32, stacks: u32) -> (r: usize)
    requires
        cylinder_fits(slices as nat, stacks as nat),
    ensures
        r == spec_cylinder_vertex_count(slices as nat, stacks as nat),
{
    ((slices as u64 + 1) * (stacks as u64 + 3) + 2) as usize
}

/// The index list of a cylinder of `slices` steps around and `stacks`
/// steps up.
pub fn cylinder_indices(slices: u32, stacks: u32) -> (r: MeshIndices)
    requires
        cylinder_fits(slices as nat, stacks as nat),
    ensures
        r@ == flatten_tris(cylinder_tris(slices as nat, stacks as nat)),
        r@.len() == 6 * slices * (stacks + 1),
        r.well_sized(),
        indices_below(r@, spec_cylinder_vertex_count(slices as nat, stacks as nat)),
{
    let ghost s = slices as nat;
    let ghost t = stacks as nat;
    let ghost vc = spec_cylinder_vertex_count(s, t);
    assert((t + 1) * (s + 1) == (s + 1) * (t + 1) && (s + 1) * (t + 1) + 2 * s + 4 == vc) by (nonlinear_arith)
        requires
            vc == (s + 1) * (t + 3) + 2,
    ;
    let mut out: Vec<u32> = Vec::new();
    proof {
        lemma_empty_start();
    }
    push_cells(&mut out, Ghost(Seq::empty()), stacks, slices, 0, QuadSplit::AbcAcd);
    let ghost side = cells(t * s, s, 0, QuadSplit::AbcAcd);
    assert(Seq::<Tri>::empty() + side =~= side);
    assert(slices + 1 <= u32::MAX && stacks + 1 <= u32::MAX && (slices + 1) * (stacks + 1) + 2 * slices + 4
        <= u32::MAX + 1) by (nonlinear_arith)
        requires
            (slices + 1) * (stacks + 3) + 2 <= u32::MAX,
    ;
    let top = (slices + 1) * (stacks + 1);
    push_fan(&mut out, Ghost(side), top, slices, true);
    let bottom = top + slices + 2;
    push_fan(&mut out, Ghost(side + fan(top as int, s, true)), bottom, slices, false);
    proof {
        let tris = cylinder_tris(s, t);
        lemma_cells_within(t, s, 0, QuadSplit::AbcAcd, 0, vc);
        lemma_fan_within(top as int, s, true, 0, vc);
        lemma_fan_within(bottom as int, s, false, 0, vc);
        lemma_within_concat(side, fan(top as int, s, true), 0, vc);
        lemma_within_concat(side + fan(top as int, s, true), fan(bottom as int, s, false), 0, vc);
        lemma_flatten_within(tris, vc);
        lemma_narrow_fits(out@, vc);
        assert(out@.len() == widen32(out@).len());
        assert(3 * (2 * (t * s) + s + s) == 6 * s * (t + 1)) by (nonlinear_arith);
        if out@.len() <= INDICES32_THRESHOLD && out@.len() > 0 {
            assert(vc <= 65536) by (nonlinear_arith)
                requires
                    vc == (s + 1) * (t + 3) + 2,
                    0 < 3 * (2 * (t * s) + s + s) <= 65535,
            ;
        }
    }
    MeshIndices::from_u32(out)
}


// ---------------------------------------------------------------- cone

/// Number of vertices of a cone of `slices` steps around: one apex copy
/// and one rim vertex per step for the side, another rim vertex per step
/// for the base, and the base's center.
pub open spec fn spec_cone_vertex_count(slices: nat) -> int {
    (3 * slices + 1) as int
}

/// The first `n` side triangles of a cone: apex copy `j` with rim vertices
/// `slices + j` and the next one around.
pub open spec fn cone_side(slices: nat, n: nat) -> Seq<Tri> {
    Seq::new(n, |j: int| (j, slices + (j + 1) % (slices as int), slices + j))
}

/// The first `n` base triangles of a cone, around the base's center (the
/// last vertex).
pub open spec fn cone_base(slices: nat, n: nat) -> Seq<Tri> {
    Seq::new(n, |j: int| ((3 * slices) as int, 2 * slices + j, 2 * slices + (j + 1) % (slices as int)))
}

/// The triangles of a cone: its side, then its base.
pub open spec fn cone_tris(slices: nat) -> Seq<Tri> {
    cone_side(slices, slices) + cone_base(slices, slices)
}

/// The cone fits in 32-bit counts.
pub open spec fn cone_fits(slices: nat) -> bool {
    6 * slices <= u32::MAX
}

/// Number of vertices of a cone of `slices` steps around.
pub fn cone_vertex_count(slices: u32) -> (r: usize)
    requires
        cone_fits(slices as nat),
    ensures
        r == spec_cone_vertex_count(slices as nat),
{
    (3 * slices + 1) as usize
}

/// The index list of a cone of `slices` steps around.
pub fn cone_indices(slices: u32) -> (r: MeshIndices)
    requires
        cone_fits(slices as nat),
    ensures
        r@ == flatten_tris(cone_tris(slices as nat)),
        r@.len() == 6 * slices,
        r.well_sized(),
        indices_below(r@, spec_cone_vertex_count(slices as nat)),
{
    let ghost s = slices as nat;
    let ghost vc = spec_cone_vertex_count(s);
    let mut out: Vec<u32> = Vec::new();
    proof {
        lemma_empty_start();
        assert(Seq::<Tri>::empty() =~= cone_side(s, 0));
    }
    let mut j: u32 = 0;
    while j < slices
        invariant
            j <= slices,
            6 * slices <= u32::MAX,
            widen32(out@) == flatten_tris(cone_side(slices as nat, j as nat)),
        decreases slices - j,
    {
        let ghost before = cone_side(slices as nat, j as nat);
        let next = slices + (j + 1) % slices;
        push_tri(&mut out, Ghost(before), j, next, slices + j);
        proof {
            assert(cone_side(slices as nat, (j + 1) as nat) =~= before.push((j as int, next as int, slices + j)));
        }
        j += 1;
    }
    let ghost side = cone_side(s, s);
    proof {
        assert(side + cone_base(s, 0) =~= side);
    }
    let mut j: u32 = 0;
    while j < slices
        invariant
            j <= slices,
            6 * slices <= u32::MAX,
            side == cone_side(slices as nat, slices as nat),
            widen32(out@) == flatten_tris(side + cone_base(slices as nat, j as nat)),
        decreases slices - j,
    {
        let ghost before = side + cone_base(slices as nat, j as nat);
        let next = 2 * slices + (j + 1) % slices;
        push_tri(&mut out, Ghost(before), 3 * slices, 2 * slices + j, next);
        proof {
            assert(side + cone_base(slices as nat, (j + 1) as nat) =~= before.push(
                (3 * slices, 2 * slices + j, next as int),
            ));
        }
        j += 1;
    }
    proof {
        let base = cone_base(s, s);
        assert(tris_within(side, 0, vc));
        assert(tris_within(base, 0, vc));
        lemma_within_concat(side, base, 0, vc);
        lemma_flatten_within(cone_tris(s), vc);
        lemma_narrow_fits(out@, vc);
        assert(out@.len() == widen32(out@).len());
    }
    MeshIndices::from_u32(out)
}

// ------------------------------------------------------- cube and plane

/// The triangles of `n` separate quads, four vertices each: quad `f` is
/// drawn as `(4f, 4f + 1, 4f + 2)` then `(4f + 2, 4f + 3, 4f)`.
pub open spec fn quad_faces(n: nat) -> Seq<Tri> {
    Seq::new(
        2 * n,
        |t: int|
            {
                let f = t / 2;
                if t % 2 == 0 {
                    (4 * f, 4 * f + 1, 4 * f + 2)
                } else {
                    (4 * f + 2, 4 * f + 3, 4 * f)
                }
            },
    )
}

/// Appends the triangles of `n` separate quads.
fn push_quads(out: &mut Vec<u32>, n: u32)
    requires
        widen32(old(out)@) == flatten_tris(Seq::empty()),
        n <= 1024,
    ensures
        widen32(final(out)@) == flatten_tris(quad_faces(n as nat)),
        indices_below(widen32(final(out)@), 4 * n),
{
    proof {
        assert(Seq::<Tri>::empty() =~= quad_faces(0));
    }
    let mut f: u32 = 0;
    while f < n
        invariant
            f <= n <= 1024,
            widen32(out@) == flatten_tris(quad_faces(f as nat)),
        decreases n - f,
    {
        let ghost before = quad_faces(f as nat);
        let base = 4 * f;
        push_tri(out, Ghost(before), base, base + 1, base + 2);
        push_tri(out, Ghost(before.push((base as int, base + 1, base + 2))), base + 2, base + 3, base);
        proof {
            assert((2 * f) / 2 == f && (2 * f + 1) / 2 == f);
            assert(quad_faces((f + 1) as nat) =~= before.push((base as int, base + 1, base + 2)).push(
                (base + 2, base + 3, base as int),
            ));
        }
        f += 1;
    }
    proof {
        let q = quad_faces(n as nat);
        assert forall|t: int| 0 <= t < q.len() implies tri_within(#[trigger] q[t], 0, 4 * n) by {
            assert(t / 2 < n);
        }
        lemma_flatten_within(q, 4 * n);
    }
}

/// The triangles of a box: six faces of four vertices each.
pub open spec fn cube_tris() -> Seq<Tri> {
    quad_faces(6)
}

/// The triangles of a flat rectangle of four vertices.
pub open spec fn plane_tris() -> Seq<Tri> {
    quad_faces(1)
}

/// The index list of a box whose 24 vertices run face by face, four to a
/// face.
pub fn cube_indices() -> (r: MeshIndices)
    ensures
        r@ == flatten_tris(cube_tris()),
        r@.len() == 36,
        r.well_sized(),
        indices_below(r@, 24),
{
    let mut out: Vec<u32> = Vec::new();
    proof {
        lemma_empty_start();
    }
    push_quads(&mut out, 6);
    proof {
        lemma_narrow_fits(out@, 24);
        assert(out@.len() == widen32(out@).len());
    }
    MeshIndices::from_u32(out)
}

/// The index list of a flat rectangle of four vertices.
pub fn plane_indices() -> (r: MeshIndices)
    ensures
        r@ == flatten_tris(plane_tris()),
        r@.len() == 6,
        r.well_sized(),
        indices_below(r@, 4),
{
    let mut out: Vec<u32> = Vec::new();
    proof {
        lemma_empty_start();
    }
    push_quads(&mut out, 1);
    proof {
        lemma_narrow_fits(out@, 4);
        assert(out@.len() == widen32(out@).len());
    }
    MeshIndices::from_u32(out)
}

} // verus!
