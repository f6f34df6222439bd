//! Probe volumes: a regular grid of probes, each with nine coefficients.
//!
//! On the device a volume is a texture as wide and as high as the grid, with the layers
//! of one coefficient behind those of the one before. In memory the coefficients of one
//! probe stand together.

use vstd::prelude::*;

use crate::float_order::{is_less, less};

verus! {

/// Number of coefficients of a probe: one of the first band, three of the second and
/// five of the third.
pub const SH_COEFF_COUNT: usize = 9;

/// Size of a compute group along the first two axes of the grid.
pub const BAKE_GROUP: u32 = 4;

/// Probes along an axis: at least, and at most.
pub const MIN_DIM: u32 = 2;

pub const MAX_DIM: u32 = 32;

// ---------------------------------------------------------------------------
// Corners
// ---------------------------------------------------------------------------

/// The cell of a coordinate along one axis, from its integer part: the last cell is the
/// one before the last probe, and an axis of one probe has a single cell.
pub open spec fn cell(floor: i32, dim: u32) -> int {
    let last = if dim >= 2 {
        dim - 2
    } else {
        0
    };
    if floor < 0 {
        0
    } else if floor > last {
        last as int
    } else {
        floor as int
    }
}

/// The cell of a coordinate along one axis.
pub fn base_cell(floor: i32, dim: u32) -> (r: i32)
    requires
        dim <= i32::MAX,
    ensures
        r == cell(floor, dim),
{
    let last: i32 = if dim >= 2 {
        dim as i32 - 2
    } else {
        0
    };
    if floor < 0 {
        0
    } else if floor > last {
        last
    } else {
        floor
    }
}

/// Both probes of a cell are in the grid; where an axis has a single probe, the first
/// one is.
pub proof fn cell_is_in_the_grid(floor: i32, dim: u32)
    requires
        1 <= dim <= i32::MAX,
    ensures
        0 <= cell(floor, dim) < dim,
        dim >= 2 ==> cell(floor, dim) + 1 < dim,
{
}

/// The step from a cell's first probe to corner `idx` along axis `axis`: the bits of the
/// corner's number, lowest first.
pub open spec fn corner_step(idx: int, axis: int) -> int {
    if axis == 0 {
        idx % 2
    } else if axis == 1 {
        (idx / 2) % 2
    } else {
        (idx / 4) % 2
    }
}

/// The eight corner probes of a cell.
pub fn corners(base: [i32; 3]) -> (r: [[i32; 3]; 8])
    requires
        forall|a: int| 0 <= a < 3 ==> #[trigger] base@[a] < i32::MAX,
    ensures
        forall|idx: int, a: int|
            0 <= idx < 8 && 0 <= a < 3 ==> #[trigger] r@[idx]@[a] == base@[a] + corner_step(idx, a),
{
    assert(base@[0] < i32::MAX && base@[1] < i32::MAX && base@[2] < i32::MAX);
    let x: i32 = base[0];
    let y: i32 = base[1];
    let z: i32 = base[2];
    [
        [x, y, z],
        [x + 1, y, z],
        [x, y + 1, z],
        [x + 1, y + 1, z],
        [x, y, z + 1],
        [x + 1, y, z + 1],
        [x, y + 1, z + 1],
        [x + 1, y + 1, z + 1],
    ]
}

/// A corner is in the grid, unless it is the second probe along an axis that has a single
/// one.
pub proof fn corners_are_in_the_grid(floor: i32, dim: u32, idx: int, axis: int)
    requires
        1 <= dim <= i32::MAX,
        0 <= idx < 8,
        0 <= axis < 3,
        dim >= 2 || corner_step(idx, axis) == 0,
    ensures
        0 <= cell(floor, dim) + corner_step(idx, axis) < dim,
{
    cell_is_in_the_grid(floor, dim);
}

/// Size in bytes of what shaders see of a probe volume.
pub const VOLUME_INFO_SIZE: u64 = 48;

/// A probe volume, as shaders see it. Origin and spacing are bit patterns, and the
/// fourth number of each vector is not used.
#[derive(Clone, Copy, Debug, PartialEq)]
pub struct ProbeVolumeInfo {
    pub origin: [u32; 4],
    pub spacing: [u32; 4],
    pub dims: [u32; 4],
}

impl ProbeVolumeInfo {
    /// A volume from vectors of three.
    pub fn new(origin: [u32; 3], spacing: [u32; 3], dims: [u32; 3]) -> (r: Self)
        ensures
            r.origin@ == origin@.push(0),
            r.spacing@ == spacing@.push(0),
            r.dims@ == dims@.push(0),
    {
        let r = ProbeVolumeInfo {
            origin: [origin[0], origin[1], origin[2], 0],
            spacing: [spacing[0], spacing[1], spacing[2], 0],
            dims: [dims[0], dims[1], dims[2], 0],
        };
        assert(r.origin@ =~= origin@.push(0));
        assert(r.spacing@ =~= spacing@.push(0));
        assert(r.dims@ =~= dims@.push(0));
        r
    }

    /// The words of the volume's uniform buffer.
    pub open spec fn laid_out(&self) -> Seq<u32> {
        self.origin@ + self.spacing@ + self.dims@
    }

    /// The words of the volume's uniform buffer.
    pub fn words(&self) -> (r: Vec<u32>)
        ensures
            r@ == self.laid_out(),
            r@.len() * 4 == VOLUME_INFO_SIZE,
    {
        let mut list: Vec<u32> = Vec::new();
        list.push(self.origin[0]);
        list.push(self.origin[1]);
        list.push(self.origin[2]);
        list.push(self.origin[3]);
        list.push(self.spacing[0]);
        list.push(self.spacing[1]);
        list.push(self.spacing[2]);
        list.push(self.spacing[3]);
        list.push(self.dims[0]);
        list.push(self.dims[1]);
        list.push(self.dims[2]);
        list.push(self.dims[3]);
        assert(list@ =~= self.laid_out());
        list
    }
}

// ---------------------------------------------------------------------------
// Where probes stand
// ---------------------------------------------------------------------------

/// Number of probes along each axis.
#[derive(Clone, Copy, Debug, PartialEq, Eq, Structural)]
pub struct ProbeGrid {
    pub dx: usize,
    pub dy: usize,
    pub dz: usize,
}

impl ProbeGrid {
    /// Number of probes.
    pub open spec fn count(&self) -> int {
        self.dx * self.dy * self.dz
    }

    /// Place of a probe in memory.
    pub open spec fn probe(&self, x: int, y: int, z: int) -> int {
        x + y * self.dx + z * self.dx * self.dy
    }

    /// Place of a coefficient of a probe in the texture.
    pub open spec fn texel(&self, x: int, y: int, z: int, c: int) -> int {
        (c * self.dz + z) * self.dy * self.dx + y * self.dx + x
    }

    /// The probe is in the grid.
    pub open spec fn holds(&self, x: int, y: int, z: int) -> bool {
        0 <= x < self.dx && 0 <= y < self.dy && 0 <= z < self.dz
    }

    /// The texture can be addressed, four values for each texel.
    pub open spec fn fits(&self) -> bool {
        self.count() * SH_COEFF_COUNT * 4 <= usize::MAX
    }
}

/// Number of probes along an axis that `cells` cells come to.
pub open spec fn dim_of(cells: u32) -> u32 {
    if cells < MIN_DIM {
        MIN_DIM
    } else if cells > MAX_DIM {
        MAX_DIM
    } else {
        cells
    }
}

/// Number of probes along an axis, from the number of cells that the target spacing
/// asks for.
pub fn grid_dim(cells: u32) -> (r: u32)
    ensures
        r == dim_of(cells),
{
    if cells < MIN_DIM {
        MIN_DIM
    } else if cells > MAX_DIM {
        MAX_DIM
    } else {
        cells
    }
}

proof fn lemma_row_bound(x: int, y: int, dx: int, dy: int)
    requires
        0 <= x < dx,
        0 <= y < dy,
    ensures
        0 <= x + y * dx < dx * dy,
{
    assert(0 <= y * dx) by (nonlinear_arith)
        requires
            0 <= y,
            0 <= dx,
    ;
    assert(y * dx + dx <= dx * dy) by (nonlinear_arith)
        requires
            y + 1 <= dy,
            0 <= dx,
    ;
}

proof fn lemma_place(low: int, high: int, size: int, count: int)
    requires
        0 <= low < size,
        0 <= high < count,
    ensures
        0 <= low + high * size < size * count,
        (low + high * size) / size == high,
        (low + high * size) % size == low,
{
    lemma_row_bound(low, high, size, count);
    vstd::arithmetic::div_mod::lemma_fundamental_div_mod_converse(
        low + high * size,
        size,
        high,
        low,
    );
}

/// Every probe has a place of its own in memory.
pub proof fn probes_do_not_overlap(g: ProbeGrid, x: int, y: int, z: int, u: int, v: int, w: int)
    requires
        g.holds(x, y, z),
        g.holds(u, v, w),
        g.probe(x, y, z) == g.probe(u, v, w),
    ensures
        x == u && y == v && z == w,
{
    lemma_probe_place(g, x, y, z);
    lemma_probe_place(g, u, v, w);
}

proof fn lemma_probe_place(g: ProbeGrid, x: int, y: int, z: int)
    requires
        g.holds(x, y, z),
    ensures
        0 <= g.probe(x, y, z) < g.count(),
        x == (g.probe(x, y, z) % (g.dx * g.dy)) % g.dx as int,
        y == (g.probe(x, y, z) % (g.dx * g.dy)) / g.dx as int,
        z == g.probe(x, y, z) / (g.dx * g.dy),
{
    let dx = g.dx as int;
    let dy = g.dy as int;
    let row = x + y * dx;
    lemma_place(x, y, dx, dy);
    lemma_place(row, z, dx * dy, g.dz as int);
    assert(z * dx * dy == z * (dx * dy)) by (nonlinear_arith);
    assert(dx * dy * g.dz == (dx * dy) * g.dz) by (nonlinear_arith);
}

proof fn lemma_texel_place(g: ProbeGrid, x: int, y: int, z: int, c: int)
    requires
        g.holds(x, y, z),
        0 <= c < SH_COEFF_COUNT,
    ensures
        0 <= g.texel(x, y, z, c) < g.count() * SH_COEFF_COUNT,
        x == (g.texel(x, y, z, c) % (g.dx * g.dy)) % g.dx as int,
        y == (g.texel(x, y, z, c) % (g.dx * g.dy)) / g.dx as int,
        z == (g.texel(x, y, z, c) / (g.dx * g.dy)) % g.dz as int,
        c == (g.texel(x, y, z, c) / (g.dx * g.dy)) / g.dz as int,
{
    let dx = g.dx as int;
    let dy = g.dy as int;
    let dz = g.dz as int;
    let row = x + y * dx;
    let layer = z + c * dz;
    lemma_place(x, y, dx, dy);
    lemma_place(z, c, dz, 9);
    lemma_place(row, layer, dx * dy, dz * 9);
    assert((c * dz + z) * dy * dx == layer * (dx * dy)) by (nonlinear_arith)
        requires
            layer == z + c * dz,
    ;
    assert((dx * dy) * (dz * 9) == dx * dy * dz * 9) by (nonlinear_arith);
}

/// Every coefficient of every probe has a texel of its own.
pub proof fn texels_do_not_overlap(
    g: ProbeGrid,
    x: int,
    y: int,
    z: int,
    c: int,
    u: int,
    v: int,
    w: int,
    d: int,
)
    requires
        g.holds(x, y, z),
        g.holds(u, v, w),
        0 <= c < SH_COEFF_COUNT,
        0 <= d < SH_COEFF_COUNT,
        g.texel(x, y, z, c) == g.texel(u, v, w, d),
    ensures
        x == u && y == v && z == w && c == d,
{
    lemma_texel_place(g, x, y, z, c);
    lemma_texel_place(g, u, v, w, d);
}

/// The coefficients of a volume, probe by probe, and the hit ratio of each probe.
pub struct ProbeValues<T> {
    pub coeffs: Vec<[T; 3]>,
    pub hit_ratios: Vec<T>,
}

/// The coefficients of probe `p` are in place.
pub open spec fn probe_taken<T>(
    g: ProbeGrid,
    pixels: Seq<T>,
    coeffs: Seq<[T; 3]>,
    hit_ratios: Seq<T>,
    x: int,
    y: int,
    z: int,
) -> bool {
    let p = g.probe(x, y, z);
    &&& hit_ratios[p] == pixels[g.texel(x, y, z, 0) * 4 + 3]
    &&& forall|c: int, a: int|
        0 <= c < SH_COEFF_COUNT && 0 <= a < 3 ==> #[trigger] coeffs[p * SH_COEFF_COUNT
            + c]@[a] == pixels[g.texel(x, y, z, c) * 4 + a]
}

/// Place `p` in memory, as coordinates.
pub open spec fn coordinates(g: ProbeGrid, p: int) -> (int, int, int) {
    let layer = g.dx * g.dy;
    ((p % layer) % g.dx as int, (p % layer) / g.dx as int, p / layer)
}

proof fn lemma_coordinates(g: ProbeGrid, p: int)
    requires
        0 <= p < g.count(),
    ensures
        ({
            let (x, y, z) = coordinates(g, p);
            g.holds(x, y, z) && g.probe(x, y, z) == p
        }),
{
    let dx = g.dx as int;
    let dy = g.dy as int;
    let dz = g.dz as int;
    let layer = dx * dy;
    assert(dx > 0 && dy > 0 && dz > 0) by (nonlinear_arith)
        requires
            dx * dy * dz > 0,
            dx >= 0,
            dy >= 0,
            dz >= 0,
    ;
    assert(layer > 0) by (nonlinear_arith)
        requires
            dx > 0,
            dy > 0,
            layer == dx * dy,
    ;
    let (x, y, z) = coordinates(g, p);
    vstd::arithmetic::div_mod::lemma_fundamental_div_mod(p, layer);
    vstd::arithmetic::div_mod::lemma_mod_bound(p, layer);
    vstd::arithmetic::div_mod::lemma_fundamental_div_mod(p % layer, dx);
    vstd::arithmetic::div_mod::lemma_mod_bound(p % layer, dx);
    vstd::arithmetic::div_mod::lemma_div_pos_is_pos(p, layer);
    vstd::arithmetic::div_mod::lemma_div_pos_is_pos(p % layer, dx);
    assert(z < dz) by (nonlinear_arith)
        requires
            layer * z <= p,
            p < layer * dz,
            layer > 0,
    ;
    assert(y < dy) by (nonlinear_arith)
        requires
            dx * y <= p % layer,
            p % layer < dx * dy,
            dx > 0,
    ;
    assert(z * dx * dy == layer * z) by (nonlinear_arith)
        requires
            layer == dx * dy,
    ;
    assert(y * dx == dx * y) by (nonlinear_arith);
}

/// Regroups a volume as it comes from the device: the coefficients of one probe are put
/// together, and the fourth value of its first coefficient is its hit ratio.
pub fn regroup<T: Copy>(pixels: &Vec<T>, g: ProbeGrid) -> (r: ProbeValues<T>)
    requires
        g.fits(),
        pixels@.len() == g.count() * SH_COEFF_COUNT * 4,
    ensures
        r.coeffs@.len() == g.count() * SH_COEFF_COUNT,
        r.hit_ratios@.len() == g.count(),
        forall|x: int, y: int, z: int| #[trigger]
            g.holds(x, y, z) ==> probe_taken(g, pixels@, r.coeffs@, r.hit_ratios@, x, y, z),
{
    let mut coeffs: Vec<[T; 3]> = Vec::new();
    let mut hit_ratios: Vec<T> = Vec::new();
    let ghost count = g.count();
    if g.dx == 0 || g.dy == 0 || g.dz == 0 {
        proof {
            assert(count == 0) by (nonlinear_arith)
                requires
                    g.dx == 0 || g.dy == 0 || g.dz == 0,
                    count == g.dx * g.dy * g.dz,
            ;
        }
        return ProbeValues { coeffs, hit_ratios };
    }
    proof {
        assert(g.dx * g.dy <= count) by (nonlinear_arith)
            requires
                g.dz >= 1,
                count == g.dx * g.dy * g.dz,
        ;
    }
    let layer: usize = g.dx * g.dy;
    let total: usize = layer * g.dz;
    let mut p: usize = 0;
    while p < total
        invariant
            g.fits(),
            g.dx > 0,
            g.dy > 0,
            g.dz > 0,
            layer == g.dx * g.dy,
            layer > 0 || total == 0,
            total == g.count(),
            p <= total,
            pixels@.len() == g.count() * SH_COEFF_COUNT * 4,
            coeffs@.len() == p * SH_COEFF_COUNT,
            hit_ratios@.len() == p,
            forall|q: int|
                0 <= q < p ==> {
                    let (x, y, z) = coordinates(g, q);
                    #[trigger] hit_ratios@[q] == pixels@[g.texel(x, y, z, 0) * 4 + 3]
                },
            forall|q: int, c: int, a: int|
                0 <= q < p && 0 <= c < SH_COEFF_COUNT && 0 <= a < 3 ==> {
                    let (x, y, z) = coordinates(g, q);
                    #[trigger] coeffs@[q * SH_COEFF_COUNT + c]@[a] == pixels@[g.texel(x, y, z, c)
                        * 4 + a]
                },
        decreases total - p,
    {
        proof {
            lemma_coordinates(g, p as int);
        }
        assert(layer > 0) by (nonlinear_arith)
            requires
                layer == g.dx * g.dy,
                g.dx > 0,
                g.dy > 0,
        ;
        let x: usize = (p % layer) % g.dx;
        let y: usize = (p % layer) / g.dx;
        let z: usize = p / layer;
        let ghost before = coeffs@;
        let mut c: usize = 0;
        while c < SH_COEFF_COUNT
            invariant
                g.fits(),
                g.holds(x as int, y as int, z as int),
                layer == g.dx * g.dy,
                p < total,
                total == g.count(),
                pixels@.len() == g.count() * SH_COEFF_COUNT * 4,
                c <= SH_COEFF_COUNT,
                before.len() == p * SH_COEFF_COUNT,
                coeffs@.len() == p * SH_COEFF_COUNT + c,
                hit_ratios@.len() == p + (if c > 0 {
                    1int
                } else {
                    0
                }),
                (x as int, y as int, z as int) == coordinates(g, p as int),
                forall|i: int| 0 <= i < before.len() ==> #[trigger] coeffs@[i] == before[i],
                forall|i: int, a: int|
                    0 <= i < c && 0 <= a < 3 ==> #[trigger] coeffs@[p * SH_COEFF_COUNT + i]@[a]
                        == pixels@[g.texel(x as int, y as int, z as int, i) * 4 + a],
                c > 0 ==> hit_ratios@[p as int] == pixels@[g.texel(
                    x as int,
                    y as int,
                    z as int,
                    0,
                ) * 4 + 3],
                forall|q: int|
                    0 <= q < p ==> {
                        let (u, v, w) = coordinates(g, q);
                        #[trigger] hit_ratios@[q] == pixels@[g.texel(u, v, w, 0) * 4 + 3]
                    },
            decreases SH_COEFF_COUNT - c,
        {
            proof {
                lemma_texel_place(g, x as int, y as int, z as int, c as int);
                let t = g.texel(x as int, y as int, z as int, c as int);
                let l = c * g.dz + z;
                assert(0 <= c * g.dz) by (nonlinear_arith)
                    requires
                        c >= 0,
                        g.dz >= 0,
                ;
                assert(0 <= y * g.dx) by (nonlinear_arith)
                    requires
                        y >= 0,
                        g.dx >= 0,
                ;
                assert(l * g.dy * g.dx <= t);
                assert(l * layer == l * g.dy * g.dx) by (nonlinear_arith)
                    requires
                        layer == g.dx * g.dy,
                ;
                assert(l <= l * layer) by (nonlinear_arith)
                    requires
                        layer >= 1,
                        l >= 0,
                ;
            }
            let texel: usize = (c * g.dz + z) * layer + y * g.dx + x;
            let base: usize = texel * 4;
            let value: [T; 3] = [pixels[base], pixels[base + 1], pixels[base + 2]];
            coeffs.push(value);
            if c == 0 {
                hit_ratios.push(pixels[base + 3]);
            }
            c = c + 1;
        }
        proof {
            assert forall|q: int, i: int, a: int|
                0 <= q < p + 1 && 0 <= i < SH_COEFF_COUNT && 0 <= a < 3 implies {
                let (u, v, w) = coordinates(g, q);
                #[trigger] coeffs@[q * SH_COEFF_COUNT + i]@[a] == pixels@[g.texel(u, v, w, i) * 4
                    + a]
            } by {
                if q < p {
                    assert(coeffs@[q * SH_COEFF_COUNT + i] == before[q * SH_COEFF_COUNT + i]);
                }
            }
        }
        p = p + 1;
    }
    proof {
        assert forall|x: int, y: int, z: int| #[trigger] g.holds(x, y, z) implies probe_taken(
            g,
            pixels@,
            coeffs@,
            hit_ratios@,
            x,
            y,
            z,
        ) by {
            let q = g.probe(x, y, z);
            lemma_probe_place(g, x, y, z);
            assert(coordinates(g, q) == (x, y, z));
            assert(hit_ratios@[q] == pixels@[g.texel(x, y, z, 0) * 4 + 3]);
        }
    }
    ProbeValues { coeffs, hit_ratios }
}

// ---------------------------------------------------------------------------
// Screening
// ---------------------------------------------------------------------------

/// Bit pattern of -1, the hit ratio of a probe that is not used.
pub const UNUSED_BITS: u32 = 0xbf80_0000;

/// Bit pattern of 1,500,000, above which no coefficient is plausible.
pub const TOO_BRIGHT_BITS: u32 = 0x49b7_1b00;

/// The first coefficient is below -1, or any coefficient is implausibly large.
pub open spec fn degenerate(coeffs: Seq<[u32; 3]>, p: int) -> bool {
    ||| exists|a: int| 0 <= a < 3 && less(#[trigger] coeffs[p * SH_COEFF_COUNT]@[a], UNUSED_BITS)
    ||| exists|c: int, a: int|
        0 <= c < SH_COEFF_COUNT && 0 <= a < 3 && less(
            TOO_BRIGHT_BITS,
            #[trigger] coeffs[p * SH_COEFF_COUNT + c]@[a],
        )
}

/// The probe is used, and its coefficients are degenerate.
pub open spec fn flagged(coeffs: Seq<[u32; 3]>, hit_ratios: Seq<u32>, p: int) -> bool {
    !less(hit_ratios[p], 0) && degenerate(coeffs, p)
}

/// Number of flagged probes among the first `n`.
pub open spec fn flagged_count(coeffs: Seq<[u32; 3]>, hit_ratios: Seq<u32>, n: nat) -> nat
    decreases n,
{
    if n == 0 {
        0
    } else {
        flagged_count(coeffs, hit_ratios, (n - 1) as nat) + if flagged(
            coeffs,
            hit_ratios,
            n - 1,
        ) {
            1nat
        } else {
            0nat
        }
    }
}

fn is_degenerate(coeffs: &Vec<[u32; 3]>, p: usize) -> (r: bool)
    requires
        p * SH_COEFF_COUNT + SH_COEFF_COUNT <= coeffs.len(),
    ensures
        r == degenerate(coeffs@, p as int),
{
    let first: usize = p * SH_COEFF_COUNT;
    let mut a: usize = 0;
    while a < 3
        invariant
            a <= 3,
            first == p * SH_COEFF_COUNT,
            first + SH_COEFF_COUNT <= coeffs.len(),
            forall|b: int| 0 <= b < a ==> !less(#[trigger] coeffs@[first as int]@[b], UNUSED_BITS),
        decreases 3 - a,
    {
        if is_less(coeffs[first][a], UNUSED_BITS) {
            assert(less(coeffs@[p * SH_COEFF_COUNT]@[a as int], UNUSED_BITS));
            return true;
        }
        a = a + 1;
    }
    let mut c: usize = 0;
    while c < SH_COEFF_COUNT
        invariant
            c <= SH_COEFF_COUNT,
            first == p * SH_COEFF_COUNT,
            first + SH_COEFF_COUNT <= coeffs.len(),
            forall|d: int, b: int|
                0 <= d < c && 0 <= b < 3 ==> !less(
                    TOO_BRIGHT_BITS,
                    #[trigger] coeffs@[first + d]@[b],
                ),
        decreases SH_COEFF_COUNT - c,
    {
        let mut b: usize = 0;
        while b < 3
            invariant
                b <= 3,
                c < SH_COEFF_COUNT,
                first == p * SH_COEFF_COUNT,
                first + SH_COEFF_COUNT <= coeffs.len(),
                forall|e: int|
                    0 <= e < b ==> !less(
                        TOO_BRIGHT_BITS,
                        #[trigger] coeffs@[first + c]@[e],
                    ),
            decreases 3 - b,
        {
            if is_less(TOO_BRIGHT_BITS, coeffs[first + c][b]) {
                assert(less(TOO_BRIGHT_BITS, coeffs@[p * SH_COEFF_COUNT + c]@[b as int]));
                return true;
            }
            b = b + 1;
        }
        c = c + 1;
    }
    false
}

/// The flagged probes are out of use and have no coefficients, and all others are as they
/// were.
pub open spec fn screened(
    coeffs: Seq<[u32; 3]>,
    hit_ratios: Seq<u32>,
    new_coeffs: Seq<[u32; 3]>,
    new_ratios: Seq<u32>,
) -> bool {
    &&& new_coeffs.len() == coeffs.len()
    &&& new_ratios.len() == hit_ratios.len()
    &&& forall|p: int|
        0 <= p < hit_ratios.len() ==> #[trigger] new_ratios[p] == (if flagged(
            coeffs,
            hit_ratios,
            p,
        ) {
            UNUSED_BITS
        } else {
            hit_ratios[p]
        })
    &&& forall|p: int, c: int|
        0 <= p < hit_ratios.len() && 0 <= c < SH_COEFF_COUNT ==> (#[trigger] new_coeffs[p
            * SH_COEFF_COUNT + c])@ == (if flagged(coeffs, hit_ratios, p) {
            seq![0u32, 0u32, 0u32]
        } else {
            coeffs[p * SH_COEFF_COUNT + c]@
        })
}

/// Screening leaves nothing to be screened.
pub proof fn screening_is_stable(
    coeffs: Seq<[u32; 3]>,
    hit_ratios: Seq<u32>,
    new_coeffs: Seq<[u32; 3]>,
    new_ratios: Seq<u32>,
    p: int,
)
    requires
        screened(coeffs, hit_ratios, new_coeffs, new_ratios),
        0 <= p < hit_ratios.len(),
    ensures
        !flagged(new_coeffs, new_ratios, p),
{
    let first = p * SH_COEFF_COUNT;
    if flagged(coeffs, hit_ratios, p) {
        assert(new_ratios[p] == UNUSED_BITS);
    } else if flagged(new_coeffs, new_ratios, p) {
        assert(new_ratios[p] == hit_ratios[p]);
        assert(new_coeffs[first + 0]@ == coeffs[first + 0]@);
        if exists|a: int| 0 <= a < 3 && less(#[trigger] new_coeffs[first]@[a], UNUSED_BITS) {
            let a = choose|a: int|
                0 <= a < 3 && less(#[trigger] new_coeffs[first]@[a], UNUSED_BITS);
            assert(less(coeffs[p * SH_COEFF_COUNT]@[a], UNUSED_BITS));
        } else {
            let (c, a) = choose|c: int, a: int|
                0 <= c < SH_COEFF_COUNT && 0 <= a < 3 && less(
                    TOO_BRIGHT_BITS,
                    #[trigger] new_coeffs[p * SH_COEFF_COUNT + c]@[a],
                );
            assert(new_coeffs[p * SH_COEFF_COUNT + c]@ == coeffs[p * SH_COEFF_COUNT + c]@);
            assert(less(TOO_BRIGHT_BITS, coeffs[p * SH_COEFF_COUNT + c]@[a]));
        }
    }
}

/// Takes degenerate probes out of use: their coefficients become zero. Hit ratios and
/// coefficients are bit patterns of single-precision numbers.
pub fn screen_probes(coeffs: &mut Vec<[u32; 3]>, hit_ratios: &mut Vec<u32>) -> (count: usize)
    requires
        old(coeffs)@.len() == old(hit_ratios)@.len() * SH_COEFF_COUNT,
    ensures
        count == flagged_count(old(coeffs)@, old(hit_ratios)@, old(hit_ratios)@.len()),
        screened(old(coeffs)@, old(hit_ratios)@, final(coeffs)@, final(hit_ratios)@),
{
    let ghost c0 = coeffs@;
    let ghost h0 = hit_ratios@;
    let total: usize = hit_ratios.len();
    let mut count: usize = 0;
    let mut p: usize = 0;
    while p < total
        invariant
            p <= total,
            total == h0.len(),
            c0 == old(coeffs)@,
            h0 == old(hit_ratios)@,
            c0.len() == h0.len() * SH_COEFF_COUNT,
            coeffs@.len() == c0.len(),
            hit_ratios@.len() == h0.len(),
            count == flagged_count(c0, h0, p as nat),
            count <= p,
            forall|q: int|
                0 <= q < p ==> #[trigger] hit_ratios@[q] == (if flagged(c0, h0, q) {
                    UNUSED_BITS
                } else {
                    h0[q]
                }),
            forall|q: int| p <= q < total ==> #[trigger] hit_ratios@[q] == h0[q],
            forall|q: int, c: int|
                0 <= q < p && 0 <= c < SH_COEFF_COUNT ==> (#[trigger] coeffs@[q * SH_COEFF_COUNT
                    + c])@ == (if flagged(c0, h0, q) {
                    seq![0u32, 0u32, 0u32]
                } else {
                    c0[q * SH_COEFF_COUNT + c]@
                }),
            forall|i: int| p * SH_COEFF_COUNT <= i < c0.len() ==> #[trigger] coeffs@[i] == c0[i],
        decreases total - p,
    {
        assert(p * SH_COEFF_COUNT + SH_COEFF_COUNT <= c0.len());
        let used: bool = !is_less(hit_ratios[p], 0);
        let bad: bool = used && is_degenerate(coeffs, p);
        assert(degenerate(coeffs@, p as int) == degenerate(c0, p as int)) by {
            assert forall|c: int| 0 <= c < SH_COEFF_COUNT implies #[trigger] coeffs@[p
                * SH_COEFF_COUNT + c] == c0[p * SH_COEFF_COUNT + c] by {}
            assert(coeffs@[p * SH_COEFF_COUNT + 0] == c0[p * SH_COEFF_COUNT + 0]);
            if degenerate(coeffs@, p as int) {
                if exists|a: int|
                    0 <= a < 3 && less(#[trigger] coeffs@[p * SH_COEFF_COUNT]@[a], UNUSED_BITS) {
                    let a = choose|a: int|
                        0 <= a < 3 && less(
                            #[trigger] coeffs@[p * SH_COEFF_COUNT]@[a],
                            UNUSED_BITS,
                        );
                    assert(less(c0[p * SH_COEFF_COUNT]@[a], UNUSED_BITS));
                } else {
                    let (c, a) = choose|c: int, a: int|
                        0 <= c < SH_COEFF_COUNT && 0 <= a < 3 && less(
                            TOO_BRIGHT_BITS,
                            #[trigger] coeffs@[p * SH_COEFF_COUNT + c]@[a],
                        );
                    assert(less(TOO_BRIGHT_BITS, c0[p * SH_COEFF_COUNT + c]@[a]));
                }
            }
            if degenerate(c0, p as int) {
                if exists|a: int|
                    0 <= a < 3 && less(#[trigger] c0[p * SH_COEFF_COUNT]@[a], UNUSED_BITS) {
                    let a = choose|a: int|
                        0 <= a < 3 && less(#[trigger] c0[p * SH_COEFF_COUNT]@[a], UNUSED_BITS);
                    assert(less(coeffs@[p * SH_COEFF_COUNT]@[a], UNUSED_BITS));
                } else {
                    let (c, a) = choose|c: int, a: int|
                        0 <= c < SH_COEFF_COUNT && 0 <= a < 3 && less(
                            TOO_BRIGHT_BITS,
                            #[trigger] c0[p * SH_COEFF_COUNT + c]@[a],
                        );
                    assert(less(TOO_BRIGHT_BITS, coeffs@[p * SH_COEFF_COUNT + c]@[a]));
                }
            }
        }
        let ghost before = coeffs@;
        if bad {
            let mut c: usize = 0;
            while c < SH_COEFF_COUNT
                invariant
                    c <= SH_COEFF_COUNT,
                    p < total,
                    total == h0.len(),
                    c0.len() == h0.len() * SH_COEFF_COUNT,
                    before.len() == c0.len(),
                    coeffs.len() == c0.len(),
                    forall|i: int|
                        0 <= i < c0.len() && !(p * SH_COEFF_COUNT <= i < p * SH_COEFF_COUNT + c)
                            ==> #[trigger] coeffs@[i] == before[i],
                    forall|i: int|
                        p * SH_COEFF_COUNT <= i < p * SH_COEFF_COUNT + c ==> (
                        #[trigger] coeffs@[i])@ == seq![0u32, 0u32, 0u32],
                decreases SH_COEFF_COUNT - c,
            {
                let zero: [u32; 3] = [0, 0, 0];
                assert(zero@ =~= seq![0u32, 0u32, 0u32]);
                coeffs.set(p * SH_COEFF_COUNT + c, zero);
                c = c + 1;
            }
            hit_ratios.set(p, UNUSED_BITS);
            count = count + 1;
        }
        proof {
            assert forall|q: int, c: int|
                0 <= q < p + 1 && 0 <= c < SH_COEFF_COUNT implies (#[trigger] coeffs@[q
                * SH_COEFF_COUNT + c])@ == (if flagged(c0, h0, q) {
                seq![0u32, 0u32, 0u32]
            } else {
                c0[q * SH_COEFF_COUNT + c]@
            }) by {
                if q < p {
                    assert(coeffs@[q * SH_COEFF_COUNT + c] == before[q * SH_COEFF_COUNT + c]);
                }
            }
        }
        p = p + 1;
    }
    count
}

/// Number of probes, among the first `n`, that stand inside solid matter.
pub open spec fn unused_count(hit_ratios: Seq<u32>, n: nat) -> nat
    decreases n,
{
    if n == 0 {
        0
    } else {
        unused_count(hit_ratios, (n - 1) as nat) + if less(hit_ratios[n - 1], 0) {
            1nat
        } else {
            0nat
        }
    }
}

/// Number of probes that stand inside solid matter; the others are averaged over.
pub fn count_unused(hit_ratios: &Vec<u32>) -> (r: usize)
    ensures
        r == unused_count(hit_ratios@, hit_ratios@.len()),
{
    let mut count: usize = 0;
    let mut i: usize = 0;
    while i < hit_ratios.len()
        invariant
            i <= hit_ratios.len(),
            count == unused_count(hit_ratios@, i as nat),
            count <= i,
        decreases hit_ratios.len() - i,
    {
        if is_less(hit_ratios[i], 0) {
            count = count + 1;
        }
        i = i + 1;
    }
    count
}

/// A coordinate within the grid is in the cell that it falls into, and one beside the grid
/// in the nearest cell.
pub proof fn cell_is_the_nearest(floor: i32, dim: u32, other: int)
    requires
        2 <= dim <= i32::MAX,
        0 <= other <= dim - 2,
    ensures
        0 <= floor <= dim - 2 ==> cell(floor, dim) == floor,
        ({
            let here = cell(floor, dim) - floor;
            let there = other - floor;
            (if here < 0 {
                -here
            } else {
                here
            }) <= (if there < 0 {
                -there
            } else {
                there
            })
        }),
{
}

/// The number of a corner counts its steps: one for a step along the first axis, two for
/// the second, four for the third.
pub proof fn corner_number_counts_its_steps(x: int, y: int, z: int)
    requires
        0 <= x < 2,
        0 <= y < 2,
        0 <= z < 2,
    ensures
        corner_step(x + 2 * y + 4 * z, 0) == x,
        corner_step(x + 2 * y + 4 * z, 1) == y,
        corner_step(x + 2 * y + 4 * z, 2) == z,
{
}

/// Neighbours along the first axis stand next to each other in memory and in the texture,
/// rows of the grid behind each other, layers behind each other, and in the texture the
/// layers of a coefficient behind those of the one before.
pub proof fn grid_is_laid_out_row_by_row(g: ProbeGrid, x: int, y: int, z: int, c: int)
    ensures
        g.probe(0, 0, 0) == 0,
        g.probe(x + 1, y, z) == g.probe(x, y, z) + 1,
        g.probe(x, y + 1, z) == g.probe(x, y, z) + g.dx,
        g.probe(x, y, z + 1) == g.probe(x, y, z) + g.dx * g.dy,
        g.texel(0, 0, 0, 0) == 0,
        g.texel(x + 1, y, z, c) == g.texel(x, y, z, c) + 1,
        g.texel(x, y + 1, z, c) == g.texel(x, y, z, c) + g.dx,
        g.texel(x, y, z + 1, c) == g.texel(x, y, z, c) + g.dx * g.dy,
        g.texel(x, y, z, c + 1) == g.texel(x, y, z, c) + g.dx * g.dy * g.dz,
{
    let dx = g.dx as int;
    let dy = g.dy as int;
    let dz = g.dz as int;
    assert((y + 1) * dx == y * dx + dx) by (nonlinear_arith);
    assert((z + 1) * dx * dy == z * dx * dy + dx * dy) by (nonlinear_arith);
    assert((c * dz + (z + 1)) * dy * dx == (c * dz + z) * dy * dx + dx * dy) by (nonlinear_arith);
    assert(((c + 1) * dz + z) * dy * dx == (c * dz + z) * dy * dx + dx * dy * dz)
        by (nonlinear_arith);
    assert(0 * dx == 0 && 0 * dx * dy == 0 && (0 * dz + 0) * dy * dx == 0) by (nonlinear_arith);
}

/// A volume that holds the values `value(x, y, z, c, a)` is regrouped into these values:
/// each probe has its own coefficients, and the fourth value of its first coefficient as
/// its hit ratio.
pub proof fn regrouped_volume_holds_its_values<T>(
    g: ProbeGrid,
    pixels: Seq<T>,
    coeffs: Seq<[T; 3]>,
    hit_ratios: Seq<T>,
    value: spec_fn(int, int, int, int, int) -> T,
    x: int,
    y: int,
    z: int,
    c: int,
    a: int,
)
    requires
        g.holds(x, y, z),
        0 <= c < 9,
        0 <= a < 3,
        probe_taken(g, pixels, coeffs, hit_ratios, x, y, z),
        forall|u: int, v: int, w: int, k: int, i: int|
            g.holds(u, v, w) && 0 <= k < 9 && 0 <= i < 4 ==> pixels[#[trigger] g.texel(u, v, w, k)
                * 4 + i] == #[trigger] value(u, v, w, k, i),
    ensures
        coeffs[g.probe(x, y, z) * 9 + c]@[a] == value(x, y, z, c, a),
        hit_ratios[g.probe(x, y, z)] == value(x, y, z, 0, 3),
{
    let p = g.probe(x, y, z);
    assert(coeffs[p * SH_COEFF_COUNT + c]@[a] == pixels[g.texel(x, y, z, c) * 4 + a]);
    assert(pixels[g.texel(x, y, z, c) * 4 + a] == value(x, y, z, c, a));
    assert(pixels[g.texel(x, y, z, 0) * 4 + 3] == value(x, y, z, 0, 3));
}

/// Screening takes out of use exactly the used probes with an implausible coefficient, and
/// empties them. A probe whose coefficients are plausible, or that is out of use already,
/// is left as it is.
pub proof fn screening_takes_out_the_implausible(
    coeffs: Seq<[u32; 3]>,
    hit_ratios: Seq<u32>,
    new_coeffs: Seq<[u32; 3]>,
    new_ratios: Seq<u32>,
    p: int,
    c: int,
    a: int,
)
    requires
        screened(coeffs, hit_ratios, new_coeffs, new_ratios),
        0 <= p < hit_ratios.len(),
        0 <= c < 9,
        0 <= a < 3,
    ensures
        less(hit_ratios[p], 0) ==> new_ratios[p] == hit_ratios[p] && new_coeffs[p * 9 + c]@
            == coeffs[p * 9 + c]@,
        !less(hit_ratios[p], 0) && (less(TOO_BRIGHT_BITS, coeffs[p * 9 + c]@[a]) || less(
            coeffs[p * 9]@[a],
            0xbf80_0000,
        )) ==> new_ratios[p] == 0xbf80_0000 && new_coeffs[p * 9 + c]@[a] == 0,
        (forall|k: int, i: int|
            0 <= k < 9 && 0 <= i < 3 ==> !less(TOO_BRIGHT_BITS, #[trigger] coeffs[p * 9 + k]@[i]))
            && (forall|i: int| 0 <= i < 3 ==> !less(#[trigger] coeffs[p * 9 + 0]@[i], 0xbf80_0000))
            ==> new_ratios[p] == hit_ratios[p] && new_coeffs[p * 9 + c]@ == coeffs[p * 9 + c]@,
{
    let first = p * SH_COEFF_COUNT;
    assert(new_coeffs[p * SH_COEFF_COUNT + c]@ == (if flagged(coeffs, hit_ratios, p) {
        seq![0u32, 0u32, 0u32]
    } else {
        coeffs[p * SH_COEFF_COUNT + c]@
    }));
    if less(coeffs[p * 9]@[a], 0xbf80_0000) {
        assert(less(coeffs[p * SH_COEFF_COUNT]@[a], UNUSED_BITS));
    }
    if less(TOO_BRIGHT_BITS, coeffs[p * 9 + c]@[a]) {
        assert(less(TOO_BRIGHT_BITS, coeffs[p * SH_COEFF_COUNT + c]@[a]));
    }
    if degenerate(coeffs, p) {
        if exists|i: int| 0 <= i < 3 && less(#[trigger] coeffs[first]@[i], UNUSED_BITS) {
            let i = choose|i: int| 0 <= i < 3 && less(#[trigger] coeffs[first]@[i], UNUSED_BITS);
            assert(less(coeffs[p * 9 + 0]@[i], 0xbf80_0000));
        } else {
            let (k, i) = choose|k: int, i: int|
                0 <= k < SH_COEFF_COUNT && 0 <= i < 3 && less(
                    TOO_BRIGHT_BITS,
                    #[trigger] coeffs[p * SH_COEFF_COUNT + k]@[i],
                );
            assert(less(TOO_BRIGHT_BITS, coeffs[p * 9 + k]@[i]));
        }
    }
}

/// The probes that screening counts are the ones that it takes out of use.
pub proof fn screened_probes_are_counted(
    coeffs: Seq<[u32; 3]>,
    hit_ratios: Seq<u32>,
    new_coeffs: Seq<[u32; 3]>,
    new_ratios: Seq<u32>,
    n: nat,
)
    requires
        screened(coeffs, hit_ratios, new_coeffs, new_ratios),
        n <= hit_ratios.len(),
    ensures
        unused_count(new_ratios, n) == unused_count(hit_ratios, n) + flagged_count(
            coeffs,
            hit_ratios,
            n,
        ),
    decreases n,
{
    if n > 0 {
        screened_probes_are_counted(coeffs, hit_ratios, new_coeffs, new_ratios, (n - 1) as nat);
        assert(new_ratios[n - 1] == (if flagged(coeffs, hit_ratios, n - 1) {
            UNUSED_BITS
        } else {
            hit_ratios[n - 1]
        }));
    }
}

/// A grid is never too coarse or too fine, and within that as near as can be to what the
/// spacing asks for.
pub proof fn grid_is_as_fine_as_asked(cells: u32, other: u32)
    requires
        MIN_DIM <= other <= MAX_DIM,
    ensures
        MIN_DIM <= dim_of(cells) <= MAX_DIM,
        other <= cells ==> other <= dim_of(cells) <= cells,
        cells <= other ==> cells <= dim_of(cells) <= other,
{
}

/// Shaders find the origin, the spacing and the size of a volume one after the other, four
/// words each.
pub proof fn volume_parts_are_in_place(v: ProbeVolumeInfo, c: int)
    requires
        0 <= c < 4,
    ensures
        v.laid_out().len() == 12,
        v.laid_out()[c] == v.origin@[c],
        v.laid_out()[4 + c] == v.spacing@[c],
        v.laid_out()[8 + c] == v.dims@[c],
{
}

} // verus!
