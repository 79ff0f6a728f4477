use vstd::prelude::*;
use crate::color::Color;
use crate::geometry::Vec2;
use crate::nearest::{first_nearest, is_first_nearest, lemma_first_nearest_unique, lemma_tie_keeps_first};
use crate::raster::{cell_index, lemma_cell_index_in_range, RasterBuffer};
use crate::scalar::Scalar;

verus! {

/// A point of the unit square together with the colour of the cell around it.
#[derive(Clone, Copy, Debug, PartialEq, Eq, Structural)]
pub struct Seed {
    pub pos: Vec2<Scalar>,
    pub color: Color,
}

/// The seeds of a diagram, in the order in which they were made.
#[derive(Debug)]
pub struct Voronoi {
    pub seeds: Vec<Seed>,
}

/// Why a diagram could not be made or used.
#[derive(Clone, Copy, Debug, PartialEq, Eq, Structural)]
pub enum VoronoiError {
    /// The nearest seed was asked for and there is no seed.
    EmptySeedSet,
    /// The random draws handed over are not five for each seed.
    DrawCount,
}

/// The draws that one seed takes.
pub const DRAWS_PER_SEED: u64 = 5;

/// The seed that the draws `5 * i` to `5 * i + 4` make: two for its place,
/// then three for its colour.
pub open spec fn seed_from_draws(draws: Seq<Scalar>, i: int) -> Seed {
    Seed {
        pos: Vec2 { x: draws[5 * i], y: draws[5 * i + 1] },
        color: Color { r: draws[5 * i + 2], g: draws[5 * i + 3], b: draws[5 * i + 4] },
    }
}

/// Whether `f` gives one result only for each pair of arguments.
pub open spec fn single_valued<A, B, C, F: Fn(A, B) -> C>(f: &F) -> bool {
    forall|a: A, b: B, r1: C, r2: C| #[trigger]
        f.ensures((a, b), r1) && #[trigger] f.ensures((a, b), r2) ==> r1 == r2
}

impl Voronoi {
    /// Whether `d` holds, for each seed in order, a distance that `dist`
    /// gives from that seed to `pos`.
    pub open spec fn measured<F: Fn(Vec2<Scalar>, Vec2<Scalar>) -> Scalar>(
        &self,
        pos: Vec2<Scalar>,
        dist: &F,
        d: Seq<Scalar>,
    ) -> bool {
        &&& d.len() == self.seeds@.len()
        &&& forall|j: int|
            #![trigger d[j]]
            #![trigger self.seeds@[j]]
            0 <= j < d.len() ==> dist.ensures((self.seeds@[j].pos, pos), d[j])
    }

    /// Whether seed number `k` is the one nearest to `pos` by distances that
    /// `dist` gives, the first of the seeds that share the least distance.
    pub open spec fn chooses<F: Fn(Vec2<Scalar>, Vec2<Scalar>) -> Scalar>(
        &self,
        pos: Vec2<Scalar>,
        dist: &F,
        k: int,
    ) -> bool {
        exists|d: Seq<Scalar>| #[trigger] self.measured(pos, dist, d) && is_first_nearest(d, k)
    }

    /// Whether `color` is what the cell in column `x` of row `y` of a grid of
    /// size `dim` takes: the colour of the seed chosen for the point whose
    /// coordinates `ratio` gives for `x` of `dim.x` and `y` of `dim.y`.
    pub open spec fn paints<
        R: Fn(u32, u32) -> Scalar,
        F: Fn(Vec2<Scalar>, Vec2<Scalar>) -> Scalar,
    >(&self, dim: Vec2<u32>, x: int, y: int, ratio: &R, dist: &F, color: Color) -> bool {
        exists|tx: Scalar, ty: Scalar, k: int|
            #![trigger ratio.ensures((x as u32, dim.x), tx), ratio.ensures((y as u32, dim.y), ty), self.seeds@[k]]
            ratio.ensures((x as u32, dim.x), tx) && ratio.ensures((y as u32, dim.y), ty)
                && self.chooses(Vec2 { x: tx, y: ty }, dist, k) && color == self.seeds@[k].color
    }

    /// Whether `img` is a picture of the diagram of size `dim`: each of its
    /// cells has the colour that `paints` names.
    pub open spec fn renders<
        R: Fn(u32, u32) -> Scalar,
        F: Fn(Vec2<Scalar>, Vec2<Scalar>) -> Scalar,
    >(&self, dim: Vec2<u32>, ratio: &R, dist: &F, img: RasterBuffer) -> bool {
        &&& img.dim() == dim
        &&& img.cells().len() == dim.x * dim.y
        &&& forall|x: int, y: int|
            0 <= x < dim.x && 0 <= y < dim.y ==> self.paints(
                dim,
                x,
                y,
                ratio,
                dist,
                #[trigger] img.at(x, y),
            )
    }

    /// The diagram of `count` seeds that the random draws make. Seed `i` takes
    /// the draws `5 * i` to `5 * i + 4` in order: the two coordinates of its
    /// place, then the red, green and blue of its colour.
    ///
    /// Fails exactly if there are not five draws for each seed.
    pub fn generate(count: u32, draws: &Vec<Scalar>) -> (r: Result<Voronoi, VoronoiError>)
        ensures
            r is Ok <==> draws@.len() == 5 * count,
            r matches Err(e) ==> e == VoronoiError::DrawCount,
            r matches Ok(v) ==> v.seeds@.len() == count && forall|i: int|
                0 <= i < count ==> #[trigger] v.seeds@[i] == seed_from_draws(draws@, i),
    {
        if draws.len() as u64 != DRAWS_PER_SEED * (count as u64) {
            return Err(VoronoiError::DrawCount);
        }
        let mut seeds: Vec<Seed> = Vec::new();
        let mut i: usize = 0;
        while i < count as usize
            invariant
                i <= count,
                draws@.len() == 5 * count,
                draws@.len() <= usize::MAX,
                seeds@.len() == i,
                forall|k: int| 0 <= k < i ==> #[trigger] seeds@[k] == seed_from_draws(draws@, k),
            decreases count - i,
        {
            let at: usize = 5 * i;
            let pos = Vec2::new(draws[at], draws[at + 1]);
            let color = Color::new(draws[at + 2], draws[at + 3], draws[at + 4]);
            seeds.push(Seed { pos, color });
            i += 1;
        }
        Ok(Voronoi { seeds })
    }

    /// The distance of every seed from `pos`, in the order of the seeds.
    pub fn distances<F: Fn(Vec2<Scalar>, Vec2<Scalar>) -> Scalar>(
        &self,
        pos: Vec2<Scalar>,
        dist: &F,
    ) -> (d: Vec<Scalar>)
        requires
            forall|a: Vec2<Scalar>, b: Vec2<Scalar>| dist.requires((a, b)),
        ensures
            self.measured(pos, dist, d@),
    {
        let mut d: Vec<Scalar> = Vec::new();
        let mut j: usize = 0;
        while j < self.seeds.len()
            invariant
                j <= self.seeds@.len(),
                d@.len() == j,
                forall|a: Vec2<Scalar>, b: Vec2<Scalar>| dist.requires((a, b)),
                forall|k: int|
                    0 <= k < j ==> dist.ensures((self.seeds@[k].pos, pos), #[trigger] d@[k]),
            decreases self.seeds@.len() - j,
        {
            let x = dist(self.seeds[j].pos, pos);
            d.push(x);
            j += 1;
        }
        d
    }

    /// The seed nearest to `pos` by the distance `dist`. Of several seeds at
    /// the same least distance it is the first in the order of the seeds.
    ///
    /// There has to be a seed: to ask for the nearest of none is a mistake of
    /// the caller. `try_closest_seed` tests for it.
    pub fn closest_seed<F: Fn(Vec2<Scalar>, Vec2<Scalar>) -> Scalar>(
        &self,
        pos: Vec2<Scalar>,
        dist: &F,
    ) -> (seed: &Seed)
        requires
            self.seeds@.len() > 0,
            forall|a: Vec2<Scalar>, b: Vec2<Scalar>| dist.requires((a, b)),
        ensures
            exists|k: int| #[trigger] self.chooses(pos, dist, k) && *seed == self.seeds@[k],
    {
        let d = self.distances(pos, dist);
        let k: usize = first_nearest(&d);
        proof {
            assert(self.measured(pos, dist, d@));
            assert(self.chooses(pos, dist, k as int));
        }
        &self.seeds[k]
    }

    /// The seed that `closest_seed` gives, or the error `EmptySeedSet` exactly
    /// if there is no seed.
    pub fn try_closest_seed<F: Fn(Vec2<Scalar>, Vec2<Scalar>) -> Scalar>(
        &self,
        pos: Vec2<Scalar>,
        dist: &F,
    ) -> (r: Result<&Seed, VoronoiError>)
        requires
            forall|a: Vec2<Scalar>, b: Vec2<Scalar>| dist.requires((a, b)),
        ensures
            r is Err <==> self.seeds@.len() == 0,
            r matches Err(e) ==> e == VoronoiError::EmptySeedSet,
            r matches Ok(seed) ==> exists|k: int| #[trigger]
                self.chooses(pos, dist, k) && *seed == self.seeds@[k],
    {
        if self.seeds.len() == 0 {
            Err(VoronoiError::EmptySeedSet)
        } else {
            Ok(self.closest_seed(pos, dist))
        }
    }

    /// The picture that `to_image` gives, or the error `EmptySeedSet` exactly
    /// if the grid has a cell and there is no seed.
    pub fn try_to_image<R: Fn(u32, u32) -> Scalar, F: Fn(Vec2<Scalar>, Vec2<Scalar>) -> Scalar>(
        &self,
        dim: Vec2<u32>,
        ratio: &R,
        dist: &F,
    ) -> (r: Result<RasterBuffer, VoronoiError>)
        requires
            dim.x * dim.y <= usize::MAX,
            forall|n: u32, d: u32| n < d ==> ratio.requires((n, d)),
            forall|a: Vec2<Scalar>, b: Vec2<Scalar>| dist.requires((a, b)),
        ensures
            r is Err <==> self.seeds@.len() == 0 && dim.x > 0 && dim.y > 0,
            r matches Err(e) ==> e == VoronoiError::EmptySeedSet,
            r matches Ok(img) ==> self.renders(dim, ratio, dist, img),
    {
        if self.seeds.len() == 0 && dim.x > 0 && dim.y > 0 {
            Err(VoronoiError::EmptySeedSet)
        } else {
            Ok(self.to_image(dim, ratio, dist))
        }
    }

    /// The picture of the diagram on a grid `dim.x` wide and `dim.y` high.
    ///
    /// The cell in column `x` of row `y` stands for the point whose
    /// coordinates are `ratio(x, dim.x)` and `ratio(y, dim.y)`, and takes the
    /// colour of the seed that `closest_seed` gives for that point. `ratio` is
    /// only ever asked for a numerator that is less than its denominator.
    ///
    /// Where the grid has a cell there has to be a seed. `try_to_image` tests
    /// for it.
    pub fn to_image<R: Fn(u32, u32) -> Scalar, F: Fn(Vec2<Scalar>, Vec2<Scalar>) -> Scalar>(
        &self,
        dim: Vec2<u32>,
        ratio: &R,
        dist: &F,
    ) -> (img: RasterBuffer)
        requires
            self.seeds@.len() > 0 || dim.x == 0 || dim.y == 0,
            dim.x * dim.y <= usize::MAX,
            forall|n: u32, d: u32| n < d ==> ratio.requires((n, d)),
            forall|a: Vec2<Scalar>, b: Vec2<Scalar>| dist.requires((a, b)),
        ensures
            self.renders(dim, ratio, dist, img),
    {
        let mut cells: Vec<Color> = Vec::new();
        let mut y: u32 = 0;
        while y < dim.y
            invariant
                y <= dim.y,
                dim.x * dim.y <= usize::MAX,
                self.seeds@.len() > 0 || dim.x == 0 || dim.y == 0,
                forall|n: u32, d: u32| n < d ==> ratio.requires((n, d)),
                forall|a: Vec2<Scalar>, b: Vec2<Scalar>| dist.requires((a, b)),
                cells@.len() == y * dim.x,
                forall|i: int, j: int|
                    0 <= i < dim.x && 0 <= j < y ==> self.paints(
                        dim,
                        i,
                        j,
                        ratio,
                        dist,
                        cells@[#[trigger] cell_index(dim.x, i, j)],
                    ),
            decreases dim.y - y,
        {
            let mut x: u32 = 0;
            while x < dim.x
                invariant
                    x <= dim.x,
                    y < dim.y,
                    dim.x * dim.y <= usize::MAX,
                    self.seeds@.len() > 0 || dim.x == 0 || dim.y == 0,
                    forall|n: u32, d: u32| n < d ==> ratio.requires((n, d)),
                    forall|a: Vec2<Scalar>, b: Vec2<Scalar>| dist.requires((a, b)),
                    cells@.len() == cell_index(dim.x, x as int, y as int),
                    forall|i: int, j: int|
                        0 <= i < dim.x && (0 <= j < y || (j == y && i < x)) ==> self.paints(
                            dim,
                            i,
                            j,
                            ratio,
                            dist,
                            cells@[#[trigger] cell_index(dim.x, i, j)],
                        ),
                decreases dim.x - x,
            {
                let tx = ratio(x, dim.x);
                let ty = ratio(y, dim.y);
                let ghost before = cells@;
                let seed = self.closest_seed(Vec2::new(tx, ty), dist);
                cells.push(seed.color);
                proof {
                    let k = choose|k: int| #[trigger]
                        self.chooses(Vec2 { x: tx, y: ty }, dist, k) && *seed == self.seeds@[k];
                    assert(self.paints(dim, x as int, y as int, ratio, dist, seed.color));
                }
                proof {
                    lemma_cell_index_in_range(dim.x, dim.y, x as int, y as int);
                    assert forall|i: int, j: int|
                        0 <= i < dim.x && (0 <= j < y || (j == y && i < x + 1)) implies self.paints(
                        dim,
                        i,
                        j,
                        ratio,
                        dist,
                        cells@[#[trigger] cell_index(dim.x, i, j)],
                    ) by {
                        if j == y && i == x {
                        } else {
                            lemma_cell_index_order(dim.x, i, j, x as int, y as int);
                            assert(cells@[cell_index(dim.x, i, j)] == before[cell_index(
                                dim.x,
                                i,
                                j,
                            )]);
                        }
                    }
                }
                x += 1;
            }
            proof {
                assert(cell_index(dim.x, dim.x as int, y as int) == (y + 1) * dim.x)
                    by (nonlinear_arith);
            }
            y += 1;
        }
        proof {
            assert(y * dim.x == dim.x * dim.y) by (nonlinear_arith)
                requires
                    y == dim.y,
            ;
        }
        RasterBuffer::from_cells(dim, cells)
    }
}

/// With a distance that gives one result for each pair of points, only one
/// seed can be chosen for a point.
pub proof fn lemma_chooses_unique<F: Fn(Vec2<Scalar>, Vec2<Scalar>) -> Scalar>(
    v: &Voronoi,
    pos: Vec2<Scalar>,
    dist: &F,
    k1: int,
    k2: int,
)
    requires
        single_valued(dist),
        v.chooses(pos, dist, k1),
        v.chooses(pos, dist, k2),
    ensures
        k1 == k2,
{
    let d1 = choose|d: Seq<Scalar>| #[trigger] v.measured(pos, dist, d) && is_first_nearest(d, k1);
    let d2 = choose|d: Seq<Scalar>| #[trigger] v.measured(pos, dist, d) && is_first_nearest(d, k2);
    assert forall|j: int| 0 <= j < d1.len() implies d1[j] == d2[j] by {
        assert(dist.ensures((v.seeds@[j].pos, pos), d1[j]));
        assert(dist.ensures((v.seeds@[j].pos, pos), d2[j]));
    }
    assert(d1 =~= d2);
    lemma_first_nearest_unique(d1, k1, k2);
}

/// Of two seeds at the same place the later one is never chosen, whatever
/// their colours: the seed that comes first in the order of the seeds wins.
pub proof fn lemma_same_place_keeps_first<F: Fn(Vec2<Scalar>, Vec2<Scalar>) -> Scalar>(
    v: &Voronoi,
    pos: Vec2<Scalar>,
    dist: &F,
    i: int,
    j: int,
    k: int,
)
    requires
        single_valued(dist),
        0 <= i < j < v.seeds@.len(),
        v.seeds@[i].pos == v.seeds@[j].pos,
        v.chooses(pos, dist, k),
    ensures
        k != j,
{
    let d = choose|d: Seq<Scalar>| #[trigger] v.measured(pos, dist, d) && is_first_nearest(d, k);
    assert(dist.ensures((v.seeds@[i].pos, pos), d[i]));
    assert(dist.ensures((v.seeds@[j].pos, pos), d[j]));
    lemma_tie_keeps_first(d, k, i, j);
}

/// A seed at the very point asked about is chosen before every later seed,
/// and so the first of several seeds at that point. This holds of a distance
/// that is zero from the point to itself and is never less than zero, where
/// every seed before the one at the point is farther than zero from it.
pub proof fn lemma_seed_at_the_point_is_chosen<F: Fn(Vec2<Scalar>, Vec2<Scalar>) -> Scalar>(
    v: &Voronoi,
    pos: Vec2<Scalar>,
    dist: &F,
    i: int,
    k: int,
)
    requires
        0 <= i < v.seeds@.len(),
        v.seeds@[i].pos == pos,
        forall|r: Scalar| #[trigger] dist.ensures((pos, pos), r) ==> r.is_zero(),
        forall|a: Vec2<Scalar>, b: Vec2<Scalar>, r: Scalar| #[trigger]
            dist.ensures((a, b), r) ==> r.is_nan() || r.rank() >= 0,
        forall|s: int, r: Scalar|
            0 <= s < i && #[trigger] dist.ensures((v.seeds@[s].pos, pos), r) ==> !r.is_nan()
                && r.rank() > 0,
        v.chooses(pos, dist, k),
    ensures
        k == i,
{
    let d = choose|d: Seq<Scalar>| #[trigger] v.measured(pos, dist, d) && is_first_nearest(d, k);
    assert(dist.ensures((v.seeds@[i].pos, pos), d[i]));
    assert(dist.ensures((v.seeds@[k].pos, pos), d[k]));
    assert(d[i].is_zero());
    if k < i {
        assert(!d[i].less(d[k]));
    } else if k > i {
        assert(d[k].less(d[i]) || d[i].is_nan());
    }
}

/// With a ratio and a distance that each give one result for the same
/// arguments, a cell can take one colour only.
pub proof fn lemma_paints_unique<
    R: Fn(u32, u32) -> Scalar,
    F: Fn(Vec2<Scalar>, Vec2<Scalar>) -> Scalar,
>(v: &Voronoi, dim: Vec2<u32>, x: int, y: int, ratio: &R, dist: &F, c1: Color, c2: Color)
    requires
        single_valued(ratio),
        single_valued(dist),
        v.paints(dim, x, y, ratio, dist, c1),
        v.paints(dim, x, y, ratio, dist, c2),
    ensures
        c1 == c2,
{
    let (tx1, ty1, k1) = choose|tx: Scalar, ty: Scalar, k: int|
        #![trigger ratio.ensures((x as u32, dim.x), tx), ratio.ensures((y as u32, dim.y), ty), v.seeds@[k]]
        ratio.ensures((x as u32, dim.x), tx) && ratio.ensures((y as u32, dim.y), ty) && v.chooses(
            Vec2 { x: tx, y: ty },
            dist,
            k,
        ) && c1 == v.seeds@[k].color;
    let (tx2, ty2, k2) = choose|tx: Scalar, ty: Scalar, k: int|
        #![trigger ratio.ensures((x as u32, dim.x), tx), ratio.ensures((y as u32, dim.y), ty), v.seeds@[k]]
        ratio.ensures((x as u32, dim.x), tx) && ratio.ensures((y as u32, dim.y), ty) && v.chooses(
            Vec2 { x: tx, y: ty },
            dist,
            k,
        ) && c2 == v.seeds@[k].color;
    assert(tx1 == tx2);
    assert(ty1 == ty2);
    lemma_chooses_unique(v, Vec2 { x: tx1, y: ty1 }, dist, k1, k2);
}

/// Rendering is a function of the seeds and the size: with a ratio and a
/// distance that each give one result for the same arguments, any two
/// pictures of one diagram at one size hold the same colours in every cell.
pub proof fn lemma_render_deterministic<
    R: Fn(u32, u32) -> Scalar,
    F: Fn(Vec2<Scalar>, Vec2<Scalar>) -> Scalar,
>(v: &Voronoi, dim: Vec2<u32>, ratio: &R, dist: &F, a: RasterBuffer, b: RasterBuffer)
    requires
        single_valued(ratio),
        single_valued(dist),
        v.renders(dim, ratio, dist, a),
        v.renders(dim, ratio, dist, b),
    ensures
        a.dim() == b.dim(),
        a.cells() == b.cells(),
{
    assert forall|p: int| 0 <= p < a.cells().len() implies a.cells()[p] == b.cells()[p] by {
        let w = dim.x as int;
        let x = p % w;
        let y = p / w;
        assert(w > 0) by (nonlinear_arith)
            requires
                0 <= p < w * dim.y,
        ;
        assert(p == y * w + x && 0 <= x < w && 0 <= y < dim.y) by (nonlinear_arith)
            requires
                0 <= p < w * dim.y,
                w > 0,
                x == p % w,
                y == p / w,
        ;
        assert(cell_index(dim.x, x, y) == p);
        lemma_paints_unique(v, dim, x, y, ratio, dist, a.at(x, y), b.at(x, y));
    }
    assert(a.cells() =~= b.cells());
}

/// A diagram of one seed is of one colour: every cell of every picture of it
/// has the colour of that seed.
pub proof fn lemma_single_seed_fills<
    R: Fn(u32, u32) -> Scalar,
    F: Fn(Vec2<Scalar>, Vec2<Scalar>) -> Scalar,
>(v: &Voronoi, dim: Vec2<u32>, ratio: &R, dist: &F, img: RasterBuffer)
    requires
        v.seeds@.len() == 1,
        v.renders(dim, ratio, dist, img),
    ensures
        forall|x: int, y: int|
            0 <= x < dim.x && 0 <= y < dim.y ==> #[trigger] img.at(x, y) == v.seeds@[0].color,
{
    assert forall|x: int, y: int| 0 <= x < dim.x && 0 <= y < dim.y implies #[trigger] img.at(x, y)
        == v.seeds@[0].color by {
        assert(v.paints(dim, x, y, ratio, dist, img.at(x, y)));
    }
}

/// The point that stands for a cell never reaches the far edge. Column `x`
/// of a grid `width` wide stands for the fraction `x / width`; the last
/// column stands for the greatest of them, `(width - 1) / width`, and that is
/// less than one. Rows likewise. The fractions are compared by products.
pub proof fn lemma_sample_below_one(width: u32, x: u32)
    requires
        x < width,
    ensures
        x * width <= (width - 1) * width,
        (width - 1) * 1 < 1 * width,
{
    assert(x * width <= (width - 1) * width) by (nonlinear_arith)
        requires
            0 <= x <= width - 1,
    ;
}

/// Cells are kept in reading order: a cell of an earlier row, or one further
/// left in the same row, stands earlier.
pub proof fn lemma_cell_index_order(width: u32, i: int, j: int, x: int, y: int)
    requires
        0 <= i < width,
        0 <= x <= width,
        0 <= j,
        j < y || (j == y && i < x),
    ensures
        0 <= cell_index(width, i, j) < cell_index(width, x, y),
{
    assert(0 <= j * width) by (nonlinear_arith)
        requires
            0 <= j,
            0 <= width,
    ;
    if j < y {
        assert(j * width + width <= y * width) by (nonlinear_arith)
            requires
                j < y,
                0 <= width,
        ;
    }
}

} // verus!
