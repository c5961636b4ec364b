//! The inducing grid as an ordered Cartesian product.
//!
//! A grid has one axis per input feature and a number of inducing points on
//! each axis. Its points are numbered with the first axis slowest, which is
//! the order of the rows of a Kronecker product of per-axis factors.

use super::EllipticalProcessError;
use vstd::arithmetic::div_mod::lemma_div_denominator;
use vstd::arithmetic::div_mod::lemma_fundamental_div_mod;
use vstd::arithmetic::div_mod::lemma_fundamental_div_mod_converse;
use vstd::arithmetic::div_mod::lemma_mod_bound;
use vstd::arithmetic::power2::lemma2_to64;
use vstd::arithmetic::power2::lemma_pow2_adds;
use vstd::arithmetic::power2::lemma_pow2_pos;
use vstd::arithmetic::power2::lemma_pow2_unfold;
use vstd::arithmetic::power2::pow2;
use vstd::prelude::*;

verus! {

/// The number of points of a grid with `counts[a]` points on axis `a`.
pub open spec fn volume(counts: Seq<usize>) -> nat
    decreases counts.len(),
{
    if counts.len() == 0 {
        1
    } else {
        volume(counts.drop_last()) * (counts.last() as nat)
    }
}

/// The number of inducing points on each axis for `n` inputs of `features`
/// features: `n / 2^features`, and never fewer than two.
pub open spec fn axis_points(n: nat, features: nat) -> nat {
    let share = n / pow2(features);
    if share < 2 {
        2
    } else {
        share
    }
}

/// The per-axis counts of the grid that is laid over `n` inputs.
pub open spec fn uniform_counts(n: nat, features: nat) -> Seq<usize> {
    Seq::new(features, |a: int| axis_points(n, features) as usize)
}

/// `position` names a point of the grid: one coordinate per axis, each below
/// the count of its axis.
pub open spec fn in_grid(counts: Seq<usize>, position: Seq<usize>) -> bool {
    &&& position.len() == counts.len()
    &&& forall|a: int| 0 <= a < counts.len() ==> position[a] < counts[a]
}

/// The number of the point at `position`, first axis slowest.
pub open spec fn flat_index(counts: Seq<usize>, position: Seq<usize>) -> nat
    decreases counts.len(),
{
    if counts.len() == 0 {
        0
    } else {
        flat_index(counts.drop_last(), position.drop_last()) * (counts.last() as nat) + (
        position.last() as nat)
    }
}

/// The position of point number `index`, first axis slowest.
pub open spec fn position_at(counts: Seq<usize>, index: nat) -> Seq<usize>
    decreases counts.len(),
{
    if counts.len() == 0 {
        Seq::empty()
    } else {
        position_at(counts.drop_last(), index / (counts.last() as nat)).push(
            (index % (counts.last() as nat)) as usize,
        )
    }
}

/// The number of points along an axis that carry an interpolation weight
/// for one input.
pub const STENCIL: usize = 4;

/// `cells` names a cell of the grid: on every axis the point at which the
/// cell begins, which is not the last point of the axis.
pub open spec fn in_cells(counts: Seq<usize>, cells: Seq<usize>) -> bool {
    &&& cells.len() == counts.len()
    &&& forall|a: int| 0 <= a < counts.len() ==> cells[a] + 1 < counts[a]
}

/// One of the four points of an axis of `count` points around the cell that
/// begins at `cell`: the point before the cell, the two ends of the cell and
/// the point after it, by `offset` from zero to three. A point beyond the
/// axis falls on the end of the axis.
pub open spec fn stencil_point(count: usize, cell: usize, offset: usize) -> usize {
    let point = cell + offset - 1;
    if point < 0 {
        0
    } else if point >= count {
        (count - 1) as usize
    } else {
        point as usize
    }
}

/// The lattice of the corners of a stencil: four to an axis.
pub open spec fn stencil_counts(axes: nat) -> Seq<usize> {
    Seq::new(axes, |a: int| STENCIL)
}

/// The point of the grid at corner `choice` of the stencil around `cells`.
pub open spec fn corner(counts: Seq<usize>, cells: Seq<usize>, choice: Seq<usize>) -> Seq<usize> {
    Seq::new(counts.len(), |a: int| stencil_point(counts[a], cells[a], choice[a]))
}

/// The number of the inducing point at corner number `c` of the stencil
/// around `cells`, the corners numbered first axis slowest.
pub open spec fn nearby_point(counts: Seq<usize>, cells: Seq<usize>, c: nat) -> nat {
    flat_index(counts, corner(counts, cells, position_at(stencil_counts(counts.len()), c)))
}

/// Every axis has at least one point.
pub open spec fn populated(counts: Seq<usize>) -> bool {
    forall|a: int| 0 <= a < counts.len() ==> counts[a] >= 1
}

proof fn lemma_volume_positive(counts: Seq<usize>)
    requires
        populated(counts),
    ensures
        volume(counts) >= 1,
    decreases counts.len(),
{
    if counts.len() > 0 {
        lemma_volume_positive(counts.drop_last());
        assert(volume(counts.drop_last()) * (counts.last() as nat) >= 1) by (nonlinear_arith)
            requires
                volume(counts.drop_last()) >= 1,
                counts.last() >= 1,
        ;
    }
}

proof fn lemma_volume_of_prefix(counts: Seq<usize>, k: int)
    requires
        populated(counts),
        0 <= k <= counts.len(),
    ensures
        1 <= volume(counts.take(k)) <= volume(counts),
    decreases counts.len() - k,
{
    lemma_volume_positive(counts.take(k));
    if k == counts.len() {
        assert(counts.take(k) =~= counts);
    } else {
        lemma_volume_of_prefix(counts, k + 1);
        assert(counts.take(k + 1).drop_last() =~= counts.take(k));
        assert(volume(counts.take(k)) <= volume(counts.take(k)) * (counts[k] as nat))
            by (nonlinear_arith)
            requires
                counts[k] >= 1,
        ;
    }
}

/// The number of a point of the grid is below the number of its points.
pub proof fn lemma_flat_index_bound(counts: Seq<usize>, position: Seq<usize>)
    requires
        in_grid(counts, position),
    ensures
        flat_index(counts, position) < volume(counts),
    decreases counts.len(),
{
    if counts.len() > 0 {
        lemma_flat_index_bound(counts.drop_last(), position.drop_last());
        let high = flat_index(counts.drop_last(), position.drop_last());
        let rest = volume(counts.drop_last());
        let width = counts.last() as nat;
        let low = position.last() as nat;
        assert(high * width + low < rest * width) by (nonlinear_arith)
            requires
                high < rest,
                low < width,
        ;
    }
}

/// Numbering a grid loses nothing: the position of point number `index` is a
/// point of the grid whose number is `index`.
pub proof fn lemma_index_round_trip(counts: Seq<usize>, index: nat)
    requires
        populated(counts),
        index < volume(counts),
    ensures
        in_grid(counts, position_at(counts, index)),
        flat_index(counts, position_at(counts, index)) == index,
    decreases counts.len(),
{
    if counts.len() > 0 {
        let width = counts.last() as nat;
        let rest = volume(counts.drop_last());
        let high = index / width;
        let low = index % width;
        lemma_fundamental_div_mod(index as int, width as int);
        lemma_mod_bound(index as int, width as int);
        assert(high < rest) by (nonlinear_arith)
            requires
                index == width * high + low,
                index < rest * width,
                0 <= low,
                width > 0,
        ;
        lemma_index_round_trip(counts.drop_last(), high);
        let position = position_at(counts, index);
        assert(position.drop_last() =~= position_at(counts.drop_last(), high));
        assert(position.last() == low);
        assert(high * width + low == index) by (nonlinear_arith)
            requires
                index == width * high + low,
        ;
        assert forall|a: int| 0 <= a < counts.len() implies position[a] < counts[a] by {
            if a < counts.len() - 1 {
                assert(position[a] == position.drop_last()[a]);
                assert(counts[a] == counts.drop_last()[a]);
            }
        }
    }
}

/// Two points of a grid with the same number are the same point: the
/// position of the number of a point is that point.
pub proof fn lemma_position_round_trip(counts: Seq<usize>, position: Seq<usize>)
    requires
        in_grid(counts, position),
    ensures
        position_at(counts, flat_index(counts, position)) == position,
    decreases counts.len(),
{
    if counts.len() == 0 {
        assert(position =~= Seq::empty());
    } else {
        let width = counts.last() as nat;
        let high = flat_index(counts.drop_last(), position.drop_last());
        let low = position.last() as nat;
        lemma_position_round_trip(counts.drop_last(), position.drop_last());
        lemma_fundamental_div_mod_converse(
            (high * width + low) as int,
            width as int,
            high as int,
            low as int,
        );
        assert(position_at(counts, flat_index(counts, position)) =~= position.drop_last().push(
            position.last(),
        ));
        assert(position.drop_last().push(position.last()) =~= position);
    }
}

/// An inducing grid: the number of inducing points on each axis, and the
/// number of points of the grid.
#[derive(Debug)]
pub struct Grid {
    points: Vec<usize>,
    size: usize,
}

impl View for Grid {
    type V = Seq<usize>;

    closed spec fn view(&self) -> Seq<usize> {
        self.points@
    }
}

impl Clone for Grid {
    fn clone(&self) -> (copy: Self)
        ensures
            copy@ == self@,
    {
        proof {
            use_type_invariant(self);
        }
        let points = self.points.clone();
        assert(points@ =~= self.points@);
        Grid { points, size: self.size }
    }
}

impl Grid {
    #[verifier::type_invariant]
    spec fn sound(self) -> bool {
        &&& self.points@.len() > 0
        &&& forall|a: int| 0 <= a < self.points@.len() ==> self.points@[a] >= 2
        &&& self.size == volume(self.points@)
    }

    /// A grid of `axes` axes with `count` inducing points on each.
    ///
    /// A grid without axes is `EmptyData`. A grid with more points than can
    /// be counted is a `LinearAlgebraFailure`.
    pub fn uniform(count: usize, axes: usize) -> (grid: Result<Grid, EllipticalProcessError>)
        requires
            count >= 2,
        ensures
            match grid {
                Ok(g) => {
                    &&& axes > 0
                    &&& g@ == Seq::new(axes as nat, |a: int| count)
                    &&& volume(g@) <= usize::MAX
                },
                Err(e) => if axes == 0 {
                    e == EllipticalProcessError::EmptyData
                } else {
                    &&& e == EllipticalProcessError::LinearAlgebraFailure
                    &&& volume(Seq::new(axes as nat, |a: int| count)) > usize::MAX
                },
            },
    {
        if axes == 0 {
            return Err(EllipticalProcessError::EmptyData);
        }
        let ghost all = Seq::new(axes as nat, |a: int| count);
        let mut points: Vec<usize> = Vec::new();
        let mut size: usize = 1;
        let mut axis: usize = 0;
        while axis < axes
            invariant
                axis <= axes,
                count >= 2,
                all == Seq::new(axes as nat, |a: int| count),
                points@ == all.take(axis as int),
                size == volume(points@),
            decreases axes - axis,
        {
            proof {
                assert(all.take(axis + 1).drop_last() =~= all.take(axis as int));
                assert(all.take(axis + 1).last() == count);
                lemma_volume_of_prefix(all, axis + 1);
            }
            match size.checked_mul(count) {
                None => {
                    return Err(EllipticalProcessError::LinearAlgebraFailure);
                },
                Some(larger) => {
                    size = larger;
                },
            }
            points.push(count);
            axis += 1;
            assert(points@ =~= all.take(axis as int));
        }
        assert(points@ =~= all);
        Ok(Grid { points, size })
    }

    /// Lays a grid over `n` inputs of `features` features each, with
    /// `axis_points(n, features)` points on every axis.
    ///
    /// Inputs without features are `EmptyData`. A grid with more points than
    /// can be counted is a `LinearAlgebraFailure`.
    pub fn for_inputs(n: usize, features: usize) -> (grid: Result<Grid, EllipticalProcessError>)
        ensures
            match grid {
                Ok(g) => {
                    &&& features > 0
                    &&& g@ == uniform_counts(n as nat, features as nat)
                    &&& volume(g@) <= usize::MAX
                },
                Err(e) => if features == 0 {
                    e == EllipticalProcessError::EmptyData
                } else {
                    &&& e == EllipticalProcessError::LinearAlgebraFailure
                    &&& volume(uniform_counts(n as nat, features as nat)) > usize::MAX
                },
            },
    {
        let count = points_on_axis(n, features);
        proof {
            assert(uniform_counts(n as nat, features as nat) =~= Seq::new(
                features as nat,
                |a: int| count,
            ));
        }
        Grid::uniform(count, features)
    }

    /// The number of axes.
    pub fn dimension(&self) -> (d: usize)
        ensures
            d == self@.len(),
            d > 0,
    {
        proof {
            use_type_invariant(self);
        }
        self.points.len()
    }

    /// The number of inducing points on each axis, at least two.
    pub fn points(&self) -> (counts: &Vec<usize>)
        ensures
            counts@ == self@,
            forall|a: int| 0 <= a < counts@.len() ==> counts@[a] >= 2,
    {
        proof {
            use_type_invariant(self);
        }
        &self.points
    }

    /// The number `m` of inducing points.
    pub fn size(&self) -> (m: usize)
        ensures
            m == volume(self@),
            m >= 2,
    {
        proof {
            use_type_invariant(self);
            assert(self@.take(1).drop_last() =~= Seq::<usize>::empty());
            assert(volume(self@.take(1)) == 1 * (self@[0] as nat)) by {
                assert(volume(self@.take(1).drop_last()) == 1);
                assert(self@.take(1).last() == self@[0]);
            }
            lemma_volume_of_prefix(self@, 1);
        }
        self.size
    }

    /// The number of the inducing point at `position`, or `None` where
    /// `position` is no point of the grid.
    pub fn index_of(&self, position: &Vec<usize>) -> (index: Option<usize>)
        ensures
            match index {
                Some(i) => {
                    &&& in_grid(self@, position@)
                    &&& i == flat_index(self@, position@)
                    &&& i < volume(self@)
                    &&& position_at(self@, i as nat) == position@
                },
                None => !in_grid(self@, position@),
            },
    {
        proof {
            use_type_invariant(self);
        }
        if position.len() != self.points.len() {
            return None;
        }
        let mut index: usize = 0;
        let mut axis: usize = 0;
        while axis < self.points.len()
            invariant
                axis <= self.points@.len(),
                position@.len() == self.points@.len(),
                populated(self.points@),
                volume(self.points@) <= usize::MAX,
                in_grid(self.points@.take(axis as int), position@.take(axis as int)),
                index == flat_index(self.points@.take(axis as int), position@.take(axis as int)),
            decreases self.points@.len() - axis,
        {
            if position[axis] >= self.points[axis] {
                return None;
            }
            proof {
                let counts = self.points@.take(axis + 1);
                let place = position@.take(axis + 1);
                assert(counts.drop_last() =~= self.points@.take(axis as int));
                assert(place.drop_last() =~= position@.take(axis as int));
                assert(in_grid(counts, place)) by {
                    assert forall|a: int| 0 <= a < counts.len() implies place[a] < counts[a] by {
                        if a < axis {
                            assert(place[a] == position@.take(axis as int)[a]);
                            assert(counts[a] == self.points@.take(axis as int)[a]);
                        }
                    }
                }
                lemma_flat_index_bound(counts, place);
                lemma_volume_of_prefix(self.points@, axis + 1);
            }
            index = index * self.points[axis] + position[axis];
            axis += 1;
        }
        proof {
            assert(self.points@.take(axis as int) =~= self.points@);
            assert(position@.take(axis as int) =~= position@);
            lemma_flat_index_bound(self.points@, position@);
            lemma_position_round_trip(self.points@, position@);
        }
        Some(index)
    }

    /// The inducing points near an input that lies in the cell `cells`: the
    /// number of the point at every corner of the stencil, four points to an
    /// axis, in the order of the corners.
    ///
    /// Cells that are none of the grid are a `DimensionMismatch`. A stencil
    /// with more corners than can be counted is a `LinearAlgebraFailure`.
    pub fn nearby(&self, cells: &Vec<usize>) -> (points: Result<Vec<usize>, EllipticalProcessError>)
        ensures
            match points {
                Ok(p) => {
                    &&& in_cells(self@, cells@)
                    &&& p@.len() == volume(stencil_counts(self@.len()))
                    &&& forall|c: int|
                        0 <= c < p@.len() ==> #[trigger] p@[c] == nearby_point(
                            self@,
                            cells@,
                            c as nat,
                        )
                    &&& forall|c: int| 0 <= c < p@.len() ==> #[trigger] p@[c] < volume(self@)
                },
                Err(e) => if !in_cells(self@, cells@) {
                    e == EllipticalProcessError::DimensionMismatch
                } else {
                    &&& e == EllipticalProcessError::LinearAlgebraFailure
                    &&& volume(stencil_counts(self@.len())) > usize::MAX
                },
            },
    {
        proof {
            use_type_invariant(self);
        }
        let axes = self.points.len();
        if cells.len() != axes {
            return Err(EllipticalProcessError::DimensionMismatch);
        }
        let mut axis: usize = 0;
        while axis < axes
            invariant
                axis <= axes,
                axes == self.points@.len(),
                cells@.len() == axes,
                forall|a: int| 0 <= a < self.points@.len() ==> self.points@[a] >= 2,
                forall|a: int| 0 <= a < axis ==> cells@[a] + 1 < self.points@[a],
            decreases axes - axis,
        {
            if cells[axis] >= self.points[axis] - 1 {
                return Err(EllipticalProcessError::DimensionMismatch);
            }
            axis += 1;
        }
        let stencil = match Grid::uniform(STENCIL, axes) {
            Ok(stencil) => stencil,
            Err(e) => {
                return Err(e);
            },
        };
        proof {
            use_type_invariant(&stencil);
            assert(stencil@ =~= stencil_counts(self@.len()));
        }
        let corners = stencil.size();
        let mut points: Vec<usize> = Vec::new();
        let mut c: usize = 0;
        while c < corners
            invariant
                c <= corners,
                corners == volume(stencil@),
                stencil@ == stencil_counts(self@.len()),
                axes == self.points@.len(),
                self@ == self.points@,
                in_cells(self@, cells@),
                points@.len() == c,
                forall|k: int|
                    0 <= k < c ==> #[trigger] points@[k] == nearby_point(self@, cells@, k as nat),
                forall|k: int| 0 <= k < c ==> #[trigger] points@[k] < volume(self@),
            decreases corners - c,
        {
            let choice = match stencil.position_of(c) {
                Some(choice) => choice,
                None => {
                    return Err(EllipticalProcessError::LinearAlgebraFailure);
                },
            };
            let mut position: Vec<usize> = Vec::new();
            let mut a: usize = 0;
            while a < axes
                invariant
                    a <= axes,
                    axes == self.points@.len(),
                    self@ == self.points@,
                    in_cells(self@, cells@),
                    in_grid(stencil_counts(self@.len()), choice@),
                    position@.len() == a,
                    forall|b: int|
                        0 <= b < a ==> #[trigger] position@[b] == stencil_point(
                            self@[b],
                            cells@[b],
                            choice@[b],
                        ),
                    forall|b: int| 0 <= b < a ==> #[trigger] position@[b] < self@[b],
                decreases axes - a,
            {
                let count = self.points[a];
                let cell = cells[a];
                let offset = choice[a];
                assert(offset < STENCIL) by {
                    assert(choice@[a as int] < stencil_counts(self@.len())[a as int]);
                }
                let point = if offset == 0 {
                    if cell == 0 {
                        0
                    } else {
                        cell - 1
                    }
                } else {
                    let beyond = cell + (offset - 1);
                    if beyond >= count {
                        count - 1
                    } else {
                        beyond
                    }
                };
                position.push(point);
                a += 1;
            }
            proof {
                assert(position@ =~= corner(self@, cells@, choice@));
                assert(in_grid(self@, position@));
            }
            match self.index_of(&position) {
                Some(index) => {
                    points.push(index);
                },
                None => {
                    return Err(EllipticalProcessError::DimensionMismatch);
                },
            }
            c += 1;
        }
        Ok(points)
    }

    /// The position of inducing point number `index`, or `None` where the
    /// grid has no such point.
    pub fn position_of(&self, index: usize) -> (position: Option<Vec<usize>>)
        ensures
            match position {
                Some(p) => {
                    &&& index < volume(self@)
                    &&& p@ == position_at(self@, index as nat)
                    &&& in_grid(self@, p@)
                    &&& flat_index(self@, p@) == index
                },
                None => index >= volume(self@),
            },
    {
        proof {
            use_type_invariant(self);
        }
        if index >= self.size {
            return None;
        }
        let axes = self.points.len();
        let mut place: Vec<usize> = Vec::new();
        while place.len() < axes
            invariant
                place@.len() <= axes,
            decreases axes - place@.len(),
        {
            place.push(0);
        }
        let mut rest = index;
        let mut axis = axes;
        assert(self.points@.take(axis as int) =~= self.points@);
        while axis > 0
            invariant
                axis <= axes,
                axes == self.points@.len(),
                place@.len() == axes,
                populated(self.points@),
                position_at(self.points@, index as nat) =~= position_at(
                    self.points@.take(axis as int),
                    rest as nat,
                ) + place@.subrange(axis as int, axes as int),
            decreases axis,
        {
            axis -= 1;
            let width = self.points[axis];
            proof {
                let counts = self.points@.take(axis + 1);
                assert(counts.drop_last() =~= self.points@.take(axis as int));
                assert(counts.last() == width);
            }
            let ghost before = place@;
            place.set(axis, rest % width);
            proof {
                assert(place@.subrange(axis as int, axes as int) =~= seq![(rest % width) as usize]
                    + before.subrange(axis + 1, axes as int));
            }
            rest = rest / width;
        }
        proof {
            assert(self.points@.take(0) =~= Seq::<usize>::empty());
            assert(place@.subrange(0, axes as int) =~= place@);
            assert(place@ =~= position_at(self.points@, index as nat));
            lemma_index_round_trip(self.points@, index as nat);
        }
        Some(place)
    }
}

/// `n / 2^features`, raised to two where it is less.
fn points_on_axis(n: usize, features: usize) -> (count: usize)
    ensures
        count == axis_points(n as nat, features as nat),
        count >= 2,
{
    let mut share = n;
    let mut halvings: usize = 0;
    proof {
        lemma2_to64();
    }
    while halvings < features && share > 0
        invariant
            halvings <= features,
            share == (n as nat) / pow2(halvings as nat),
        decreases features - halvings,
    {
        proof {
            lemma_pow2_pos(halvings as nat);
            lemma_pow2_unfold((halvings + 1) as nat);
            lemma_div_denominator(n as int, pow2(halvings as nat) as int, 2);
            assert(pow2(halvings as nat) * 2 == 2 * pow2(halvings as nat)) by (nonlinear_arith);
        }
        share = share / 2;
        halvings += 1;
    }
    proof {
        if halvings < features {
            let done = halvings as nat;
            let left = (features - halvings) as nat;
            lemma_pow2_pos(done);
            lemma_pow2_pos(left);
            lemma_pow2_adds(done, left);
            lemma_div_denominator(n as int, pow2(done) as int, pow2(left) as int);
            assert(0int / (pow2(left) as int) == 0) by (nonlinear_arith)
                requires
                    pow2(left) > 0,
            ;
        }
    }
    if share < 2 {
        2
    } else {
        share
    }
}

} // verus!
