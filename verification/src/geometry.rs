//! Land shapes, the boolean operations of `geo` on them, and the dissolving
//! of a country's territory fragments into one shape.

use geo::BooleanOps;
use vstd::prelude::*;

verus! {

/// The model of a multi-polygon: its polygons, each polygon its rings with
/// the exterior first, each ring its coordinates, each coordinate the bit
/// patterns of its x and y.
pub type Shape = Seq<Seq<Seq<(u64, u64)>>>;

/// A multi-polygon of `geo`. Verified code cannot look inside; callers
/// outside it reach the shape through the field.
#[verifier::external_body]
pub struct Land {
    pub shape: geo::MultiPolygon,
}

/// A single polygon of `geo`, held like [`Land`].
#[verifier::external_body]
pub struct PolygonShape {
    pub shape: geo::Polygon,
}

/// The polygons that a [`Land`] holds.
pub uninterp spec fn land_polygons(land: Land) -> Seq<Seq<Seq<(u64, u64)>>>;

/// The rings that a [`PolygonShape`] holds, exterior first.
pub uninterp spec fn polygon_rings(polygon: PolygonShape) -> Seq<Seq<(u64, u64)>>;

/// The multi-polygon that `geo` returns as the union of two.
pub uninterp spec fn union_of(a: Seq<Seq<Seq<(u64, u64)>>>, b: Seq<Seq<Seq<(u64, u64)>>>) -> Seq<
    Seq<Seq<(u64, u64)>>,
>;

/// The multi-polygon that `geo` returns as the first shape without the second.
pub uninterp spec fn difference_of(
    a: Seq<Seq<Seq<(u64, u64)>>>,
    b: Seq<Seq<Seq<(u64, u64)>>>,
) -> Seq<Seq<Seq<(u64, u64)>>>;

/// `MultiPolygon::empty` of `geo`: a multi-polygon without polygons.
#[verifier::external_body]
pub(crate) fn empty_land() -> (land: Land)
    ensures
        land_polygons(land) == Seq::<Seq<Seq<(u64, u64)>>>::empty(),
{
    Land { shape: geo::MultiPolygon::empty() }
}

/// `Clone::clone` of `geo`'s multi-polygon: the copy holds the same polygons.
#[verifier::external_body]
pub(crate) fn copy_land(land: &Land) -> (copy: Land)
    ensures
        land_polygons(copy) == land_polygons(*land),
{
    Land { shape: land.shape.clone() }
}

/// `Clone::clone` of `geo`'s polygon: the copy holds the same rings.
#[verifier::external_body]
pub(crate) fn copy_polygon(polygon: &PolygonShape) -> (copy: PolygonShape)
    ensures
        polygon_rings(copy) == polygon_rings(*polygon),
{
    PolygonShape { shape: polygon.shape.clone() }
}

/// `MultiPolygon::new` of `geo` on a list of one polygon: the result holds
/// that polygon and no other.
#[verifier::external_body]
pub(crate) fn single_polygon_land(polygon: &PolygonShape) -> (land: Land)
    ensures
        land_polygons(land) == seq![polygon_rings(*polygon)],
{
    Land { shape: geo::MultiPolygon::new(vec![polygon.shape.clone()]) }
}

/// The coordinates of a shape, ring after ring.
pub open spec fn coordinates_of(shape: Shape) -> Seq<(u64, u64)> {
    shape.flatten().flatten()
}

/// The exponent field of a number given by its bit pattern.
pub open spec fn exponent_of(bits: u64) -> int {
    (bits as int / 0x10_0000_0000_0000) % 0x800
}

/// Whether the bit pattern is that of zero, of either sign.
pub open spec fn is_zero(bits: u64) -> bool {
    bits as int % 0x8000_0000_0000_0000 == 0
}

/// Whether a number is in the range on which the boolean operations are
/// used: zero, or of a magnitude from 2^-512 up to, not including, 2^513.
/// That leaves out what is not a number, the infinities and the subnormals.
pub open spec fn in_range(bits: u64) -> bool {
    is_zero(bits) || 511 <= exponent_of(bits) <= 1535
}

/// Whether every coordinate of a shape is in range.
pub open spec fn shape_in_range(shape: Shape) -> bool {
    forall|k: int|
        0 <= k < coordinates_of(shape).len() ==> in_range((#[trigger] coordinates_of(shape)[k]).0)
            && in_range(coordinates_of(shape)[k].1)
}

/// The coordinates of a multi-polygon, read through `BooleanOps::rings` of
/// `geo`, which walks the polygons in order and each polygon's exterior
/// before its interiors; each coordinate is given by `to_bits` of its x and y.
#[verifier::external_body]
pub(crate) fn land_coordinates(land: &Land) -> (bits: Vec<(u64, u64)>)
    ensures
        bits@ == coordinates_of(land_polygons(*land)),
{
    land.shape.rings().flat_map(|ring| ring.0.iter()).map(|c| (c.x.to_bits(), c.y.to_bits())).collect()
}

/// `BooleanOps::union` of `geo` on two multi-polygons. The result is a
/// function of the rings of the two arguments; the contract gives it its name
/// and claims nothing of its geometry. `geo` is taken without its
/// multithreading feature, so the overlay sorts and splits on one thread,
/// whatever the machine. Built with debug assertions, `geo`
/// stops where a coordinate is not a number or the operands' extent is too
/// small to scale; the `requires` keeps to coordinates that are in range.
#[verifier::external_body]
pub(crate) fn land_union(a: &Land, b: &Land) -> (merged: Land)
    requires
        shape_in_range(land_polygons(*a)),
        shape_in_range(land_polygons(*b)),
    ensures
        land_polygons(merged) == union_of(land_polygons(*a), land_polygons(*b)),
{
    Land { shape: a.shape.union(&b.shape) }
}

/// `BooleanOps::difference` of `geo` on two multi-polygons, named and
/// restricted like the union.
#[verifier::external_body]
pub(crate) fn land_difference(a: &Land, b: &Land) -> (rest: Land)
    requires
        shape_in_range(land_polygons(*a)),
        shape_in_range(land_polygons(*b)),
    ensures
        land_polygons(rest) == difference_of(land_polygons(*a), land_polygons(*b)),
{
    Land { shape: a.shape.difference(&b.shape) }
}

/// Whether a number, given by its bit pattern, is in range.
pub fn number_in_range(bits: u64) -> (ok: bool)
    ensures
        ok == in_range(bits),
{
    let magnitude: u64 = bits % 0x8000_0000_0000_0000;
    let exponent: u64 = (bits / 0x10_0000_0000_0000) % 0x800;
    magnitude == 0 || (511 <= exponent && exponent <= 1535)
}

impl Land {
    /// Whether every coordinate of the land is in range.
    pub fn is_in_range(&self) -> (ok: bool)
        ensures
            ok == shape_in_range(land_polygons(*self)),
    {
        let coordinates = land_coordinates(self);
        let mut k: usize = 0;
        while k < coordinates.len()
            invariant
                k <= coordinates.len(),
                coordinates@ == coordinates_of(land_polygons(*self)),
                forall|m: int|
                    0 <= m < k ==> in_range((#[trigger] coordinates@[m]).0) && in_range(
                        coordinates@[m].1,
                    ),
            decreases coordinates.len() - k,
        {
            if !number_in_range(coordinates[k].0) || !number_in_range(coordinates[k].1) {
                return false;
            }
            k += 1;
        }
        true
    }
}

/// The union of two shapes, where both are in range.
pub open spec fn try_union_of(a: Shape, b: Shape) -> Option<Shape> {
    if shape_in_range(a) && shape_in_range(b) {
        Some(union_of(a, b))
    } else {
        None
    }
}

/// The first shape without the second, where both are in range.
pub open spec fn try_difference_of(a: Shape, b: Shape) -> Option<Shape> {
    if shape_in_range(a) && shape_in_range(b) {
        Some(difference_of(a, b))
    } else {
        None
    }
}

/// The union of two lands; none where a coordinate of either is out of range.
pub fn try_union(a: &Land, b: &Land) -> (merged: Option<Land>)
    ensures
        match merged {
            Some(land) => try_union_of(land_polygons(*a), land_polygons(*b)) == Some(
                land_polygons(land),
            ),
            None => try_union_of(land_polygons(*a), land_polygons(*b)) is None,
        },
{
    if a.is_in_range() && b.is_in_range() {
        Some(land_union(a, b))
    } else {
        None
    }
}

/// The first land without the second; none where a coordinate of either is
/// out of range.
pub fn try_difference(a: &Land, b: &Land) -> (rest: Option<Land>)
    ensures
        match rest {
            Some(land) => try_difference_of(land_polygons(*a), land_polygons(*b)) == Some(
                land_polygons(land),
            ),
            None => try_difference_of(land_polygons(*a), land_polygons(*b)) is None,
        },
{
    if a.is_in_range() && b.is_in_range() {
        Some(land_difference(a, b))
    } else {
        None
    }
}

/// A territory fragment as a country declares it.
pub enum Territory {
    Polygon(PolygonShape),
    MultiPolygon(Land),
}

pub enum TerritoryView {
    Polygon(Seq<Seq<(u64, u64)>>),
    MultiPolygon(Shape),
}

impl TerritoryView {
    /// The fragment as a multi-polygon: a polygon stands for the
    /// multi-polygon made of it alone.
    pub open spec fn shape(self) -> Shape {
        match self {
            TerritoryView::Polygon(rings) => seq![rings],
            TerritoryView::MultiPolygon(polygons) => polygons,
        }
    }
}

impl View for Territory {
    type V = TerritoryView;

    open spec fn view(&self) -> TerritoryView {
        match *self {
            Territory::Polygon(polygon) => TerritoryView::Polygon(polygon_rings(polygon)),
            Territory::MultiPolygon(land) => TerritoryView::MultiPolygon(land_polygons(land)),
        }
    }
}

/// The views of a list of fragments.
pub open spec fn territory_views(territories: Seq<Territory>) -> Seq<TerritoryView> {
    territories.map_values(|t: Territory| t@)
}

/// The shapes of a list of fragments.
pub open spec fn shapes(territories: Seq<TerritoryView>) -> Seq<Shape> {
    territories.map_values(|t: TerritoryView| t.shape())
}

/// A fragment that cannot be merged: a coordinate of it, or of the land
/// dissolved before it, is out of range.
#[derive(Clone, Copy, PartialEq, Eq, Structural, Debug)]
pub struct DissolveError {
    /// The place of the fragment in the list.
    pub fragment: usize,
}

/// The union of all fragments, taken from the empty shape in input order; or
/// the place of the first fragment at which the union cannot be taken.
pub open spec fn dissolved(fragments: Seq<Shape>) -> Result<Shape, int>
    decreases fragments.len(),
{
    if fragments.len() == 0 {
        Ok(Seq::empty())
    } else {
        match dissolved(fragments.drop_last()) {
            Err(place) => Err(place),
            Ok(earlier) => match try_union_of(earlier, fragments.last()) {
                Some(merged) => Ok(merged),
                None => Err(fragments.len() - 1),
            },
        }
    }
}

/// No fragments dissolve into empty land.
pub proof fn lemma_dissolve_nothing(fragments: Seq<Shape>)
    requires
        fragments.len() == 0,
    ensures
        dissolved(fragments) == Ok::<Shape, int>(Seq::empty()),
{
}

/// Dissolving one more fragment is the union of what was dissolved before
/// with that fragment.
pub proof fn lemma_dissolve_step(fragments: Seq<Shape>, next: Shape)
    requires
        dissolved(fragments) is Ok,
        shape_in_range(dissolved(fragments)->Ok_0),
        shape_in_range(next),
    ensures
        dissolved(fragments.push(next)) == Ok::<Shape, int>(
            union_of(dissolved(fragments)->Ok_0, next),
        ),
{
    assert(fragments.push(next).drop_last() =~= fragments);
}

/// An error among the first fragments is the error of the whole list.
pub proof fn lemma_dissolve_error_stays(fragments: Seq<Shape>, count: int)
    requires
        0 <= count <= fragments.len(),
        dissolved(fragments.take(count)) is Err,
    ensures
        dissolved(fragments) == dissolved(fragments.take(count)),
    decreases fragments.len() - count,
{
    if count == fragments.len() {
        assert(fragments.take(count) =~= fragments);
    } else {
        assert(fragments.take(count + 1).drop_last() =~= fragments.take(count));
        lemma_dissolve_error_stays(fragments, count + 1);
    }
}

/// Turning a polygon into the multi-polygon made of it alone.
pub trait ToMultiPolygon {
    spec fn as_shape(&self) -> Shape;

    fn to_mp(&self) -> (land: Land)
        ensures
            land_polygons(land) == self.as_shape(),
    ;
}

impl ToMultiPolygon for PolygonShape {
    open spec fn as_shape(&self) -> Shape {
        seq![polygon_rings(*self)]
    }

    fn to_mp(&self) -> (land: Land) {
        single_polygon_land(self)
    }
}

/// Turning a shape into a territory fragment.
pub trait ToTerritory {
    spec fn fragment_shape(&self) -> Shape;

    fn to_territory(&self) -> (territory: Territory)
        ensures
            territory@ == TerritoryView::MultiPolygon(self.fragment_shape()),
    ;
}

impl ToTerritory for Land {
    open spec fn fragment_shape(&self) -> Shape {
        land_polygons(*self)
    }

    fn to_territory(&self) -> (territory: Territory) {
        Territory::MultiPolygon(copy_land(self))
    }
}

/// Dissolves a country's fragments into one shape: the union of all of them,
/// taken in input order from the empty shape. No fragment gives empty land.
/// The first fragment that cannot be merged ends the work.
pub fn dissolve_territories(territories: Vec<Territory>) -> (land: Result<Land, DissolveError>)
    ensures
        match land {
            Ok(merged) => dissolved(shapes(territory_views(territories@))) == Ok::<Shape, int>(
                land_polygons(merged),
            ),
            Err(error) => dissolved(shapes(territory_views(territories@))) == Err::<Shape, int>(
                error.fragment as int,
            ),
        },
{
    let ghost all = shapes(territory_views(territories@));
    let mut land = empty_land();
    let mut i: usize = 0;
    while i < territories.len()
        invariant
            i <= territories.len(),
            all == shapes(territory_views(territories@)),
            dissolved(all.take(i as int)) == Ok::<Shape, int>(land_polygons(land)),
        decreases territories.len() - i,
    {
        let merged = match &territories[i] {
            Territory::Polygon(polygon) => try_union(&land, &polygon.to_mp()),
            Territory::MultiPolygon(other) => try_union(&land, other),
        };
        proof {
            assert(all.take(i + 1).drop_last() =~= all.take(i as int));
        }
        match merged {
            Some(next) => {
                land = next;
            },
            None => {
                proof {
                    lemma_dissolve_error_stays(all, i + 1);
                }
                return Err(DissolveError { fragment: i });
            },
        }
        i += 1;
    }
    assert(all.take(i as int) =~= all);
    Ok(land)
}

} // verus!
