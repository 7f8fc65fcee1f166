//! Splitting a country's raw features into point markers and territory
//! fragments.

use crate::geometry::copy_land;
use crate::geometry::copy_polygon;
use crate::geometry::land_polygons;
use crate::geometry::polygon_rings;
use crate::geometry::territory_views;
use crate::geometry::Land;
use crate::geometry::PolygonShape;
use crate::geometry::Shape;
use crate::geometry::Territory;
use crate::geometry::TerritoryView;
use crate::types::marker_views;
use crate::types::Marker;
use crate::types::MarkerType;
use crate::types::MarkerView;
use crate::types::Position;
use vstd::prelude::*;

verus! {

/// The geometry of a raw feature.
pub enum SourceGeometry {
    Point(Position),
    Polygon(PolygonShape),
    MultiPolygon(Land),
    /// Any other kind of geometry.
    Other,
}

pub enum SourceGeometryView {
    Point(Position),
    Polygon(Seq<Seq<(u64, u64)>>),
    MultiPolygon(Shape),
    Other,
}

impl View for SourceGeometry {
    type V = SourceGeometryView;

    open spec fn view(&self) -> SourceGeometryView {
        match *self {
            SourceGeometry::Point(position) => SourceGeometryView::Point(position),
            SourceGeometry::Polygon(polygon) => SourceGeometryView::Polygon(polygon_rings(polygon)),
            SourceGeometry::MultiPolygon(land) => SourceGeometryView::MultiPolygon(
                land_polygons(land),
            ),
            SourceGeometry::Other => SourceGeometryView::Other,
        }
    }
}

/// A raw feature: a geometry and its properties, each a name and a text.
/// Where a name occurs more than once, its first entry counts.
pub struct SourceFeature {
    pub geometry: SourceGeometry,
    pub properties: Vec<(String, String)>,
}

pub struct SourceFeatureView {
    pub geometry: SourceGeometryView,
    pub properties: Seq<(Seq<char>, Seq<char>)>,
}

/// The names and texts of a list of properties.
pub open spec fn property_views(properties: Seq<(String, String)>) -> Seq<(Seq<char>, Seq<char>)> {
    properties.map_values(|p: (String, String)| (p.0@, p.1@))
}

impl View for SourceFeature {
    type V = SourceFeatureView;

    open spec fn view(&self) -> SourceFeatureView {
        SourceFeatureView {
            geometry: self.geometry@,
            properties: property_views(self.properties@),
        }
    }
}

/// The raw features of one country.
pub struct SourceCollection {
    pub features: Vec<SourceFeature>,
}

/// The views of a list of raw features.
pub open spec fn feature_views(features: Seq<SourceFeature>) -> Seq<SourceFeatureView> {
    features.map_values(|f: SourceFeature| f@)
}

/// Why a feature cannot be split; `feature` is its place in the collection.
#[derive(Clone, Copy, PartialEq, Eq, Structural, Debug)]
pub enum GeometryError {
    /// The geometry is neither a point nor a polygon nor a multi-polygon.
    InvalidGeometryKind { feature: usize },
    /// A point without a `type` property.
    MissingMarkerType { feature: usize },
    /// A point whose `type` names no marker kind.
    InvalidMarkerType { feature: usize },
    /// A point without a `title` property.
    MissingMarkerTitle { feature: usize },
}

/// The text of the first property called `name`, if there is one.
pub open spec fn property(properties: Seq<(Seq<char>, Seq<char>)>, name: Seq<char>) -> Option<
    Seq<char>,
>
    decreases properties.len(),
{
    if properties.len() == 0 {
        None
    } else if properties.first().0 == name {
        Some(properties.first().1)
    } else {
        property(properties.drop_first(), name)
    }
}

/// The marker kind that a `type` text names.
pub open spec fn marker_type_named(text: Seq<char>) -> Option<MarkerType> {
    if text == "capital"@ || text == "capital-city"@ {
        Some(MarkerType::Capital)
    } else if text == "city"@ {
        Some(MarkerType::City)
    } else if text == "landmark"@ {
        Some(MarkerType::Landmark)
    } else {
        None
    }
}

/// What one feature contributes.
pub enum Piece {
    Marker(MarkerView),
    Fragment(TerritoryView),
}

/// The piece a feature gives, or why it gives none. The geometry kind is
/// looked at first; of a point, the `type`, then whether it names a kind,
/// then the `title`. A missing `description` stands for the empty text.
pub open spec fn piece_of(feature: SourceFeatureView, index: usize) -> Result<Piece, GeometryError> {
    match feature.geometry {
        SourceGeometryView::Other => Err(GeometryError::InvalidGeometryKind { feature: index }),
        SourceGeometryView::Polygon(rings) => Ok(Piece::Fragment(TerritoryView::Polygon(rings))),
        SourceGeometryView::MultiPolygon(polygons) => Ok(
            Piece::Fragment(TerritoryView::MultiPolygon(polygons)),
        ),
        SourceGeometryView::Point(position) => match property(feature.properties, "type"@) {
            None => Err(GeometryError::MissingMarkerType { feature: index }),
            Some(kind) => match marker_type_named(kind) {
                None => Err(GeometryError::InvalidMarkerType { feature: index }),
                Some(ty) => match property(feature.properties, "title"@) {
                    None => Err(GeometryError::MissingMarkerTitle { feature: index }),
                    Some(title) => Ok(
                        Piece::Marker(
                            MarkerView {
                                coordinates: position,
                                title,
                                description: match property(feature.properties, "description"@) {
                                    Some(text) => text,
                                    None => Seq::empty(),
                                },
                                ty,
                            },
                        ),
                    ),
                },
            },
        },
    }
}

/// The first feature that cannot be split, with the reason.
pub open spec fn first_error(features: Seq<SourceFeatureView>) -> Option<GeometryError>
    decreases features.len(),
{
    if features.len() == 0 {
        None
    } else {
        match first_error(features.drop_last()) {
            Some(error) => Some(error),
            None => match piece_of(features.last(), (features.len() - 1) as usize) {
                Err(error) => Some(error),
                Ok(_) => None,
            },
        }
    }
}

/// The markers that the point features give, in input order.
pub open spec fn markers_of(features: Seq<SourceFeatureView>) -> Seq<MarkerView>
    decreases features.len(),
{
    if features.len() == 0 {
        Seq::empty()
    } else {
        let earlier = markers_of(features.drop_last());
        match piece_of(features.last(), (features.len() - 1) as usize) {
            Ok(Piece::Marker(marker)) => earlier.push(marker),
            _ => earlier,
        }
    }
}

/// The fragments that the polygon and multi-polygon features give, in input
/// order.
pub open spec fn fragments_of(features: Seq<SourceFeatureView>) -> Seq<TerritoryView>
    decreases features.len(),
{
    if features.len() == 0 {
        Seq::empty()
    } else {
        let earlier = fragments_of(features.drop_last());
        match piece_of(features.last(), (features.len() - 1) as usize) {
            Ok(Piece::Fragment(fragment)) => earlier.push(fragment),
            _ => earlier,
        }
    }
}

/// Whether `split` is what splitting `features` gives: the error of the first
/// feature that has one, else all markers and all fragments.
pub open spec fn is_split_of(
    features: Seq<SourceFeatureView>,
    split: Result<(Vec<Marker>, Vec<Territory>), GeometryError>,
) -> bool {
    match split {
        Ok((markers, territories)) => {
            &&& first_error(features) is None
            &&& marker_views(markers@) == markers_of(features)
            &&& territory_views(territories@) == fragments_of(features)
        },
        Err(error) => first_error(features) == Some(error),
    }
}

/// Looks a property up by name; the first entry of that name counts.
pub fn find_property<'a>(properties: &'a Vec<(String, String)>, name: &str) -> (found: Option<
    &'a String,
>)
    ensures
        match found {
            Some(text) => property(property_views(properties@), name@) == Some(text@),
            None => property(property_views(properties@), name@) is None,
        },
{
    let wanted = name.to_owned();
    let ghost all = property_views(properties@);
    let mut i: usize = 0;
    assert(all.skip(0) =~= all);
    while i < properties.len()
        invariant
            i <= properties.len(),
            wanted@ == name@,
            all == property_views(properties@),
            property(all, name@) == property(all.skip(i as int), name@),
        decreases properties.len() - i,
    {
        proof {
            assert(all.skip(i as int).drop_first() =~= all.skip(i + 1));
        }
        if properties[i].0 == wanted {
            return Some(&properties[i].1);
        }
        i += 1;
    }
    None
}

/// Resolves a `type` text to a marker kind; `capital-city` is another word
/// for `capital`.
pub fn parse_marker_type(text: &String) -> (kind: Option<MarkerType>)
    ensures
        kind == marker_type_named(text@),
{
    if *text == "capital".to_owned() || *text == "capital-city".to_owned() {
        Some(MarkerType::Capital)
    } else if *text == "city".to_owned() {
        Some(MarkerType::City)
    } else if *text == "landmark".to_owned() {
        Some(MarkerType::Landmark)
    } else {
        None
    }
}

/// Builds the marker of a point feature, or says what it lacks.
pub fn read_marker(position: Position, properties: &Vec<(String, String)>, index: usize) -> (marker:
    Result<Marker, GeometryError>)
    ensures
        match marker {
            Ok(m) => piece_of(
                SourceFeatureView {
                    geometry: SourceGeometryView::Point(position),
                    properties: property_views(properties@),
                },
                index,
            ) == Ok::<Piece, GeometryError>(Piece::Marker(m@)),
            Err(error) => piece_of(
                SourceFeatureView {
                    geometry: SourceGeometryView::Point(position),
                    properties: property_views(properties@),
                },
                index,
            ) == Err::<Piece, GeometryError>(error),
        },
{
    let kind = match find_property(properties, "type") {
        Some(kind) => kind,
        None => {
            return Err(GeometryError::MissingMarkerType { feature: index });
        },
    };
    let ty = match parse_marker_type(kind) {
        Some(ty) => ty,
        None => {
            return Err(GeometryError::InvalidMarkerType { feature: index });
        },
    };
    let title = match find_property(properties, "title") {
        Some(title) => title.clone(),
        None => {
            return Err(GeometryError::MissingMarkerTitle { feature: index });
        },
    };
    let description = match find_property(properties, "description") {
        Some(text) => text.clone(),
        None => String::new(),
    };
    Ok(Marker { coordinates: position, title, description, ty })
}

/// Splitting raw features into markers and territory fragments.
pub trait ToSplitGeo {
    spec fn raw_features(&self) -> Seq<SourceFeatureView>;

    fn split_geo(&self) -> (split: Result<(Vec<Marker>, Vec<Territory>), GeometryError>)
        ensures
            is_split_of(self.raw_features(), split),
    ;
}

impl ToSplitGeo for SourceCollection {
    open spec fn raw_features(&self) -> Seq<SourceFeatureView> {
        feature_views(self.features@)
    }

    /// Goes through the features in order. Points become markers, polygons
    /// and multi-polygons become fragments with their properties dropped;
    /// the first feature that is neither, or a point that lacks what a
    /// marker needs, ends the work with its error.
    fn split_geo(&self) -> (split: Result<(Vec<Marker>, Vec<Territory>), GeometryError>) {
        let ghost all = feature_views(self.features@);
        let mut markers: Vec<Marker> = Vec::new();
        let mut territories: Vec<Territory> = Vec::new();
        let mut i: usize = 0;
        while i < self.features.len()
            invariant
                i <= self.features.len(),
                all == feature_views(self.features@),
                first_error(all.take(i as int)) is None,
                marker_views(markers@) == markers_of(all.take(i as int)),
                territory_views(territories@) == fragments_of(all.take(i as int)),
            decreases self.features.len() - i,
        {
            let feature = &self.features[i];
            proof {
                assert(all.take(i + 1).drop_last() =~= all.take(i as int));
                assert(forall|k: int|
                    i < k <= all.len() ==> (#[trigger] all.take(k)).take(i + 1) =~= all.take(i + 1));
            }
            match &feature.geometry {
                SourceGeometry::Point(position) => {
                    match read_marker(*position, &feature.properties, i) {
                        Ok(marker) => {
                            proof {
                                assert(marker_views(markers@.push(marker)) =~= marker_views(
                                    markers@,
                                ).push(marker@));
                            }
                            markers.push(marker);
                        },
                        Err(error) => {
                            proof {
                                lemma_first_error_stays(all, i + 1);
                            }
                            return Err(error);
                        },
                    }
                },
                SourceGeometry::Polygon(polygon) => {
                    let fragment = Territory::Polygon(copy_polygon(polygon));
                    proof {
                        assert(territory_views(territories@.push(fragment)) =~= territory_views(
                            territories@,
                        ).push(fragment@));
                    }
                    territories.push(fragment);
                },
                SourceGeometry::MultiPolygon(land) => {
                    let fragment = Territory::MultiPolygon(copy_land(land));
                    proof {
                        assert(territory_views(territories@.push(fragment)) =~= territory_views(
                            territories@,
                        ).push(fragment@));
                    }
                    territories.push(fragment);
                },
                SourceGeometry::Other => {
                    proof {
                        lemma_first_error_stays(all, i + 1);
                    }
                    return Err(GeometryError::InvalidGeometryKind { feature: i });
                },
            }
            i += 1;
        }
        assert(all.take(i as int) =~= all);
        Ok((markers, territories))
    }
}

/// An error found among the first `count` features is the first error of
/// the whole list.
pub proof fn lemma_first_error_stays(features: Seq<SourceFeatureView>, count: int)
    requires
        0 <= count <= features.len(),
        first_error(features.take(count)) is Some,
    ensures
        first_error(features) == first_error(features.take(count)),
    decreases features.len() - count,
{
    if count == features.len() {
        assert(features.take(count) =~= features);
    } else {
        assert(features.take(count + 1).drop_last() =~= features.take(count));
        lemma_first_error_stays(features, count + 1);
    }
}

} // verus!
