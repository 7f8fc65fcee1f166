//! Composing what a profile writes out: the combined feature collection and
//! the mapping from country id to metadata.

use crate::geometry::copy_land;
use crate::geometry::land_polygons;
use crate::geometry::Land;
use crate::geometry::Shape;
use crate::types::clone_opt_strings;
use crate::types::country_views;
use crate::types::marker_views;
use crate::types::opt_texts;
use crate::types::CountryConfig;
use crate::types::CountryConfigView;
use crate::types::CountryData;
use crate::types::CountryView;
use crate::types::Marker;
use crate::types::MarkerView;
use crate::types::Position;
use vstd::prelude::*;

verus! {

/// The geometry of a feature that is written out.
pub enum FeatureGeometry {
    Point(Position),
    MultiPolygon(Land),
}

pub enum FeatureGeometryView {
    Point(Position),
    MultiPolygon(Shape),
}

impl View for FeatureGeometry {
    type V = FeatureGeometryView;

    open spec fn view(&self) -> FeatureGeometryView {
        match *self {
            FeatureGeometry::Point(position) => FeatureGeometryView::Point(position),
            FeatureGeometry::MultiPolygon(land) => FeatureGeometryView::MultiPolygon(
                land_polygons(land),
            ),
        }
    }
}

/// The value of a feature property: a text, or a tag set that may be absent.
pub enum PropertyValue {
    Text(String),
    Tags(Option<Vec<String>>),
}

pub enum PropertyValueView {
    Text(Seq<char>),
    Tags(Option<Seq<Seq<char>>>),
}

impl View for PropertyValue {
    type V = PropertyValueView;

    open spec fn view(&self) -> PropertyValueView {
        match *self {
            PropertyValue::Text(text) => PropertyValueView::Text(text@),
            PropertyValue::Tags(tags) => PropertyValueView::Tags(opt_texts(tags)),
        }
    }
}

/// A feature that is written out: a geometry and its named properties.
pub struct Feature {
    pub geometry: FeatureGeometry,
    pub properties: Vec<(String, PropertyValue)>,
}

pub struct FeatureView {
    pub geometry: FeatureGeometryView,
    pub properties: Seq<(Seq<char>, PropertyValueView)>,
}

/// The names and values of a list of properties.
pub open spec fn output_properties(properties: Seq<(String, PropertyValue)>) -> Seq<
    (Seq<char>, PropertyValueView),
> {
    properties.map_values(|p: (String, PropertyValue)| (p.0@, p.1@))
}

impl View for Feature {
    type V = FeatureView;

    open spec fn view(&self) -> FeatureView {
        FeatureView { geometry: self.geometry@, properties: output_properties(self.properties@) }
    }
}

/// The views of a list of features.
pub open spec fn output_views(features: Seq<Feature>) -> Seq<FeatureView> {
    features.map_values(|f: Feature| f@)
}

/// The features that are written out together.
pub struct FeatureCollection {
    pub features: Vec<Feature>,
}

impl View for FeatureCollection {
    type V = Seq<FeatureView>;

    open spec fn view(&self) -> Seq<FeatureView> {
        output_views(self.features@)
    }
}

/// The feature of a marker: its point, with `title`, `description` and
/// `marker-type`.
pub open spec fn marker_feature(marker: MarkerView) -> FeatureView {
    FeatureView {
        geometry: FeatureGeometryView::Point(marker.coordinates),
        properties: seq![
            ("title"@, PropertyValueView::Text(marker.title)),
            ("description"@, PropertyValueView::Text(marker.description)),
            ("marker-type"@, PropertyValueView::Text(marker.ty.label())),
        ],
    }
}

/// The features of a list of markers, in order.
pub open spec fn marker_features(markers: Seq<MarkerView>) -> Seq<FeatureView> {
    markers.map_values(|m: MarkerView| marker_feature(m))
}

/// The feature of a country: its land, with `id`, `type`, `fill`, `stroke`
/// and `tags`.
pub open spec fn country_feature(land: Shape, id: Seq<char>, config: CountryConfigView) -> FeatureView {
    FeatureView {
        geometry: FeatureGeometryView::MultiPolygon(land),
        properties: seq![
            ("id"@, PropertyValueView::Text(id)),
            ("type"@, PropertyValueView::Text("country"@)),
            ("fill"@, PropertyValueView::Text(config.fill)),
            ("stroke"@, PropertyValueView::Text(config.stroke)),
            ("tags"@, PropertyValueView::Tags(config.tags)),
        ],
    }
}

/// The marker features of all countries, country after country.
pub open spec fn all_marker_features(countries: Seq<CountryView>) -> Seq<FeatureView>
    decreases countries.len(),
{
    if countries.len() == 0 {
        Seq::empty()
    } else {
        all_marker_features(countries.drop_last()) + marker_features(countries.last().markers)
    }
}

/// One land feature per country, in order.
pub open spec fn land_features(countries: Seq<CountryView>) -> Seq<FeatureView> {
    countries.map_values(|c: CountryView| country_feature(c.land, c.id, c.config))
}

/// The combined collection of a profile: the markers of every country, then
/// one land feature per country.
pub open spec fn combined(countries: Seq<CountryView>) -> Seq<FeatureView> {
    all_marker_features(countries) + land_features(countries)
}

/// How many markers the countries hold together.
pub open spec fn marker_count(countries: Seq<CountryView>) -> nat
    decreases countries.len(),
{
    if countries.len() == 0 {
        0
    } else {
        marker_count(countries.drop_last()) + countries.last().markers.len()
    }
}

/// The metadata mapping of a profile: id and metadata of each country, in
/// layer order.
pub open spec fn metadata_of(countries: Seq<CountryView>) -> Seq<(Seq<char>, CountryConfigView)> {
    countries.map_values(|c: CountryView| (c.id, c.config))
}

/// The ids and metadata views of a list of entries.
pub open spec fn metadata_views(entries: Seq<(String, CountryConfig)>) -> Seq<
    (Seq<char>, CountryConfigView),
> {
    entries.map_values(|e: (String, CountryConfig)| (e.0@, e.1@))
}

/// Turning a value into one feature.
pub trait ToFeature {
    spec fn feature_view(&self) -> FeatureView;

    fn to_feature(&self) -> (feature: Feature)
        ensures
            feature@ == self.feature_view(),
    ;
}

impl ToFeature for Marker {
    open spec fn feature_view(&self) -> FeatureView {
        marker_feature(self@)
    }

    fn to_feature(&self) -> (feature: Feature) {
        let mut properties: Vec<(String, PropertyValue)> = Vec::new();
        properties.push(("title".to_owned(), PropertyValue::Text(self.title.clone())));
        properties.push(("description".to_owned(), PropertyValue::Text(self.description.clone())));
        properties.push(
            ("marker-type".to_owned(), PropertyValue::Text(self.ty.to_str().to_owned())),
        );
        let feature = Feature { geometry: FeatureGeometry::Point(self.coordinates), properties };
        assert(feature@.properties =~= marker_feature(self@).properties);
        feature
    }
}

/// Turning a list of values into features, one each.
pub trait ToFeatures {
    spec fn feature_views(&self) -> Seq<FeatureView>;

    fn to_features(&self) -> (features: Vec<Feature>)
        ensures
            output_views(features@) == self.feature_views(),
    ;
}

impl ToFeatures for Vec<Marker> {
    open spec fn feature_views(&self) -> Seq<FeatureView> {
        marker_features(marker_views(self@))
    }

    fn to_features(&self) -> (features: Vec<Feature>) {
        let mut features: Vec<Feature> = Vec::new();
        let mut i: usize = 0;
        while i < self.len()
            invariant
                i <= self.len(),
                features.len() == i,
                forall|k: int| 0 <= k < i ==> (#[trigger] features@[k])@ == marker_feature(self@[k]@),
            decreases self.len() - i,
        {
            features.push(self[i].to_feature());
            i += 1;
        }
        features
    }
}

/// Turning a land shape into the feature of its country.
pub trait ToCountryFeature {
    spec fn land_view(&self) -> Shape;

    fn to_country_feature(&self, id: &String, config: &CountryConfig) -> (feature: Feature)
        ensures
            feature@ == country_feature(self.land_view(), id@, config@),
    ;
}

impl ToCountryFeature for Land {
    open spec fn land_view(&self) -> Shape {
        land_polygons(*self)
    }

    fn to_country_feature(&self, id: &String, config: &CountryConfig) -> (feature: Feature) {
        let mut properties: Vec<(String, PropertyValue)> = Vec::new();
        properties.push(("id".to_owned(), PropertyValue::Text(id.clone())));
        properties.push(("type".to_owned(), PropertyValue::Text("country".to_owned())));
        properties.push(("fill".to_owned(), PropertyValue::Text(config.fill.clone())));
        properties.push(("stroke".to_owned(), PropertyValue::Text(config.stroke.clone())));
        properties.push(("tags".to_owned(), PropertyValue::Tags(clone_opt_strings(&config.tags))));
        let feature = Feature { geometry: FeatureGeometry::MultiPolygon(copy_land(self)), properties };
        assert(feature@.properties =~= country_feature(
            land_polygons(*self),
            id@,
            config@,
        ).properties);
        feature
    }
}

/// Turning a list of features into a collection.
pub trait ToCollection {
    spec fn collected(&self) -> Seq<FeatureView>;

    fn to_collection(self) -> (collection: FeatureCollection)
        ensures
            collection@ == self.collected(),
    ;
}

impl ToCollection for Vec<Feature> {
    open spec fn collected(&self) -> Seq<FeatureView> {
        output_views(self@)
    }

    fn to_collection(self) -> (collection: FeatureCollection) {
        FeatureCollection { features: self }
    }
}

/// Joining a country's markers and its land feature into one collection.
pub trait UnsplitGeo {
    spec fn joined(&self) -> Seq<FeatureView>;

    fn unsplit_geo(self) -> (collection: FeatureCollection)
        ensures
            collection@ == self.joined(),
    ;
}

impl UnsplitGeo for (Vec<Marker>, Feature) {
    /// The features of the markers, then the land feature.
    open spec fn joined(&self) -> Seq<FeatureView> {
        marker_features(marker_views(self.0@)).push(self.1@)
    }

    fn unsplit_geo(self) -> (collection: FeatureCollection) {
        let (markers, territories) = self;
        let mut features = markers.to_features();
        proof {
            assert(output_views(features@.push(territories)) =~= output_views(features@).push(
                territories@,
            ));
        }
        features.push(territories);
        features.to_collection()
    }
}

/// The combined collection of a profile's countries: the markers of every
/// country, in layer order, then one land feature per country.
pub fn combine(countries: &Vec<CountryData>) -> (collection: FeatureCollection)
    ensures
        collection@ == combined(country_views(countries@)),
{
    let ghost all = country_views(countries@);
    let mut features: Vec<Feature> = Vec::new();
    let mut i: usize = 0;
    while i < countries.len()
        invariant
            i <= countries.len(),
            all == country_views(countries@),
            output_views(features@) == all_marker_features(all.take(i as int)),
        decreases countries.len() - i,
    {
        let markers = &countries[i].markers;
        let ghost start = features@;
        let mut m: usize = 0;
        while m < markers.len()
            invariant
                m <= markers.len(),
                output_views(features@) == output_views(start) + marker_features(
                    marker_views(markers@),
                ).take(m as int),
            decreases markers.len() - m,
        {
            let feature = markers[m].to_feature();
            proof {
                assert(output_views(features@.push(feature)) =~= output_views(features@).push(
                    feature@,
                ));
            }
            features.push(feature);
            m += 1;
        }
        proof {
            assert(all.take(i + 1).drop_last() =~= all.take(i as int));
        }
        i += 1;
    }
    assert(all.take(i as int) =~= all);
    let ghost marked = features@;
    let mut j: usize = 0;
    while j < countries.len()
        invariant
            j <= countries.len(),
            all == country_views(countries@),
            output_views(features@) == output_views(marked) + land_features(all).take(j as int),
        decreases countries.len() - j,
    {
        let country = &countries[j];
        let feature = country.land.to_country_feature(&country.id, &country.config);
        proof {
            assert(output_views(features@.push(feature)) =~= output_views(features@).push(
                feature@,
            ));
        }
        features.push(feature);
        j += 1;
    }
    features.to_collection()
}

/// The metadata mapping of a profile's countries: one entry per country, in
/// layer order.
pub fn metadata(countries: &Vec<CountryData>) -> (entries: Vec<(String, CountryConfig)>)
    ensures
        metadata_views(entries@) == metadata_of(country_views(countries@)),
{
    let mut entries: Vec<(String, CountryConfig)> = Vec::new();
    let mut i: usize = 0;
    while i < countries.len()
        invariant
            i <= countries.len(),
            entries.len() == i,
            forall|k: int|
                0 <= k < i ==> (#[trigger] entries@[k]).0@ == countries@[k].id@ && entries@[k].1@
                    == countries@[k].config@,
        decreases countries.len() - i,
    {
        entries.push((countries[i].id.clone(), countries[i].config.clone()));
        i += 1;
    }
    entries
}

/// The combined collection has one feature for each marker that is left and
/// one for each country.
pub proof fn lemma_combined_len(countries: Seq<CountryView>)
    ensures
        all_marker_features(countries).len() == marker_count(countries),
        combined(countries).len() == marker_count(countries) + countries.len(),
    decreases countries.len(),
{
    if countries.len() > 0 {
        lemma_combined_len(countries.drop_last());
    }
}

/// Without countries there is nothing to write: the combined collection and
/// the metadata mapping are empty.
pub proof fn lemma_nothing_from_no_countries(countries: Seq<CountryView>)
    requires
        countries.len() == 0,
    ensures
        combined(countries) == Seq::<FeatureView>::empty(),
        metadata_of(countries) == Seq::<(Seq<char>, CountryConfigView)>::empty(),
{
}

} // verus!
