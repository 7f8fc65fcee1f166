//! The records a build works on: configuration, country metadata, markers
//! and the countries themselves, each with its mathematical view.

use crate::geometry::copy_land;
use crate::geometry::land_polygons;
use crate::geometry::Land;
use vstd::prelude::*;

verus! {

/// The characters of each string of a list.
pub open spec fn texts(list: Seq<String>) -> Seq<Seq<char>> {
    list.map_values(|s: String| s@)
}

/// The characters of an optional string.
pub open spec fn opt_text(value: Option<String>) -> Option<Seq<char>> {
    match value {
        Some(s) => Some(s@),
        None => None,
    }
}

/// The characters of each string of an optional list.
pub open spec fn opt_texts(value: Option<Vec<String>>) -> Option<Seq<Seq<char>>> {
    match value {
        Some(list) => Some(texts(list@)),
        None => None,
    }
}

/// A copy of a list of strings.
pub fn clone_strings(list: &Vec<String>) -> (copy: Vec<String>)
    ensures
        texts(copy@) == texts(list@),
{
    let mut copy: Vec<String> = Vec::new();
    let mut i: usize = 0;
    while i < list.len()
        invariant
            i <= list.len(),
            copy.len() == i,
            forall|k: int| 0 <= k < i ==> copy@[k]@ == list@[k]@,
        decreases list.len() - i,
    {
        copy.push(list[i].clone());
        i += 1;
    }
    copy
}

/// A copy of an optional string.
pub fn clone_opt_string(value: &Option<String>) -> (copy: Option<String>)
    ensures
        opt_text(copy) == opt_text(*value),
{
    match value {
        Some(s) => Some(s.clone()),
        None => None,
    }
}

/// A copy of an optional list of strings.
pub fn clone_opt_strings(value: &Option<Vec<String>>) -> (copy: Option<Vec<String>>)
    ensures
        opt_texts(copy) == opt_texts(*value),
{
    match value {
        Some(list) => Some(clone_strings(list)),
        None => None,
    }
}

/// The whole build configuration: the layer order and the profiles.
pub struct Config {
    pub main: MainConfig,
    pub processing: Vec<ProcessingConfig>,
}

/// The ordered list of country ids; later entries lie on top.
pub struct MainConfig {
    pub layers: Vec<String>,
}

/// One processing profile.
pub struct ProcessingConfig {
    pub show_markers: Option<bool>,
    pub output_folder: String,
    pub tags: Option<Vec<String>>,
    /// Whether a country without a tag set passes a non-empty tag filter.
    pub include_untagged: Option<bool>,
    pub countries_rewrite: Option<Vec<CountryRewriteConfig>>,
    pub public: Option<PublicConfig>,
}

pub struct ProcessingView {
    /// Whether markers are written out; they are unless the profile says no.
    pub show_markers: bool,
    pub output_folder: Seq<char>,
    /// The patterns of the tag filter; none where the profile has no filter.
    pub tags: Seq<Seq<char>>,
    /// Whether untagged countries pass a non-empty filter; they do not
    /// unless the profile says so.
    pub include_untagged: bool,
    /// The rewrite rules; none where the profile has no list.
    pub rules: Seq<CountryRewriteView>,
    pub public: Option<PublicConfigView>,
}

impl View for ProcessingConfig {
    type V = ProcessingView;

    open spec fn view(&self) -> ProcessingView {
        ProcessingView {
            show_markers: match self.show_markers {
                Some(show) => show,
                None => true,
            },
            output_folder: self.output_folder@,
            tags: match self.tags {
                Some(patterns) => texts(patterns@),
                None => Seq::empty(),
            },
            include_untagged: match self.include_untagged {
                Some(chosen) => chosen,
                None => false,
            },
            rules: match self.countries_rewrite {
                Some(rules) => rule_views(rules@),
                None => Seq::empty(),
            },
            public: match self.public {
                Some(public) => Some(public@),
                None => None,
            },
        }
    }
}

/// The overrides a rewrite rule may carry; an absent field leaves the
/// country's value alone.
pub struct RewriteProperties {
    pub name: Option<String>,
    pub description: Option<String>,
    pub foundation_date: Option<String>,
    pub flag: Option<String>,
    pub about: Option<String>,
    pub fill: Option<String>,
    pub stroke: Option<String>,
    pub tags: Option<Vec<String>>,
}

pub struct RewritePropertiesView {
    pub name: Option<Seq<char>>,
    pub description: Option<Seq<char>>,
    pub foundation_date: Option<Seq<char>>,
    pub flag: Option<Seq<char>>,
    pub about: Option<Seq<char>>,
    pub fill: Option<Seq<char>>,
    pub stroke: Option<Seq<char>>,
    pub tags: Option<Seq<Seq<char>>>,
}

impl View for RewriteProperties {
    type V = RewritePropertiesView;

    open spec fn view(&self) -> RewritePropertiesView {
        RewritePropertiesView {
            name: opt_text(self.name),
            description: opt_text(self.description),
            foundation_date: opt_text(self.foundation_date),
            flag: opt_text(self.flag),
            about: opt_text(self.about),
            fill: opt_text(self.fill),
            stroke: opt_text(self.stroke),
            tags: opt_texts(self.tags),
        }
    }
}

/// A rewrite rule: a tag filter and the overrides for the countries it matches.
pub struct CountryRewriteConfig {
    pub tags: Option<Vec<String>>,
    pub properties: RewriteProperties,
}

pub struct CountryRewriteView {
    pub tags: Option<Seq<Seq<char>>>,
    pub properties: RewritePropertiesView,
}

impl CountryRewriteView {
    /// The patterns of the rule's tag filter; none if it has no filter.
    pub open spec fn patterns(self) -> Seq<Seq<char>> {
        match self.tags {
            Some(patterns) => patterns,
            None => Seq::empty(),
        }
    }

    /// How many patterns the rule's tag filter has; none if it has no filter.
    pub open spec fn pattern_count(self) -> nat {
        match self.tags {
            Some(patterns) => patterns.len(),
            None => 0,
        }
    }
}

impl View for CountryRewriteConfig {
    type V = CountryRewriteView;

    open spec fn view(&self) -> CountryRewriteView {
        CountryRewriteView { tags: opt_texts(self.tags), properties: self.properties@ }
    }
}

/// The views of a list of rewrite rules.
pub open spec fn rule_views(rules: Seq<CountryRewriteConfig>) -> Seq<CountryRewriteView> {
    rules.map_values(|r: CountryRewriteConfig| r@)
}

/// The public projection of a profile.
pub struct PublicConfig {
    pub name: String,
    pub description: String,
    pub geo: String,
    pub countries: String,
}

pub struct PublicConfigView {
    pub name: Seq<char>,
    pub description: Seq<char>,
    pub geo: Seq<char>,
    pub countries: Seq<char>,
}

impl View for PublicConfig {
    type V = PublicConfigView;

    open spec fn view(&self) -> PublicConfigView {
        PublicConfigView {
            name: self.name@,
            description: self.description@,
            geo: self.geo@,
            countries: self.countries@,
        }
    }
}

impl Clone for PublicConfig {
    fn clone(&self) -> (copy: PublicConfig)
        ensures
            copy@ == self@,
    {
        PublicConfig {
            name: self.name.clone(),
            description: self.description.clone(),
            geo: self.geo.clone(),
            countries: self.countries.clone(),
        }
    }
}

/// A country's metadata.
pub struct CountryConfig {
    pub name: String,
    pub description: String,
    pub foundation_date: String,
    pub flag: String,
    pub fill: String,
    pub stroke: String,
    pub about: Option<String>,
    pub tags: Option<Vec<String>>,
}

pub struct CountryConfigView {
    pub name: Seq<char>,
    pub description: Seq<char>,
    pub foundation_date: Seq<char>,
    pub flag: Seq<char>,
    pub fill: Seq<char>,
    pub stroke: Seq<char>,
    pub about: Option<Seq<char>>,
    pub tags: Option<Seq<Seq<char>>>,
}

impl View for CountryConfig {
    type V = CountryConfigView;

    open spec fn view(&self) -> CountryConfigView {
        CountryConfigView {
            name: self.name@,
            description: self.description@,
            foundation_date: self.foundation_date@,
            flag: self.flag@,
            fill: self.fill@,
            stroke: self.stroke@,
            about: opt_text(self.about),
            tags: opt_texts(self.tags),
        }
    }
}

impl Clone for CountryConfig {
    fn clone(&self) -> (copy: CountryConfig)
        ensures
            copy@ == self@,
    {
        CountryConfig {
            name: self.name.clone(),
            description: self.description.clone(),
            foundation_date: self.foundation_date.clone(),
            flag: self.flag.clone(),
            fill: self.fill.clone(),
            stroke: self.stroke.clone(),
            about: clone_opt_string(&self.about),
            tags: clone_opt_strings(&self.tags),
        }
    }
}

/// The closed set of marker kinds.
#[derive(Clone, Copy, PartialEq, Eq, Structural, Debug)]
pub enum MarkerType {
    Capital,
    City,
    Landmark,
}

impl MarkerType {
    /// The label a marker kind is written out with.
    pub open spec fn label(self) -> Seq<char> {
        match self {
            MarkerType::Capital => "capital"@,
            MarkerType::City => "city"@,
            MarkerType::Landmark => "landmark-0"@,
        }
    }

    pub fn to_str(&self) -> (label: &'static str)
        ensures
            label@ == self.label(),
    {
        match self {
            MarkerType::Capital => "capital",
            MarkerType::City => "city",
            MarkerType::Landmark => "landmark-0",
        }
    }
}

/// Where a marker stands: the bit patterns of its x and y coordinates.
#[derive(Clone, Copy, PartialEq, Eq, Structural, Debug)]
pub struct Position {
    pub x: u64,
    pub y: u64,
}

/// A point marker declared by a country.
pub struct Marker {
    pub coordinates: Position,
    pub title: String,
    pub description: String,
    pub ty: MarkerType,
}

pub struct MarkerView {
    pub coordinates: Position,
    pub title: Seq<char>,
    pub description: Seq<char>,
    pub ty: MarkerType,
}

impl View for Marker {
    type V = MarkerView;

    open spec fn view(&self) -> MarkerView {
        MarkerView {
            coordinates: self.coordinates,
            title: self.title@,
            description: self.description@,
            ty: self.ty,
        }
    }
}

impl Clone for Marker {
    fn clone(&self) -> (copy: Marker)
        ensures
            copy@ == self@,
    {
        Marker {
            coordinates: self.coordinates,
            title: self.title.clone(),
            description: self.description.clone(),
            ty: self.ty,
        }
    }
}

/// The views of a list of markers.
pub open spec fn marker_views(markers: Seq<Marker>) -> Seq<MarkerView> {
    markers.map_values(|m: Marker| m@)
}

/// A copy of a list of markers.
pub fn clone_markers(markers: &Vec<Marker>) -> (copy: Vec<Marker>)
    ensures
        marker_views(copy@) == marker_views(markers@),
{
    let mut copy: Vec<Marker> = Vec::new();
    let mut i: usize = 0;
    while i < markers.len()
        invariant
            i <= markers.len(),
            copy.len() == i,
            forall|k: int| 0 <= k < i ==> (#[trigger] copy@[k])@ == markers@[k]@,
        decreases markers.len() - i,
    {
        copy.push(markers[i].clone());
        i += 1;
    }
    copy
}

/// A country of a build: its id, metadata, dissolved land and markers.
pub struct CountryData {
    pub id: String,
    pub config: CountryConfig,
    pub land: Land,
    pub markers: Vec<Marker>,
}

pub struct CountryView {
    pub id: Seq<char>,
    pub config: CountryConfigView,
    pub land: Seq<Seq<Seq<(u64, u64)>>>,
    pub markers: Seq<MarkerView>,
}

impl View for CountryData {
    type V = CountryView;

    open spec fn view(&self) -> CountryView {
        CountryView {
            id: self.id@,
            config: self.config@,
            land: land_polygons(self.land),
            markers: marker_views(self.markers@),
        }
    }
}

impl Clone for CountryData {
    fn clone(&self) -> (copy: CountryData)
        ensures
            copy@ == self@,
    {
        CountryData {
            id: self.id.clone(),
            config: self.config.clone(),
            land: copy_land(&self.land),
            markers: clone_markers(&self.markers),
        }
    }
}

/// The views of a list of countries.
pub open spec fn country_views(countries: Seq<CountryData>) -> Seq<CountryView> {
    countries.map_values(|c: CountryData| c@)
}

} // verus!
