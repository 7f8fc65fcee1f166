use cimengine::geometry::Land;
use cimengine::output::Feature;
use cimengine::output::FeatureGeometry;
use cimengine::output::PropertyValue;
use cimengine::profile::build;
use cimengine::profile::filter_countries;
use cimengine::profile::process_profile;
use cimengine::profile::select_countries;
use cimengine::profile::BuildFailure;
use cimengine::profile::ProfileError;
use cimengine::tags::compile_globs;
use cimengine::types::Config;
use cimengine::types::CountryConfig;
use cimengine::types::CountryData;
use cimengine::types::CountryRewriteConfig;
use cimengine::types::MainConfig;
use cimengine::types::Marker;
use cimengine::types::MarkerType;
use cimengine::types::Position;
use cimengine::types::ProcessingConfig;
use cimengine::types::PublicConfig;
use cimengine::types::RewriteProperties;
use geo::Area;

fn strings(items: &[&str]) -> Vec<String> {
    items.iter().map(|s| s.to_string()).collect()
}

fn square(x0: f64, y0: f64, x1: f64, y1: f64) -> geo::Polygon {
    geo::Polygon::new(
        geo::LineString::from(vec![(x0, y0), (x1, y0), (x1, y1), (x0, y1), (x0, y0)]),
        vec![],
    )
}

fn country(id: &str, shape: geo::Polygon, tags: Option<&[&str]>, markers: usize) -> CountryData {
    CountryData {
        id: id.to_string(),
        config: CountryConfig {
            name: id.to_uppercase(),
            description: String::new(),
            foundation_date: String::new(),
            flag: String::new(),
            fill: "#000000".to_string(),
            stroke: "#ffffff".to_string(),
            about: None,
            tags: tags.map(strings),
        },
        land: Land { shape: geo::MultiPolygon::new(vec![shape]) },
        markers: (0..markers)
            .map(|k| Marker {
                coordinates: Position { x: (k as f64).to_bits(), y: 0.5f64.to_bits() },
                title: format!("{}-{}", id, k),
                description: String::new(),
                ty: MarkerType::City,
            })
            .collect(),
    }
}

fn world() -> Vec<CountryData> {
    vec![
        country("a", square(0.0, 0.0, 2.0, 2.0), Some(&["eu-west"]), 2),
        country("b", square(1.0, 1.0, 3.0, 3.0), Some(&["asia"]), 1),
        country("c", square(10.0, 10.0, 11.0, 11.0), None, 1),
    ]
}

fn profile() -> ProcessingConfig {
    ProcessingConfig {
        show_markers: None,
        output_folder: "out".to_string(),
        tags: None,
        include_untagged: None,
        countries_rewrite: None,
        public: None,
    }
}

fn nothing() -> RewriteProperties {
    RewriteProperties {
        name: None,
        description: None,
        foundation_date: None,
        flag: None,
        about: None,
        fill: None,
        stroke: None,
        tags: None,
    }
}

fn land_area(feature: &Feature) -> f64 {
    match &feature.geometry {
        FeatureGeometry::MultiPolygon(land) => land.shape.unsigned_area(),
        FeatureGeometry::Point(_) => panic!("a point has no area"),
    }
}

fn first_text(feature: &Feature) -> &str {
    match &feature.properties[0].1 {
        PropertyValue::Text(text) => text.as_str(),
        _ => panic!("the first property is no text"),
    }
}

fn ids(countries: &Vec<CountryData>) -> Vec<&str> {
    countries.iter().map(|c| c.id.as_str()).collect()
}

#[test]
fn filter_without_patterns_keeps_all() {
    let patterns = strings(&[]);
    let globs = compile_globs(&patterns).unwrap();
    let kept = filter_countries(&world(), &globs, false);
    assert_eq!(ids(&kept), vec!["a", "b", "c"]);
}

#[test]
fn filter_keeps_the_matching_countries_in_order() {
    let patterns = strings(&["asia", "eu-*"]);
    let globs = compile_globs(&patterns).unwrap();
    let kept = filter_countries(&world(), &globs, false);
    assert_eq!(ids(&kept), vec!["a", "b"]);
    assert_eq!(kept[0].markers.len(), 2);
    assert_eq!(kept[0].config.name, "A");
    assert_eq!(kept[1].land.shape, world()[1].land.shape);
}

#[test]
fn filter_can_take_the_untagged_along() {
    let patterns = strings(&["asia"]);
    let globs = compile_globs(&patterns).unwrap();
    assert_eq!(ids(&filter_countries(&world(), &globs, true)), vec!["b", "c"]);
    assert_eq!(ids(&filter_countries(&world(), &globs, false)), vec!["b"]);
}

#[test]
fn profile_without_options_writes_every_country() {
    let countries = world();
    let out = process_profile(&profile(), &countries).ok().unwrap();
    assert_eq!(out.geo.features.len(), 4 + 3);
    assert_eq!(out.countries.len(), 3);
    assert_eq!(out.countries[0].0, "a");
    assert_eq!(out.countries[1].0, "b");
    assert_eq!(out.countries[2].0, "c");
    assert!(out.public.is_none());
    assert_eq!(first_text(&out.geo.features[0]), "a-0");
    assert_eq!(first_text(&out.geo.features[3]), "c-0");
    assert_eq!(first_text(&out.geo.features[4]), "a");
    assert!((land_area(&out.geo.features[4]) - 3.0).abs() < 1e-6);
    assert!((land_area(&out.geo.features[5]) - 4.0).abs() < 1e-6);
    assert!((land_area(&out.geo.features[6]) - 1.0).abs() < 1e-6);
}

#[test]
fn profile_leaves_the_loaded_countries_alone() {
    let countries = world();
    let rules = vec![CountryRewriteConfig {
        tags: None,
        properties: RewriteProperties { name: Some("Renamed".to_string()), ..nothing() },
    }];
    let out = process_profile(
        &ProcessingConfig { show_markers: Some(false), countries_rewrite: Some(rules), ..profile() },
        &countries,
    )
    .ok()
    .unwrap();
    assert_eq!(out.countries[0].1.name, "Renamed");
    assert_eq!(out.geo.features.len(), 3);
    assert_eq!(countries[0].config.name, "A");
    assert_eq!(countries[0].markers.len(), 2);
    assert!((countries[0].land.shape.unsigned_area() - 4.0).abs() < 1e-6);
}

#[test]
fn filtered_out_countries_take_no_land() {
    let countries = world();
    let out =
        process_profile(&ProcessingConfig { tags: Some(strings(&["eu-*"])), ..profile() }, &countries).ok().unwrap();
    assert_eq!(out.countries.len(), 1);
    assert_eq!(out.countries[0].0, "a");
    assert_eq!(out.geo.features.len(), 2 + 1);
    assert!((land_area(&out.geo.features[2]) - 4.0).abs() < 1e-6);
}

#[test]
fn profile_in_which_nothing_matches_writes_nothing() {
    let countries = world();
    let out = process_profile(&ProcessingConfig { tags: Some(strings(&["africa"])), ..profile() }, &countries)
        .ok()
        .unwrap();
    assert!(out.geo.features.is_empty());
    assert!(out.countries.is_empty());
}

#[test]
fn profile_over_no_countries_writes_nothing() {
    let out = process_profile(&profile(), &vec![]).ok().unwrap();
    assert!(out.geo.features.is_empty());
    assert!(out.countries.is_empty());
}

#[test]
fn hidden_markers_leave_only_lands() {
    let countries = world();
    let out = process_profile(&ProcessingConfig { show_markers: Some(false), ..profile() }, &countries).ok().unwrap();
    assert_eq!(out.geo.features.len(), 3);
    assert!(out.geo.features.iter().all(|f| matches!(f.geometry, FeatureGeometry::MultiPolygon(_))));
}

#[test]
fn rules_rewrite_the_written_metadata_and_style() {
    let countries = world();
    let rules = vec![CountryRewriteConfig {
        tags: Some(strings(&["asia"])),
        properties: RewriteProperties { fill: Some("#ff0000".to_string()), ..nothing() },
    }];
    let out = process_profile(&ProcessingConfig { countries_rewrite: Some(rules), ..profile() }, &countries)
        .ok()
        .unwrap();
    assert_eq!(out.countries[0].1.fill, "#000000");
    assert_eq!(out.countries[1].1.fill, "#ff0000");
    assert_eq!(out.countries[1].1.name, "B");
    assert_eq!(out.countries[2].1.fill, "#000000");
    match &out.geo.features[5].properties[2] {
        (name, PropertyValue::Text(fill)) => {
            assert_eq!(name, "fill");
            assert_eq!(fill, "#ff0000");
        },
        _ => panic!("fill is no text"),
    }
}

#[test]
fn public_projection_is_passed_on() {
    let public = PublicConfig {
        name: "Map".to_string(),
        description: "a map".to_string(),
        geo: "geo.geojson".to_string(),
        countries: "countries.json".to_string(),
    };
    let out = process_profile(&ProcessingConfig { public: Some(public), ..profile() }, &world()).ok().unwrap();
    let public = out.public.unwrap();
    assert_eq!(public.name, "Map");
    assert_eq!(public.description, "a map");
    assert_eq!(public.geo, "geo.geojson");
    assert_eq!(public.countries, "countries.json");
}

#[test]
fn bad_tag_pattern_fails_the_profile() {
    let failed = process_profile(&ProcessingConfig { tags: Some(strings(&["ok", "a**b"])), ..profile() }, &world());
    assert_eq!(failed.err(), Some(ProfileError::TagPattern { pattern: 1 }));
}

#[test]
fn bad_rule_pattern_fails_the_profile() {
    let rules = vec![
        CountryRewriteConfig { tags: None, properties: nothing() },
        CountryRewriteConfig { tags: Some(strings(&["***"])), properties: nothing() },
    ];
    let failed = process_profile(&ProcessingConfig { countries_rewrite: Some(rules), ..profile() }, &world());
    assert_eq!(failed.err(), Some(ProfileError::RulePattern { rule: 1, pattern: 0 }));
}

#[test]
fn tag_patterns_are_compiled_before_rule_patterns() {
    let rules = vec![CountryRewriteConfig { tags: Some(strings(&["***"])), properties: nothing() }];
    let failed = process_profile(
        &ProcessingConfig { tags: Some(strings(&["a**b"])), countries_rewrite: Some(rules), ..profile() },
        &world(),
    );
    assert_eq!(failed.err(), Some(ProfileError::TagPattern { pattern: 0 }));
}

#[test]
fn build_processes_every_profile_from_the_same_countries() {
    let config = Config {
        main: MainConfig { layers: strings(&["a", "b", "c"]) },
        processing: vec![
            ProcessingConfig { output_folder: "all".to_string(), ..profile() },
            ProcessingConfig { output_folder: "eu".to_string(), tags: Some(strings(&["eu-*"])), ..profile() },
            ProcessingConfig { output_folder: "bare".to_string(), show_markers: Some(false), ..profile() },
        ],
    };
    let outs = build(&config, &world()).ok().unwrap();
    assert_eq!(outs.len(), 3);
    assert_eq!(outs[0].geo.features.len(), 7);
    assert_eq!(outs[1].geo.features.len(), 3);
    assert_eq!(outs[2].geo.features.len(), 3);
    assert_eq!(outs[2].countries.len(), 3);
}

#[test]
fn build_without_profiles_builds_nothing() {
    let config = Config { main: MainConfig { layers: vec![] }, processing: vec![] };
    assert!(build(&config, &world()).ok().unwrap().is_empty());
}

#[test]
fn build_names_the_profile_that_failed() {
    let config = Config {
        main: MainConfig { layers: strings(&["a", "b", "c"]) },
        processing: vec![profile(), ProcessingConfig { tags: Some(strings(&["a**b"])), ..profile() }, profile()],
    };
    assert_eq!(
        build(&config, &world()).err(),
        Some(BuildFailure { profile: 1, error: ProfileError::TagPattern { pattern: 0 } })
    );
}

#[test]
fn overlap_that_cannot_be_resolved_fails_the_profile() {
    let spike = geo::Polygon::new(
        geo::LineString::from(vec![(0.0, 0.0), (f64::NAN, 0.0), (1.0, 1.0), (0.0, 0.0)]),
        vec![],
    );
    let mut countries = world();
    countries.push(country("spiked", spike, Some(&["spike"]), 0));
    let failed = process_profile(&profile(), &countries);
    assert_eq!(failed.err(), Some(ProfileError::Overlap { country: 0, other: 3 }));
    let eu_only = process_profile(&ProcessingConfig { tags: Some(strings(&["eu-*", "asia"])), ..profile() }, &countries);
    assert_eq!(eu_only.ok().unwrap().countries.len(), 2);
    let with_spike =
        process_profile(&ProcessingConfig { tags: Some(strings(&["asia", "spike"])), ..profile() }, &countries);
    assert_eq!(with_spike.err(), Some(ProfileError::Overlap { country: 0, other: 1 }));
}

#[test]
fn select_keeps_the_chosen_countries_in_order() {
    let countries = world();
    assert_eq!(ids(&select_countries(&countries, &vec![true, false, true])), vec!["a", "c"]);
    assert_eq!(ids(&select_countries(&countries, &vec![false, true, false])), vec!["b"]);
    assert_eq!(ids(&select_countries(&countries, &vec![true, true, true])), vec!["a", "b", "c"]);
    assert!(select_countries(&countries, &vec![false, false, false]).is_empty());
    let kept = select_countries(&countries, &vec![false, false, true]);
    assert_eq!(kept[0].markers.len(), 1);
    assert_eq!(kept[0].land.shape, countries[2].land.shape);
}

#[test]
fn select_with_choices_of_another_length_takes_nothing() {
    let countries = world();
    assert!(select_countries(&countries, &vec![true, true]).is_empty());
    assert!(select_countries(&countries, &vec![true, true, true, true]).is_empty());
    assert!(select_countries(&vec![], &vec![]).is_empty());
}

#[test]
fn a_pattern_beyond_the_limits_fails_the_profile() {
    let deep = format!("{}a{}", "{".repeat(150), ",b}".repeat(150));
    let failed = process_profile(&ProcessingConfig { tags: Some(vec!["eu-*".to_string(), deep]), ..profile() }, &world());
    assert_eq!(failed.err(), Some(ProfileError::TagPattern { pattern: 1 }));
    let rules = vec![CountryRewriteConfig { tags: Some(strings(&["ok", "<a:1,2>"])), properties: nothing() }];
    let failed = process_profile(&ProcessingConfig { countries_rewrite: Some(rules), ..profile() }, &world());
    assert_eq!(failed.err(), Some(ProfileError::RulePattern { rule: 0, pattern: 1 }));
}
