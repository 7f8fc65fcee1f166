//! The work of one build: loading a country from its raw features, and
//! processing a profile over the loaded countries.

use crate::geometry::dissolve_territories;
use crate::geometry::dissolved;
use crate::geometry::shapes;
use crate::geometry::DissolveError;
use crate::geometry::Shape;
use crate::output::combine;
use crate::output::combined;
use crate::output::lemma_combined_len;
use crate::output::lemma_nothing_from_no_countries;
use crate::output::marker_count;
use crate::output::metadata;
use crate::output::metadata_of;
use crate::output::metadata_views;
use crate::output::FeatureCollection;
use crate::output::FeatureView;
use crate::overlap::diff_countries;
use crate::overlap::diffed;
use crate::overlap::lands_of;
use crate::overlap::lemma_diffed_keeps;
use crate::rewrite::compile_rules;
use crate::rewrite::first_unusable_rule;
use crate::rewrite::globs_fit;
use crate::rewrite::rewrite_country;
use crate::rewrite::rewritten_country;
use crate::split::feature_views;
use crate::split::first_error;
use crate::split::fragments_of;
use crate::split::markers_of;
use crate::split::GeometryError;
use crate::split::SourceCollection;
use crate::split::SourceFeatureView;
use crate::split::ToSplitGeo;
use crate::tags::compile_globs;
use crate::tags::expressions;
use crate::tags::first_unusable;
use crate::tags::is_match;
use crate::tags::passes;
use crate::types::country_views;
use crate::types::rule_views;
use crate::types::Config;
use crate::types::CountryConfig;
use crate::types::CountryConfigView;
use crate::types::CountryData;
use crate::types::CountryRewriteConfig;
use crate::types::CountryView;
use crate::types::ProcessingConfig;
use crate::types::ProcessingView;
use crate::types::PublicConfig;
use crate::types::PublicConfigView;
use vstd::prelude::*;
use wax::Glob;

verus! {

/// Why a country cannot be loaded.
#[derive(Clone, Copy, PartialEq, Eq, Structural, Debug)]
pub enum LoadError {
    /// A feature cannot be split.
    Geometry(GeometryError),
    /// A fragment cannot be merged into the land.
    Dissolve(DissolveError),
}

/// The country that an id, its metadata, its raw features and the land
/// dissolved from them give: the markers are those of the point features.
pub open spec fn loaded(
    id: Seq<char>,
    config: CountryConfigView,
    features: Seq<SourceFeatureView>,
    land: Shape,
) -> CountryView {
    CountryView { id, config, land, markers: markers_of(features) }
}

/// Whether `country` is what loading gives: the error of the first feature
/// that cannot be split; else the place of the first fragment that cannot be
/// merged; else the country with its markers and its dissolved land.
pub open spec fn is_loaded_from(
    id: Seq<char>,
    config: CountryConfigView,
    features: Seq<SourceFeatureView>,
    country: Result<CountryData, LoadError>,
) -> bool {
    match country {
        Ok(c) => {
            &&& first_error(features) is None
            &&& dissolved(shapes(fragments_of(features))) == Ok::<Shape, int>(c@.land)
            &&& c@ == loaded(id, config, features, c@.land)
        },
        Err(LoadError::Geometry(error)) => first_error(features) == Some(error),
        Err(LoadError::Dissolve(error)) => {
            &&& first_error(features) is None
            &&& dissolved(shapes(fragments_of(features))) == Err::<Shape, int>(error.fragment as int)
        },
    }
}

/// Loads a country from what was read for it: splits the raw features and
/// dissolves the fragments. The first feature that cannot be split fails the
/// load with its error; after that, the first fragment that cannot be merged.
pub fn get_country(id: String, config: CountryConfig, geo: &SourceCollection) -> (country: Result<
    CountryData,
    LoadError,
>)
    ensures
        is_loaded_from(id@, config@, feature_views(geo.features@), country),
{
    match geo.split_geo() {
        Ok((markers, territories)) => {
            match dissolve_territories(territories) {
                Ok(land) => Ok(CountryData { id, config, land, markers }),
                Err(error) => Err(LoadError::Dissolve(error)),
            }
        },
        Err(error) => Err(LoadError::Geometry(error)),
    }
}

/// The countries that are kept, in order: country `i` stays exactly if
/// `keep[i]` says so.
pub open spec fn selected(countries: Seq<CountryView>, keep: Seq<bool>) -> Seq<CountryView>
    decreases countries.len(),
{
    if countries.len() == 0 || keep.len() != countries.len() {
        Seq::empty()
    } else {
        let earlier = selected(countries.drop_last(), keep.drop_last());
        if keep.last() {
            earlier.push(countries.last())
        } else {
            earlier
        }
    }
}

/// For each country, whether it passes a filter of these patterns.
pub open spec fn keep_of(
    countries: Seq<CountryView>,
    patterns: Seq<Seq<char>>,
    include_untagged: bool,
) -> Seq<bool> {
    Seq::new(countries.len(), |i: int| passes(countries[i].config.tags, patterns, include_untagged))
}

/// The countries that pass a filter of these patterns, in order.
pub open spec fn filtered(
    countries: Seq<CountryView>,
    patterns: Seq<Seq<char>>,
    include_untagged: bool,
) -> Seq<CountryView> {
    selected(countries, keep_of(countries, patterns, include_untagged))
}

/// A selection never holds more countries than there were.
pub proof fn lemma_selected_len(countries: Seq<CountryView>, keep: Seq<bool>)
    ensures
        selected(countries, keep).len() <= countries.len(),
    decreases countries.len(),
{
    if countries.len() == 0 || keep.len() != countries.len() {
    } else {
        lemma_selected_len(countries.drop_last(), keep.drop_last());
    }
}

/// Where every country passes, the selection is the whole list.
pub proof fn lemma_all_selected(countries: Seq<CountryView>, keep: Seq<bool>)
    requires
        keep.len() == countries.len(),
        forall|i: int| 0 <= i < keep.len() ==> keep[i],
    ensures
        selected(countries, keep) == countries,
    decreases countries.len(),
{
    if countries.len() == 0 {
    } else {
        lemma_all_selected(countries.drop_last(), keep.drop_last());
    }
}

/// Where no country passes, the selection is empty.
pub proof fn lemma_none_selected(countries: Seq<CountryView>, keep: Seq<bool>)
    requires
        forall|i: int| 0 <= i < keep.len() ==> !keep[i],
    ensures
        selected(countries, keep) == Seq::<CountryView>::empty(),
    decreases countries.len(),
{
    if countries.len() == 0 || keep.len() != countries.len() {
    } else {
        lemma_none_selected(countries.drop_last(), keep.drop_last());
    }
}

/// A filter without patterns keeps every country.
pub proof fn lemma_no_patterns_keep_all(countries: Seq<CountryView>, include_untagged: bool)
    ensures
        filtered(countries, Seq::empty(), include_untagged) == countries,
{
    lemma_all_selected(countries, keep_of(countries, Seq::empty(), include_untagged));
}

/// Copies the countries that are chosen, in order: country `i` exactly if
/// `keep[i]` says so. A list of choices of another length chooses nothing.
pub fn select_countries(countries: &Vec<CountryData>, keep: &Vec<bool>) -> (kept: Vec<CountryData>)
    ensures
        country_views(kept@) == selected(country_views(countries@), keep@),
{
    let ghost all = country_views(countries@);
    let mut kept: Vec<CountryData> = Vec::new();
    if keep.len() != countries.len() {
        return kept;
    }
    let mut i: usize = 0;
    while i < countries.len()
        invariant
            i <= countries.len(),
            keep.len() == countries.len(),
            all == country_views(countries@),
            country_views(kept@) == selected(all.take(i as int), keep@.take(i as int)),
        decreases countries.len() - i,
    {
        proof {
            assert(all.take(i + 1).drop_last() =~= all.take(i as int));
            assert(keep@.take(i + 1).drop_last() =~= keep@.take(i as int));
        }
        if keep[i] {
            kept.push(countries[i].clone());
        }
        i += 1;
    }
    proof {
        assert(all.take(i as int) =~= all);
        assert(keep@.take(i as int) =~= keep@);
    }
    kept
}

/// Copies the countries that pass a profile's tag filter, in layer order:
/// each country's tags are put to the filter, and those for which it says
/// yes are selected.
pub fn filter_countries(countries: &Vec<CountryData>, globs: &Vec<Glob>, include_untagged: bool) -> (kept:
    Vec<CountryData>)
    ensures
        country_views(kept@) == filtered(
            country_views(countries@),
            expressions(globs@),
            include_untagged,
        ),
{
    let ghost all = country_views(countries@);
    let ghost patterns = expressions(globs@);
    let mut keep: Vec<bool> = Vec::new();
    let mut i: usize = 0;
    while i < countries.len()
        invariant
            i <= countries.len(),
            keep.len() == i,
            all == country_views(countries@),
            patterns == expressions(globs@),
            forall|k: int|
                0 <= k < i ==> keep@[k] == passes(
                    (#[trigger] all[k]).config.tags,
                    patterns,
                    include_untagged,
                ),
        decreases countries.len() - i,
    {
        let matched = is_match(&countries[i].config.tags, globs, include_untagged);
        assert(all[i as int] == countries@[i as int]@);
        keep.push(matched);
        i += 1;
    }
    assert(keep@ =~= keep_of(all, patterns, include_untagged));
    select_countries(countries, &keep)
}

/// What a profile writes out.
pub struct ProfileOutput {
    /// The combined feature collection.
    pub geo: FeatureCollection,
    /// The metadata of each country under its id, in layer order.
    pub countries: Vec<(String, CountryConfig)>,
    /// The public projection, where the profile declares one.
    pub public: Option<PublicConfig>,
}

pub struct ProfileOutputView {
    pub geo: Seq<FeatureView>,
    pub countries: Seq<(Seq<char>, CountryConfigView)>,
    pub public: Option<PublicConfigView>,
}

impl View for ProfileOutput {
    type V = ProfileOutputView;

    open spec fn view(&self) -> ProfileOutputView {
        ProfileOutputView {
            geo: self.geo@,
            countries: metadata_views(self.countries@),
            public: match self.public {
                Some(public) => Some(public@),
                None => None,
            },
        }
    }
}

/// Why a profile cannot be processed.
#[derive(Clone, Copy, PartialEq, Eq, Structural, Debug)]
pub enum ProfileError {
    /// A pattern of the profile's tag filter does not compile.
    TagPattern { pattern: usize },
    /// A pattern of a rewrite rule's tag filter does not compile.
    RulePattern { rule: usize, pattern: usize },
    /// The overlap between two of the countries that passed the filter
    /// cannot be resolved; the places are those among these countries.
    Overlap { country: usize, other: usize },
}

/// The countries, each rewritten for the profile.
pub open spec fn rewritten_all(countries: Seq<CountryView>, profile: ProcessingView) -> Seq<
    CountryView,
> {
    countries.map_values(
        |c: CountryView|
            rewritten_country(c, profile.show_markers, profile.rules, profile.include_untagged),
    )
}

/// How the work on a profile ends.
pub enum Outcome {
    /// A pattern of the tag filter cannot be used.
    TagPattern { pattern: int },
    /// A pattern of a rule's tag filter cannot be used.
    RulePattern { rule: int, pattern: int },
    /// The overlap between two of the countries that passed the filter
    /// cannot be resolved.
    Overlap { country: int, other: int },
    /// The profile is written out.
    Written(ProfileOutputView),
}

/// What the profile makes of what is left of the countries once the filter
/// has been passed, the overlaps resolved and each country rewritten.
pub open spec fn composed(written: Seq<CountryView>, profile: ProcessingView) -> ProfileOutputView {
    ProfileOutputView {
        geo: combined(written),
        countries: metadata_of(written),
        public: profile.public,
    }
}

/// How the work on a profile ends. The patterns of the tag filter are
/// looked at first, then those of the rules, rule by rule; the first that
/// cannot be used ends the work. Then the countries that pass the filter
/// have their overlaps resolved; the first pair at which that cannot be done
/// ends the work. Else each country is rewritten and the output composed.
pub open spec fn outcome(profile: ProcessingView, countries: Seq<CountryView>) -> Outcome {
    match first_unusable(profile.tags) {
        Some(pattern) => Outcome::TagPattern { pattern },
        None => match first_unusable_rule(profile.rules) {
            Some((rule, pattern)) => Outcome::RulePattern { rule, pattern },
            None => match diffed(filtered(countries, profile.tags, profile.include_untagged)) {
                Err((country, other)) => Outcome::Overlap { country, other },
                Ok(resolved) => Outcome::Written(composed(rewritten_all(resolved, profile), profile)),
            },
        },
    }
}

/// The end that an error stands for.
pub open spec fn error_outcome(error: ProfileError) -> Outcome {
    match error {
        ProfileError::TagPattern { pattern } => Outcome::TagPattern { pattern: pattern as int },
        ProfileError::RulePattern { rule, pattern } => Outcome::RulePattern {
            rule: rule as int,
            pattern: pattern as int,
        },
        ProfileError::Overlap { country, other } => Outcome::Overlap {
            country: country as int,
            other: other as int,
        },
    }
}

/// The end that a result stands for.
pub open spec fn outcome_of(result: Result<ProfileOutput, ProfileError>) -> Outcome {
    match result {
        Ok(output) => Outcome::Written(output@),
        Err(error) => error_outcome(error),
    }
}

/// Processes one profile over the loaded countries, which stay as they are:
/// the profile works on copies. Its patterns are compiled first, the tag
/// filter's before the rules'; then the countries are filtered, their
/// overlaps resolved, each is rewritten, and the output is composed.
pub fn process_profile(profile: &ProcessingConfig, countries: &Vec<CountryData>) -> (output: Result<
    ProfileOutput,
    ProfileError,
>)
    ensures
        outcome_of(output) == outcome(profile@, country_views(countries@)),
{
    let show_markers = match profile.show_markers {
        Some(show) => show,
        None => true,
    };
    let include_untagged = match profile.include_untagged {
        Some(chosen) => chosen,
        None => false,
    };
    let globs = match &profile.tags {
        Some(patterns) => match compile_globs(patterns) {
            Ok(globs) => globs,
            Err(error) => {
                return Err(ProfileError::TagPattern { pattern: error.index });
            },
        },
        None => Vec::new(),
    };
    assert(expressions(globs@) =~= profile@.tags);
    let no_rules: Vec<CountryRewriteConfig> = Vec::new();
    let rules = match &profile.countries_rewrite {
        Some(rules) => rules,
        None => &no_rules,
    };
    assert(rule_views(rules@) =~= profile@.rules);
    let rule_globs = match compile_rules(rules) {
        Ok(rule_globs) => rule_globs,
        Err(error) => {
            return Err(ProfileError::RulePattern { rule: error.rule, pattern: error.pattern });
        },
    };
    let kept = filter_countries(countries, &globs, include_untagged);
    let mut working = match diff_countries(kept) {
        Ok(working) => working,
        Err(error) => {
            return Err(ProfileError::Overlap { country: error.country, other: error.other });
        },
    };
    let ghost resolved = country_views(working@);
    let mut i: usize = 0;
    while i < working.len()
        invariant
            i <= working.len(),
            working.len() == resolved.len(),
            globs_fit(rule_globs@, rule_views(rules@)),
            forall|k: int|
                0 <= k < i ==> #[trigger] country_views(working@)[k] == rewritten_country(
                    resolved[k],
                    show_markers,
                    rule_views(rules@),
                    include_untagged,
                ),
            forall|k: int| i <= k < working.len() ==> #[trigger] country_views(working@)[k] == resolved[k],
        decreases working.len() - i,
    {
        let ghost earlier = country_views(working@);
        assert(earlier[i as int] == working@[i as int]@);
        rewrite_country(&mut working[i], show_markers, rules, &rule_globs, include_untagged);
        assert(forall|k: int|
            0 <= k < working.len() && k != i ==> #[trigger] country_views(working@)[k] == earlier[k]);
        assert(country_views(working@)[i as int] == working@[i as int]@);
        i += 1;
    }
    assert(country_views(working@) =~= rewritten_all(resolved, profile@));
    let geo = combine(&working);
    let entries = metadata(&working);
    let public = match &profile.public {
        Some(public) => Some(public.clone()),
        None => None,
    };
    Ok(ProfileOutput { geo, countries: entries, public })
}

/// Markers that are shown pass through a profile untouched, and hidden ones
/// are all dropped: what is left is counted by the countries that passed the
/// filter.
pub proof fn lemma_markers_left(countries: Seq<CountryView>, profile: ProcessingView)
    ensures
        marker_count(rewritten_all(countries, profile)) == if profile.show_markers {
            marker_count(countries)
        } else {
            0
        },
    decreases countries.len(),
{
    if countries.len() > 0 {
        lemma_markers_left(countries.drop_last(), profile);
        assert(rewritten_all(countries, profile).drop_last() =~= rewritten_all(
            countries.drop_last(),
            profile,
        ));
    }
}

/// Countries that hold the same markers hold as many.
pub proof fn lemma_same_markers_same_count(a: Seq<CountryView>, b: Seq<CountryView>)
    requires
        a.len() == b.len(),
        forall|i: int| 0 <= i < a.len() ==> (#[trigger] a[i]).markers == b[i].markers,
    ensures
        marker_count(a) == marker_count(b),
    decreases a.len(),
{
    if a.len() > 0 {
        lemma_same_markers_same_count(a.drop_last(), b.drop_last());
    }
}

/// What a profile writes has one feature for each marker that is left and
/// one for each country that passed the filter, and one metadata entry for
/// each such country. The markers left are those of the countries that
/// passed, or none where the profile hides them.
pub proof fn lemma_output_counts(profile: ProcessingView, countries: Seq<CountryView>)
    requires
        outcome(profile, countries) is Written,
    ensures
        ({
            let output = outcome(profile, countries)->Written_0;
            let kept = filtered(countries, profile.tags, profile.include_untagged);
            &&& kept.len() <= countries.len()
            &&& output.countries.len() == kept.len()
            &&& output.geo.len() == kept.len() + if profile.show_markers {
                marker_count(kept)
            } else {
                0
            }
        }),
{
    let kept = filtered(countries, profile.tags, profile.include_untagged);
    let resolved = diffed(kept)->Ok_0;
    let written = rewritten_all(resolved, profile);
    lemma_selected_len(countries, keep_of(countries, profile.tags, profile.include_untagged));
    lemma_diffed_keeps(kept);
    lemma_combined_len(written);
    lemma_markers_left(resolved, profile);
    lemma_same_markers_same_count(resolved, kept);
}

/// A profile in which no country passes writes nothing: where the metadata
/// mapping is empty, so is the combined collection.
pub proof fn lemma_empty_profile(profile: ProcessingView, countries: Seq<CountryView>)
    requires
        outcome(profile, countries) is Written,
        outcome(profile, countries)->Written_0.countries.len() == 0,
    ensures
        outcome(profile, countries)->Written_0.geo == Seq::<FeatureView>::empty(),
{
    let kept = filtered(countries, profile.tags, profile.include_untagged);
    let written = rewritten_all(diffed(kept)->Ok_0, profile);
    assert(written.len() == metadata_of(written).len());
    lemma_nothing_from_no_countries(written);
}

/// Over no countries a profile whose patterns can be used writes nothing.
pub proof fn lemma_no_countries_no_output(profile: ProcessingView, countries: Seq<CountryView>)
    requires
        countries.len() == 0,
        first_unusable(profile.tags) is None,
        first_unusable_rule(profile.rules) is None,
    ensures
        outcome(profile, countries) == Outcome::Written(
            ProfileOutputView {
                geo: Seq::empty(),
                countries: Seq::empty(),
                public: profile.public,
            },
        ),
{
    let kept = filtered(countries, profile.tags, profile.include_untagged);
    assert(kept =~= Seq::<CountryView>::empty());
    assert(lands_of(kept) =~= Seq::<Shape>::empty());
    assert(diffed(kept) is Ok);
    let resolved = diffed(kept)->Ok_0;
    assert(resolved.len() == 0);
    let written = rewritten_all(resolved, profile);
    lemma_nothing_from_no_countries(written);
}

/// A profile that cannot be processed, and why.
#[derive(Clone, Copy, PartialEq, Eq, Structural, Debug)]
pub struct BuildFailure {
    /// The place of the profile in the configuration.
    pub profile: usize,
    pub error: ProfileError,
}

/// The views of a list of profiles.
pub open spec fn profile_views(profiles: Seq<ProcessingConfig>) -> Seq<ProcessingView> {
    profiles.map_values(|p: ProcessingConfig| p@)
}

/// The views of a list of outputs.
pub open spec fn build_views(outputs: Seq<ProfileOutput>) -> Seq<ProfileOutputView> {
    outputs.map_values(|o: ProfileOutput| o@)
}

/// How a build ends.
pub enum BuildOutcome {
    /// A profile cannot be processed; `outcome` says why.
    Failed { profile: int, outcome: Outcome },
    /// Every profile is written out.
    Built(Seq<ProfileOutputView>),
}

/// How a build ends: the profiles are processed in order, each from the
/// countries as they were loaded, and the first that is not written out
/// fails the build.
pub open spec fn built(profiles: Seq<ProcessingView>, countries: Seq<CountryView>) -> BuildOutcome
    decreases profiles.len(),
{
    if profiles.len() == 0 {
        BuildOutcome::Built(Seq::empty())
    } else {
        match built(profiles.drop_last(), countries) {
            BuildOutcome::Failed { profile, outcome } => BuildOutcome::Failed { profile, outcome },
            BuildOutcome::Built(outputs) => match outcome(profiles.last(), countries) {
                Outcome::Written(output) => BuildOutcome::Built(outputs.push(output)),
                other => BuildOutcome::Failed { profile: profiles.len() - 1, outcome: other },
            },
        }
    }
}

/// A failure among the first profiles is the failure of the build.
pub proof fn lemma_build_failure_stays(
    profiles: Seq<ProcessingView>,
    countries: Seq<CountryView>,
    count: int,
)
    requires
        0 <= count <= profiles.len(),
        built(profiles.take(count), countries) is Failed,
    ensures
        built(profiles, countries) == built(profiles.take(count), countries),
    decreases profiles.len() - count,
{
    if count == profiles.len() {
        assert(profiles.take(count) =~= profiles);
    } else {
        assert(profiles.take(count + 1).drop_last() =~= profiles.take(count));
        lemma_build_failure_stays(profiles, countries, count + 1);
    }
}

/// The end that a result of a build stands for.
pub open spec fn build_outcome_of(result: Result<Vec<ProfileOutput>, BuildFailure>) -> BuildOutcome {
    match result {
        Ok(outputs) => BuildOutcome::Built(build_views(outputs@)),
        Err(failure) => BuildOutcome::Failed {
            profile: failure.profile as int,
            outcome: error_outcome(failure.error),
        },
    }
}

/// Processes every profile of a configuration over the loaded countries,
/// given in layer order. Each profile starts from the countries as they were
/// loaded. The first profile that cannot be processed fails the build.
pub fn build(config: &Config, countries: &Vec<CountryData>) -> (outputs: Result<
    Vec<ProfileOutput>,
    BuildFailure,
>)
    ensures
        build_outcome_of(outputs) == built(
            profile_views(config.processing@),
            country_views(countries@),
        ),
{
    let ghost all = profile_views(config.processing@);
    let mut outs: Vec<ProfileOutput> = Vec::new();
    let mut k: usize = 0;
    assert(build_views(outs@) =~= Seq::<ProfileOutputView>::empty());
    while k < config.processing.len()
        invariant
            k <= config.processing.len(),
            all == profile_views(config.processing@),
            built(all.take(k as int), country_views(countries@)) == BuildOutcome::Built(
                build_views(outs@),
            ),
        decreases config.processing.len() - k,
    {
        proof {
            assert(all.take(k + 1).drop_last() =~= all.take(k as int));
            assert(all.take(k + 1).last() == config.processing[k as int]@);
        }
        match process_profile(&config.processing[k], countries) {
            Ok(out) => {
                proof {
                    assert(build_views(outs@.push(out)) =~= build_views(outs@).push(out@));
                }
                outs.push(out);
            },
            Err(error) => {
                proof {
                    lemma_build_failure_stays(all, country_views(countries@), k + 1);
                }
                return Err(BuildFailure { profile: k, error });
            },
        }
        k += 1;
    }
    assert(all.take(k as int) =~= all);
    Ok(outs)
}

} // verus!
