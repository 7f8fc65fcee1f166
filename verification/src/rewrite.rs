//! Tag-gated overrides of a country's metadata.

use crate::tags::built_from;
use crate::tags::compile_globs;
use crate::tags::expressions;
use crate::tags::first_unusable;
use crate::tags::is_match;
use crate::tags::passes;
use crate::types::rule_views;
use crate::types::texts;
use crate::types::CountryRewriteView;
use crate::types::CountryView;
use crate::types::clone_opt_string;
use crate::types::clone_opt_strings;
use crate::types::CountryConfig;
use crate::types::CountryConfigView;
use crate::types::CountryData;
use crate::types::CountryRewriteConfig;
use crate::types::MarkerView;
use crate::types::RewriteProperties;
use crate::types::RewritePropertiesView;
use crate::types::marker_views;
use vstd::prelude::*;
use wax::Glob;

verus! {

/// The value a field holds after an override: the new one if there is one,
/// else the one it had.
pub open spec fn replaced<T>(value: Option<T>, current: T) -> T {
    match value {
        Some(v) => v,
        None => current,
    }
}

/// As [`replaced`], for a field that may itself be absent: an override can
/// set it, and never clears it.
pub open spec fn replaced_option<T>(value: Option<T>, current: Option<T>) -> Option<T> {
    match value {
        Some(v) => Some(v),
        None => current,
    }
}

/// Overwrites `rewrite` if there is a value to write.
pub fn rewrite_if_some<T>(value: Option<T>, rewrite: &mut T)
    ensures
        *final(rewrite) == replaced(value, *old(rewrite)),
{
    match value {
        Some(value) => {
            *rewrite = value;
        },
        None => {},
    }
}

/// Overwrites the optional `rewrite` if there is a value to write.
pub fn rewrite_if_some_option<T>(value: Option<T>, rewrite: &mut Option<T>)
    ensures
        *final(rewrite) == replaced_option(value, *old(rewrite)),
{
    match value {
        Some(value) => {
            *rewrite = Some(value);
        },
        None => {},
    }
}

/// The metadata after one rule's overrides: each field the rule supplies is
/// replaced, every other field stays.
pub open spec fn rewritten(
    config: CountryConfigView,
    properties: RewritePropertiesView,
) -> CountryConfigView {
    CountryConfigView {
        name: replaced(properties.name, config.name),
        description: replaced(properties.description, config.description),
        foundation_date: replaced(properties.foundation_date, config.foundation_date),
        flag: replaced(properties.flag, config.flag),
        fill: replaced(properties.fill, config.fill),
        stroke: replaced(properties.stroke, config.stroke),
        about: replaced_option(properties.about, config.about),
        tags: replaced_option(properties.tags, config.tags),
    }
}

/// A field that a rule does not supply keeps its value.
pub proof fn lemma_absent_field_stays(config: CountryConfigView, properties: RewritePropertiesView)
    ensures
        properties.name is None ==> rewritten(config, properties).name == config.name,
        properties.description is None ==> rewritten(config, properties).description
            == config.description,
        properties.foundation_date is None ==> rewritten(config, properties).foundation_date
            == config.foundation_date,
        properties.flag is None ==> rewritten(config, properties).flag == config.flag,
        properties.fill is None ==> rewritten(config, properties).fill == config.fill,
        properties.stroke is None ==> rewritten(config, properties).stroke == config.stroke,
        properties.about is None ==> rewritten(config, properties).about == config.about,
        properties.tags is None ==> rewritten(config, properties).tags == config.tags,
{
}

/// Whether a rule supplies `fill` and nothing else.
pub open spec fn only_fill(properties: RewritePropertiesView) -> bool {
    &&& properties.fill is Some
    &&& properties.name is None
    &&& properties.description is None
    &&& properties.foundation_date is None
    &&& properties.flag is None
    &&& properties.stroke is None
    &&& properties.about is None
    &&& properties.tags is None
}

/// A rule that supplies only `fill` changes `fill` and nothing else.
pub proof fn lemma_fill_rule_isolated(config: CountryConfigView, properties: RewritePropertiesView)
    requires
        only_fill(properties),
    ensures
        rewritten(config, properties) == (CountryConfigView {
            fill: properties.fill->0,
            ..config
        }),
{
}

/// Applies one rule's overrides to a country's metadata.
pub fn apply_rule(config: &mut CountryConfig, properties: &RewriteProperties)
    ensures
        final(config)@ == rewritten(old(config)@, properties@),
{
    rewrite_if_some(clone_opt_string(&properties.name), &mut config.name);
    rewrite_if_some(clone_opt_string(&properties.description), &mut config.description);
    rewrite_if_some(clone_opt_string(&properties.foundation_date), &mut config.foundation_date);
    rewrite_if_some(clone_opt_string(&properties.flag), &mut config.flag);
    rewrite_if_some_option(clone_opt_string(&properties.about), &mut config.about);
    rewrite_if_some(clone_opt_string(&properties.fill), &mut config.fill);
    rewrite_if_some(clone_opt_string(&properties.stroke), &mut config.stroke);
    rewrite_if_some_option(clone_opt_strings(&properties.tags), &mut config.tags);
}

/// Applies one rule's overrides if the rule matched, and leaves the metadata
/// alone if it did not.
pub fn apply_rule_if(config: &mut CountryConfig, properties: &RewriteProperties, matched: bool)
    ensures
        final(config)@ == if matched {
            rewritten(old(config)@, properties@)
        } else {
            old(config)@
        },
{
    if matched {
        apply_rule(config, properties);
    }
}

/// The metadata after the rules have been gone through in order: each rule
/// is put to the tags that the rules before it have left, and applied if it
/// matches.
pub open spec fn apply_rules(
    config: CountryConfigView,
    rules: Seq<CountryRewriteView>,
    include_untagged: bool,
) -> CountryConfigView
    decreases rules.len(),
{
    if rules.len() == 0 {
        config
    } else {
        let earlier = apply_rules(config, rules.drop_last(), include_untagged);
        if passes(earlier.tags, rules.last().patterns(), include_untagged) {
            rewritten(earlier, rules.last().properties)
        } else {
            earlier
        }
    }
}

/// Rules that supply only `fill`, whichever of them apply, leave every other
/// field of the metadata as it was.
pub proof fn lemma_fill_rules_isolated(
    config: CountryConfigView,
    rules: Seq<CountryRewriteView>,
    include_untagged: bool,
)
    requires
        forall|k: int| 0 <= k < rules.len() ==> only_fill((#[trigger] rules[k]).properties),
    ensures
        apply_rules(config, rules, include_untagged) == (CountryConfigView {
            fill: apply_rules(config, rules, include_untagged).fill,
            ..config
        }),
    decreases rules.len(),
{
    if rules.len() > 0 {
        lemma_fill_rules_isolated(config, rules.drop_last(), include_untagged);
        assert(only_fill(rules[rules.len() - 1].properties));
    }
}

/// A country rewritten for one profile: id and land untouched, the markers
/// kept or dropped as a whole, the metadata as the rules leave it.
pub open spec fn rewritten_country(
    country: CountryView,
    show_markers: bool,
    rules: Seq<CountryRewriteView>,
    include_untagged: bool,
) -> CountryView {
    CountryView {
        id: country.id,
        config: apply_rules(country.config, rules, include_untagged),
        land: country.land,
        markers: if show_markers {
            country.markers
        } else {
            Seq::empty()
        },
    }
}

/// A pattern of a rewrite rule's tag filter that cannot be used: it is
/// beyond the limits or does not compile.
#[derive(Clone, Copy, PartialEq, Eq, Structural, Debug)]
pub struct RuleError {
    /// The place of the rule in the profile's list.
    pub rule: usize,
    /// The place of the pattern in the rule's filter.
    pub pattern: usize,
}

/// The first rule with a pattern that cannot be used, and the place of its
/// first such pattern.
pub open spec fn first_unusable_rule(rules: Seq<CountryRewriteView>) -> Option<(int, int)>
    decreases rules.len(),
{
    if rules.len() == 0 {
        None
    } else {
        match first_unusable_rule(rules.drop_last()) {
            Some(places) => Some(places),
            None => match first_unusable(rules.last().patterns()) {
                Some(place) => Some((rules.len() - 1, place)),
                None => None,
            },
        }
    }
}

/// An unusable pattern among the first rules is the first of all.
pub proof fn lemma_first_unusable_rule_stays(rules: Seq<CountryRewriteView>, count: int)
    requires
        0 <= count <= rules.len(),
        first_unusable_rule(rules.take(count)) is Some,
    ensures
        first_unusable_rule(rules) == first_unusable_rule(rules.take(count)),
    decreases rules.len() - count,
{
    if count == rules.len() {
        assert(rules.take(count) =~= rules);
    } else {
        assert(rules.take(count + 1).drop_last() =~= rules.take(count));
        lemma_first_unusable_rule_stays(rules, count + 1);
    }
}

/// Whether `globs` holds, rule by rule, one glob for each pattern of the
/// rule's filter, compiled from that pattern.
pub open spec fn globs_fit(globs: Seq<Vec<Glob>>, rules: Seq<CountryRewriteView>) -> bool {
    &&& globs.len() == rules.len()
    &&& forall|k: int| 0 <= k < rules.len() ==> built_from((#[trigger] globs[k])@, rules[k].patterns())
}

/// Compiles the tag filter of every rule, in order, each pattern as it
/// stands. The first pattern that cannot be used ends the work and is
/// reported by the places of its rule and of itself.
pub fn compile_rules<'t>(rules: &'t Vec<CountryRewriteConfig>) -> (compiled: Result<
    Vec<Vec<Glob<'t>>>,
    RuleError,
>)
    ensures
        match compiled {
            Ok(globs) => first_unusable_rule(rule_views(rules@)) is None && globs_fit(
                globs@,
                rule_views(rules@),
            ),
            Err(error) => first_unusable_rule(rule_views(rules@)) == Some(
                (error.rule as int, error.pattern as int),
            ),
        },
{
    let ghost all = rule_views(rules@);
    let no_patterns: Vec<String> = Vec::new();
    let mut globs: Vec<Vec<Glob<'t>>> = Vec::new();
    let mut k: usize = 0;
    while k < rules.len()
        invariant
            k <= rules.len(),
            all == rule_views(rules@),
            globs.len() == k,
            first_unusable_rule(all.take(k as int)) is None,
            forall|m: int| 0 <= m < k ==> built_from((#[trigger] globs[m])@, all[m].patterns()),
        decreases rules.len() - k,
    {
        proof {
            assert(all.take(k + 1).drop_last() =~= all.take(k as int));
            assert(all.take(k + 1).last() == rules[k as int]@);
        }
        match &rules[k].tags {
            Some(patterns) => {
                assert(all[k as int].patterns() == texts(patterns@));
                match compile_globs(patterns) {
                    Ok(filter) => globs.push(filter),
                    Err(error) => {
                        proof {
                            lemma_first_unusable_rule_stays(all, k + 1);
                        }
                        return Err(RuleError { rule: k, pattern: error.index });
                    },
                }
            },
            None => {
                let filter: Vec<Glob<'t>> = Vec::new();
                assert(expressions(filter@) =~= all[k as int].patterns());
                globs.push(filter);
            },
        }
        k += 1;
    }
    assert(all.take(k as int) =~= all);
    Ok(globs)
}

/// Rewrites a country for one profile. The markers are dropped if the profile
/// hides them. The rules are gone through in declaration order; each is
/// matched against the tags the country has at that point, and a matching
/// rule's overrides are applied.
pub fn rewrite_country(
    country: &mut CountryData,
    show_markers: bool,
    rules: &Vec<CountryRewriteConfig>,
    globs: &Vec<Vec<Glob>>,
    include_untagged: bool,
)
    requires
        globs_fit(globs@, rule_views(rules@)),
    ensures
        final(country)@ == rewritten_country(
            old(country)@,
            show_markers,
            rule_views(rules@),
            include_untagged,
        ),
{
    let ghost before = country@;
    let ghost all = rule_views(rules@);
    if !show_markers {
        country.markers = Vec::new();
        assert(marker_views(country.markers@) =~= Seq::<MarkerView>::empty());
    }
    let mut k: usize = 0;
    while k < rules.len()
        invariant
            k <= rules.len(),
            all == rule_views(rules@),
            globs_fit(globs@, all),
            country@.id == before.id,
            country@.land == before.land,
            country@.markers == if show_markers {
                before.markers
            } else {
                Seq::empty()
            },
            country@.config == apply_rules(before.config, all.take(k as int), include_untagged),
        decreases rules.len() - k,
    {
        let matched = is_match(&country.config.tags, &globs[k], include_untagged);
        proof {
            assert(all.take(k + 1).drop_last() =~= all.take(k as int));
            assert(all.take(k + 1).last() == all[k as int]);
            assert(built_from(globs@[k as int]@, all[k as int].patterns()));
        }
        apply_rule_if(&mut country.config, &rules[k].properties, matched);
        k += 1;
    }
    assert(all.take(k as int) =~= all);
}

} // verus!
