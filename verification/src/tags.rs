//! Matching a country's tags against the glob patterns of a filter.

use crate::types::opt_texts;
use crate::types::texts;
use vstd::prelude::*;
use vstd::string::StrSliceExecFns;
use wax::Glob;
use wax::Program;

verus! {

/// `Glob` of `wax`: a compiled glob expression, carried as it is.
#[verifier::external_type_specification]
#[verifier::external_body]
pub struct ExGlob<'t>(wax::Glob<'t>);

/// `BuildError` of `wax`: why an expression does not compile, carried as it is.
#[verifier::external_type_specification]
#[verifier::external_body]
pub struct ExBuildError(wax::BuildError);

/// The expression that a glob was compiled from, which the glob keeps.
pub uninterp spec fn glob_expression(glob: Glob) -> Seq<char>;

/// Whether `wax` compiles a glob expression.
pub uninterp spec fn glob_compiles(expression: Seq<char>) -> bool;

/// Whether the glob that `wax` compiles from an expression matches a text as
/// a whole. `wax` settles case and separators by the target it is built for,
/// so this is the answer of the build at hand: the same wherever it runs.
pub uninterp spec fn glob_hit(expression: Seq<char>, text: Seq<char>) -> bool;

/// How many brackets an expression may open.
pub const MAX_BRACKETS: usize = 16;

/// Whether a character opens an alternative or a class.
pub open spec fn is_bracket(c: char) -> bool {
    c == '{' || c == '['
}

/// How many brackets an expression opens.
pub open spec fn bracket_count(expression: Seq<char>) -> nat
    decreases expression.len(),
{
    if expression.len() == 0 {
        0
    } else {
        bracket_count(expression.drop_last()) + if is_bracket(expression.last()) {
            1nat
        } else {
            0nat
        }
    }
}

/// Whether an expression is one that is handed to the compiler: it holds no
/// `<`, the sign that opens a repetition, and opens at most
/// [`MAX_BRACKETS`] alternatives and classes.
pub open spec fn within_limits(expression: Seq<char>) -> bool {
    &&& !expression.contains('<')
    &&& bracket_count(expression) <= MAX_BRACKETS
}

/// `Glob::new` of `wax`: compiles a glob expression, or says why it cannot.
/// Whether it compiles depends on the expression alone, and a glob that comes
/// back was compiled from the expression handed in. `wax` gives up, instead
/// of returning, on alternatives nested some eighty deep and on repetitions
/// whose counts multiply beyond the machine word; the `requires` stays well
/// clear of both.
pub assume_specification<'t>[ wax::Glob::<'t>::new ](expression: &'t str) -> (compiled: Result<
    wax::Glob<'t>,
    wax::BuildError,
>)
    requires
        within_limits(expression@),
    ensures
        compiled is Ok <==> glob_compiles(expression@),
        compiled matches Ok(glob) ==> glob_expression(glob) == expression@,
;

/// `Program::is_match` of `wax` on a glob and a text: the answer depends on
/// what the glob was compiled from and on the text.
#[verifier::external_body]
pub(crate) fn glob_matches(glob: &Glob, tag: &str) -> (hit: bool)
    ensures
        hit == glob_hit(glob_expression(*glob), tag@),
{
    glob.is_match(tag)
}

/// Whether an expression is within the limits.
pub fn is_within_limits(expression: &str) -> (ok: bool)
    ensures
        ok == within_limits(expression@),
{
    let length = expression.unicode_len();
    let mut brackets: usize = 0;
    let mut i: usize = 0;
    while i < length
        invariant
            i <= length,
            length == expression@.len(),
            brackets == bracket_count(expression@.take(i as int)),
            brackets <= MAX_BRACKETS,
            !expression@.take(i as int).contains('<'),
        decreases length - i,
    {
        let c = expression.get_char(i);
        proof {
            let before = expression@.take(i as int);
            let after = expression@.take(i + 1);
            assert(after.drop_last() =~= before);
            assert(after.last() == c);
            lemma_bracket_count_grows(expression@, i + 1);
        }
        if c == '<' {
            proof {
                assert(expression@[i as int] == '<');
            }
            return false;
        }
        if c == '{' || c == '[' {
            if brackets == MAX_BRACKETS {
                return false;
            }
            brackets += 1;
        }
        proof {
            let before = expression@.take(i as int);
            let after = expression@.take(i + 1);
            if after.contains('<') {
                let k = choose|k: int| 0 <= k < after.len() && after[k] == '<';
                if k < i {
                    assert(before[k] == '<');
                }
            }
        }
        i += 1;
    }
    assert(expression@.take(i as int) =~= expression@);
    true
}

/// The brackets among the first characters of an expression are among those
/// of the whole.
pub proof fn lemma_bracket_count_grows(expression: Seq<char>, count: int)
    requires
        0 <= count <= expression.len(),
    ensures
        bracket_count(expression.take(count)) <= bracket_count(expression),
    decreases expression.len() - count,
{
    if count == expression.len() {
        assert(expression.take(count) =~= expression);
    } else {
        assert(expression.take(count + 1).drop_last() =~= expression.take(count));
        lemma_bracket_count_grows(expression, count + 1);
    }
}

/// Whether a pattern can be used: it is within the limits and compiles.
pub open spec fn usable(expression: Seq<char>) -> bool {
    within_limits(expression) && glob_compiles(expression)
}

/// The place of the first pattern that cannot be used.
pub open spec fn first_unusable(patterns: Seq<Seq<char>>) -> Option<int>
    decreases patterns.len(),
{
    if patterns.len() == 0 {
        None
    } else {
        match first_unusable(patterns.drop_last()) {
            Some(place) => Some(place),
            None => if usable(patterns.last()) {
                None
            } else {
                Some(patterns.len() - 1)
            },
        }
    }
}

/// An unusable pattern among the first is the first unusable of all.
pub proof fn lemma_first_unusable_stays(patterns: Seq<Seq<char>>, count: int)
    requires
        0 <= count <= patterns.len(),
        first_unusable(patterns.take(count)) is Some,
    ensures
        first_unusable(patterns) == first_unusable(patterns.take(count)),
    decreases patterns.len() - count,
{
    if count == patterns.len() {
        assert(patterns.take(count) =~= patterns);
    } else {
        assert(patterns.take(count + 1).drop_last() =~= patterns.take(count));
        lemma_first_unusable_stays(patterns, count + 1);
    }
}

/// A pattern of a tag filter that cannot be used: it is beyond the limits or
/// does not compile.
#[derive(Clone, Copy, PartialEq, Eq, Structural, Debug)]
pub struct PatternError {
    /// The place of the pattern in its list.
    pub index: usize,
}

/// The expressions that a list of globs was compiled from.
pub open spec fn expressions(globs: Seq<Glob>) -> Seq<Seq<char>> {
    globs.map_values(|g: Glob| glob_expression(g))
}

/// Whether `globs` holds one glob for each pattern, in order, each compiled
/// from its pattern.
pub open spec fn built_from(globs: Seq<Glob>, patterns: Seq<Seq<char>>) -> bool {
    expressions(globs) == patterns
}

/// Compiles the patterns of a tag filter, in order. Every pattern is tested
/// against the limits and then handed to the compiler as it stands. The
/// first pattern that cannot be used ends the work and is reported by its
/// place; without one, there is a glob for each pattern.
pub fn compile_globs<'t>(patterns: &'t Vec<String>) -> (compiled: Result<Vec<Glob<'t>>, PatternError>)
    ensures
        match compiled {
            Ok(globs) => first_unusable(texts(patterns@)) is None && built_from(
                globs@,
                texts(patterns@),
            ),
            Err(error) => first_unusable(texts(patterns@)) == Some(error.index as int),
        },
{
    let ghost all = texts(patterns@);
    let mut globs: Vec<Glob<'t>> = Vec::new();
    let mut i: usize = 0;
    while i < patterns.len()
        invariant
            i <= patterns.len(),
            all == texts(patterns@),
            globs.len() == i,
            first_unusable(all.take(i as int)) is None,
            forall|k: int| 0 <= k < i ==> glob_expression(#[trigger] globs[k]) == patterns[k]@,
        decreases patterns.len() - i,
    {
        proof {
            assert(all.take(i + 1).drop_last() =~= all.take(i as int));
            assert(all.take(i + 1).last() == patterns[i as int]@);
        }
        if !is_within_limits(patterns[i].as_str()) {
            proof {
                lemma_first_unusable_stays(all, i + 1);
            }
            return Err(PatternError { index: i });
        }
        match Glob::new(patterns[i].as_str()) {
            Ok(glob) => globs.push(glob),
            Err(_) => {
                proof {
                    lemma_first_unusable_stays(all, i + 1);
                }
                return Err(PatternError { index: i });
            },
        }
        i += 1;
    }
    assert(all.take(i as int) =~= all);
    assert(expressions(globs@) =~= all);
    Ok(globs)
}

/// The verdict of a tag filter, given whether it has patterns, whether the
/// country has a tag set, whether any pattern matched any tag, and whether
/// untagged countries pass.
pub open spec fn verdict(
    has_patterns: bool,
    has_tags: bool,
    any_hit: bool,
    include_untagged: bool,
) -> bool {
    if !has_patterns {
        true
    } else if has_tags {
        any_hit
    } else {
        include_untagged
    }
}

/// Decides a match from the answers of the pattern matcher: a filter without
/// patterns lets everything pass; otherwise a tagged country passes if some
/// pattern matched some tag, and an untagged one only if the caller chose so.
pub fn decide_match(has_patterns: bool, has_tags: bool, any_hit: bool, include_untagged: bool) -> (matched:
    bool)
    ensures
        matched == verdict(has_patterns, has_tags, any_hit, include_untagged),
{
    if !has_patterns {
        true
    } else if has_tags {
        any_hit
    } else {
        include_untagged
    }
}

/// Whether some pattern matched some tag: `hits[g][t]` is the matcher's
/// answer for pattern `g` and tag `t`.
pub open spec fn any_hit(hits: Seq<Seq<bool>>) -> bool {
    exists|g: int, t: int| 0 <= g < hits.len() && 0 <= t < hits[g].len() && #[trigger] hits[g][t]
}

/// The rows of a table of answers.
pub open spec fn hit_rows(hits: Seq<Vec<bool>>) -> Seq<Seq<bool>> {
    hits.map_values(|row: Vec<bool>| row@)
}

/// Whether a row of answers holds a hit.
pub open spec fn row_hit(row: Seq<bool>) -> bool {
    exists|t: int| 0 <= t < row.len() && #[trigger] row[t]
}

/// One more row adds its own hits to those of the rows before it.
pub proof fn lemma_any_hit_push(hits: Seq<Seq<bool>>, row: Seq<bool>)
    ensures
        any_hit(hits.push(row)) == (any_hit(hits) || row_hit(row)),
{
    let more = hits.push(row);
    if any_hit(more) {
        let (g, t) = choose|g: int, t: int|
            0 <= g < more.len() && 0 <= t < more[g].len() && #[trigger] more[g][t];
        if g < hits.len() {
            assert(hits[g][t]);
        } else {
            assert(row[t]);
        }
    }
    if any_hit(hits) {
        let (g, t) = choose|g: int, t: int|
            0 <= g < hits.len() && 0 <= t < hits[g].len() && #[trigger] hits[g][t];
        assert(more[g][t]);
    }
    if row_hit(row) {
        let t = choose|t: int| 0 <= t < row.len() && #[trigger] row[t];
        assert(more[hits.len() as int][t]);
    }
}

/// Decides a match from the table of the matcher's answers, one row per
/// pattern and one answer per tag: with patterns and a tag set, the country
/// passes exactly if the table holds a hit, wherever it stands.
pub fn match_from_hits(has_tags: bool, hits: &Vec<Vec<bool>>, include_untagged: bool) -> (matched: bool)
    ensures
        matched == verdict(hits.len() > 0, has_tags, any_hit(hit_rows(hits@)), include_untagged),
{
    let ghost all = hit_rows(hits@);
    let mut found = false;
    let mut g: usize = 0;
    while g < hits.len()
        invariant
            g <= hits.len(),
            all == hit_rows(hits@),
            found == any_hit(all.take(g as int)),
        decreases hits.len() - g,
    {
        let row = &hits[g];
        let mut in_row = false;
        let mut t: usize = 0;
        while t < row.len()
            invariant
                t <= row.len(),
                in_row == row_hit(row@.take(t as int)),
            decreases row.len() - t,
        {
            proof {
                let before = row@.take(t as int);
                let after = row@.take(t + 1);
                if row_hit(before) {
                    let k = choose|k: int| 0 <= k < before.len() && #[trigger] before[k];
                    assert(after[k]);
                }
                if row_hit(after) {
                    let k = choose|k: int| 0 <= k < after.len() && #[trigger] after[k];
                    if k < t {
                        assert(before[k]);
                    }
                }
                if row@[t as int] {
                    assert(after[t as int]);
                }
            }
            if row[t] {
                in_row = true;
            }
            t += 1;
        }
        proof {
            assert(row@.take(t as int) =~= row@);
            assert(all.take(g + 1) =~= all.take(g as int).push(row@));
            lemma_any_hit_push(all.take(g as int), row@);
        }
        if in_row {
            found = true;
        }
        g += 1;
    }
    assert(all.take(g as int) =~= all);
    decide_match(hits.len() > 0, has_tags, found, include_untagged)
}

/// Whether some pattern matches some tag as a whole.
pub open spec fn some_hit(patterns: Seq<Seq<char>>, tags: Seq<Seq<char>>) -> bool {
    exists|g: int, t: int|
        0 <= g < patterns.len() && 0 <= t < tags.len() && #[trigger] glob_hit(patterns[g], tags[t])
}

/// Whether a country with these tags passes a filter of these patterns: a
/// filter without patterns lets every country pass; with patterns, a country
/// with a tag set passes exactly if some pattern matches some tag, and one
/// without a tag set exactly if `include_untagged` is set.
pub open spec fn passes(
    tags: Option<Seq<Seq<char>>>,
    patterns: Seq<Seq<char>>,
    include_untagged: bool,
) -> bool {
    verdict(
        patterns.len() > 0,
        tags is Some,
        tags is Some && some_hit(patterns, tags->0),
        include_untagged,
    )
}

/// An empty pattern list matches any tag set, and none.
pub proof fn lemma_no_patterns_match(tags: Option<Seq<Seq<char>>>, include_untagged: bool)
    ensures
        passes(tags, Seq::empty(), include_untagged),
{
}

/// Patterns match an absent tag set exactly if untagged countries are
/// included, and never an empty one.
pub proof fn lemma_patterns_without_tags(patterns: Seq<Seq<char>>, include_untagged: bool)
    requires
        patterns.len() > 0,
    ensures
        passes(None, patterns, include_untagged) == include_untagged,
        !passes(Some(Seq::empty()), patterns, include_untagged),
{
}

/// Whether a country with these tags passes the filter: every glob is put
/// to the matcher with every tag, and the verdict is that of the table of
/// its answers.
pub fn is_match(tags: &Option<Vec<String>>, globs: &Vec<Glob>, include_untagged: bool) -> (matched:
    bool)
    ensures
        matched == passes(opt_texts(*tags), expressions(globs@), include_untagged),
{
    let no_tags: Vec<String> = Vec::new();
    let list = match tags {
        Some(list) => list,
        None => &no_tags,
    };
    let ghost patterns = expressions(globs@);
    let ghost words = texts(list@);
    let mut hits: Vec<Vec<bool>> = Vec::new();
    let mut g: usize = 0;
    while g < globs.len()
        invariant
            g <= globs.len(),
            hits.len() == g,
            patterns == expressions(globs@),
            words == texts(list@),
            forall|k: int|
                0 <= k < g ==> (#[trigger] hits@[k]).len() == list.len() && forall|t: int|
                    0 <= t < list.len() ==> hits@[k]@[t] == glob_hit(patterns[k], #[trigger] words[t]),
        decreases globs.len() - g,
    {
        let mut row: Vec<bool> = Vec::new();
        let mut t: usize = 0;
        while t < list.len()
            invariant
                g < globs.len(),
                t <= list.len(),
                row.len() == t,
                patterns == expressions(globs@),
                words == texts(list@),
                forall|k: int| 0 <= k < t ==> row@[k] == glob_hit(patterns[g as int], #[trigger] words[k]),
            decreases list.len() - t,
        {
            let hit = glob_matches(&globs[g], list[t].as_str());
            assert(words[t as int] == list@[t as int]@);
            assert(patterns[g as int] == glob_expression(globs@[g as int]));
            row.push(hit);
            t += 1;
        }
        hits.push(row);
        g += 1;
    }
    let matched = match_from_hits(tags.is_some(), &hits, include_untagged);
    proof {
        let table = hit_rows(hits@);
        assert forall|k: int, t: int| 0 <= k < table.len() && 0 <= t < words.len() implies (
        #[trigger] table[k]).len() == words.len() && table[k][t] == glob_hit(
            patterns[k],
            #[trigger] words[t],
        ) by {
            assert(table[k] == hits@[k]@);
        }
        if any_hit(table) {
            let (k, t) = choose|k: int, t: int|
                0 <= k < table.len() && 0 <= t < table[k].len() && #[trigger] table[k][t];
            assert(table[k] == hits@[k]@);
            assert(glob_hit(patterns[k], words[t]));
        }
        if some_hit(patterns, words) {
            let (k, t) = choose|k: int, t: int|
                0 <= k < patterns.len() && 0 <= t < words.len() && #[trigger] glob_hit(
                    patterns[k],
                    words[t],
                );
            assert(table[k] == hits@[k]@);
            assert(table[k][t]);
        }
        assert(any_hit(table) == some_hit(patterns, words));
    }
    matched
}

} // verus!
