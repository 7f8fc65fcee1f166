use cimengine::tags::compile_globs;
use cimengine::tags::decide_match;
use cimengine::tags::is_match;
use cimengine::tags::is_within_limits;
use cimengine::tags::match_from_hits;
use cimengine::tags::PatternError;

fn strings(items: &[&str]) -> Vec<String> {
    items.iter().map(|s| s.to_string()).collect()
}

#[test]
fn empty_pattern_list_matches_any_tag_set() {
    let patterns = strings(&[]);
    let globs = compile_globs(&patterns).unwrap();
    assert!(is_match(&Some(strings(&["asia"])), &globs, false));
    assert!(is_match(&Some(strings(&[])), &globs, false));
    assert!(is_match(&None, &globs, false));
    assert!(is_match(&None, &globs, true));
}

#[test]
fn glob_matches_prefixed_tag_only() {
    let patterns = strings(&["eu-*"]);
    let globs = compile_globs(&patterns).unwrap();
    assert!(is_match(&Some(strings(&["eu-west"])), &globs, false));
    assert!(!is_match(&Some(strings(&["asia"])), &globs, false));
}

#[test]
fn any_pattern_against_any_tag() {
    let patterns = strings(&["eu-*", "island"]);
    let globs = compile_globs(&patterns).unwrap();
    assert!(is_match(&Some(strings(&["asia", "island"])), &globs, false));
    assert!(is_match(&Some(strings(&["eu-north", "cold"])), &globs, false));
    assert!(!is_match(&Some(strings(&["asia", "cold"])), &globs, false));
}

#[test]
fn pattern_is_anchored_to_the_whole_tag() {
    let patterns = strings(&["eu"]);
    let globs = compile_globs(&patterns).unwrap();
    assert!(is_match(&Some(strings(&["eu"])), &globs, false));
    assert!(!is_match(&Some(strings(&["eu-west"])), &globs, false));
    assert!(!is_match(&Some(strings(&["neu"])), &globs, false));
}

#[test]
fn question_mark_and_class_patterns() {
    let patterns = strings(&["zone-?", "[ab]1"]);
    let globs = compile_globs(&patterns).unwrap();
    assert!(is_match(&Some(strings(&["zone-7"])), &globs, false));
    assert!(!is_match(&Some(strings(&["zone-77"])), &globs, false));
    assert!(is_match(&Some(strings(&["b1"])), &globs, false));
    assert!(!is_match(&Some(strings(&["c1"])), &globs, false));
}

#[test]
fn absent_tags_do_not_match_patterns() {
    let patterns = strings(&["eu-*"]);
    let globs = compile_globs(&patterns).unwrap();
    assert!(!is_match(&None, &globs, false));
}

#[test]
fn absent_tags_match_when_untagged_are_included() {
    let patterns = strings(&["eu-*"]);
    let globs = compile_globs(&patterns).unwrap();
    assert!(is_match(&None, &globs, true));
}

#[test]
fn empty_tag_set_never_matches_patterns() {
    let patterns = strings(&["*"]);
    let globs = compile_globs(&patterns).unwrap();
    assert!(!is_match(&Some(strings(&[])), &globs, false));
    assert!(!is_match(&Some(strings(&[])), &globs, true));
}

#[test]
fn compile_keeps_one_glob_per_pattern() {
    let patterns = strings(&["a", "b*", "c?"]);
    let globs = compile_globs(&patterns).unwrap();
    assert_eq!(globs.len(), 3);
}

#[test]
fn compile_reports_the_first_bad_pattern() {
    let patterns = strings(&["fine", "a**b", "***"]);
    match compile_globs(&patterns) {
        Ok(_) => panic!("a bad pattern compiled"),
        Err(error) => assert_eq!(error, PatternError { index: 1 }),
    }
}

#[test]
fn decide_match_table() {
    assert!(decide_match(false, false, false, false));
    assert!(decide_match(false, true, false, false));
    assert!(decide_match(true, true, true, false));
    assert!(!decide_match(true, true, false, true));
    assert!(!decide_match(true, false, true, false));
    assert!(decide_match(true, false, false, true));
}

#[test]
fn a_late_hit_is_enough_after_earlier_misses() {
    let patterns = strings(&["asia", "eu-*"]);
    let globs = compile_globs(&patterns).unwrap();
    assert!(is_match(&Some(strings(&["x", "eu-west"])), &globs, false));
    assert!(!is_match(&Some(strings(&["x", "eu"])), &globs, false));
}

#[test]
fn the_first_pattern_alone_can_decide() {
    let patterns = strings(&["eu-*", "asia"]);
    let globs = compile_globs(&patterns).unwrap();
    assert!(is_match(&Some(strings(&["eu-west", "x"])), &globs, false));
    assert!(is_match(&Some(strings(&["x", "asia"])), &globs, false));
}

#[test]
fn globs_are_compiled_from_their_own_patterns() {
    let patterns = strings(&["one", "two", "thr*"]);
    let globs = compile_globs(&patterns).unwrap();
    assert_eq!(globs[0].to_string(), "one");
    assert_eq!(globs[1].to_string(), "two");
    assert_eq!(globs[2].to_string(), "thr*");
    let only_second = vec![compile_globs(&patterns).unwrap().remove(1)];
    assert!(is_match(&Some(strings(&["two"])), &only_second, false));
    assert!(!is_match(&Some(strings(&["one"])), &only_second, false));
}

#[test]
fn match_from_hits_finds_a_hit_anywhere() {
    assert!(match_from_hits(true, &vec![vec![true]], false));
    assert!(match_from_hits(true, &vec![vec![false, false], vec![false, true]], false));
    assert!(match_from_hits(true, &vec![vec![false, false], vec![true, false]], false));
    assert!(match_from_hits(true, &vec![vec![false, true], vec![false, false]], false));
    assert!(match_from_hits(true, &vec![vec![], vec![false], vec![false, false, true]], false));
}

#[test]
fn match_from_hits_without_a_hit_is_no_match() {
    assert!(!match_from_hits(true, &vec![vec![false]], false));
    assert!(!match_from_hits(true, &vec![vec![false, false], vec![false, false]], true));
    assert!(!match_from_hits(true, &vec![vec![], vec![]], true));
}

#[test]
fn match_from_hits_without_patterns_is_a_match() {
    assert!(match_from_hits(true, &vec![], false));
    assert!(match_from_hits(false, &vec![], false));
}

#[test]
fn match_from_hits_without_tags_follows_the_choice() {
    assert!(!match_from_hits(false, &vec![vec![]], false));
    assert!(match_from_hits(false, &vec![vec![]], true));
    assert!(!match_from_hits(false, &vec![vec![true]], false));
}

fn nested(levels: usize) -> String {
    format!("{}a{}", "{".repeat(levels), ",b}".repeat(levels))
}

#[test]
fn plain_patterns_are_within_the_limits() {
    for pattern in ["", "eu-*", "zone-?", "[ab]1", "{north,south}-*", "a>b", "} ]", "ünï*"] {
        assert!(is_within_limits(pattern), "{} is within the limits", pattern);
    }
}

#[test]
fn a_repetition_is_beyond_the_limits() {
    for pattern in ["<a:1,2>", "eu-<[0-9]:2>", "<", "a<", "é<b", "[<]"] {
        assert!(!is_within_limits(pattern), "{} is beyond the limits", pattern);
    }
}

#[test]
fn sixteen_brackets_are_the_most() {
    assert!(is_within_limits(&nested(16)));
    assert!(!is_within_limits(&nested(17)));
    assert!(is_within_limits(&"[a]".repeat(16)));
    assert!(!is_within_limits(&"[a]".repeat(17)));
    assert!(is_within_limits(&format!("{}{}", "{a,b}".repeat(8), "[c]".repeat(8))));
    assert!(!is_within_limits(&format!("{}{}", "{a,b}".repeat(9), "[c]".repeat(8))));
    assert!(!is_within_limits(&"{".repeat(1000)));
}

#[test]
fn patterns_at_the_limit_compile_and_match() {
    let patterns = vec![nested(16)];
    let globs = compile_globs(&patterns).unwrap();
    assert!(is_match(&Some(strings(&["a"])), &globs, false));
    assert!(is_match(&Some(strings(&["b"])), &globs, false));
    assert!(!is_match(&Some(strings(&["c"])), &globs, false));
}

#[test]
fn patterns_beyond_the_limits_are_reported_and_never_compiled() {
    let deep = strings(&["fine", &nested(200)]);
    assert_eq!(compile_globs(&deep).err(), Some(PatternError { index: 1 }));
    let counted = strings(&["<<<<a:1,65536>:1,65536>:1,65536>:1,65536>"]);
    assert_eq!(compile_globs(&counted).err(), Some(PatternError { index: 0 }));
    let huge = strings(&["ok", "also-ok", "<a:18446744073709551615>"]);
    assert_eq!(compile_globs(&huge).err(), Some(PatternError { index: 2 }));
    let small = strings(&["<a:1,2>"]);
    assert_eq!(compile_globs(&small).err(), Some(PatternError { index: 0 }));
}

#[test]
fn the_first_unusable_pattern_is_reported_whatever_its_fault() {
    assert_eq!(compile_globs(&strings(&["a", "a**b", "<b>"])).err(), Some(PatternError { index: 1 }));
    assert_eq!(compile_globs(&strings(&["a", "<b>", "a**b"])).err(), Some(PatternError { index: 1 }));
    assert_eq!(compile_globs(&strings(&["***"])).err(), Some(PatternError { index: 0 }));
}

#[test]
fn alternatives_match_either_branch() {
    let patterns = strings(&["{north,south}-*"]);
    let globs = compile_globs(&patterns).unwrap();
    assert!(is_match(&Some(strings(&["south-pole"])), &globs, false));
    assert!(!is_match(&Some(strings(&["east-end"])), &globs, false));
}
