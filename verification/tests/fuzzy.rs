use fast_task::ui::fuzzy::{fuzzy_match, rank};

fn names(query: &str, cands: &[&str]) -> Vec<String> {
    let owned: Vec<String> = cands.iter().map(|s| s.to_string()).collect();
    rank(query, &owned)
        .into_iter()
        .map(|(c, _)| c.clone())
        .collect()
}

#[test]
fn subsequence_required() {
    assert!(fuzzy_match("wrk", "work").is_some());
    assert!(fuzzy_match("wkr", "work").is_none());
    assert!(fuzzy_match("", "work").is_none());
}

#[test]
fn case_insensitive_with_positions() {
    let m = fuzzy_match("WK", "work").unwrap();
    assert_eq!(m.positions, vec![0, 3]);
}

#[test]
fn prefix_beats_scattered() {
    assert_eq!(names("ho", &["photo", "home"]), vec!["home", "photo"]);
}

#[test]
fn word_start_beats_mid_word() {
    // "fe" → front-end (word starts f, e) over "coffee"
    assert_eq!(
        names("fe", &["coffee", "front-end"]),
        vec!["front-end", "coffee"]
    );
}

#[test]
fn consecutive_beats_gapped() {
    assert_eq!(names("urg", &["u-r-g", "urgent"]), vec!["urgent", "u-r-g"]);
}

#[test]
fn prefers_word_start_occurrence_for_highlighting() {
    let m = fuzzy_match("e", "front-end").unwrap();
    assert_eq!(m.positions, vec![6]);
}

#[test]
fn exact_score_of_a_prefix_match() {
    // "wo" on "work": 16+20+10 for 'w', 16+12 for 'o', minus 2 extra chars.
    let m = fuzzy_match("wo", "work").unwrap();
    assert_eq!(m.score, 16 + 20 + 10 + 16 + 12 - 2);
    assert_eq!(m.positions, vec![0, 1]);
}

#[test]
fn gap_costs_one_per_skipped_char() {
    // "wk" on "work": w at 0 (16+20+10), k at 3 (16, gap of 2 → -2), minus 2.
    let m = fuzzy_match("wk", "work").unwrap();
    assert_eq!(m.score, 16 + 20 + 10 + 16 - 2 - 2);
}

#[test]
fn rank_ties_break_alphabetically_and_drop_non_matches() {
    assert_eq!(names("a", &["ba", "ca", "zzz", "aa"]), vec!["aa", "ba", "ca"]);
}

#[test]
fn a_word_start_that_leads_nowhere_falls_back_to_the_first_occurrence() {
    // The later word-start 'a' would leave no 'b' after it, so the first 'a' is taken.
    let m = fuzzy_match("ab", "xab-a").unwrap();
    assert_eq!(m.positions, vec![1, 2]);
    let m = fuzzy_match("eb", "xeb-e").unwrap();
    assert_eq!(m.positions, vec![1, 2]);
    // Where the word start leaves room, it is still preferred.
    let m = fuzzy_match("ab", "xa-ab").unwrap();
    assert_eq!(m.positions, vec![3, 4]);
    assert!(fuzzy_match("ba", "ab").is_none());
}
