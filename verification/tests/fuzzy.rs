use pop_launcher_plugins::fuzzy::{occurs_in_order, score};
use pop_launcher_plugins::rank::{rank_scores, ranked_matches, score_all};

#[test]
fn empty_query_scores_zero() {
    assert_eq!(score("Spotify", "", false), Some(0));
    assert_eq!(score("", "", false), Some(0));
    assert_eq!(score("", "", true), Some(0));
}

#[test]
fn subsequence_matches_without_being_contiguous() {
    assert!(score("Volume down", "Vdn", false).is_some());
    assert!(score("Lock Screen", "Lo", false).is_some());
    assert!(score("axbxc", "abc", false).is_some());
}

#[test]
fn missing_character_gives_no_score() {
    assert_eq!(score("Spotify", "Spotz", false), None);
    assert_eq!(score("abc", "abcd", false), None);
    assert_eq!(score("", "a", false), None);
}

#[test]
fn characters_out_of_order_give_no_score() {
    assert_eq!(score("abc", "cba", false), None);
    assert_eq!(score("Play", "yP", false), None);
}

#[test]
fn appending_to_a_failing_query_keeps_failing() {
    assert_eq!(score("Pause", "x", false), None);
    assert_eq!(score("Pause", "xP", false), None);
    assert_eq!(score("Pause", "xPause", false), None);
}

#[test]
fn lower_case_query_ignores_case() {
    assert!(score("Spotify", "spot", false).is_some());
    assert!(score("SPOTIFY", "spot", false).is_some());
}

#[test]
fn query_with_capital_respects_case() {
    assert!(score("Spotify", "Spot", false).is_some());
    assert_eq!(score("spotify", "Spot", false), None);
    assert_eq!(score("SPOTIFY", "Spot", false), None);
}

#[test]
fn case_sensitive_matching_respects_case() {
    assert_eq!(score("Spotify", "spot", true), None);
    assert!(score("Spotify", "Spot", true).is_some());
}

#[test]
fn tighter_match_scores_higher() {
    let tight = score("abc", "abc", false).unwrap();
    let loose = score("axxbxxc", "abc", false).unwrap();
    assert!(tight > loose);
    assert!(tight > 0);
}

#[test]
fn score_is_reproducible() {
    let first = score("Mozilla Firefox", "mfox", false);
    let second = score("Mozilla Firefox", "mfox", false);
    assert!(first.is_some());
    assert_eq!(first, second);
}

#[test]
fn rank_scores_sorts_descending_and_keeps_ties_in_order() {
    let scores = vec![Some(5), None, Some(9), Some(5), Some(9), None, Some(-3)];
    assert_eq!(rank_scores(&scores), vec![2, 4, 0, 3, 6]);
}

#[test]
fn rank_scores_of_nothing_is_empty() {
    assert_eq!(rank_scores(&Vec::new()), Vec::<usize>::new());
    assert_eq!(rank_scores(&vec![None, None]), Vec::<usize>::new());
}

#[test]
fn rank_scores_moves_a_late_best_to_the_front() {
    assert_eq!(rank_scores(&vec![Some(1), Some(2), Some(3)]), vec![2, 1, 0]);
    assert_eq!(rank_scores(&vec![Some(i64::MIN), Some(i64::MAX)]), vec![1, 0]);
}

#[test]
fn score_all_scores_each_candidate() {
    let names = vec![String::from("abc"), String::from("xyz"), String::from("a b c")];
    let scores = score_all(&names, "abc");
    assert_eq!(scores.len(), 3);
    assert_eq!(scores[0], score("abc", "abc", false));
    assert_eq!(scores[1], None);
    assert_eq!(scores[2], score("a b c", "abc", false));
}

#[test]
fn ranked_matches_puts_the_best_match_first() {
    let names = vec![
        String::from("a_long_b_way_c"),
        String::from("nothing"),
        String::from("abc"),
    ];
    assert_eq!(ranked_matches(&names, "abc"), vec![2, 0]);
}

#[test]
fn ranked_matches_is_reproducible() {
    let names = vec![
        String::from("Volume up"),
        String::from("Volume down"),
        String::from("Play"),
        String::from("Pause"),
    ];
    let first = ranked_matches(&names, "p");
    let second = ranked_matches(&names, "p");
    assert_eq!(first, second);
    assert_eq!(first.len(), 3);
    assert_eq!(ranked_matches(&names, "Vol"), vec![0, 1]);
}

#[test]
fn occurs_in_order_is_a_subsequence_test() {
    use_occurs("abc", "a_b_c", true, true);
    use_occurs("abc", "A_B_C", true, false);
    use_occurs("abc", "A_B_C", false, true);
    use_occurs("ABC", "a_b_c", false, true);
    use_occurs("abc", "acb", false, false);
    use_occurs("", "", true, true);
    use_occurs("", "x", true, true);
    use_occurs("x", "", false, false);
    use_occurs("aa", "a", false, false);
    use_occurs("aa", "aXa", true, true);
    use_occurs("é", "É", false, false);
    use_occurs("[", "{", false, false);
    use_occurs("@", "`", false, false);
}

fn use_occurs(query: &str, candidate: &str, exact: bool, expected: bool) {
    assert_eq!(occurs_in_order(query, candidate, exact), expected);
}

#[test]
fn score_exists_exactly_for_a_subsequence() {
    let candidates = ["Spotify", "spotify", "Volume up", "a-b-c", "", "Lock Screen"];
    let queries = ["", "s", "S", "sp", "Sp", "vu", "VU", "abc", "ABC", "lock", "LS", "z"];
    for candidate in candidates {
        for query in queries {
            let exact = query.chars().any(|c| c.is_ascii_uppercase());
            assert_eq!(
                score(candidate, query, false).is_some(),
                occurs_in_order(query, candidate, exact)
            );
            assert_eq!(
                score(candidate, query, true).is_some(),
                occurs_in_order(query, candidate, true)
            );
        }
    }
}
