use baby_names::similarity::{levenshtein, Similarity};
use baby_names::substring::longest_common_substring;

fn scored(a: &str, b: &str) -> Similarity {
    Similarity::calculate(a.to_string(), b.to_string())
}

#[test]
fn levenshtein_known_values() {
    assert_eq!(levenshtein("kitten", "sitting"), 3);
    assert_eq!(levenshtein("Ann", "Anna"), 1);
    assert_eq!(levenshtein("Ann", "Bob"), 3);
    assert_eq!(levenshtein("", "abc"), 3);
    assert_eq!(levenshtein("abcd", ""), 4);
    assert_eq!(levenshtein("", ""), 0);
}

#[test]
fn levenshtein_counts_characters() {
    assert_eq!(levenshtein("Zoë", "Zoe"), 1);
    assert_eq!(levenshtein("Jörg", "Jorg"), 1);
}

#[test]
fn levenshtein_is_symmetric() {
    let words = ["", "Ann", "Anna", "Bob", "Hannah", "Johanna", "Zoë"];
    for a in words {
        for b in words {
            assert_eq!(levenshtein(a, b), levenshtein(b, a));
        }
    }
}

#[test]
fn levenshtein_is_zero_exactly_on_equal_strings() {
    let words = ["", "Ann", "Anna", "Bob", "ann"];
    for a in words {
        for b in words {
            assert_eq!(levenshtein(a, b) == 0, a == b);
        }
    }
}

#[test]
fn longest_common_substring_known_values() {
    assert_eq!(longest_common_substring("Ann", "Anna"), 3);
    assert_eq!(longest_common_substring("Ann", "Bob"), 0);
    assert_eq!(longest_common_substring("longest", "stone"), 2);
    assert_eq!(longest_common_substring("xabcy", "zabcw"), 3);
    assert_eq!(longest_common_substring("", "abc"), 0);
    assert_eq!(longest_common_substring("Hannah", "Johanna"), 4);
}

#[test]
fn longest_common_substring_is_bounded() {
    let words = ["", "Ann", "Anna", "Bob", "Hannah", "Johanna"];
    for a in words {
        for b in words {
            let run = longest_common_substring(a, b);
            assert!(run <= a.chars().count().min(b.chars().count()));
        }
        assert_eq!(longest_common_substring(a, a), a.chars().count());
    }
}

#[test]
fn scenario_ann_anna_is_kept() {
    let s = scored("Ann", "Anna");
    assert_eq!(s.a, "Ann");
    assert_eq!(s.b, "Anna");
    assert_eq!(s.levenshtein, 1);
    assert_eq!(s.longest_common_substring, 3);
    assert_eq!(s.similarity_numerator, 6);
    assert_eq!(s.similarity_denominator, 7);
    let ratio = s.similarity_numerator as f64 / s.similarity_denominator as f64;
    assert!((ratio - 0.857).abs() < 0.001);
    assert!(s.similar_enough_to_warrant_storing());
}

#[test]
fn scenario_ann_bob_is_discarded() {
    let s = scored("Ann", "Bob");
    assert_eq!(s.levenshtein, 3);
    assert!(s.longest_common_substring <= 1);
    assert!(2 * s.similarity_numerator < s.similarity_denominator);
    assert!(!s.similar_enough_to_warrant_storing());
}

#[test]
fn similarity_of_a_name_with_itself_is_one() {
    for name in ["", "Ann", "Maximilian", "Zoë"] {
        let s = scored(name, name);
        assert_eq!(s.levenshtein, 0);
        assert_eq!(s.similarity_numerator, s.similarity_denominator);
        assert!(s.similarity_denominator > 0);
    }
}

#[test]
fn similarity_stays_within_zero_and_one() {
    let words = ["", "Ann", "Anna", "Bob", "Hannah", "Johanna"];
    for a in words {
        for b in words {
            let s = scored(a, b);
            assert!(s.similarity_denominator > 0);
            assert!(s.similarity_numerator <= s.similarity_denominator);
        }
    }
}

#[test]
fn scoring_twice_gives_the_same_scores() {
    let first = scored("Hannah", "Johanna");
    let second = scored("Hannah", "Johanna");
    assert_eq!(first.levenshtein, second.levenshtein);
    assert_eq!(first.longest_common_substring, second.longest_common_substring);
    assert_eq!(first.similarity_numerator, second.similarity_numerator);
    assert_eq!(first.similarity_denominator, second.similarity_denominator);
}

fn edge(levenshtein: u32, numerator: u64, denominator: u64) -> Similarity {
    Similarity {
        a: "x".to_string(),
        b: "y".to_string(),
        levenshtein,
        longest_common_substring: 0,
        similarity_numerator: numerator,
        similarity_denominator: denominator,
    }
}

#[test]
fn retention_boundaries() {
    assert!(!edge(5, 2, 5).similar_enough_to_warrant_storing());
    assert!(edge(6, 0, 7).similar_enough_to_warrant_storing());
    assert!(edge(0, 1, 2).similar_enough_to_warrant_storing());
    assert!(!edge(5, 49, 100).similar_enough_to_warrant_storing());
}
