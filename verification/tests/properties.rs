use levenshtein::{levenshtein, Strategy};

const STRATEGIES: [Strategy; 3] = [Strategy::Naive, Strategy::Idiomatic, Strategy::Matrix];

const SAMPLES: [&str; 6] = ["", "a", "abc", "kitten", "sitting", "gumbo"];

#[test]
fn distance_to_self_is_zero_for_every_strategy() {
    for strategy in STRATEGIES {
        for a in SAMPLES {
            assert_eq!(levenshtein(a, a, strategy), 0, "a={a}, strategy={strategy:?}");
        }
    }
}

#[test]
fn all_strategies_agree_on_every_pair() {
    for a in SAMPLES {
        for b in SAMPLES {
            let reference = levenshtein(a, b, Strategy::Naive);
            for strategy in STRATEGIES {
                assert_eq!(levenshtein(a, b, strategy), reference, "a={a}, b={b}");
            }
        }
    }
}

#[test]
fn distance_lies_between_length_difference_and_longer_length() {
    for strategy in STRATEGIES {
        for a in SAMPLES {
            for b in SAMPLES {
                let d = levenshtein(a, b, strategy);
                let la = a.chars().count();
                let lb = b.chars().count();
                assert!(d >= la.abs_diff(lb), "a={a}, b={b}");
                assert!(d <= la.max(lb), "a={a}, b={b}");
            }
        }
    }
}

#[test]
fn distance_is_symmetric() {
    for strategy in STRATEGIES {
        for a in SAMPLES {
            for b in SAMPLES {
                assert_eq!(
                    levenshtein(a, b, strategy),
                    levenshtein(b, a, strategy),
                    "a={a}, b={b}"
                );
            }
        }
    }
}

#[test]
fn unicode_inputs_are_measured_in_characters_not_bytes() {
    // Six two-byte Greek characters against six one-byte Latin ones: every
    // position is a single substitution, so the distance is 6, not a
    // byte-level value.
    let a = "γλώσσα";
    let b = "glossa";
    let reference = levenshtein(a, b, Strategy::Naive);
    assert_eq!(reference, 6);
    for strategy in STRATEGIES {
        assert_eq!(levenshtein(a, b, strategy), reference);
    }
}

#[test]
fn dispatcher_returns_each_strategys_result() {
    assert_eq!(levenshtein("kitten", "sitting", Strategy::Naive), 3);
    assert_eq!(levenshtein("kitten", "sitting", Strategy::Idiomatic), 3);
    assert_eq!(levenshtein("kitten", "sitting", Strategy::Matrix), 3);
}
