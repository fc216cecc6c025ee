use levenshtein::{lev_idiomatic, lev_matrix, lev_naive};

fn test_impl(impl_fn: fn(&str, &str) -> usize) {
    let cases = [
        ("", "", 0),
        ("", "abc", 3),
        ("abc", "", 3),
        ("kitten", "sitting", 3),
        ("gumbo", "gambol", 2),
        ("str1", "str2", 1),
    ];

    for (a, b, expected) in cases {
        assert_eq!(impl_fn(a, b), expected, "a={a}, b={b}");
    }
}

#[test]
fn lev_naive_matches_known_values() {
    test_impl(lev_naive);
}

#[test]
fn lev_idiomatic_matches_known_values() {
    test_impl(lev_idiomatic);
}

#[test]
fn lev_matrix_matches_known_values() {
    test_impl(lev_matrix);
}

fn test_levenstein_impl(impl_fn: fn(&str, &str) -> usize) {
    let a = "str1";
    assert_eq!(impl_fn(a, a), 0);

    let a = "str1";
    let b = "str2";
    assert_eq!(impl_fn(a, b), 1);
}

#[test]
fn test_lev() {
    test_levenstein_impl(lev_naive);
}

#[test]
fn test_lev_ideomatic() {
    test_levenstein_impl(lev_idiomatic);
}

#[test]
fn test_lev_matrix() {
    test_levenstein_impl(lev_matrix);
}
