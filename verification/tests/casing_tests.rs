use xkcd_pass::{capitalize, change_word_case, lowercase_word, to_random_case, uppercase_word};
use xkcd_pass::{Case, OsRandom};

#[test]
fn capitalize_lower_case() {
    let all_lowercase = "foobar";
    assert_eq!(capitalize(all_lowercase), "Foobar");
}

#[test]
fn capitalize_upper_case() {
    let all_uppercase = "FOOBAR";
    assert_eq!(capitalize(all_uppercase), "Foobar");
}

#[test]
fn capitalize_mixed_case() {
    let mixed_case = "foOBaR";
    assert_eq!(capitalize(mixed_case), "Foobar");
}

#[test]
fn capitalize_nothing() {
    let nothing = "";
    assert_eq!(capitalize(nothing), "");
}

#[test]
fn capitalize_is_idempotent() {
    for w in ["foobar", "FOOBAR", "foOBaR", "x", "", "a1b2C3"] {
        let once = capitalize(w);
        assert_eq!(capitalize(&once), once);
    }
}

#[test]
fn uppercase_word_maps_every_letter() {
    assert_eq!(uppercase_word("buzz"), "BUZZ");
    assert_eq!(uppercase_word("mIxEd42"), "MIXED42");
}

#[test]
fn lowercase_word_maps_every_letter() {
    assert_eq!(lowercase_word("BUZZ"), "buzz");
    assert_eq!(lowercase_word("mIxEd42"), "mixed42");
}

#[test]
fn random_case_is_all_upper_or_all_lower() {
    let mut rng = OsRandom::new();
    for _ in 0..20 {
        let out = to_random_case("foobar", &mut rng);
        assert!(out == "FOOBAR" || out == "foobar");
    }
}

fn default_change_case(case: Case) -> Vec<String> {
    change_word_case(
        case,
        vec![
            String::from("foo"),
            String::from("bar"),
            String::from("buzz"),
        ],
        &mut OsRandom::new(),
    )
}

#[test]
fn change_to_uppercase() {
    let actual = default_change_case(Case::Upper);
    let expected = vec!["FOO", "BAR", "BUZZ"];

    assert_eq!(actual, expected);
}

#[test]
fn change_to_lowercase() {
    let actual = default_change_case(Case::Lower);
    let expected = vec!["foo", "bar", "buzz"];

    assert_eq!(actual, expected);
}

#[test]
fn change_to_capitalized() {
    let actual = default_change_case(Case::Capitalized);
    let expected = vec!["Foo", "Bar", "Buzz"];

    assert_eq!(actual, expected);
}

#[test]
fn change_to_mixed_flips_whole_words() {
    let actual = default_change_case(Case::Mixed);
    assert_eq!(actual.len(), 3);
    assert!(actual[0] == "FOO" || actual[0] == "foo");
    assert!(actual[1] == "BAR" || actual[1] == "bar");
    assert!(actual[2] == "BUZZ" || actual[2] == "buzz");
}
