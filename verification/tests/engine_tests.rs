use xkcd_pass::{generate_password, get_random_words, tokenize};
use xkcd_pass::{compose, Args, Case, CorpusSet, GenerateError, List, OsRandom, SeededRandom};

fn sample_corpus() -> CorpusSet {
    CorpusSet::new(
        "alpha beta gamma delta epsilon zeta eta theta",
        "one two three four",
        "red green blue",
    )
}

#[test]
fn tokenize_splits_on_whitespace_runs() {
    let tokens = tokenize(" foo  bar\nbaz\t\r\nqux ");
    assert_eq!(tokens, vec!["foo", "bar", "baz", "qux"]);
}

#[test]
fn tokenize_of_empty_text_is_empty() {
    assert_eq!(tokenize(""), Vec::<String>::new());
    assert_eq!(tokenize(" \n\t "), Vec::<String>::new());
}

#[test]
fn tokenize_rejects_non_ascii_text() {
    assert_eq!(tokenize("w\u{f6}rter liste"), Vec::<String>::new());
}

#[test]
fn word_list_selection_matches_the_selector() {
    let corpora = sample_corpus();
    assert_eq!(corpora.get_word_list(&List::Long).len(), 8);
    assert_eq!(corpora.get_word_list(&List::Short1).len(), 4);
    assert_eq!(corpora.get_word_list(&List::Short2), &vec!["red", "green", "blue"]);
}

#[test]
fn sample_count_above_population_is_rejected() {
    let tokens = vec![String::from("a"), String::from("b"), String::from("c")];
    let mut rng = OsRandom::new();
    let r = get_random_words(&tokens, tokens.len() + 1, &mut rng);
    assert_eq!(r, Err(GenerateError::InvalidCount));
}

#[test]
fn sample_of_zero_words_is_empty() {
    let tokens = vec![String::from("a"), String::from("b")];
    let mut rng = OsRandom::new();
    assert_eq!(get_random_words(&tokens, 0, &mut rng), Ok(vec![]));
}

#[test]
fn sampled_words_are_distinct_members() {
    let corpora = sample_corpus();
    let tokens = corpora.get_word_list(&List::Long);
    let mut rng = OsRandom::new();
    let picked = get_random_words(tokens, 5, &mut rng).unwrap();
    assert_eq!(picked.len(), 5);
    for w in &picked {
        assert!(tokens.contains(w));
    }
    for a in 0..picked.len() {
        for b in (a + 1)..picked.len() {
            assert_ne!(picked[a], picked[b]);
        }
    }
}

#[test]
fn sampling_the_whole_population_permutes_it() {
    let tokens = vec![String::from("a"), String::from("b"), String::from("c")];
    let mut rng = OsRandom::new();
    let mut picked = get_random_words(&tokens, 3, &mut rng).unwrap();
    picked.sort();
    assert_eq!(picked, tokens);
}

#[test]
fn seeded_sampling_is_reproducible() {
    let corpora = sample_corpus();
    let tokens = corpora.get_word_list(&List::Long);
    let mut rng1 = SeededRandom::from_seed(42);
    let mut rng2 = SeededRandom::from_seed(42);
    let first = get_random_words(tokens, 6, &mut rng1).unwrap();
    let second = get_random_words(tokens, 6, &mut rng2).unwrap();
    assert_eq!(first, second);
}

#[test]
fn seeded_generation_is_reproducible() {
    let corpora = sample_corpus();
    let args = Args {
        number: 4,
        separator: String::from("-"),
        list: List::Long,
        case: Case::Mixed,
    };
    let first = generate_password(&args, &corpora, &mut SeededRandom::from_seed(7)).unwrap();
    let second = generate_password(&args, &corpora, &mut SeededRandom::from_seed(7)).unwrap();
    assert_eq!(first, second);
}

#[test]
fn compose_of_nothing_is_empty() {
    let mut rng = OsRandom::new();
    assert_eq!(compose(vec![], "-", &mut rng), "");
}

#[test]
fn compose_of_one_word_is_that_word() {
    let mut rng = OsRandom::new();
    assert_eq!(compose(vec![String::from("solo")], "-", &mut rng), "solo");
}

#[test]
fn passphrase_field_count_matches_the_request() {
    let corpora = sample_corpus();
    let args = Args {
        number: 5,
        separator: String::from("-"),
        list: List::Long,
        case: Case::Lower,
    };
    let mut rng = OsRandom::new();
    let pass = generate_password(&args, &corpora, &mut rng).unwrap();
    let fields: Vec<&str> = pass.split('-').collect();
    assert_eq!(fields.len(), 5);
    let tokens = corpora.get_word_list(&List::Long);
    for f in &fields {
        assert!(tokens.iter().any(|t| t == f));
    }
}

#[test]
fn zero_word_request_yields_the_empty_passphrase() {
    let corpora = sample_corpus();
    for case in [Case::Upper, Case::Lower, Case::Capitalized, Case::Mixed] {
        let args = Args {
            number: 0,
            separator: String::from("::"),
            list: List::Short2,
            case,
        };
        let mut rng = OsRandom::new();
        assert_eq!(generate_password(&args, &corpora, &mut rng), Ok(String::new()));
    }
}

#[test]
fn count_above_list_size_yields_invalid_count() {
    let corpora = sample_corpus();
    let args = Args {
        number: 9,
        separator: String::from(" "),
        list: List::Long,
        case: Case::Lower,
    };
    let mut rng = OsRandom::new();
    assert_eq!(
        generate_password(&args, &corpora, &mut rng),
        Err(GenerateError::InvalidCount)
    );
}

#[test]
fn empty_list_yields_empty_corpus_error() {
    let corpora = CorpusSet::new("alpha beta", "", "red green");
    let args = Args {
        number: 1,
        separator: String::from(" "),
        list: List::Short1,
        case: Case::Lower,
    };
    let mut rng = OsRandom::new();
    assert_eq!(
        generate_password(&args, &corpora, &mut rng),
        Err(GenerateError::EmptyCorpus)
    );
}

#[test]
fn upper_style_uppercases_the_whole_passphrase() {
    let corpora = sample_corpus();
    let args = Args {
        number: 3,
        separator: String::from(" "),
        list: List::Short1,
        case: Case::Upper,
    };
    let mut rng = OsRandom::new();
    let pass = generate_password(&args, &corpora, &mut rng).unwrap();
    assert_eq!(pass, pass.to_uppercase());
    assert_eq!(pass.split(' ').count(), 3);
}
