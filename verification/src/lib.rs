//! Passphrase generation in the spirit of xkcd 936: draw distinct words at
//! random from a word list, change their case, shuffle them, and join them
//! with a separator.
//!
//! The randomness source is an injected capability ([`random::RandomSource`]),
//! so the same sampling and shuffling logic serves both the operating-system
//! randomness used in production and a seeded generator used for
//! reproducible runs.

pub mod casing;
pub mod composer;
pub mod corpus;
pub mod generate;
pub mod options;
pub mod random;
pub mod sampler;
pub mod text;

pub use casing::{capitalize, change_word_case, lowercase_word, to_random_case, uppercase_word};
pub use composer::{compose, join_words};
pub use corpus::{tokenize, CorpusSet};
pub use generate::generate_password;
pub use options::{Args, Case, GenerateError, List};
pub use random::{OsRandom, RandomSource, SeededRandom};
pub use sampler::get_random_words;
