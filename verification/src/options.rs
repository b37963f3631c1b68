//! The configuration values a caller hands to the generator, and the errors
//! the generator can report.

use vstd::prelude::*;

verus! {

/// Which of the three bundled word lists to draw from.
#[derive(Clone, Copy, Debug, PartialEq, Eq, Structural)]
pub enum List {
    /// EFF's long word list.
    Long,
    /// EFF's first short word list.
    Short1,
    /// EFF's second short word list.
    Short2,
}

/// Which case style to apply to the sampled words.
#[derive(Clone, Copy, Debug, PartialEq, Eq, Structural)]
pub enum Case {
    Upper,
    Lower,
    Capitalized,
    /// Each word is independently made either all-uppercase or all-lowercase.
    Mixed,
}

/// One passphrase-generation request.
#[derive(Debug)]
pub struct Args {
    /// Number of words to include in the passphrase.
    pub number: usize,
    /// Separator placed between adjacent words.
    pub separator: String,
    /// Word list to draw from.
    pub list: List,
    /// Case style applied to the words.
    pub case: Case,
}

/// Why a generation request was rejected.
#[derive(Clone, Copy, Debug, PartialEq, Eq, Structural)]
pub enum GenerateError {
    /// The requested word count exceeds the size of the selected word list.
    InvalidCount,
    /// The selected word list holds no tokens at all.
    EmptyCorpus,
}

} // verus!
