//! The case transformer: executable case mapping over words, verified
//! against the character-level model in [`crate::text`].
//!
//! The bundled word lists are ASCII, so only ASCII letters change case. A
//! word that is not ASCII is unsupported input and is returned unchanged
//! rather than crashing.

use vstd::prelude::*;
use crate::options::Case;
use crate::random::RandomSource;
use crate::text::{capitalized_of, lower_char, lower_of, upper_char, upper_of};
use vstd::string::StrSliceExecFns;
use vstd::string::StringSliceAdditionalSpecFns;
use vstd::string::StringExecFnsIsAscii;
use vstd::utf8::is_ascii_chars;

verus! {

broadcast use vstd::string::is_ascii_spec_bytes;

/// The characters an all-ASCII byte sequence spells, one per byte.
pub open spec fn chars_of_bytes(b: Seq<u8>) -> Seq<char> {
    Seq::new(b.len(), |i: int| b[i] as char)
}

/// Relies on `String::from_utf8`: bytes below 128 are valid UTF-8 and decode
/// to exactly those code points, one character per byte.
#[verifier::external_body]
pub(crate) fn ascii_to_string(bytes: Vec<u8>) -> (r: String)
    requires
        forall|i: int| 0 <= i < bytes@.len() ==> bytes@[i] < 128,
    ensures
        r@ == chars_of_bytes(bytes@),
{
    match String::from_utf8(bytes) {
        Ok(s) => s,
        Err(_) => String::new(),
    }
}

/// Maps each character of an ASCII word: the first character is uppercased
/// or lowercased as `up_first` says, every later one as `up_rest` says.
/// A word that is not ASCII is returned unchanged.
fn case_word(w: &str, up_first: bool, up_rest: bool) -> (r: String)
    ensures
        w.is_ascii() ==> {
            &&& r@.len() == w@.len()
            &&& forall|i: int|
                0 <= i < w@.len() ==> r@[i] == (if (if i == 0 {
                    up_first
                } else {
                    up_rest
                }) {
                    upper_char(#[trigger] w@[i])
                } else {
                    lower_char(w@[i])
                })
        },
        !w.is_ascii() ==> r@ == w@,
{
    if !w.is_ascii() {
        return w.to_owned();
    }
    let bytes = w.as_bytes_vec();
    let n = bytes.len();
    let mut out: Vec<u8> = Vec::new();
    let mut i: usize = 0;
    while i < n
        invariant
            w.is_ascii(),
            bytes@ == w.spec_bytes(),
            n == bytes@.len(),
            n == w@.len(),
            i <= n,
            out@.len() == i,
            forall|k: int|
                0 <= k < i ==> #[trigger] out@[k] < 128 && out@[k] as char == (if (if k == 0 {
                    up_first
                } else {
                    up_rest
                }) {
                    upper_char(w@[k])
                } else {
                    lower_char(w@[k])
                }),
        decreases n - i,
    {
        let b = bytes[i];
        proof {
            assert(b == w@[i as int] as u8);
            assert('\0' <= w@[i as int] <= '\u{7f}');
        }
        let up = if i == 0 {
            up_first
        } else {
            up_rest
        };
        let mapped: u8 = if up {
            if b >= 97 && b <= 122 {
                b - 32
            } else {
                b
            }
        } else {
            if b >= 65 && b <= 90 {
                b + 32
            } else {
                b
            }
        };
        out.push(mapped);
        i += 1;
    }
    let r = ascii_to_string(out);
    proof {
        assert(r@.len() == w@.len());
    }
    r
}

/// The word with every ASCII letter uppercased; a non-ASCII word is returned
/// unchanged.
pub fn uppercase_word(w: &str) -> (r: String)
    ensures
        w.is_ascii() ==> r@ == upper_of(w@),
        !w.is_ascii() ==> r@ == w@,
{
    let r = case_word(w, true, true);
    proof {
        if w.is_ascii() {
            assert(r@ =~= upper_of(w@));
        }
    }
    r
}

/// The word with every ASCII letter lowercased; a non-ASCII word is returned
/// unchanged.
pub fn lowercase_word(w: &str) -> (r: String)
    ensures
        w.is_ascii() ==> r@ == lower_of(w@),
        !w.is_ascii() ==> r@ == w@,
{
    let r = case_word(w, false, false);
    proof {
        if w.is_ascii() {
            assert(r@ =~= lower_of(w@));
        }
    }
    r
}

/// The word with its first letter uppercased and the rest lowercased; the
/// empty word stays empty, and a non-ASCII word is returned unchanged.
pub fn capitalize(w: &str) -> (r: String)
    ensures
        w.is_ascii() ==> r@ == capitalized_of(w@),
        !w.is_ascii() ==> r@ == w@,
{
    let r = case_word(w, true, false);
    proof {
        if w.is_ascii() {
            assert(r@ =~= capitalized_of(w@));
        }
    }
    r
}

/// The word made fully uppercase or fully lowercase, decided by one draw
/// from the randomness source; a non-ASCII word is returned unchanged.
pub fn to_random_case<R: RandomSource>(w: &str, rng: &mut R) -> (r: String)
    ensures
        w.is_ascii() ==> r@ == upper_of(w@) || r@ == lower_of(w@),
        !w.is_ascii() ==> r@ == w@,
{
    let coin = rng.pick(2);
    if coin == 0 {
        lowercase_word(w)
    } else {
        uppercase_word(w)
    }
}

/// How one output word relates to the word it came from under a case style:
/// an ASCII word carries the style exactly (for `Mixed`, it is fully
/// uppercased or fully lowercased); a non-ASCII word is unchanged.
pub open spec fn cased_rel(style: Case, w: Seq<char>, out: Seq<char>) -> bool {
    if is_ascii_chars(w) {
        match style {
            Case::Upper => out == upper_of(w),
            Case::Lower => out == lower_of(w),
            Case::Capitalized => out == capitalized_of(w),
            Case::Mixed => out == upper_of(w) || out == lower_of(w),
        }
    } else {
        out == w
    }
}

/// Applies the chosen case style to each word independently, preserving
/// order and count.
pub fn change_word_case<R: RandomSource>(case: Case, words: Vec<String>, rng: &mut R) -> (r: Vec<
    String,
>)
    ensures
        r@.len() == words@.len(),
        forall|k: int| 0 <= k < words@.len() ==> cased_rel(case, #[trigger] words@[k]@, r@[k]@),
{
    let n = words.len();
    let mut out: Vec<String> = Vec::new();
    let mut i: usize = 0;
    while i < n
        invariant
            n == words@.len(),
            i <= n,
            out@.len() == i,
            forall|k: int| 0 <= k < i ==> cased_rel(case, #[trigger] words@[k]@, out@[k]@),
        decreases n - i,
    {
        let w = words[i].as_str();
        let styled = match case {
            Case::Upper => uppercase_word(w),
            Case::Lower => lowercase_word(w),
            Case::Capitalized => capitalize(w),
            Case::Mixed => to_random_case(w, rng),
        };
        out.push(styled);
        i += 1;
    }
    out
}

} // verus!
