//! The corpus provider: turns the raw text of a word list into its word
//! tokens, and selects among the three bundled lists.
//!
//! Tokenization splits on runs of ASCII whitespace and discards empty
//! tokens. The bundled lists are ASCII; text that is not ASCII is treated as
//! a corrupt resource and yields no tokens rather than crashing.

use vstd::prelude::*;
use crate::casing::{ascii_to_string, chars_of_bytes};
use crate::options::List;
use vstd::string::StrSliceExecFns;
use vstd::string::StringSliceAdditionalSpecFns;
use vstd::utf8::is_ascii_chars;

verus! {

broadcast use vstd::string::is_ascii_spec_bytes;

/// The whitespace characters that delimit words.
pub open spec fn is_space(c: char) -> bool {
    c == ' ' || c == '\t' || c == '\n' || c == '\r'
}

/// Helper for [`spec_tokenize`]: the tokens of `s`, with `cur` the part of
/// the current word read so far. A whitespace character closes the current
/// word; an empty current word is discarded, never emitted.
pub open spec fn tok_acc(s: Seq<char>, cur: Seq<char>) -> Seq<Seq<char>>
    decreases s.len(),
{
    if s.len() == 0 {
        if cur.len() == 0 {
            Seq::empty()
        } else {
            seq![cur]
        }
    } else if is_space(s[0]) {
        if cur.len() == 0 {
            tok_acc(s.drop_first(), cur)
        } else {
            seq![cur] + tok_acc(s.drop_first(), Seq::empty())
        }
    } else {
        tok_acc(s.drop_first(), cur.push(s[0]))
    }
}

/// The words of `s`: maximal runs of non-whitespace characters, in order.
pub open spec fn spec_tokenize(s: Seq<char>) -> Seq<Seq<char>> {
    tok_acc(s, Seq::empty())
}

/// Every word consists of ASCII characters only.
pub open spec fn ascii_words(ws: Seq<Seq<char>>) -> bool {
    forall|k: int| 0 <= k < ws.len() ==> is_ascii_chars(#[trigger] ws[k])
}

/// Splits a word-list text into its whitespace-delimited tokens, dropping
/// empty tokens. Text that is not ASCII yields no tokens.
pub fn tokenize(text: &str) -> (r: Vec<String>)
    ensures
        text.is_ascii() ==> r.deep_view() == spec_tokenize(text@),
        !text.is_ascii() ==> r@.len() == 0,
        ascii_words(r.deep_view()),
{
    if !text.is_ascii() {
        let r: Vec<String> = Vec::new();
        return r;
    }
    let bytes = text.as_bytes_vec();
    let n = bytes.len();
    let mut out: Vec<String> = Vec::new();
    let mut cur: Vec<u8> = Vec::new();
    let mut i: usize = 0;
    proof {
        assert(text@.skip(0) =~= text@);
        assert(chars_of_bytes(cur@) =~= Seq::<char>::empty());
        assert(out.deep_view() =~= Seq::<Seq<char>>::empty());
        assert(Seq::<Seq<char>>::empty() + tok_acc(text@, Seq::<char>::empty()) =~= tok_acc(
            text@,
            Seq::<char>::empty(),
        ));
    }
    while i < n
        invariant
            text.is_ascii(),
            bytes@ == text.spec_bytes(),
            n == bytes@.len(),
            n == text@.len(),
            i <= n,
            forall|k: int| 0 <= k < cur@.len() ==> cur@[k] < 128,
            ascii_words(out.deep_view()),
            spec_tokenize(text@) == out.deep_view() + tok_acc(
                text@.skip(i as int),
                chars_of_bytes(cur@),
            ),
        decreases n - i,
    {
        let ghost rest = text@.skip(i as int);
        let ghost curc = chars_of_bytes(cur@);
        let ghost out_dv = out.deep_view();
        proof {
            assert(rest[0] == text@[i as int]);
            assert(rest.drop_first() =~= text@.skip(i as int + 1));
            assert('\0' <= text@[i as int] <= '\u{7f}');
        }
        let b = bytes[i];
        proof {
            assert(b == text@[i as int] as u8);
        }
        if b == 32 || b == 9 || b == 10 || b == 13 {
            if cur.len() > 0 {
                let token = ascii_to_string(cur);
                cur = Vec::new();
                out.push(token);
                proof {
                    assert(out.deep_view() =~= out_dv + seq![curc]);
                    assert((out_dv + seq![curc]) + tok_acc(rest.drop_first(), Seq::empty())
                        =~= out_dv + (seq![curc] + tok_acc(rest.drop_first(), Seq::empty())));
                }
            }
            proof {
                assert(chars_of_bytes(cur@) =~= Seq::<char>::empty());
            }
        } else {
            proof {
                assert(!is_space(rest[0]));
            }
            cur.push(b);
            proof {
                assert(chars_of_bytes(cur@) =~= curc.push(rest[0]));
            }
        }
        i += 1;
    }
    let ghost curc = chars_of_bytes(cur@);
    let ghost out_dv = out.deep_view();
    proof {
        assert(text@.skip(n as int) =~= Seq::<char>::empty());
    }
    if cur.len() > 0 {
        let token = ascii_to_string(cur);
        out.push(token);
        proof {
            assert(out.deep_view() =~= out_dv + seq![curc]);
        }
    } else {
        proof {
            assert(out.deep_view() + Seq::<Seq<char>>::empty() =~= out.deep_view());
        }
    }
    out
}

/// The three bundled word lists, tokenized once at startup and never
/// changed afterwards.
pub struct CorpusSet {
    pub long: Vec<String>,
    pub short1: Vec<String>,
    pub short2: Vec<String>,
}

impl CorpusSet {
    /// The token sequence the selector names.
    pub open spec fn spec_word_list(&self, list: List) -> Seq<Seq<char>> {
        match list {
            List::Long => self.long.deep_view(),
            List::Short1 => self.short1.deep_view(),
            List::Short2 => self.short2.deep_view(),
        }
    }

    /// Every word of every list is ASCII.
    pub open spec fn wf(&self) -> bool {
        &&& ascii_words(self.long.deep_view())
        &&& ascii_words(self.short1.deep_view())
        &&& ascii_words(self.short2.deep_view())
    }

    /// Tokenizes the texts of the three word lists.
    pub fn new(long_text: &str, short1_text: &str, short2_text: &str) -> (r: CorpusSet)
        ensures
            r.wf(),
            long_text.is_ascii() ==> r.long.deep_view() == spec_tokenize(long_text@),
            short1_text.is_ascii() ==> r.short1.deep_view() == spec_tokenize(short1_text@),
            short2_text.is_ascii() ==> r.short2.deep_view() == spec_tokenize(short2_text@),
    {
        CorpusSet {
            long: tokenize(long_text),
            short1: tokenize(short1_text),
            short2: tokenize(short2_text),
        }
    }

    /// The word list the selector names.
    pub fn get_word_list(&self, list: &List) -> (r: &Vec<String>)
        ensures
            r.deep_view() == self.spec_word_list(*list),
    {
        match list {
            List::Long => &self.long,
            List::Short1 => &self.short1,
            List::Short2 => &self.short2,
        }
    }
}

} // verus!
