//! The mathematical model of the engine: case mapping on character
//! sequences, joining words with a separator, and splitting a string on a
//! separator, together with the laws that relate them.

use vstd::prelude::*;

verus! {

/// An ASCII lowercase letter maps to its uppercase partner; every other
/// character is unchanged.
pub open spec fn upper_char(c: char) -> char {
    if 'a' <= c && c <= 'z' {
        ((c as u8) - 32) as char
    } else {
        c
    }
}

/// An ASCII uppercase letter maps to its lowercase partner; every other
/// character is unchanged.
pub open spec fn lower_char(c: char) -> char {
    if 'A' <= c && c <= 'Z' {
        ((c as u8) + 32) as char
    } else {
        c
    }
}

/// The word with every ASCII letter uppercased.
pub open spec fn upper_of(s: Seq<char>) -> Seq<char> {
    Seq::new(s.len(), |i: int| upper_char(s[i]))
}

/// The word with every ASCII letter lowercased.
pub open spec fn lower_of(s: Seq<char>) -> Seq<char> {
    Seq::new(s.len(), |i: int| lower_char(s[i]))
}

/// The word with its first character uppercased and every later character
/// lowercased; the empty word stays empty.
pub open spec fn capitalized_of(s: Seq<char>) -> Seq<char> {
    Seq::new(s.len(), |i: int| if i == 0 { upper_char(s[i]) } else { lower_char(s[i]) })
}

/// Capitalizing is idempotent: capitalizing an already-capitalized word
/// changes nothing.
pub proof fn lemma_capitalize_idempotent(s: Seq<char>)
    ensures
        capitalized_of(capitalized_of(s)) == capitalized_of(s),
{
    let once = capitalized_of(s);
    assert forall|i: int| 0 <= i < s.len() implies capitalized_of(once)[i] == once[i] by {
        if i == 0 {
            assert(upper_char(upper_char(s[i])) == upper_char(s[i]));
        } else {
            assert(lower_char(lower_char(s[i])) == lower_char(s[i]));
        }
    }
    assert(capitalized_of(once) =~= once);
}

/// The words concatenated with `sep` between adjacent words, with no leading
/// or trailing separator; no words compose to the empty string.
pub open spec fn spec_join(words: Seq<Seq<char>>, sep: Seq<char>) -> Seq<char>
    decreases words.len(),
{
    if words.len() == 0 {
        Seq::empty()
    } else if words.len() == 1 {
        words[0]
    } else {
        words[0] + sep + spec_join(words.drop_first(), sep)
    }
}

/// Helper for [`spec_split`]: splits `s` on `sep`, with `cur` the part of the
/// current field read so far.
pub open spec fn split_acc(s: Seq<char>, sep: Seq<char>, cur: Seq<char>) -> Seq<Seq<char>>
    decreases s.len(),
{
    if sep.len() == 0 || s.len() < sep.len() {
        seq![cur + s]
    } else if s.take(sep.len() as int) == sep {
        seq![cur] + split_acc(s.skip(sep.len() as int), sep, Seq::empty())
    } else {
        split_acc(s.drop_first(), sep, cur.push(s[0]))
    }
}

/// The fields of `s` delimited by `sep`, leftmost match first; mirrors how
/// `str::split` cuts a string on a non-empty separator.
pub open spec fn spec_split(s: Seq<char>, sep: Seq<char>) -> Seq<Seq<char>> {
    split_acc(s, sep, Seq::empty())
}

/// Whether `c` is an ASCII letter, of either case.
pub open spec fn is_ascii_letter(c: char) -> bool {
    ('a' <= c && c <= 'z') || ('A' <= c && c <= 'Z')
}

/// No character of `s` is an ASCII letter, so case mapping cannot turn a
/// word character into one of `s`.
pub open spec fn has_no_ascii_letter(s: Seq<char>) -> bool {
    forall|i: int| 0 <= i < s.len() ==> !is_ascii_letter(#[trigger] s[i])
}

/// No character of `sep` occurs anywhere in the word `w`.
pub open spec fn word_avoids(w: Seq<char>, sep: Seq<char>) -> bool {
    forall|i: int| 0 <= i < w.len() ==> !sep.contains(#[trigger] w[i])
}

/// No character of `sep` occurs in any of the words.
pub open spec fn words_avoid(words: Seq<Seq<char>>, sep: Seq<char>) -> bool {
    forall|k: int| 0 <= k < words.len() ==> word_avoids(#[trigger] words[k], sep)
}

/// Scanning a stretch of characters that avoid `sep` only grows the current
/// field; no separator match can begin inside it.
proof fn lemma_split_acc_clean(s: Seq<char>, t: Seq<char>, sep: Seq<char>, cur: Seq<char>)
    requires
        sep.len() >= 1,
        word_avoids(s, sep),
    ensures
        split_acc(s + t, sep, cur) == split_acc(t, sep, cur + s),
    decreases s.len(),
{
    let st = s + t;
    if s.len() == 0 {
        assert(st =~= t);
        assert(cur + s =~= cur);
    } else if st.len() < sep.len() {
        assert(t.len() < sep.len());
        assert(cur + st =~= (cur + s) + t);
    } else {
        if st.take(sep.len() as int) == sep {
            assert(st.take(sep.len() as int)[0] == st[0]);
            assert(sep.contains(s[0]));
            assert(false);
        }
        assert(word_avoids(s.drop_first(), sep)) by {
            assert forall|i: int| 0 <= i < s.drop_first().len() implies !sep.contains(
                #[trigger] s.drop_first()[i],
            ) by {
                assert(s.drop_first()[i] == s[i + 1]);
            }
        }
        assert(st.drop_first() =~= s.drop_first() + t);
        lemma_split_acc_clean(s.drop_first(), t, sep, cur.push(s[0]));
        assert(cur.push(s[0]) + s.drop_first() =~= cur + s);
    }
}

/// A separator standing at the front of the input closes the current field.
proof fn lemma_split_acc_sep(t: Seq<char>, sep: Seq<char>, cur: Seq<char>)
    requires
        sep.len() >= 1,
    ensures
        split_acc(sep + t, sep, cur) == seq![cur] + split_acc(t, sep, Seq::empty()),
{
    let st = sep + t;
    assert(st.take(sep.len() as int) =~= sep);
    assert(st.skip(sep.len() as int) =~= t);
}

proof fn lemma_split_acc_join(words: Seq<Seq<char>>, sep: Seq<char>, cur: Seq<char>)
    requires
        words.len() >= 1,
        sep.len() >= 1,
        words_avoid(words, sep),
    ensures
        split_acc(spec_join(words, sep), sep, cur) == seq![cur + words[0]] + words.drop_first(),
    decreases words.len(),
{
    if words.len() == 1 {
        lemma_split_acc_clean(words[0], Seq::empty(), sep, cur);
        assert(words[0] + Seq::<char>::empty() =~= words[0]);
        assert((cur + words[0]) + Seq::<char>::empty() =~= cur + words[0]);
        assert(seq![cur + words[0]] + words.drop_first() =~= seq![cur + words[0]]);
    } else {
        let rest = words.drop_first();
        let tail = sep + spec_join(rest, sep);
        assert(spec_join(words, sep) =~= words[0] + tail);
        lemma_split_acc_clean(words[0], tail, sep, cur);
        lemma_split_acc_sep(spec_join(rest, sep), sep, cur + words[0]);
        assert(words_avoid(rest, sep)) by {
            assert forall|k: int| 0 <= k < rest.len() implies word_avoids(
                #[trigger] rest[k],
                sep,
            ) by {
                assert(rest[k] == words[k + 1]);
            }
        }
        lemma_split_acc_join(rest, sep, Seq::empty());
        assert(Seq::<char>::empty() + rest[0] =~= rest[0]);
        assert(seq![rest[0]] + rest.drop_first() =~= rest);
        assert(seq![cur + words[0]] + (seq![rest[0]] + rest.drop_first()) =~= seq![cur + words[0]]
            + rest);
    }
}

/// Splitting a separator-joined sequence of words on that separator recovers
/// exactly the words, provided the separator is non-empty and none of its
/// characters occurs in any word. In particular the number of fields equals
/// the number of words.
pub proof fn lemma_split_join(words: Seq<Seq<char>>, sep: Seq<char>)
    requires
        words.len() >= 1,
        sep.len() >= 1,
        words_avoid(words, sep),
    ensures
        spec_split(spec_join(words, sep), sep) == words,
        spec_split(spec_join(words, sep), sep).len() == words.len(),
{
    lemma_split_acc_join(words, sep, Seq::empty());
    assert(Seq::<char>::empty() + words[0] =~= words[0]);
    assert(seq![words[0]] + words.drop_first() =~= words);
}

} // verus!
