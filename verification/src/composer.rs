//! The composer: puts the transformed words into a random order and joins
//! them with the separator, with no leading or trailing separator.

use vstd::prelude::*;
use crate::random::RandomSource;
use crate::sampler::{distinct_sample, get_random_words, picked_from};
use crate::text::{lemma_split_join, spec_join, spec_split, word_avoids, words_avoid};
use vstd::string::StringExecFns;

verus! {

/// `out` is some reordering of `words`, joined with `sep`.
pub open spec fn arranged_join(out: Seq<char>, words: Seq<Seq<char>>, sep: Seq<char>) -> bool {
    exists|ws: Seq<Seq<char>>, p: Seq<int>|
        picked_from(ws, words, p) && ws.len() == words.len() && out == spec_join(ws, sep)
}

/// Appending one more word to a join: the separator stands between the old
/// join and the new word, except before the very first word.
proof fn lemma_join_snoc(ws: Seq<Seq<char>>, w: Seq<char>, sep: Seq<char>)
    ensures
        spec_join(ws.push(w), sep) == if ws.len() == 0 {
            w
        } else {
            spec_join(ws, sep) + sep + w
        },
    decreases ws.len(),
{
    if ws.len() == 0 {
        assert(ws.push(w)[0] == w);
    } else if ws.len() == 1 {
        assert(ws.push(w).drop_first() =~= seq![w]);
        assert(spec_join(seq![w], sep) == w);
        assert(ws.push(w)[0] == ws[0]);
        assert(spec_join(ws.push(w), sep) == ws[0] + sep + w);
    } else {
        assert(ws.push(w).drop_first() =~= ws.drop_first().push(w));
        lemma_join_snoc(ws.drop_first(), w, sep);
        assert(ws[0] + sep + (spec_join(ws.drop_first(), sep) + sep + w) =~= (ws[0] + sep
            + spec_join(ws.drop_first(), sep)) + sep + w);
    }
}

/// Concatenates the words with `separator` between adjacent words.
pub fn join_words(words: &Vec<String>, separator: &str) -> (r: String)
    ensures
        r@ == spec_join(words.deep_view(), separator@),
{
    let n = words.len();
    let mut out = String::new();
    let mut i: usize = 0;
    while i < n
        invariant
            i <= n,
            n == words@.len(),
            out@ == spec_join(words.deep_view().take(i as int), separator@),
        decreases n - i,
    {
        if i > 0 {
            out.append(separator);
        }
        out.append(words[i].as_str());
        proof {
            let dv = words.deep_view();
            assert(dv.take((i + 1) as int) =~= dv.take(i as int).push(dv[i as int]));
            lemma_join_snoc(dv.take(i as int), dv[i as int], separator@);
            if i == 0 {
                assert(Seq::<char>::empty() + dv[0] =~= dv[0]);
            }
        }
        i += 1;
    }
    proof {
        assert(words.deep_view().take(n as int) =~= words.deep_view());
    }
    out
}

/// Count invariant: a composed passphrase of one or more words whose
/// characters avoid a non-empty separator splits on that separator into
/// exactly one field per word; the fields are the words themselves, each
/// coming from a distinct position.
pub proof fn lemma_compose_count(out: Seq<char>, words: Seq<Seq<char>>, sep: Seq<char>)
    requires
        arranged_join(out, words, sep),
        words_avoid(words, sep),
        sep.len() >= 1,
        words.len() >= 1,
    ensures
        spec_split(out, sep).len() == words.len(),
        distinct_sample(spec_split(out, sep), words),
{
    let (ws, p) = choose|ws: Seq<Seq<char>>, p: Seq<int>|
        picked_from(ws, words, p) && ws.len() == words.len() && out == spec_join(ws, sep);
    assert forall|k: int| 0 <= k < ws.len() implies word_avoids(#[trigger] ws[k], sep) by {
        assert(ws[k] == words[p[k]]);
        assert(word_avoids(words[p[k]], sep));
    }
    lemma_split_join(ws, sep);
    assert(picked_from(spec_split(out, sep), words, p));
}

/// Puts the words into a random order and joins them with the separator.
/// Zero words compose to the empty string; one word is returned as it is.
pub fn compose<R: RandomSource>(words: Vec<String>, separator: &str, rng: &mut R) -> (r: String)
    ensures
        arranged_join(r@, words.deep_view(), separator@),
        words@.len() == 0 ==> r@ == Seq::<char>::empty(),
{
    let n = words.len();
    let shuffled = match get_random_words(&words, n, rng) {
        Ok(v) => v,
        Err(_) => {
            proof {
                assert(false);
            }
            Vec::new()
        },
    };
    let r = join_words(&shuffled, separator);
    proof {
        let ws = shuffled.deep_view();
        let dv = words.deep_view();
        let p = choose|p: Seq<int>| picked_from(ws, dv, p);
        assert(picked_from(ws, dv, p));
        assert(ws.len() == dv.len());
        assert(arranged_join(r@, dv, separator@));
    }
    r
}

} // verus!
