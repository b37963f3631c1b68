//! The whole pipeline: select the word list, sample distinct words, apply
//! the case style, shuffle, and join with the separator.

use vstd::prelude::*;
use crate::casing::{cased_rel, change_word_case};
use crate::composer::{arranged_join, compose, lemma_compose_count};
use crate::corpus::CorpusSet;
use crate::options::{Args, Case, GenerateError};
use crate::random::RandomSource;
use crate::sampler::{distinct_sample, get_random_words, picked_from};
use crate::text::{
    has_no_ascii_letter, is_ascii_letter, lower_char, spec_split, upper_char, word_avoids,
    words_avoid,
};
use vstd::utf8::is_ascii_chars;

verus! {

/// `out` is a passphrase generated from `tokens`: some `n` words drawn at
/// pairwise distinct positions, each given the case style, reordered, and
/// joined with `sep`.
pub open spec fn generated_from(
    out: Seq<char>,
    tokens: Seq<Seq<char>>,
    style: Case,
    sep: Seq<char>,
    n: nat,
) -> bool {
    exists|sel: Seq<Seq<char>>, styled: Seq<Seq<char>>|
        #![trigger distinct_sample(sel, tokens), arranged_join(out, styled, sep)]
        {
            &&& distinct_sample(sel, tokens)
            &&& sel.len() == n
            &&& styled.len() == n
            &&& forall|k: int| 0 <= k < n ==> cased_rel(style, sel[k], styled[k])
            &&& arranged_join(out, styled, sep)
        }
}

/// Generates one passphrase for the request, drawing randomness from the
/// supplied source. An empty word list is a packaging fault and is rejected;
/// a word count above the list's size is a caller error and is rejected; a
/// word count of zero yields the empty passphrase.
pub fn generate_password<R: RandomSource>(
    args: &Args,
    corpora: &CorpusSet,
    rng: &mut R,
) -> (r: Result<String, GenerateError>)
    ensures
        r == Err::<String, GenerateError>(GenerateError::EmptyCorpus) <==> corpora.spec_word_list(
            args.list,
        ).len() == 0,
        r == Err::<String, GenerateError>(GenerateError::InvalidCount) <==> corpora.spec_word_list(
            args.list,
        ).len() > 0 && args.number > corpora.spec_word_list(args.list).len(),
        r is Ok <==> corpora.spec_word_list(args.list).len() > 0 && args.number
            <= corpora.spec_word_list(args.list).len(),
        r matches Ok(o) ==> generated_from(
            o@,
            corpora.spec_word_list(args.list),
            args.case,
            args.separator@,
            args.number as nat,
        ),
        args.number == 0 ==> (r matches Ok(o) ==> o@ == Seq::<char>::empty()),
{
    let tokens = corpora.get_word_list(&args.list);
    if tokens.len() == 0 {
        return Err(GenerateError::EmptyCorpus);
    }
    let sampled = match get_random_words(tokens, args.number, rng) {
        Ok(v) => v,
        Err(e) => {
            return Err(e);
        },
    };
    let ghost sel = sampled.deep_view();
    let ghost sel_views = sampled@;
    let styled = change_word_case(args.case, sampled, rng);
    let ghost sty = styled.deep_view();
    let pass = compose(styled, args.separator.as_str(), rng);
    proof {
        let toks = corpora.spec_word_list(args.list);
        assert forall|k: int| 0 <= k < args.number implies cased_rel(
            args.case,
            sel[k],
            sty[k],
        ) by {
            assert(cased_rel(args.case, sel_views[k]@, sty[k]));
        }
        assert(generated_from(pass@, toks, args.case, args.separator@, args.number as nat));
    }
    Ok(pass)
}

/// Case mapping keeps a word clear of a separator that holds no ASCII
/// letter: letters map to letters, and every other character is unchanged.
proof fn lemma_cased_avoids(style: Case, w: Seq<char>, out: Seq<char>, sep: Seq<char>)
    requires
        cased_rel(style, w, out),
        word_avoids(w, sep),
        has_no_ascii_letter(sep),
    ensures
        word_avoids(out, sep),
{
    assert forall|i: int| 0 <= i < out.len() implies !sep.contains(#[trigger] out[i]) by {
        if is_ascii_chars(w) {
            assert(out[i] == upper_char(w[i]) || out[i] == lower_char(w[i]));
            if sep.contains(out[i]) {
                let j = choose|j: int| 0 <= j < sep.len() && sep[j] == out[i];
                assert(!is_ascii_letter(sep[j]));
                assert(!sep.contains(w[i]));
                assert(false);
            }
        } else {
            assert(out[i] == w[i]);
        }
    }
}

/// Count invariant: a passphrase of `n >= 1` words generated over a
/// non-empty separator that holds no ASCII letter and no character of any
/// token splits on that separator into exactly `n` fields.
pub proof fn lemma_generate_count(
    out: Seq<char>,
    tokens: Seq<Seq<char>>,
    style: Case,
    sep: Seq<char>,
    n: nat,
)
    requires
        generated_from(out, tokens, style, sep, n),
        words_avoid(tokens, sep),
        has_no_ascii_letter(sep),
        sep.len() >= 1,
        n >= 1,
    ensures
        spec_split(out, sep).len() == n,
{
    let (sel, styled) = choose|sel: Seq<Seq<char>>, styled: Seq<Seq<char>>|
        #![trigger distinct_sample(sel, tokens), arranged_join(out, styled, sep)]
        {
            &&& distinct_sample(sel, tokens)
            &&& sel.len() == n
            &&& styled.len() == n
            &&& forall|k: int| 0 <= k < n ==> cased_rel(style, sel[k], styled[k])
            &&& arranged_join(out, styled, sep)
        };
    let p = choose|p: Seq<int>| picked_from(sel, tokens, p);
    assert forall|k: int| 0 <= k < styled.len() implies word_avoids(#[trigger] styled[k], sep) by {
        assert(picked_from(sel, tokens, p));
        assert(sel[k] == tokens[p[k]]);
        assert(word_avoids(tokens[p[k]], sep));
        lemma_cased_avoids(style, sel[k], styled[k], sep);
    }
    lemma_compose_count(out, styled, sep);
}

} // verus!
