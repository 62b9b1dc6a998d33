//! What the search terms of a text are, in terms of its characters.

use vstd::prelude::*;

use crate::search::{
    all_tokens, bigrams, collected, is_han, is_stop_word, memory_search_terms, plain_char,
    plain_class, plain_terms, read_by, run_len, spelled, spellings_by, tokens, Alphabet, CharClass,
    Letter,
};
use crate::text::{ascii_lower, ascii_lowered, joined};

verus! {

/// A word of two letters or more that is no stop word is a term, whole and in
/// small letters.
pub proof fn law_words_are_terms(values: &[&str], limit: usize, r: String, stop: bool)
    requires
        call_ensures(memory_search_terms, (values, limit), r),
        values@.len() == 1,
        values@[0]@.len() >= 2,
        forall|i: int|
            0 <= i < values@[0]@.len() ==> '0' <= (#[trigger] values@[0]@[i]) <= '9' || 'a'
                <= values@[0]@[i] <= 'z',
        call_ensures(is_stop_word, (values@[0],), stop),
        limit >= 1,
    ensures
        !stop ==> r@ == values@[0]@,
        stop ==> r@.len() == 0,
{
    let word = values@[0]@;
    lemma_plain_run(values, limit, r, CharClass::Word);
    let found = seq![word];
    assert(found.drop_last() =~= Seq::empty());
    assert(collected(Seq::empty(), limit as nat) =~= Seq::empty());
    if stop {
        assert(collected(found, limit as nat) =~= Seq::empty());
    } else {
        assert(collected(found, limit as nat) =~= found);
    }
}

/// Of three Han characters each neighbouring pair is a term, in their order,
/// where the pairs differ and neither is a stop word.
pub proof fn law_han_neighbours_are_terms(
    values: &[&str],
    limit: usize,
    r: String,
    first: &str,
    second: &str,
    stop_first: bool,
    stop_second: bool,
)
    requires
        call_ensures(memory_search_terms, (values, limit), r),
        values@.len() == 1,
        values@[0]@.len() == 3,
        forall|i: int| 0 <= i < 3 ==> '\u{4e00}' <= (#[trigger] values@[0]@[i]) <= '\u{9fff}',
        first@ == values@[0]@.subrange(0, 2),
        second@ == values@[0]@.subrange(1, 3),
        first@ != second@,
        call_ensures(is_stop_word, (first,), stop_first),
        call_ensures(is_stop_word, (second,), stop_second),
        !stop_first,
        !stop_second,
        limit >= 2,
    ensures
        r@ == first@ + " "@ + second@,
{
    let text = values@[0]@;
    lemma_plain_run(values, limit, r, CharClass::Han);
    let pairs = bigrams(text);
    assert(pairs =~= seq![first@, second@]);
    let one = pairs.drop_last();
    assert(one =~= seq![first@]);
    assert(one.drop_last() =~= Seq::empty());
    assert(collected(Seq::empty(), limit as nat) =~= Seq::empty());
    assert(collected(one, limit as nat) =~= one);
    assert(!one.contains(second@)) by {
        assert(one.len() == 1 && one[0] == first@);
    }
    assert(collected(pairs, limit as nat) =~= pairs);
    assert(pairs.drop_last() =~= one);
    assert(joined(one, " "@) == first@);
    assert(joined(pairs, " "@) == joined(one, " "@) + " "@ + pairs.last());
}

proof fn lemma_plain_run(values: &[&str], limit: usize, r: String, class: CharClass)
    requires
        call_ensures(memory_search_terms, (values, limit), r),
        values@.len() == 1,
        values@[0]@.len() >= 2,
        forall|i: int|
            0 <= i < values@[0]@.len() ==> plain_char(#[trigger] values@[0]@[i]) && ascii_lower(
                values@[0]@[i],
            ) == values@[0]@[i] && plain_class(values@[0]@[i]) == class,
        class == CharClass::Word || class == CharClass::Han,
    ensures
        r@ == joined(
            collected(
                if class == CharClass::Word {
                    seq![values@[0]@]
                } else {
                    bigrams(values@[0]@)
                },
                limit as nat,
            ),
            " "@,
        ),
{
    let text = values@[0]@;
    let raw = values@.map_values(|value: &str| value@);
    assert(raw =~= seq![text]);
    assert(r@ == plain_terms(raw, limit as nat));
    let folded = raw.map_values(|value: Seq<char>| ascii_lowered(value));
    assert(ascii_lowered(text) =~= text);
    assert(folded =~= seq![text]);
    let read = spellings_by(folded, Alphabet::Plain);
    let letters = read_by(text, Alphabet::Plain);
    assert(read =~= seq![letters]);
    assert(read.drop_last() =~= Seq::<Seq<Letter>>::empty());
    assert(all_tokens(Seq::empty()) =~= Seq::empty());
    assert(all_tokens(read) =~= tokens(letters));
    assert forall|i: int| 0 <= i < letters.len() implies (#[trigger] letters[i]).class == class by {
        assert(plain_class(text[i]) == class);
    }
    lemma_whole_run(letters, class);
    assert(letters.take(letters.len() as int) =~= letters);
    assert(letters.skip(letters.len() as int) =~= Seq::<Letter>::empty());
    assert(spelled(letters) =~= text);
    assert(tokens(Seq::empty()) =~= Seq::empty());
    assert(tokens(letters) =~= if class == CharClass::Word {
        seq![text]
    } else {
        bigrams(text)
    });
}

proof fn lemma_whole_run(letters: Seq<Letter>, class: CharClass)
    requires
        forall|i: int| 0 <= i < letters.len() ==> (#[trigger] letters[i]).class == class,
    ensures
        run_len(letters, class) == letters.len(),
    decreases letters.len(),
{
    if letters.len() > 0 {
        assert forall|i: int| 0 <= i < letters.skip(1).len() implies (
        #[trigger] letters.skip(1)[i]).class == class by {
            assert(letters.skip(1)[i] == letters[i + 1]);
        }
        lemma_whole_run(letters.skip(1), class);
        assert(letters[0].class == class);
    }
}

/// Han characters are those of the unified blocks and their extensions.
pub proof fn law_han_blocks_are_listed(c: char, r: bool)
    requires
        call_ensures(is_han, (c,), r),
    ensures
        '\u{4e00}' <= c <= '\u{9fff}' ==> r,
        '\u{3400}' <= c <= '\u{4dbf}' ==> r,
        '\u{f900}' <= c <= '\u{faff}' ==> r,
        '\u{20000}' <= c <= '\u{2fa1f}' ==> r,
        c < '\u{3400}' || c > '\u{2fa1f}' || '\u{a000}' <= c < '\u{f900}' ==> !r,
{
}

} // verus!
