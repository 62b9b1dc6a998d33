//! Bounded deterministic lexical tokenization shared by note and memory
//! retrieval.

use unicode_normalization::UnicodeNormalization;
use vstd::prelude::*;

use crate::text::{ascii_lower, ascii_lowered, chars_of, join, joined, text_eq, text_of, texts};

pub mod laws;

verus! {

/// Unicode Normalization Form KC of a text, as the normalization crate
/// computes it.
pub uninterp spec fn nfkc_form(text: Seq<char>) -> Seq<char>;

/// Lower-case form of one character, as the standard library computes it.
pub uninterp spec fn char_lowercase(c: char) -> Seq<char>;

/// Whether the standard library counts a character as alphanumeric.
pub uninterp spec fn char_alphanumeric(c: char) -> bool;

/// Whether a character is ASCII or lies in the main block of unified ideographs.
pub open spec fn plain_char(c: char) -> bool {
    c as u32 <= 0x7f || unified(c)
}

/// Whether a character lies in the main block of unified ideographs.
pub open spec fn unified(c: char) -> bool {
    0x4e00 <= c as u32 <= 0x9fff
}

/// Whether every character of a text is plain.
pub open spec fn plain_text(text: Seq<char>) -> bool {
    forall|i: int| 0 <= i < text.len() ==> plain_char(#[trigger] text[i])
}

/// `UnicodeNormalization::nfkc`: the characters of Normalization Form KC, in
/// order. Plain characters have no decomposition and no two of them compose, so
/// a plain text stays as it is. A space neither decomposes nor composes with
/// what stands before or behind it, so the texts on its two sides are normalized
/// each for itself.
#[verifier::external_body]
fn nfkc(text: &str) -> (r: String)
    ensures
        r@ == nfkc_form(text@),
        plain_text(text@) ==> r@ == text@,
        forall|a: Seq<char>, b: Seq<char>|
            text@ == #[trigger] (a + " "@ + b) ==> r@ == nfkc_form(a) + " "@ + nfkc_form(b),
{
    text.nfkc().collect::<String>()
}

/// `char::to_lowercase`: the lower-case form of one character. A letter of ASCII
/// has one, every other plain character yields itself.
#[verifier::external_body]
pub(crate) fn lowercase(c: char) -> (r: Vec<char>)
    ensures
        r@ == char_lowercase(c),
        plain_char(c) ==> r@ == seq![ascii_lower(c)],
{
    c.to_lowercase().collect::<Vec<char>>()
}

/// `char::is_alphanumeric`: of the plain characters, the digits and letters of
/// ASCII and the unified ideographs.
#[verifier::external_body]
fn is_alphanumeric(c: char) -> (r: bool)
    ensures
        r == char_alphanumeric(c),
        plain_char(c) ==> r == ('0' <= c <= '9' || 'A' <= c <= 'Z' || 'a' <= c <= 'z' || unified(c)),
{
    c.is_alphanumeric()
}

/// Lower-case forms of all characters, concatenated.
pub open spec fn lowercased(text: Seq<char>) -> Seq<char>
    decreases text.len(),
{
    if text.len() == 0 {
        Seq::empty()
    } else {
        lowercased(text.drop_last()) + char_lowercase(text.last())
    }
}

proof fn lemma_lowercased_parts(a: Seq<char>, b: Seq<char>)
    ensures
        lowercased(a + b) == lowercased(a) + lowercased(b),
    decreases b.len(),
{
    if b.len() == 0 {
        assert(a + b =~= a);
        assert(lowercased(a) + lowercased(b) =~= lowercased(a));
    } else {
        lemma_lowercased_parts(a, b.drop_last());
        assert((a + b).drop_last() =~= a + b.drop_last());
        assert(lowercased(a + b) =~= lowercased(a) + lowercased(b));
    }
}

proof fn lemma_lowercased_plain(text: Seq<char>)
    requires
        forall|i: int|
            0 <= i < text.len() ==> char_lowercase(#[trigger] text[i]) == seq![ascii_lower(text[i])],
    ensures
        lowercased(text) == ascii_lowered(text),
    decreases text.len(),
{
    let lower = ascii_lowered(text);
    if text.len() == 0 {
        assert(lower =~= Seq::empty());
    } else {
        let shorter = text.drop_last();
        assert forall|i: int| 0 <= i < shorter.len() implies char_lowercase(#[trigger] shorter[i])
            == seq![ascii_lower(shorter[i])] by {
            assert(shorter[i] == text[i]);
        }
        lemma_lowercased_plain(shorter);
        assert(char_lowercase(text[text.len() - 1]) == seq![ascii_lower(text[text.len() - 1])]);
        assert(lowercased(text) =~= lower);
    }
}

/// Lower-cases a text character by character.
pub fn lowercase_chars(text: &str) -> (r: String)
    ensures
        r@ == lowercased(text@),
        plain_text(text@) ==> r@ == ascii_lowered(text@),
        forall|a: Seq<char>, b: Seq<char>|
            text@ == #[trigger] (a + " "@ + b) ==> r@ == lowercased(a) + " "@ + lowercased(b),
{
    let chars = chars_of(text);
    let mut out: Vec<char> = Vec::new();
    let mut i: usize = 0;
    while i < chars.len()
        invariant
            i <= chars@.len(),
            out@ == lowercased(chars@.take(i as int)),
            forall|k: int|
                0 <= k < i && plain_char(#[trigger] chars@[k]) ==> char_lowercase(chars@[k])
                    == seq![ascii_lower(chars@[k])],
        decreases chars@.len() - i,
    {
        let mut folded = lowercase(chars[i]);
        out.append(&mut folded);
        assert(chars@.take(i + 1).drop_last() =~= chars@.take(i as int));
        i += 1;
    }
    assert(chars@.take(chars@.len() as int) =~= chars@);
    assert(out@.subrange(0, out@.len() as int) =~= out@);
    proof {
        if plain_text(text@) {
            lemma_lowercased_plain(text@);
        }
        assert forall|a: Seq<char>, b: Seq<char>| text@ == #[trigger] (a + " "@ + b) implies out@
            == lowercased(a) + " "@ + lowercased(b) by {
            reveal_strlit(" ");
            assert(chars@[a.len() as int] == ' ');
            lemma_lowercased_parts(a + " "@, b);
            lemma_lowercased_parts(a, " "@);
            assert(" "@.drop_last() =~= Seq::empty());
            assert(lowercased(Seq::empty()) =~= Seq::empty());
            assert(lowercased(" "@) =~= " "@);
        }
    }
    text_of(out.as_slice(), 0, out.len())
}

/// Ideographs that are written without spaces between words.
pub open spec fn han(c: char) -> bool {
    let code = c as u32;
    ||| 0x3400 <= code <= 0x4dbf
    ||| 0x4e00 <= code <= 0x9fff
    ||| 0xf900 <= code <= 0xfaff
    ||| 0x20000 <= code <= 0x2fa1f
}

/// Decides [`han`].
pub fn is_han(value: char) -> (r: bool)
    ensures
        r == han(value),
{
    let code: u32 = value as u32;
    (0x3400 <= code && code <= 0x4dbf) || (0x4e00 <= code && code <= 0x9fff) || (0xf900 <= code
        && code <= 0xfaff) || (0x20000 <= code && code <= 0x2fa1f)
}

/// How a character takes part in tokens.
#[derive(Clone, Copy, Debug, PartialEq, Eq, Structural)]
pub enum CharClass {
    /// Part of a run of ideographs.
    Han,
    /// Part of a whole word.
    Word,
    /// Separates tokens.
    Separator,
}

/// Class of a character: only alphanumeric ones take part in tokens.
pub open spec fn class_of(c: char) -> CharClass {
    if c == ' ' || !char_alphanumeric(c) {
        CharClass::Separator
    } else if han(c) {
        CharClass::Han
    } else {
        CharClass::Word
    }
}

fn classify(c: char) -> (class: CharClass)
    ensures
        class == class_of(c),
        plain_char(c) && ascii_lower(c) == c ==> class == plain_class(c),
{
    if c == ' ' || !is_alphanumeric(c) {
        CharClass::Separator
    } else if is_han(c) {
        CharClass::Han
    } else {
        CharClass::Word
    }
}

/// A character with its class.
#[derive(Clone, Copy, Debug, PartialEq, Eq, Structural)]
pub struct Letter {
    pub value: char,
    pub class: CharClass,
}

/// A text with the classes that its characters have in an alphabet.
pub open spec fn read_by(text: Seq<char>, alphabet: Alphabet) -> Seq<Letter> {
    text.map_values(|c: char| alphabet.letter(c))
}

/// The letters of a text.
pub open spec fn letters(text: Seq<char>) -> Seq<Letter> {
    read_by(text, Alphabet::Every)
}

/// Class of a plain lower-case character.
pub open spec fn plain_class(c: char) -> CharClass {
    if unified(c) {
        CharClass::Han
    } else if '0' <= c <= '9' || 'a' <= c <= 'z' {
        CharClass::Word
    } else {
        CharClass::Separator
    }
}

/// Which characters a text is known to hold.
#[derive(Clone, Copy, PartialEq, Eq, Structural)]
pub enum Alphabet {
    /// Any character.
    Every,
    /// Plain lower-case characters.
    Plain,
}

impl Alphabet {
    /// Class of a character.
    pub open spec fn class(self, c: char) -> CharClass {
        match self {
            Alphabet::Every => class_of(c),
            Alphabet::Plain => plain_class(c),
        }
    }

    /// The letter that a character is.
    pub open spec fn letter(self, c: char) -> Letter {
        Letter { value: c, class: self.class(c) }
    }
}

/// The characters of letters.
pub open spec fn spelled(letters: Seq<Letter>) -> Seq<char> {
    letters.map_values(|letter: Letter| letter.value)
}

/// Length of the longest prefix whose letters all have one class.
pub open spec fn run_len(text: Seq<Letter>, class: CharClass) -> nat
    decreases text.len(),
{
    if text.len() > 0 && text[0].class == class {
        1 + run_len(text.skip(1), class)
    } else {
        0
    }
}

/// A run is no longer than its text.
pub proof fn lemma_run_len_bounded(text: Seq<Letter>, class: CharClass)
    ensures
        run_len(text, class) <= text.len(),
    decreases text.len(),
{
    if text.len() > 0 && text[0].class == class {
        lemma_run_len_bounded(text.skip(1), class);
    }
}

/// Overlapping pairs of neighbouring characters.
pub open spec fn bigrams(run: Seq<char>) -> Seq<Seq<char>> {
    Seq::new((run.len() - 1) as nat, |i: int| run.subrange(i, i + 2))
}

/// Tokens of one run: a word of at least two characters stays whole, a lone
/// ideograph stands for itself and longer ideograph runs become bigrams.
pub open spec fn run_tokens(run: Seq<char>, class: CharClass) -> Seq<Seq<char>> {
    match class {
        CharClass::Separator => Seq::empty(),
        CharClass::Word => if run.len() >= 2 {
            seq![run]
        } else {
            Seq::empty()
        },
        CharClass::Han => if run.len() == 1 {
            seq![run]
        } else if run.len() >= 2 {
            bigrams(run)
        } else {
            Seq::empty()
        },
    }
}

/// Tokens of a text, run by run.
pub open spec fn tokens(text: Seq<Letter>) -> Seq<Seq<char>>
    decreases text.len(),
{
    if text.len() == 0 {
        Seq::empty()
    } else {
        let class = text[0].class;
        let n = run_len(text, class) as int;
        proof {
            lemma_run_len_bounded(text, class);
        }
        run_tokens(spelled(text.take(n)), class) + tokens(text.skip(n))
    }
}

/// Tokens of several texts, one text after the other.
pub open spec fn all_tokens(values: Seq<Seq<Letter>>) -> Seq<Seq<char>>
    decreases values.len(),
{
    if values.len() == 0 {
        Seq::empty()
    } else {
        all_tokens(values.drop_last()) + tokens(values.last())
    }
}

/// Words that carry no meaning of their own in a query.
pub open spec fn stop_word(term: Seq<char>) -> bool {
    ||| term == "a"@
    ||| term == "an"@
    ||| term == "and"@
    ||| term == "are"@
    ||| term == "did"@
    ||| term == "do"@
    ||| term == "does"@
    ||| term == "for"@
    ||| term == "how"@
    ||| term == "in"@
    ||| term == "is"@
    ||| term == "of"@
    ||| term == "on"@
    ||| term == "or"@
    ||| term == "please"@
    ||| term == "the"@
    ||| term == "to"@
    ||| term == "what"@
    ||| term == "when"@
    ||| term == "where"@
    ||| term == "which"@
    ||| term == "who"@
    ||| term == "why"@
    ||| term == "with"@
    ||| term == "什么"@
    ||| term == "为何"@
    ||| term == "为什么"@
    ||| term == "如何"@
    ||| term == "怎么"@
    ||| term == "是否"@
    ||| term == "这个"@
    ||| term == "那个"@
    ||| term == "请问"@
}

/// Decides [`stop_word`].
pub fn is_stop_word(term: &str) -> (r: bool)
    ensures
        r == stop_word(term@),
{
    text_eq(term, "a") || text_eq(term, "an") || text_eq(term, "and") || text_eq(term, "are")
        || text_eq(term, "did") || text_eq(term, "do") || text_eq(term, "does") || text_eq(
        term,
        "for",
    ) || text_eq(term, "how") || text_eq(term, "in") || text_eq(term, "is") || text_eq(term, "of")
        || text_eq(term, "on") || text_eq(term, "or") || text_eq(term, "please") || text_eq(
        term,
        "the",
    ) || text_eq(term, "to") || text_eq(term, "what") || text_eq(term, "when") || text_eq(
        term,
        "where",
    ) || text_eq(term, "which") || text_eq(term, "who") || text_eq(term, "why") || text_eq(
        term,
        "with",
    ) || text_eq(term, "什么") || text_eq(term, "为何") || text_eq(term, "为什么") || text_eq(
        term,
        "如何",
    ) || text_eq(term, "怎么") || text_eq(term, "是否") || text_eq(term, "这个") || text_eq(
        term,
        "那个",
    ) || text_eq(term, "请问")
}

/// The first `limit` distinct tokens that are not stop words, in order.
pub open spec fn collected(tokens: Seq<Seq<char>>, limit: nat) -> Seq<Seq<char>>
    decreases tokens.len(),
{
    if tokens.len() == 0 {
        Seq::empty()
    } else {
        let earlier = collected(tokens.drop_last(), limit);
        let token = tokens.last();
        if !stop_word(token) && !earlier.contains(token) && earlier.len() < limit {
            earlier.push(token)
        } else {
            earlier
        }
    }
}

/// Search terms of texts.
pub open spec fn search_terms(values: Seq<Seq<Letter>>, limit: nat) -> Seq<Seq<char>> {
    collected(all_tokens(values), limit)
}

/// Texts with the classes that their characters have in an alphabet.
pub open spec fn spellings_by(values: Seq<Seq<char>>, alphabet: Alphabet) -> Seq<
    Seq<Letter>,
> {
    values.map_values(|value: Seq<char>| read_by(value, alphabet))
}

/// The letters of normalized texts.
pub open spec fn spellings(values: Seq<Seq<char>>) -> Seq<Seq<Letter>> {
    spellings_by(values, Alphabet::Every)
}

/// The normalized form that tokens are taken from.
pub open spec fn normalized(value: Seq<char>) -> Seq<char> {
    lowercased(nfkc_form(value))
}

/// No term occurs twice among the collected ones, at most `limit` are kept,
/// none is a stop word and each is one of the tokens.
pub proof fn law_terms_deduplicated_and_bounded(tokens: Seq<Seq<char>>, limit: nat)
    ensures
        collected(tokens, limit).len() <= limit,
        collected(tokens, limit).no_duplicates(),
        forall|i: int|
            0 <= i < collected(tokens, limit).len() ==> !stop_word(
                #[trigger] collected(tokens, limit)[i],
            ) && tokens.contains(collected(tokens, limit)[i]),
    decreases tokens.len(),
{
    if tokens.len() > 0 {
        law_terms_deduplicated_and_bounded(tokens.drop_last(), limit);
        let earlier = collected(tokens.drop_last(), limit);
        assert forall|i: int| 0 <= i < collected(tokens, limit).len() implies tokens.contains(
            #[trigger] collected(tokens, limit)[i],
        ) by {
            if i < earlier.len() {
                assert(tokens.drop_last().contains(earlier[i]));
                let k = choose|k: int|
                    0 <= k < tokens.drop_last().len() && tokens.drop_last()[k] == earlier[i];
                assert(tokens[k] == earlier[i]);
            } else {
                assert(tokens[tokens.len() - 1] == tokens.last());
            }
        }
    }
}

proof fn lemma_collected_full(head: Seq<Seq<char>>, tail: Seq<Seq<char>>, limit: nat)
    requires
        collected(head, limit).len() >= limit,
    ensures
        collected(head + tail, limit) == collected(head, limit),
    decreases tail.len(),
{
    if tail.len() == 0 {
        assert(head + tail =~= head);
    } else {
        lemma_collected_full(head, tail.drop_last(), limit);
        assert((head + tail).drop_last() =~= head + tail.drop_last());
    }
}

/// Every character of a token is alphanumeric.
pub open spec fn token_chars(token: Seq<char>) -> bool {
    forall|i: int| 0 <= i < token.len() ==> #[trigger] char_alphanumeric(token[i])
}

/// No character of a token separates tokens.
pub open spec fn unbroken(token: Seq<char>, alphabet: Alphabet) -> bool {
    forall|i: int| 0 <= i < token.len() ==> alphabet.class(#[trigger] token[i]) != CharClass::Separator
}

proof fn lemma_run_prefix(text: Seq<Letter>, class: CharClass)
    ensures
        forall|i: int| 0 <= i < run_len(text, class) ==> (#[trigger] text[i]).class == class,
        run_len(text, class) <= text.len(),
        run_len(text, class) < text.len() ==> text[run_len(text, class) as int].class != class,
    decreases text.len(),
{
    if text.len() > 0 && text[0].class == class {
        lemma_run_prefix(text.skip(1), class);
        assert forall|i: int| 0 <= i < run_len(text, class) implies (#[trigger] text[i]).class
            == class by {
            if i > 0 {
                assert(text.skip(1)[i - 1] == text[i]);
            }
        }
    }
}

/// A token stands for itself: taken alone, it is the one token of its text.
pub open spec fn whole(token: Seq<char>, alphabet: Alphabet) -> bool {
    tokens(read_by(token, alphabet)) == seq![token]
}

/// The tokens of a text of one class are those of one run.
proof fn lemma_uniform(text: Seq<char>, class: CharClass, alphabet: Alphabet)
    requires
        text.len() > 0,
        forall|i: int| 0 <= i < text.len() ==> alphabet.class(#[trigger] text[i]) == class,
    ensures
        tokens(read_by(text, alphabet)) == run_tokens(text, class),
{
    let all = read_by(text, alphabet);
    assert(alphabet.class(text[0]) == class);
    lemma_run_prefix(all, class);
    let n = run_len(all, class) as int;
    if n < text.len() {
        assert(all[n].class == alphabet.class(text[n]));
    }
    assert(spelled(all.take(n)) =~= text);
    assert(all.skip(n) =~= Seq::empty());
    assert(tokens(Seq::empty()) =~= Seq::empty());
    assert(tokens(all) =~= run_tokens(text, class));
}

/// Each token of a run is unbroken and stands for itself.
proof fn lemma_run_tokens(
    run: Seq<char>,
    class: CharClass,
    alphabet: Alphabet,
    i: int,
)
    requires
        forall|k: int| 0 <= k < run.len() ==> alphabet.class(#[trigger] run[k]) == class,
        0 <= i < run_tokens(run, class).len(),
    ensures
        unbroken(run_tokens(run, class)[i], alphabet),
        whole(run_tokens(run, class)[i], alphabet),
{
    let token = run_tokens(run, class)[i];
    if class == CharClass::Han && run.len() >= 2 {
        assert(token[0] == run[i] && token[1] == run[i + 1]);
        assert(bigrams(token) =~= seq![token]) by {
            assert(token.subrange(0, 2) =~= token);
        }
    }
    assert forall|k: int| 0 <= k < token.len() implies alphabet.class(#[trigger] token[k]) == class by {
        if class == CharClass::Han && run.len() >= 2 {
            assert(token[k] == run[i + k]);
        } else {
            assert(token[k] == run[k]);
        }
    }
    lemma_uniform(token, class, alphabet);
}

/// Tokens are unbroken, and each stands for itself.
proof fn lemma_tokens_searchable(text: Seq<char>, alphabet: Alphabet)
    ensures
        forall|i: int|
            0 <= i < tokens(read_by(text, alphabet)).len() ==> unbroken(
                #[trigger] tokens(read_by(text, alphabet))[i],
                alphabet,
            ) && whole(tokens(read_by(text, alphabet))[i], alphabet),
    decreases text.len(),
{
    if text.len() > 0 {
        let all = read_by(text, alphabet);
        let class = all[0].class;
        let n = run_len(all, class) as int;
        lemma_run_prefix(all, class);
        lemma_tokens_searchable(text.skip(n), alphabet);
        assert(read_by(text.skip(n), alphabet) =~= all.skip(n));
        let run = spelled(all.take(n));
        assert(run =~= text.take(n));
        assert forall|k: int| 0 <= k < run.len() implies alphabet.class(#[trigger] run[k]) == class by {
            assert(all[k].class == class);
        }
        let first = run_tokens(run, class);
        assert forall|i: int| 0 <= i < tokens(all).len() implies unbroken(
            #[trigger] tokens(all)[i],
            alphabet,
        ) && whole(tokens(all)[i], alphabet) by {
            if i < first.len() {
                assert(tokens(all)[i] == first[i]);
                lemma_run_tokens(run, class, alphabet, i);
            } else {
                assert(tokens(all)[i] == tokens(all.skip(n))[i - first.len()]);
            }
        }
    }
}

/// Tokens hold only alphanumeric characters, and each stands for itself.
pub proof fn law_tokens_are_searchable(text: Seq<char>)
    ensures
        forall|i: int|
            0 <= i < tokens(letters(text)).len() ==> token_chars(
                #[trigger] tokens(letters(text))[i],
            ) && whole(tokens(letters(text))[i], Alphabet::Every),
{
    lemma_tokens_searchable(text, Alphabet::Every);
    assert forall|i: int| 0 <= i < tokens(letters(text)).len() implies token_chars(
        #[trigger] tokens(letters(text))[i],
    ) by {
        lemma_unbroken_chars(tokens(letters(text))[i]);
    }
}

proof fn lemma_unbroken_chars(token: Seq<char>)
    requires
        unbroken(token, Alphabet::Every),
    ensures
        token_chars(token),
{
    assert forall|k: int| 0 <= k < token.len() implies #[trigger] char_alphanumeric(token[k]) by {
        assert(Alphabet::Every.class(token[k]) != CharClass::Separator);
    }
}

fn has_term(terms: &Vec<String>, term: &str) -> (r: bool)
    ensures
        r == texts(terms@).contains(term@),
{
    let mut i: usize = 0;
    while i < terms.len()
        invariant
            i <= terms@.len(),
            forall|k: int| 0 <= k < i ==> #[trigger] texts(terms@)[k] != term@,
        decreases terms@.len() - i,
    {
        if text_eq(terms[i].as_str(), term) {
            assert(texts(terms@)[i as int] == term@);
            return true;
        }
        i += 1;
    }
    false
}

fn push_term(terms: &mut Vec<String>, term: String, limit: usize, Ghost(seen): Ghost<Seq<Seq<char>>>)
    requires
        texts(old(terms)@) == collected(seen, limit as nat),
    ensures
        texts(final(terms)@) == collected(seen.push(term@), limit as nat),
{
    proof {
        assert(seen.push(term@).drop_last() =~= seen);
    }
    if terms.len() < limit && !is_stop_word(term.as_str()) && !has_term(terms, term.as_str()) {
        let ghost before = texts(terms@);
        let ghost view = term@;
        terms.push(term);
        assert(texts(terms@) =~= before.push(view));
    }
}

fn flush_run(
    terms: &mut Vec<String>,
    chars: &Vec<char>,
    from: usize,
    to: usize,
    class: CharClass,
    limit: usize,
    Ghost(seen): Ghost<Seq<Seq<char>>>,
)
    requires
        from <= to <= chars@.len(),
        texts(old(terms)@) == collected(seen, limit as nat),
    ensures
        texts(final(terms)@) == collected(
            seen + run_tokens(chars@.subrange(from as int, to as int), class),
            limit as nat,
        ),
{
    let ghost run = chars@.subrange(from as int, to as int);
    let n: usize = to - from;
    match class {
        CharClass::Separator => {
            assert(seen + run_tokens(run, class) =~= seen);
        },
        CharClass::Word => {
            if n >= 2 {
                let word = text_of(chars.as_slice(), from, to);
                push_term(terms, word, limit, Ghost(seen));
                assert(seen + run_tokens(run, class) =~= seen.push(run));
            } else {
                assert(seen + run_tokens(run, class) =~= seen);
            }
        },
        CharClass::Han => {
            if n == 1 {
                let single = text_of(chars.as_slice(), from, to);
                push_term(terms, single, limit, Ghost(seen));
                assert(seen + run_tokens(run, class) =~= seen.push(run));
            } else if n >= 2 {
                let ghost pairs = bigrams(run);
                let mut i: usize = 0;
                assert(seen + pairs.take(0) =~= seen);
                while i < n - 1
                    invariant
                        from + n == to,
                        to <= chars@.len(),
                        n >= 2,
                        i <= n - 1,
                        run == chars@.subrange(from as int, to as int),
                        pairs == bigrams(run),
                        texts(terms@) == collected(seen + pairs.take(i as int), limit as nat),
                    decreases n - i,
                {
                    let pair = text_of(chars.as_slice(), from + i, from + i + 2);
                    assert(pair@ =~= pairs[i as int]);
                    push_term(terms, pair, limit, Ghost(seen + pairs.take(i as int)));
                    assert((seen + pairs.take(i as int)).push(pairs[i as int]) =~= seen
                        + pairs.take(i + 1));
                    i += 1;
                }
                assert(pairs.take(n - 1) =~= pairs);
            } else {
                assert(seen + run_tokens(run, class) =~= seen);
            }
        },
    }
}

proof fn lemma_tokens_step(text: Seq<Letter>, from: int, to: int, class: CharClass)
    requires
        0 <= from < to <= text.len(),
        forall|i: int| from <= i < to ==> (#[trigger] text[i]).class == class,
        to < text.len() ==> text[to].class != class,
    ensures
        tokens(text.skip(from)) == run_tokens(spelled(text).subrange(from, to), class) + tokens(
            text.skip(to),
        ),
{
    let rest = text.skip(from);
    let n = run_len(rest, class) as int;
    lemma_run_prefix(rest, class);
    assert(rest[0] == text[from]);
    if n < to - from {
        assert(rest[n] == text[from + n]);
    }
    if n > to - from {
        assert(rest[to - from] == text[to]);
    }
    assert(spelled(rest.take(n)) =~= spelled(text).subrange(from, to));
    assert(rest.skip(n) =~= text.skip(to));
}

fn spell(text: &[Letter]) -> (r: Vec<char>)
    ensures
        r@ == spelled(text@),
{
    let mut out: Vec<char> = Vec::new();
    let mut i: usize = 0;
    while i < text.len()
        invariant
            i <= text@.len(),
            out@ == spelled(text@.take(i as int)),
        decreases text@.len() - i,
    {
        out.push(text[i].value);
        i += 1;
        assert(out@ =~= spelled(text@.take(i as int)));
    }
    assert(text@.take(i as int) =~= text@);
    out
}

fn collect_terms(
    terms: &mut Vec<String>,
    text: &[Letter],
    limit: usize,
    Ghost(seen): Ghost<Seq<Seq<char>>>,
)
    requires
        texts(old(terms)@) == collected(seen, limit as nat),
    ensures
        texts(final(terms)@) == collected(seen + tokens(text@), limit as nat),
{
    let chars = spell(text);
    let mut from: usize = 0;
    let ghost mut done: Seq<Seq<char>> = Seq::empty();
    assert(text@.skip(0) =~= text@);
    assert(done + tokens(text@) =~= tokens(text@));
    assert(seen + done =~= seen);
    while from < text.len() && terms.len() < limit
        invariant
            from <= text@.len(),
            chars@ == spelled(text@),
            tokens(text@) == done + tokens(text@.skip(from as int)),
            texts(terms@) == collected(seen + done, limit as nat),
        decreases text@.len() - from,
    {
        let class = text[from].class;
        let mut to: usize = from + 1;
        while to < text.len() && text[to].class == class
            invariant
                from < to <= text@.len(),
                forall|i: int| from <= i < to ==> (#[trigger] text@[i]).class == class,
            decreases text@.len() - to,
        {
            to += 1;
        }
        flush_run(terms, &chars, from, to, class, limit, Ghost(seen + done));
        proof {
            lemma_tokens_step(text@, from as int, to as int, class);
            let run = run_tokens(chars@.subrange(from as int, to as int), class);
            assert(done + (run + tokens(text@.skip(to as int))) =~= (done + run) + tokens(
                text@.skip(to as int),
            ));
            assert((seen + done) + run =~= seen + (done + run));
            done = done + run;
        }
        from = to;
    }
    proof {
        let rest = tokens(text@.skip(from as int));
        assert(seen + tokens(text@) =~= (seen + done) + rest);
        if from < text@.len() {
            lemma_collected_full(seen + done, rest, limit as nat);
        } else {
            assert(rest =~= Seq::empty());
            assert((seen + done) + rest =~= seen + done);
        }
    }
}

/// Views of classified texts.
pub open spec fn letter_texts(values: Seq<Vec<Letter>>) -> Seq<Seq<Letter>> {
    values.map_values(|value: Vec<Letter>| value@)
}

/// Search terms of normalized texts whose characters are already classified,
/// joined by spaces.
pub fn classified_search_terms(values: &[Vec<Letter>], limit: usize) -> (r: String)
    ensures
        r@ == joined(search_terms(letter_texts(values@), limit as nat), " "@),
{
    let mut terms: Vec<String> = Vec::new();
    let mut i: usize = 0;
    let ghost views = letter_texts(values@);
    assert(views.take(0) =~= Seq::empty());
    assert(texts(terms@) =~= Seq::empty());
    while i < values.len()
        invariant
            i <= values@.len(),
            views == letter_texts(values@),
            texts(terms@) == search_terms(views.take(i as int), limit as nat),
        decreases values@.len() - i,
    {
        let ghost before = all_tokens(views.take(i as int));
        collect_terms(&mut terms, values[i].as_slice(), limit, Ghost(before));
        assert(views.take(i + 1).drop_last() =~= views.take(i as int));
        assert(views.take(i + 1).last() == values@[i as int]@);
        i += 1;
    }
    assert(views.take(values@.len() as int) =~= views);
    join(terms.as_slice(), " ")
}

fn read_letters(value: &str) -> (r: Vec<Letter>)
    ensures
        r@ == letters(value@),
        forall|k: int|
            0 <= k < value@.len() && plain_char(#[trigger] value@[k]) && ascii_lower(value@[k])
                == value@[k] ==> class_of(value@[k]) == plain_class(value@[k]),
{
    let chars = chars_of(value);
    let mut out: Vec<Letter> = Vec::new();
    let mut i: usize = 0;
    while i < chars.len()
        invariant
            i <= chars@.len(),
            out@ == letters(chars@.take(i as int)),
            forall|k: int|
                0 <= k < i && plain_char(#[trigger] chars@[k]) && ascii_lower(chars@[k])
                    == chars@[k] ==> class_of(chars@[k]) == plain_class(chars@[k]),
        decreases chars@.len() - i,
    {
        let value = chars[i];
        let class = classify(value);
        assert(Alphabet::Every.letter(value) == Letter { value, class });
        out.push(Letter { value, class });
        i += 1;
        assert(out@ =~= letters(chars@.take(i as int)));
    }
    assert(chars@.take(i as int) =~= chars@);
    out
}

/// Whether a text holds only plain characters, none of them an upper-case letter.
pub open spec fn plain_lower_text(text: Seq<char>) -> bool {
    forall|i: int|
        0 <= i < text.len() ==> plain_char(#[trigger] text[i]) && ascii_lower(text[i]) == text[i]
}

/// Search terms of texts that are already normalized, joined by spaces.
pub fn normalized_search_terms(values: &[String], limit: usize) -> (r: String)
    ensures
        r@ == joined(search_terms(spellings(texts(values@)), limit as nat), " "@),
        (forall|i: int| 0 <= i < values@.len() ==> plain_lower_text(#[trigger] values@[i]@)) ==> r@
            == joined(search_terms(spellings_by(texts(values@), Alphabet::Plain), limit as nat), " "@),
{
    let mut read: Vec<Vec<Letter>> = Vec::new();
    let mut i: usize = 0;
    while i < values.len()
        invariant
            i <= values@.len(),
            read@.len() == i,
            forall|k: int| 0 <= k < i ==> (#[trigger] read@[k])@ == letters(values@[k]@),
            forall|k: int|
                0 <= k < i && plain_lower_text(#[trigger] values@[k]@) ==> read@[k]@ == read_by(
                    values@[k]@,
                    Alphabet::Plain,
                ),
        decreases values@.len() - i,
    {
        let value = read_letters(values[i].as_str());
        proof {
            let text = values@[i as int]@;
            if plain_lower_text(text) {
                assert forall|k: int| 0 <= k < text.len() implies class_of(#[trigger] text[k])
                    == plain_class(text[k]) by {
                    assert(plain_char(text[k]) && ascii_lower(text[k]) == text[k]);
                }
                assert(value@ =~= read_by(text, Alphabet::Plain));
            }
        }
        read.push(value);
        i += 1;
    }
    assert(letter_texts(read@) =~= spellings(texts(values@)));
    proof {
        if forall|i: int| 0 <= i < values@.len() ==> plain_lower_text(#[trigger] values@[i]@) {
            assert(letter_texts(read@) =~= spellings_by(texts(values@), Alphabet::Plain));
        }
    }
    classified_search_terms(read.as_slice(), limit)
}

/// Bounded lexical terms of raw texts, joined by spaces.
pub open spec fn memory_terms(values: Seq<Seq<char>>, limit: nat) -> Seq<char> {
    joined(
        search_terms(
            spellings(values.map_values(|value: Seq<char>| normalized(value))),
            limit,
        ),
        " "@,
    )
}

/// Bounded lexical terms of plain raw texts, joined by spaces.
pub open spec fn plain_terms(values: Seq<Seq<char>>, limit: nat) -> Seq<char> {
    joined(
        search_terms(
            spellings_by(
                values.map_values(|value: Seq<char>| ascii_lowered(value)),
                Alphabet::Plain,
            ),
            limit,
        ),
        " "@,
    )
}

/// Build bounded deterministic lexical terms for memory search and recall
/// queries.
///
/// Latin and digit runs remain whole tokens. Contiguous Han text emits
/// overlapping bigrams so an unspaced paraphrase can share useful local terms.
/// The result holds only alphanumeric characters and spaces. No token spans two
/// texts: one text with a space in it gives what the texts on the two sides of
/// the space give.
pub fn memory_search_terms(values: &[&str], limit: usize) -> (r: String)
    ensures
        r@ == memory_terms(values@.map_values(|value: &str| value@), limit as nat),
        quotable(r@),
        (forall|i: int| 0 <= i < values@.len() ==> plain_text((#[trigger] values@[i])@)) ==> r@
            == plain_terms(values@.map_values(|value: &str| value@), limit as nat),
        forall|x: Seq<char>, y: Seq<char>|
            values@.len() == 1 && values@[0]@ == #[trigger] (x + " "@ + y) ==> r@ == memory_terms(
                seq![x, y],
                limit as nat,
            ),
{
    let mut folded: Vec<String> = Vec::new();
    let mut i: usize = 0;
    while i < values.len()
        invariant
            i <= values@.len(),
            folded@.len() == i,
            forall|k: int| 0 <= k < i ==> #[trigger] folded@[k]@ == normalized(values@[k]@),
            forall|k: int|
                0 <= k < i && plain_text((#[trigger] values@[k])@) ==> folded@[k]@ == ascii_lowered(
                    values@[k]@,
                ),
            i > 0 ==> forall|x: Seq<char>, y: Seq<char>|
                values@[0]@ == #[trigger] (x + " "@ + y) ==> normalized(x + " "@ + y)
                    == normalized(x) + " "@ + normalized(y),
        decreases values@.len() - i,
    {
        let composed = nfkc(values[i]);
        let lower = lowercase_chars(composed.as_str());
        proof {
            assert forall|x: Seq<char>, y: Seq<char>|
                values@[i as int]@ == #[trigger] (x + " "@ + y) implies normalized(x + " "@ + y)
                == normalized(x) + " "@ + normalized(y) by {
                assert(composed@ == nfkc_form(x) + " "@ + nfkc_form(y));
            }
        }
        folded.push(lower);
        i += 1;
    }
    assert(texts(folded@) =~= values@.map_values(|value: &str| value@).map_values(
        |value: Seq<char>| normalized(value),
    ));
    proof {
        let raw = values@.map_values(|value: &str| value@);
        law_terms_are_quotable(raw, limit as nat);
        if forall|i: int| 0 <= i < values@.len() ==> plain_text((#[trigger] values@[i])@) {
            assert forall|i: int| 0 <= i < folded@.len() implies plain_lower_text(
                #[trigger] folded@[i]@,
            ) by {
                assert(plain_text(values@[i]@));
                lemma_plain_lowered(values@[i]@);
            }
            assert(texts(folded@) =~= raw.map_values(|value: Seq<char>| ascii_lowered(value))) by {
                assert forall|i: int| 0 <= i < folded@.len() implies #[trigger] folded@[i]@
                    == ascii_lowered(raw[i]) by {
                    assert(plain_text(values@[i]@));
                }
            }
        }
        assert forall|x: Seq<char>, y: Seq<char>|
            values@.len() == 1 && values@[0]@ == #[trigger] (x + " "@ + y) implies memory_terms(
            raw,
            limit as nat,
        ) == memory_terms(seq![x, y], limit as nat) by {
            lemma_a_space_keeps_raw_texts_apart(x, y, limit as nat);
            assert(raw =~= seq![x + " "@ + y]);
        }
    }
    normalized_search_terms(folded.as_slice(), limit)
}

/// Folding a plain text leaves plain characters without an upper-case letter.
proof fn lemma_plain_lowered(text: Seq<char>)
    requires
        plain_text(text),
    ensures
        plain_lower_text(ascii_lowered(text)),
{
    let folded = ascii_lowered(text);
    assert forall|i: int| 0 <= i < folded.len() implies plain_char(#[trigger] folded[i])
        && ascii_lower(folded[i]) == folded[i] by {
        assert(plain_char(text[i]));
        assert(folded[i] == ascii_lower(text[i]));
    }
}

/// Tokens of several texts are unbroken, and each stands for itself.
proof fn lemma_all_tokens_searchable(values: Seq<Seq<char>>, alphabet: Alphabet)
    ensures
        forall|i: int|
            0 <= i < all_tokens(spellings_by(values, alphabet)).len() ==> unbroken(
                #[trigger] all_tokens(spellings_by(values, alphabet))[i],
                alphabet,
            ) && whole(all_tokens(spellings_by(values, alphabet))[i], alphabet),
    decreases values.len(),
{
    if values.len() > 0 {
        lemma_all_tokens_searchable(values.drop_last(), alphabet);
        lemma_tokens_searchable(values.last(), alphabet);
        let read = spellings_by(values, alphabet);
        assert(read.drop_last() =~= spellings_by(values.drop_last(), alphabet));
        let earlier = all_tokens(read.drop_last());
        assert forall|i: int| 0 <= i < all_tokens(read).len() implies unbroken(
            #[trigger] all_tokens(read)[i],
            alphabet,
        ) && whole(all_tokens(read)[i], alphabet) by {
            if i < earlier.len() {
                assert(all_tokens(read)[i] == earlier[i]);
            } else {
                assert(all_tokens(read)[i] == tokens(read_by(values.last(), alphabet))[i
                    - earlier.len()]);
            }
        }
    }
}

/// Every term is unbroken and stands for itself.
proof fn lemma_terms_searchable(
    values: Seq<Seq<char>>,
    alphabet: Alphabet,
    limit: nat,
)
    ensures
        forall|i: int|
            0 <= i < search_terms(spellings_by(values, alphabet), limit).len() ==> unbroken(
                #[trigger] search_terms(spellings_by(values, alphabet), limit)[i],
                alphabet,
            ) && whole(search_terms(spellings_by(values, alphabet), limit)[i], alphabet),
{
    lemma_all_tokens_searchable(values, alphabet);
    let found = all_tokens(spellings_by(values, alphabet));
    let terms = search_terms(spellings_by(values, alphabet), limit);
    law_terms_deduplicated_and_bounded(found, limit);
    assert forall|i: int| 0 <= i < terms.len() implies unbroken(#[trigger] terms[i], alphabet)
        && whole(terms[i], alphabet) by {
        assert(found.contains(terms[i]));
        let k = choose|k: int| 0 <= k < found.len() && found[k] == terms[i];
        assert(unbroken(found[k], alphabet) && whole(found[k], alphabet));
    }
}

/// Every character is a space or alphanumeric.
pub open spec fn quotable(text: Seq<char>) -> bool {
    forall|i: int| 0 <= i < text.len() ==> text[i] == ' ' || #[trigger] char_alphanumeric(text[i])
}

/// A character of joined terms is a space or stands in one of them.
proof fn lemma_joined_unbroken(terms: Seq<Seq<char>>, alphabet: Alphabet)
    requires
        forall|i: int| 0 <= i < terms.len() ==> unbroken(#[trigger] terms[i], alphabet),
    ensures
        forall|i: int|
            0 <= i < joined(terms, " "@).len() ==> (#[trigger] joined(terms, " "@)[i]) == ' '
                || alphabet.class(joined(terms, " "@)[i]) != CharClass::Separator,
    decreases terms.len(),
{
    reveal_strlit(" ");
    if terms.len() > 1 {
        let shorter = terms.drop_last();
        assert forall|i: int| 0 <= i < shorter.len() implies unbroken(
            #[trigger] shorter[i],
            alphabet,
        ) by {
            assert(shorter[i] == terms[i]);
        }
        lemma_joined_unbroken(shorter, alphabet);
        let head = joined(shorter, " "@);
        let text = joined(terms, " "@);
        assert(unbroken(terms[terms.len() - 1], alphabet));
        assert forall|i: int| 0 <= i < text.len() implies (#[trigger] text[i]) == ' ' || alphabet.class(
            text[i],
        ) != CharClass::Separator by {
            if i < head.len() {
                assert(text[i] == head[i]);
            } else if i > head.len() {
                assert(text[i] == terms.last()[i - head.len() - 1]);
            }
        }
    } else if terms.len() == 1 {
        assert(unbroken(terms[0], alphabet));
    }
}

/// Search terms hold only alphanumeric characters and spaces, so that they can
/// be quoted into an expression of the caller's own.
pub proof fn law_terms_are_quotable(values: Seq<Seq<char>>, limit: nat)
    ensures
        quotable(memory_terms(values, limit)),
{
    let folded = values.map_values(|value: Seq<char>| normalized(value));
    lemma_terms_searchable(folded, Alphabet::Every, limit);
    lemma_joined_unbroken(search_terms(spellings(folded), limit), Alphabet::Every);
    let text = memory_terms(values, limit);
    assert forall|i: int| 0 <= i < text.len() implies text[i] == ' '
        || #[trigger] char_alphanumeric(text[i]) by {
        assert(text[i] == ' ' || Alphabet::Every.class(text[i]) != CharClass::Separator);
    }
}

/// A leading separator adds no token.
proof fn lemma_skip_separator(text: Seq<Letter>)
    requires
        text.len() > 0,
        text[0].class == CharClass::Separator,
    ensures
        tokens(text) == tokens(text.skip(1)),
{
    let class = CharClass::Separator;
    let rest = text.skip(1);
    let n = run_len(text, class) as int;
    lemma_run_prefix(text, class);
    lemma_run_prefix(rest, class);
    assert(n == 1 + run_len(rest, class));
    assert(tokens(text) =~= tokens(text.skip(n)));
    if rest.len() > 0 && rest[0].class == class {
        assert(rest.skip(n - 1) =~= text.skip(n));
        assert(tokens(rest) =~= tokens(rest.skip(n - 1)));
    } else {
        assert(text.skip(n) =~= rest);
    }
}

/// A separator between two texts keeps their tokens apart.
proof fn lemma_tokens_apart(a: Seq<Letter>, separator: Letter, b: Seq<Letter>)
    requires
        separator.class == CharClass::Separator,
    ensures
        tokens(a.push(separator) + b) == tokens(a) + tokens(b),
    decreases a.len(),
{
    let text = a.push(separator) + b;
    if a.len() == 0 {
        lemma_skip_separator(text);
        assert(text.skip(1) =~= b);
        assert(tokens(a) + tokens(b) =~= tokens(b));
    } else if a[0].class == CharClass::Separator {
        lemma_skip_separator(text);
        lemma_skip_separator(a);
        lemma_tokens_apart(a.skip(1), separator, b);
        assert(text.skip(1) =~= a.skip(1).push(separator) + b);
    } else {
        let class = a[0].class;
        let n = run_len(a, class) as int;
        let m = run_len(text, class) as int;
        lemma_run_prefix(a, class);
        lemma_run_prefix(text, class);
        assert(text[0] == a[0]);
        if m < n {
            assert(text[m] == a[m]);
        }
        if n < m {
            if n < a.len() {
                assert(text[n] == a[n]);
            } else {
                assert(text[n] == separator);
            }
        }
        lemma_tokens_apart(a.skip(n), separator, b);
        assert(text.skip(n) =~= a.skip(n).push(separator) + b);
        assert(text.take(n) =~= a.take(n));
        assert(tokens(text) =~= tokens(a) + tokens(b));
    }
}

/// No token spans two texts: two normalized texts give what one text with a
/// space between them gives.
pub proof fn law_a_space_keeps_texts_apart(x: Seq<char>, y: Seq<char>, limit: nat)
    ensures
        search_terms(spellings(seq![x, y]), limit) == search_terms(
            spellings(seq![x + " "@ + y]),
            limit,
        ),
{
    reveal_strlit(" ");
    let two = spellings(seq![x, y]);
    let one = spellings(seq![x + " "@ + y]);
    let space = Alphabet::Every.letter(' ');
    assert(letters(x + " "@ + y) =~= letters(x).push(space) + letters(y));
    lemma_tokens_apart(letters(x), space, letters(y));
    assert(two.drop_last() =~= seq![letters(x)]);
    assert(seq![letters(x)].drop_last() =~= Seq::<Seq<Letter>>::empty());
    assert(all_tokens(Seq::empty()) =~= Seq::empty());
    assert(all_tokens(seq![letters(x)]) =~= tokens(letters(x)));
    assert(all_tokens(two) =~= tokens(letters(x)) + tokens(letters(y)));
    assert(one.drop_last() =~= Seq::<Seq<Letter>>::empty());
    assert(all_tokens(one) =~= tokens(letters(x + " "@ + y)));
}

/// Where normalizing goes piecewise over the space between two raw texts, they
/// too give what one text gives.
proof fn lemma_a_space_keeps_raw_texts_apart(x: Seq<char>, y: Seq<char>, limit: nat)
    requires
        normalized(x + " "@ + y) == normalized(x) + " "@ + normalized(y),
    ensures
        memory_terms(seq![x, y], limit) == memory_terms(seq![x + " "@ + y], limit),
{
    let rule = |value: Seq<char>| normalized(value);
    law_a_space_keeps_texts_apart(normalized(x), normalized(y), limit);
    assert(seq![x, y].map_values(rule) =~= seq![normalized(x), normalized(y)]);
    assert(seq![x + " "@ + y].map_values(rule) =~= seq![normalized(x + " "@ + y)]);
}

/// Terms joined by spaces are the tokens of that text.
proof fn lemma_joined_tokens(terms: Seq<Seq<char>>, alphabet: Alphabet)
    requires
        alphabet.class(' ') == CharClass::Separator,
        forall|i: int| 0 <= i < terms.len() ==> whole(#[trigger] terms[i], alphabet),
    ensures
        tokens(read_by(joined(terms, " "@), alphabet)) == terms,
    decreases terms.len(),
{
    reveal_strlit(" ");
    if terms.len() == 0 {
        assert(read_by(joined(terms, " "@), alphabet) =~= Seq::empty());
        assert(terms =~= Seq::empty());
    } else if terms.len() == 1 {
        assert(whole(terms[0], alphabet));
        assert(terms =~= seq![terms[0]]);
    } else {
        let shorter = terms.drop_last();
        let head = joined(shorter, " "@);
        let last = terms.last();
        let space = alphabet.letter(' ');
        assert forall|i: int| 0 <= i < shorter.len() implies whole(#[trigger] shorter[i], alphabet) by {
            assert(shorter[i] == terms[i]);
        }
        lemma_joined_tokens(shorter, alphabet);
        assert(whole(terms[terms.len() - 1], alphabet));
        assert(read_by(head + " "@ + last, alphabet) =~= read_by(head, alphabet).push(space) + read_by(
            last,
            alphabet,
        ));
        lemma_tokens_apart(read_by(head, alphabet), space, read_by(last, alphabet));
        assert(shorter + seq![last] =~= terms);
    }
}

/// Distinct terms that are no stop words are collected as they are.
proof fn lemma_collected_again(terms: Seq<Seq<char>>, limit: nat)
    requires
        terms.no_duplicates(),
        terms.len() <= limit,
        forall|i: int| 0 <= i < terms.len() ==> !stop_word(#[trigger] terms[i]),
    ensures
        collected(terms, limit) == terms,
    decreases terms.len(),
{
    if terms.len() > 0 {
        let shorter = terms.drop_last();
        assert forall|i: int| 0 <= i < shorter.len() implies !stop_word(#[trigger] shorter[i]) by {
            assert(shorter[i] == terms[i]);
        }
        lemma_collected_again(shorter, limit);
        assert(!stop_word(terms[terms.len() - 1]));
        assert(!shorter.contains(terms.last()));
        assert(collected(terms, limit) =~= terms);
    } else {
        assert(terms =~= Seq::empty());
    }
}

proof fn lemma_terms_again(
    values: Seq<Seq<char>>,
    alphabet: Alphabet,
    limit: nat,
)
    requires
        alphabet.class(' ') == CharClass::Separator,
    ensures
        ({
            let terms = search_terms(spellings_by(values, alphabet), limit);
            search_terms(spellings_by(seq![joined(terms, " "@)], alphabet), limit) == terms
        }),
{
    let found = all_tokens(spellings_by(values, alphabet));
    let terms = search_terms(spellings_by(values, alphabet), limit);
    let text = joined(terms, " "@);
    lemma_terms_searchable(values, alphabet, limit);
    law_terms_deduplicated_and_bounded(found, limit);
    lemma_joined_tokens(terms, alphabet);
    lemma_collected_again(terms, limit);
    let again = spellings_by(seq![text], alphabet);
    assert(again.drop_last() =~= Seq::<Seq<Letter>>::empty());
    assert(again.last() == read_by(text, alphabet));
    assert(all_tokens(Seq::empty()) =~= Seq::empty());
    assert(all_tokens(again) =~= tokens(read_by(text, alphabet)));
}

/// The terms of normalized texts give themselves again.
pub proof fn law_terms_give_themselves(values: Seq<Seq<char>>, limit: nat)
    ensures
        ({
            let terms = search_terms(spellings(values), limit);
            search_terms(spellings(seq![joined(terms, " "@)]), limit) == terms
        }),
{
    lemma_terms_again(values, Alphabet::Every, limit);
}

/// The terms of plain raw texts are a plain text and give themselves again.
pub proof fn law_plain_terms_give_themselves(values: Seq<Seq<char>>, limit: nat)
    ensures
        plain_text(plain_terms(values, limit)),
        plain_terms(seq![plain_terms(values, limit)], limit) == plain_terms(values, limit),
{
    let folded = values.map_values(|value: Seq<char>| ascii_lowered(value));
    let terms = search_terms(spellings_by(folded, Alphabet::Plain), limit);
    let text = plain_terms(values, limit);
    lemma_terms_searchable(folded, Alphabet::Plain, limit);
    lemma_joined_unbroken(terms, Alphabet::Plain);
    assert forall|i: int| 0 <= i < text.len() implies plain_char(#[trigger] text[i]) && ascii_lower(
        text[i],
    ) == text[i] by {
        assert(text[i] == ' ' || Alphabet::Plain.class(text[i]) != CharClass::Separator);
    }
    assert(ascii_lowered(text) =~= text);
    lemma_terms_again(folded, Alphabet::Plain, limit);
    assert(seq![text].map_values(|value: Seq<char>| ascii_lowered(value)) =~= seq![text]);
}

/// Without room for a term nothing is collected.
pub proof fn law_no_terms_without_room(values: Seq<Seq<Letter>>)
    ensures
        joined(search_terms(values, 0), " "@) == Seq::<char>::empty(),
{
    law_terms_deduplicated_and_bounded(all_tokens(values), 0);
    assert(search_terms(values, 0) =~= Seq::empty());
}

} // verus!
