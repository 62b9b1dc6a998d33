//! Text primitives: equality, byte order, trimming, control characters,
//! concatenation, decimal and hexadecimal rendering.

use vstd::prelude::*;
use vstd::string::*;
use vstd::utf8::*;

pub mod laws;

verus! {

/// `String::push` appends one character.
pub assume_specification[ String::push ](s: &mut String, c: char)
    ensures
        final(s)@ == old(s)@.push(c),
;

/// `String::push_str` appends a whole text.
pub assume_specification[ String::push_str ](s: &mut String, tail: &str)
    ensures
        final(s)@ == old(s)@ + tail@,
;

/// UTF-8 length of a text in bytes.
pub open spec fn byte_len(text: Seq<char>) -> nat {
    encode_utf8(text).len()
}

/// Length of a text in bytes never counts fewer bytes than characters.
pub proof fn lemma_byte_len_at_least_chars(text: Seq<char>)
    ensures
        byte_len(text) >= text.len(),
    decreases text.len(),
{
    if text.len() > 0 {
        lemma_byte_len_at_least_chars(text.drop_first());
    }
}

/// Two texts are equal exactly when their UTF-8 encodings are.
pub proof fn lemma_encoding_injective(a: Seq<char>, b: Seq<char>)
    ensures
        a == b <==> encode_utf8(a) == encode_utf8(b),
{
    encode_utf8_decode_utf8(a);
    encode_utf8_decode_utf8(b);
}

/// Characters of a text, in order.
pub fn chars_of(text: &str) -> (chars: Vec<char>)
    ensures
        chars@ == text@,
{
    let mut out: Vec<char> = Vec::new();
    for c in it: text.chars()
        invariant
            out@ == it.seq().take(it.index() as int),
            it.seq() == text@,
    {
        out.push(c);
    }
    out
}

/// The text made of the characters in `chars[from..to]`.
pub fn text_of(chars: &[char], from: usize, to: usize) -> (text: String)
    requires
        from <= to <= chars@.len(),
    ensures
        text@ == chars@.subrange(from as int, to as int),
{
    let mut out = String::new();
    let mut i: usize = from;
    while i < to
        invariant
            from <= i <= to <= chars@.len(),
            out@ == chars@.subrange(from as int, i as int),
        decreases to - i,
    {
        out.push(chars[i]);
        i += 1;
    }
    out
}

/// Whether two texts hold the same characters.
pub fn text_eq(a: &str, b: &str) -> (same: bool)
    ensures
        same == (a@ == b@),
{
    proof {
        lemma_encoding_injective(a@, b@);
    }
    let x = a.as_bytes();
    let y = b.as_bytes();
    if x.len() != y.len() {
        return false;
    }
    let mut i: usize = 0;
    while i < x.len()
        invariant
            i <= x@.len(),
            x@.len() == y@.len(),
            x@ == encode_utf8(a@),
            y@ == encode_utf8(b@),
            a@ == b@ <==> encode_utf8(a@) == encode_utf8(b@),
            forall|k: int| 0 <= k < i ==> x@[k] == y@[k],
        decreases x@.len() - i,
    {
        if x[i] != y[i] {
            return false;
        }
        i += 1;
    }
    assert(x@ =~= y@);
    true
}

/// Whether two byte strings are equal.
pub fn bytes_eq(a: &[u8], b: &[u8]) -> (same: bool)
    ensures
        same == (a@ == b@),
{
    if a.len() != b.len() {
        return false;
    }
    let mut i: usize = 0;
    while i < a.len()
        invariant
            i <= a@.len() == b@.len(),
            forall|k: int| 0 <= k < i ==> a@[k] == b@[k],
        decreases a@.len() - i,
    {
        if a[i] != b[i] {
            return false;
        }
        i += 1;
    }
    assert(a@ =~= b@);
    true
}

/// Characters of an optional text.
pub open spec fn optional_text(value: Option<String>) -> Option<Seq<char>> {
    match value {
        Some(text) => Some(text@),
        None => None,
    }
}

/// Characters of an optional borrowed text.
pub open spec fn str_text(value: Option<&str>) -> Option<Seq<char>> {
    match value {
        Some(text) => Some(text@),
        None => None,
    }
}

/// An owned copy of an optional borrowed text.
pub fn owned(value: Option<&str>) -> (r: Option<String>)
    ensures
        optional_text(r) == str_text(value),
{
    match value {
        Some(text) => Some(text.to_owned()),
        None => None,
    }
}

/// Lexicographic order of byte strings.
pub open spec fn bytes_less(a: Seq<u8>, b: Seq<u8>) -> bool
    decreases a.len(),
{
    if b.len() == 0 {
        false
    } else if a.len() == 0 {
        true
    } else if a[0] != b[0] {
        a[0] < b[0]
    } else {
        bytes_less(a.skip(1), b.skip(1))
    }
}

proof fn lemma_bytes_less_irreflexive(a: Seq<u8>)
    ensures
        !bytes_less(a, a),
    decreases a.len(),
{
    if a.len() > 0 {
        lemma_bytes_less_irreflexive(a.skip(1));
    }
}

proof fn lemma_bytes_less_transitive(a: Seq<u8>, b: Seq<u8>, c: Seq<u8>)
    requires
        bytes_less(a, b),
        bytes_less(b, c),
    ensures
        bytes_less(a, c),
    decreases a.len(),
{
    if a.len() > 0 && b.len() > 0 && c.len() > 0 && a[0] == b[0] && b[0] == c[0] {
        lemma_bytes_less_transitive(a.skip(1), b.skip(1), c.skip(1));
    }
}

proof fn lemma_bytes_less_total(a: Seq<u8>, b: Seq<u8>)
    ensures
        a == b || bytes_less(a, b) || bytes_less(b, a),
    decreases a.len(),
{
    if a.len() == 0 || b.len() == 0 {
        if a.len() == 0 && b.len() == 0 {
            assert(a =~= b);
        }
    } else if a[0] == b[0] {
        lemma_bytes_less_total(a.skip(1), b.skip(1));
        if a.skip(1) == b.skip(1) {
            assert(a =~= seq![a[0]] + a.skip(1));
            assert(b =~= seq![b[0]] + b.skip(1));
        }
    }
}

/// Order of texts: that of their UTF-8 bytes.
pub open spec fn text_before(a: Seq<char>, b: Seq<char>) -> bool {
    bytes_less(encode_utf8(a), encode_utf8(b))
}

/// The text order is a strict total order.
pub proof fn lemma_text_order(a: Seq<char>, b: Seq<char>, c: Seq<char>)
    ensures
        !text_before(a, a),
        a == b || text_before(a, b) || text_before(b, a),
        !(text_before(a, b) && text_before(b, a)),
        text_before(a, b) && text_before(b, c) ==> text_before(a, c),
{
    lemma_bytes_less_irreflexive(encode_utf8(a));
    lemma_encoding_injective(a, b);
    lemma_bytes_less_total(encode_utf8(a), encode_utf8(b));
    if text_before(a, b) && text_before(b, a) {
        lemma_bytes_less_transitive(encode_utf8(a), encode_utf8(b), encode_utf8(a));
    }
    if text_before(a, b) && text_before(b, c) {
        lemma_bytes_less_transitive(encode_utf8(a), encode_utf8(b), encode_utf8(c));
    }
}

/// Whether the bytes of `a` come before those of `b`.
pub fn text_less(a: &str, b: &str) -> (less: bool)
    ensures
        less == text_before(a@, b@),
{
    let x = a.as_bytes();
    let y = b.as_bytes();
    let mut i: usize = 0;
    assert(x@.skip(0) =~= x@);
    assert(y@.skip(0) =~= y@);
    while i < x.len() && i < y.len()
        invariant
            i <= x@.len(),
            i <= y@.len(),
            x@ == encode_utf8(a@),
            y@ == encode_utf8(b@),
            text_before(a@, b@) == bytes_less(x@.skip(i as int), y@.skip(i as int)),
        decreases x@.len() - i,
    {
        assert(x@.skip(i as int)[0] == x@[i as int]);
        assert(y@.skip(i as int)[0] == y@[i as int]);
        if x[i] != y[i] {
            return x[i] < y[i];
        }
        assert(x@.skip(i as int).skip(1) =~= x@.skip(i + 1));
        assert(y@.skip(i as int).skip(1) =~= y@.skip(i + 1));
        i += 1;
    }
    i < y.len()
}

/// Control characters: the C0 block, DEL and the C1 block.
pub open spec fn control_char(c: char) -> bool {
    c as u32 <= 0x1f || 0x7f <= c as u32 <= 0x9f
}

/// Whether any character of the text is a control character.
pub open spec fn has_control(text: Seq<char>) -> bool {
    exists|i: int| 0 <= i < text.len() && control_char(#[trigger] text[i])
}

/// Decides [`has_control`].
pub fn contains_control(text: &str) -> (found: bool)
    ensures
        found == has_control(text@),
{
    let chars = chars_of(text);
    let mut i: usize = 0;
    while i < chars.len()
        invariant
            i <= chars@.len(),
            chars@ == text@,
            forall|k: int| 0 <= k < i ==> !control_char(#[trigger] chars@[k]),
        decreases chars@.len() - i,
    {
        let code: u32 = chars[i] as u32;
        if code <= 0x1f || (0x7f <= code && code <= 0x9f) {
            assert(control_char(text@[i as int]));
            return true;
        }
        i += 1;
    }
    false
}

/// Labels: not empty, at most `max` bytes, no control characters.
pub open spec fn label_ok(text: Seq<char>, max: nat) -> bool {
    text.len() > 0 && byte_len(text) <= max && !has_control(text)
}

/// Decides [`label_ok`].
pub fn is_label(text: &str, max: usize) -> (r: bool)
    ensures
        r == label_ok(text@, max as nat),
{
    !text.is_empty() && text.as_bytes().len() <= max && !contains_control(text)
}

/// Texts that are not empty and have at most `max` bytes.
pub open spec fn bounded(text: Seq<char>, max: nat) -> bool {
    text.len() > 0 && byte_len(text) <= max
}

/// Decides [`bounded`].
pub fn is_bounded(text: &str, max: usize) -> (r: bool)
    ensures
        r == bounded(text@, max as nat),
{
    !text.is_empty() && text.as_bytes().len() <= max
}

/// Length of a text in bytes.
pub fn bytes_of(text: &str) -> (n: usize)
    ensures
        n == byte_len(text@),
{
    text.as_bytes().len()
}

/// Characters with the Unicode White_Space property.
pub open spec fn white_space(c: char) -> bool {
    let code = c as u32;
    ||| 0x09 <= code <= 0x0d
    ||| code == 0x20
    ||| code == 0x85
    ||| code == 0xa0
    ||| code == 0x1680
    ||| 0x2000 <= code <= 0x200a
    ||| code == 0x2028
    ||| code == 0x2029
    ||| code == 0x202f
    ||| code == 0x205f
    ||| code == 0x3000
}

fn is_white_space(c: char) -> (r: bool)
    ensures
        r == white_space(c),
{
    let code: u32 = c as u32;
    (0x09 <= code && code <= 0x0d) || code == 0x20 || code == 0x85 || code == 0xa0 || code == 0x1680
        || (0x2000 <= code && code <= 0x200a) || code == 0x2028 || code == 0x2029 || code == 0x202f
        || code == 0x205f || code == 0x3000
}

/// The text without leading and trailing white space.
pub open spec fn trimmed(text: Seq<char>) -> Seq<char> {
    trimmed_end(trimmed_start(text))
}

/// The text without leading white space.
pub open spec fn trimmed_start(text: Seq<char>) -> Seq<char>
    decreases text.len(),
{
    if text.len() > 0 && white_space(text[0]) {
        trimmed_start(text.skip(1))
    } else {
        text
    }
}

/// The text without trailing white space.
pub open spec fn trimmed_end(text: Seq<char>) -> Seq<char>
    decreases text.len(),
{
    if text.len() > 0 && white_space(text.last()) {
        trimmed_end(text.drop_last())
    } else {
        text
    }
}

/// Whether a text holds nothing but white space.
pub open spec fn blank(text: Seq<char>) -> bool {
    trimmed(text).len() == 0
}

/// A text is blank exactly when each of its characters is white space.
pub proof fn lemma_blank(text: Seq<char>)
    ensures
        blank(text) <==> (forall|i: int| 0 <= i < text.len() ==> white_space(#[trigger] text[i])),
    decreases text.len(),
{
    if text.len() > 0 {
        if white_space(text[0]) {
            lemma_blank(text.skip(1));
            assert(trimmed_start(text) == trimmed_start(text.skip(1)));
            assert forall|i: int| 0 <= i < text.len() && blank(text) implies white_space(
                #[trigger] text[i],
            ) by {
                if i > 0 {
                    assert(text.skip(1)[i - 1] == text[i]);
                }
            }
            assert forall|i: int|
                0 <= i < text.skip(1).len() && (forall|k: int|
                    0 <= k < text.len() ==> white_space(#[trigger] text[k])) implies white_space(
                #[trigger] text.skip(1)[i],
            ) by {
                assert(text.skip(1)[i] == text[i + 1]);
            }
        } else {
            assert(trimmed_start(text) == text);
            lemma_trimmed_end_keeps(text);
        }
    }
}

proof fn lemma_trimmed_end_keeps(text: Seq<char>)
    requires
        text.len() > 0,
        !white_space(text[0]),
    ensures
        trimmed_end(text).len() > 0,
    decreases text.len(),
{
    if white_space(text.last()) {
        assert(text.len() > 1);
        assert(text.drop_last()[0] == text[0]);
        lemma_trimmed_end_keeps(text.drop_last());
    }
}

/// Decides [`blank`].
pub fn is_blank(text: &str) -> (r: bool)
    ensures
        r == blank(text@),
{
    proof {
        lemma_blank(text@);
    }
    let chars = chars_of(text);
    let mut i: usize = 0;
    while i < chars.len()
        invariant
            i <= chars@.len(),
            chars@ == text@,
            blank(text@) <==> (forall|i: int|
                0 <= i < text@.len() ==> white_space(#[trigger] text@[i])),
            forall|k: int| 0 <= k < i ==> white_space(#[trigger] chars@[k]),
        decreases chars@.len() - i,
    {
        if !is_white_space(chars[i]) {
            assert(!white_space(text@[i as int]));
            return false;
        }
        i += 1;
    }
    true
}

/// The text without leading and trailing white space.
pub fn trim(text: &str) -> (r: String)
    ensures
        r@ == trimmed(text@),
{
    let chars = chars_of(text);
    let mut from: usize = 0;
    assert(chars@.skip(0) =~= chars@);
    while from < chars.len() && is_white_space(chars[from])
        invariant
            from <= chars@.len(),
            chars@ == text@,
            trimmed_start(text@) == trimmed_start(chars@.skip(from as int)),
        decreases chars@.len() - from,
    {
        assert(chars@.skip(from as int)[0] == chars@[from as int]);
        assert(chars@.skip(from as int).skip(1) =~= chars@.skip(from + 1));
        from += 1;
    }
    if from < chars.len() {
        assert(chars@.skip(from as int)[0] == chars@[from as int]);
    }
    assert(trimmed_start(text@) == chars@.skip(from as int));
    let mut to: usize = chars.len();
    assert(chars@.subrange(from as int, to as int) =~= chars@.skip(from as int));
    while from < to && is_white_space(chars[to - 1])
        invariant
            from <= to <= chars@.len(),
            trimmed(text@) == trimmed_end(chars@.subrange(from as int, to as int)),
        decreases to,
    {
        assert(chars@.subrange(from as int, to as int).last() == chars@[to - 1]);
        assert(chars@.subrange(from as int, to as int).drop_last() =~= chars@.subrange(
            from as int,
            to - 1,
        ));
        to -= 1;
    }
    if from < to {
        assert(chars@.subrange(from as int, to as int).last() == chars@[to - 1]);
    }
    text_of(chars.as_slice(), from, to)
}

/// The text without leading spaces.
pub open spec fn unspaced_start(text: Seq<char>) -> Seq<char>
    decreases text.len(),
{
    if text.len() > 0 && text[0] == ' ' {
        unspaced_start(text.skip(1))
    } else {
        text
    }
}

/// The text without trailing spaces.
pub open spec fn unspaced_end(text: Seq<char>) -> Seq<char>
    decreases text.len(),
{
    if text.len() > 0 && text.last() == ' ' {
        unspaced_end(text.drop_last())
    } else {
        text
    }
}

/// The text without leading and trailing spaces. Other white space stays.
pub open spec fn unspaced(text: Seq<char>) -> Seq<char> {
    unspaced_end(unspaced_start(text))
}

/// The text without leading and trailing spaces.
pub fn trim_spaces(text: &str) -> (r: String)
    ensures
        r@ == unspaced(text@),
{
    let chars = chars_of(text);
    let mut from: usize = 0;
    assert(chars@.skip(0) =~= chars@);
    while from < chars.len() && chars[from] == ' '
        invariant
            from <= chars@.len(),
            chars@ == text@,
            unspaced_start(text@) == unspaced_start(chars@.skip(from as int)),
        decreases chars@.len() - from,
    {
        assert(chars@.skip(from as int)[0] == chars@[from as int]);
        assert(chars@.skip(from as int).skip(1) =~= chars@.skip(from + 1));
        from += 1;
    }
    if from < chars.len() {
        assert(chars@.skip(from as int)[0] == chars@[from as int]);
    }
    assert(unspaced_start(text@) == chars@.skip(from as int));
    let mut to: usize = chars.len();
    assert(chars@.subrange(from as int, to as int) =~= chars@.skip(from as int));
    while from < to && chars[to - 1] == ' '
        invariant
            from <= to <= chars@.len(),
            unspaced(text@) == unspaced_end(chars@.subrange(from as int, to as int)),
        decreases to,
    {
        assert(chars@.subrange(from as int, to as int).last() == chars@[to - 1]);
        assert(chars@.subrange(from as int, to as int).drop_last() =~= chars@.subrange(
            from as int,
            to - 1,
        ));
        to -= 1;
    }
    if from < to {
        assert(chars@.subrange(from as int, to as int).last() == chars@[to - 1]);
    }
    text_of(chars.as_slice(), from, to)
}

/// The lower-case form of a text, as the standard library gives it.
pub uninterp spec fn lowercase_form(text: Seq<char>) -> Seq<char>;

/// `str::to_lowercase`. The result depends on the text alone.
#[verifier::external_body]
fn to_lowercase(text: &str) -> (r: String)
    ensures
        r@ == lowercase_form(text@),
{
    text.to_lowercase()
}

/// The form in which asked-for tags and entities are compared: without
/// surrounding white space and without upper case.
pub open spec fn term_form(text: Seq<char>) -> Seq<char> {
    lowercase_form(trimmed(text))
}

/// The form in which asked-for tags and entities are compared.
pub fn fold_term(text: &str) -> (r: String)
    ensures
        r@ == term_form(text@),
{
    let core = trim(text);
    to_lowercase(core.as_str())
}

/// A letter of ASCII in lower case; any other character as it is.
pub open spec fn ascii_lower(c: char) -> char {
    if 'A' <= c <= 'Z' {
        (c as u8 + 32) as char
    } else {
        c
    }
}

/// A text with the letters of ASCII in lower case.
pub open spec fn ascii_lowered(text: Seq<char>) -> Seq<char> {
    text.map_values(|c: char| ascii_lower(c))
}

/// A text with the letters of ASCII in lower case.
pub fn lower_ascii(text: &str) -> (r: String)
    ensures
        r@ == ascii_lowered(text@),
{
    let chars = chars_of(text);
    let mut out = String::new();
    let mut i: usize = 0;
    while i < chars.len()
        invariant
            i <= chars@.len(),
            chars@ == text@,
            out@ == ascii_lowered(text@.take(i as int)),
        decreases chars@.len() - i,
    {
        let c = chars[i];
        let lower = if 'A' <= c && c <= 'Z' {
            (c as u8 + 32) as char
        } else {
            c
        };
        out.push(lower);
        i += 1;
        assert(out@ =~= ascii_lowered(text@.take(i as int)));
    }
    assert(text@.take(i as int) =~= text@);
    out
}

/// The form in which a search for terms reads stored tags and entities: without
/// surrounding spaces, the letters of ASCII in lower case.
pub open spec fn stored_form(text: Seq<char>) -> Seq<char> {
    ascii_lowered(unspaced(text))
}

/// The form in which a search for terms reads stored tags and entities.
pub fn fold_stored(text: &str) -> (r: String)
    ensures
        r@ == stored_form(text@),
{
    let core = trim_spaces(text);
    lower_ascii(core.as_str())
}

/// The form in which a filter compares tags and entities: without surrounding
/// spaces and without upper case.
pub open spec fn label_form(text: Seq<char>) -> Seq<char> {
    lowercase_form(unspaced(text))
}

/// The form in which a filter compares tags and entities.
pub fn fold_label(text: &str) -> (r: String)
    ensures
        r@ == label_form(text@),
{
    let core = trim_spaces(text);
    to_lowercase(core.as_str())
}

/// Whether texts are in strictly ascending order.
pub open spec fn ascending(values: Seq<Seq<char>>) -> bool {
    forall|i: int, j: int|
        0 <= i < j < values.len() ==> text_before(#[trigger] values[i], #[trigger] values[j])
}

/// Adds a text to an ascending list, unless it is there.
pub fn insert_sorted(values: &mut Vec<String>, text: String)
    requires
        ascending(texts(old(values)@)),
    ensures
        ascending(texts(final(values)@)),
        forall|t: Seq<char>| #[trigger]
            listed(final(values)@, t) <==> listed(old(values)@, t) || t == text@,
{
    let ghost before = values@;
    let mut at: usize = 0;
    while at < values.len() && text_less(values[at].as_str(), text.as_str())
        invariant
            values@ == before,
            at <= values@.len(),
            ascending(texts(before)),
            forall|k: int| 0 <= k < at ==> text_before(#[trigger] before[k]@, text@),
        decreases values@.len() - at,
    {
        at += 1;
    }
    if at < values.len() && text_eq(values[at].as_str(), text.as_str()) {
        assert(before[at as int]@ == text@);
        return;
    }
    let ghost word = text@;
    values.insert(at, text);
    proof {
        let after = values@;
        assert forall|i: int, j: int| 0 <= i < j < after.len() implies text_before(
            #[trigger] texts(after)[i],
            #[trigger] texts(after)[j],
        ) by {
            let x = if i < at {
                i
            } else {
                i - 1
            };
            let y = if j < at {
                j
            } else {
                j - 1
            };
            if i != at && j != at {
                assert(text_before(texts(before)[x], texts(before)[y]));
            } else if j == at {
                assert(text_before(before[i]@, word));
            } else {
                lemma_text_order(before[at as int]@, word, word);
                assert(text_before(word, before[at as int]@));
                if y > at {
                    assert(text_before(texts(before)[at as int], texts(before)[y]));
                    lemma_text_order(word, before[at as int]@, before[y]@);
                }
            }
        }
        assert forall|t: Seq<char>| #[trigger] listed(after, t) <==> listed(before, t) || t == word by {
            if listed(before, t) {
                let k = choose|k: int| 0 <= k < before.len() && #[trigger] before[k]@ == t;
                if k < at {
                    assert(after[k]@ == t);
                } else {
                    assert(after[k + 1]@ == t);
                }
            }
            if t == word {
                assert(after[at as int]@ == t);
            }
            if listed(after, t) {
                let k = choose|k: int| 0 <= k < after.len() && #[trigger] after[k]@ == t;
                if k < at {
                    assert(before[k]@ == t);
                } else if k > at {
                    assert(before[k - 1]@ == t);
                }
            }
        }
    }
}

/// Whether a non-empty text is the compared form of one of the values.
pub open spec fn is_term_of(values: Seq<String>, term: Seq<char>) -> bool {
    term.len() > 0 && exists|k: int| 0 <= k < values.len() && term_form(#[trigger] values[k]@) == term
}

/// Non-empty compared forms of the values, ascending and without repetition.
pub fn normalized_terms(values: &[String]) -> (r: Vec<String>)
    ensures
        ascending(texts(r@)),
        forall|t: Seq<char>| #[trigger] listed(r@, t) <==> is_term_of(values@, t),
{
    let mut terms: Vec<String> = Vec::new();
    let mut i: usize = 0;
    while i < values.len()
        invariant
            i <= values@.len(),
            ascending(texts(terms@)),
            forall|t: Seq<char>| #[trigger]
                listed(terms@, t) <==> is_term_of(values@.take(i as int), t),
        decreases values@.len() - i,
    {
        let term = fold_term(values[i].as_str());
        let ghost word = term@;
        let ghost before = values@.take(i as int);
        let ghost after = values@.take(i + 1);
        let empty = term.as_str().is_empty();
        if !empty {
            insert_sorted(&mut terms, term);
        }
        proof {
            assert(empty == (word.len() == 0));
            assert forall|t: Seq<char>|
                is_term_of(after, t) == (is_term_of(before, t) || (t == word && t.len() > 0)) by {
                if is_term_of(after, t) {
                    let k = choose|k: int|
                        0 <= k < after.len() && term_form(#[trigger] after[k]@) == t;
                    if k < i {
                        assert(before[k] == after[k]);
                    }
                }
                if is_term_of(before, t) {
                    let k = choose|k: int|
                        0 <= k < before.len() && term_form(#[trigger] before[k]@) == t;
                    assert(after[k] == before[k]);
                }
                if t == word && t.len() > 0 {
                    assert(after[i as int] == values@[i as int]);
                }
            }
        }
        i += 1;
    }
    assert(values@.take(i as int) =~= values@);
    terms
}

/// `a` followed by `b`.
pub fn concat(a: &str, b: &str) -> (r: String)
    ensures
        r@ == a@ + b@,
{
    let mut out = String::new();
    out.push_str(a);
    out.push_str(b);
    assert(out@ =~= a@ + b@);
    out
}

/// Texts joined by a separator.
pub open spec fn joined(parts: Seq<Seq<char>>, separator: Seq<char>) -> Seq<char>
    decreases parts.len(),
{
    if parts.len() == 0 {
        Seq::empty()
    } else if parts.len() == 1 {
        parts[0]
    } else {
        joined(parts.drop_last(), separator) + separator + parts.last()
    }
}

/// Views of a sequence of texts.
pub open spec fn texts(parts: Seq<String>) -> Seq<Seq<char>> {
    parts.map_values(|part: String| part@)
}

/// The same texts once more.
pub fn copy_texts(values: &[String]) -> (r: Vec<String>)
    ensures
        r@ == values@,
{
    let mut out: Vec<String> = Vec::new();
    let mut i: usize = 0;
    while i < values.len()
        invariant
            i <= values@.len(),
            out@ == values@.take(i as int),
        decreases values@.len() - i,
    {
        out.push(values[i].clone());
        i += 1;
        assert(out@ =~= values@.take(i as int));
    }
    assert(values@.take(i as int) =~= values@);
    out
}

/// Joins texts with a separator between each two.
pub fn join(parts: &[String], separator: &str) -> (r: String)
    ensures
        r@ == joined(texts(parts@), separator@),
{
    let mut out = String::new();
    let mut i: usize = 0;
    while i < parts.len()
        invariant
            i <= parts@.len(),
            out@ == joined(texts(parts@).take(i as int), separator@),
        decreases parts@.len() - i,
    {
        if i > 0 {
            out.push_str(separator);
        }
        out.push_str(parts[i].as_str());
        let ghost next = texts(parts@).take(i + 1);
        assert(next.drop_last() =~= texts(parts@).take(i as int));
        assert(next.last() == parts@[i as int]@);
        assert(out@ =~= joined(next, separator@));
        i += 1;
    }
    assert(texts(parts@).take(parts@.len() as int) =~= texts(parts@));
    out
}

/// A character without the difference between upper and lower ASCII letters.
pub open spec fn ascii_folded(c: char) -> int {
    if 'A' <= c <= 'Z' {
        c as int + 32
    } else {
        c as int
    }
}

/// A character without the difference between upper and lower ASCII letters.
fn ascii_fold_char(c: char) -> (r: u32)
    ensures
        r == ascii_folded(c),
{
    if 'A' <= c && c <= 'Z' {
        c as u32 + 32
    } else {
        c as u32
    }
}

/// Whether a text matches a pattern in which `%` stands for any text and `_`
/// for any one character; ASCII letters match in either case.
pub open spec fn like(text: Seq<char>, pattern: Seq<char>) -> bool
    decreases text.len() + pattern.len(),
{
    if pattern.len() == 0 {
        text.len() == 0
    } else if pattern[0] == '%' {
        like(text, pattern.skip(1)) || (text.len() > 0 && like(text.skip(1), pattern))
    } else {
        text.len() > 0 && (pattern[0] == '_' || ascii_folded(text[0]) == ascii_folded(pattern[0]))
            && like(text.skip(1), pattern.skip(1))
    }
}

/// Whether the rest of a text matches the rest of a pattern.
fn is_like_from(text: &[char], pattern: &[char], i: usize, j: usize) -> (r: bool)
    requires
        i <= text@.len(),
        j <= pattern@.len(),
    ensures
        r == like(text@.skip(i as int), pattern@.skip(j as int)),
    decreases text@.len() - i + pattern@.len() - j,
{
    let ghost t = text@.skip(i as int);
    let ghost p = pattern@.skip(j as int);
    proof {
        if i < text@.len() {
            assert(t.skip(1) =~= text@.skip(i + 1));
        }
        if j < pattern@.len() {
            assert(p.skip(1) =~= pattern@.skip(j + 1));
        }
    }
    if j == pattern.len() {
        return i == text.len();
    }
    if pattern[j] == '%' {
        if is_like_from(text, pattern, i, j + 1) {
            return true;
        }
        return i < text.len() && is_like_from(text, pattern, i + 1, j);
    }
    if i == text.len() {
        return false;
    }
    (pattern[j] == '_' || ascii_fold_char(text[i]) == ascii_fold_char(pattern[j])) && is_like_from(
        text,
        pattern,
        i + 1,
        j + 1,
    )
}

/// Whether a text matches a pattern with `%` and `_`.
pub fn is_like(text: &str, pattern: &str) -> (r: bool)
    ensures
        r == like(text@, pattern@),
{
    let chars = chars_of(text);
    let rule = chars_of(pattern);
    assert(chars@.skip(0) =~= text@);
    assert(rule@.skip(0) =~= pattern@);
    is_like_from(chars.as_slice(), rule.as_slice(), 0, 0)
}

/// Every text that opens with a text matches that text with `%` behind it.
pub proof fn law_prefixes_match(text: Seq<char>, prefix: Seq<char>)
    requires
        has_prefix(text, prefix),
        forall|i: int| 0 <= i < prefix.len() ==> #[trigger] prefix[i] != '%',
    ensures
        like(text, prefix.push('%')),
    decreases prefix.len(),
{
    let pattern = prefix.push('%');
    if prefix.len() == 0 {
        assert(pattern.skip(1) =~= Seq::empty());
        lemma_anything_matches(text, pattern);
    } else {
        assert(pattern[0] == prefix[0]);
        assert(text[0] == text.subrange(0, prefix.len() as int)[0]);
        assert(text.skip(1).subrange(0, prefix.skip(1).len() as int) =~= prefix.skip(1));
        law_prefixes_match(text.skip(1), prefix.skip(1));
        assert(prefix.skip(1).push('%') =~= pattern.skip(1));
    }
}

/// The pattern `%` matches every text.
proof fn lemma_anything_matches(text: Seq<char>, pattern: Seq<char>)
    requires
        pattern.len() == 1,
        pattern[0] == '%',
    ensures
        like(text, pattern),
    decreases text.len(),
{
    reveal_with_fuel(like, 2);
    assert(pattern.skip(1) =~= Seq::empty());
    if text.len() > 0 {
        lemma_anything_matches(text.skip(1), pattern);
    }
}

/// Whether `prefix` opens the text.
pub open spec fn has_prefix(text: Seq<char>, prefix: Seq<char>) -> bool {
    prefix.len() <= text.len() && text.take(prefix.len() as int) == prefix
}

/// Decides [`has_prefix`].
pub fn starts_with(text: &str, prefix: &str) -> (r: bool)
    ensures
        r == has_prefix(text@, prefix@),
{
    let chars = chars_of(text);
    let head = chars_of(prefix);
    if head.len() > chars.len() {
        return false;
    }
    let mut i: usize = 0;
    while i < head.len()
        invariant
            i <= head@.len() <= chars@.len(),
            chars@ == text@,
            head@ == prefix@,
            forall|k: int| 0 <= k < i ==> chars@[k] == head@[k],
        decreases head@.len() - i,
    {
        if chars[i] != head[i] {
            assert(text@.take(prefix@.len() as int)[i as int] != prefix@[i as int]);
            return false;
        }
        i += 1;
    }
    assert(text@.take(prefix@.len() as int) =~= prefix@);
    true
}

/// Whether `part` occurs in the text from position `at` on.
pub open spec fn occurs_at(text: Seq<char>, part: Seq<char>, at: int) -> bool {
    0 <= at && at + part.len() <= text.len() && text.subrange(at, at + part.len()) == part
}

/// Whether `part` occurs somewhere in the text.
pub open spec fn has_part(text: Seq<char>, part: Seq<char>) -> bool {
    exists|at: int| #[trigger] occurs_at(text, part, at)
}

/// Decides [`has_part`].
pub fn contains(text: &str, part: &str) -> (r: bool)
    ensures
        r == has_part(text@, part@),
{
    let chars = chars_of(text);
    let piece = chars_of(part);
    let mut at: usize = 0;
    while at <= chars.len() && piece.len() <= chars.len() - at
        invariant
            chars@ == text@,
            piece@ == part@,
            at <= chars@.len() + 1,
            forall|k: int| 0 <= k < at ==> !#[trigger] occurs_at(text@, part@, k),
        decreases chars@.len() + 1 - at,
    {
        let mut i: usize = 0;
        let end: usize = chars.len();
        while i < piece.len() && chars[at + i] == piece[i]
            invariant
                chars@ == text@,
                piece@ == part@,
                end == chars@.len(),
                at + piece@.len() <= end,
                i <= piece@.len(),
                forall|k: int| 0 <= k < i ==> chars@[at + k] == piece@[k],
            decreases piece@.len() - i,
        {
            i += 1;
        }
        if i == piece.len() {
            assert(text@.subrange(at as int, at + part@.len()) =~= part@);
            assert(occurs_at(text@, part@, at as int));
            return true;
        }
        assert(text@.subrange(at as int, at + part@.len())[i as int] != part@[i as int]);
        if at == chars.len() {
            assert forall|k: int| !#[trigger] occurs_at(text@, part@, k) by {}
            return false;
        }
        at += 1;
    }
    assert forall|k: int| !#[trigger] occurs_at(text@, part@, k) by {}
    false
}

/// Whether a text is one of the listed texts.
pub open spec fn listed(values: Seq<String>, text: Seq<char>) -> bool {
    exists|i: int| 0 <= i < values.len() && #[trigger] values[i]@ == text
}

/// Decides [`listed`].
pub fn is_listed(values: &[String], text: &str) -> (r: bool)
    ensures
        r == listed(values@, text@),
{
    let mut i: usize = 0;
    while i < values.len()
        invariant
            i <= values@.len(),
            forall|k: int| 0 <= k < i ==> #[trigger] values@[k]@ != text@,
        decreases values@.len() - i,
    {
        if text_eq(values[i].as_str(), text) {
            return true;
        }
        i += 1;
    }
    false
}

/// Decimal digits of a number.
pub open spec fn decimal(n: nat) -> Seq<char>
    decreases n,
{
    if n < 10 {
        seq![digit_char(n)]
    } else {
        decimal(n / 10).push(digit_char(n % 10))
    }
}

/// The character of one decimal digit.
pub open spec fn digit_char(d: nat) -> char {
    (48 + d) as char
}

/// Decimal rendering of a signed number.
pub open spec fn signed_decimal(n: int) -> Seq<char> {
    if n < 0 {
        seq!['-'] + decimal((-n) as nat)
    } else {
        decimal(n as nat)
    }
}

fn push_decimal(out: &mut String, n: u64)
    ensures
        final(out)@ == old(out)@ + decimal(n as nat),
    decreases n,
{
    if n >= 10 {
        push_decimal(out, n / 10);
    }
    let digit: u8 = (n % 10) as u8;
    let ghost before = out@;
    out.push((48 + digit) as char);
    assert(out@ =~= old(out)@ + decimal(n as nat));
}

/// Decimal text of a number without a sign.
pub fn format_unsigned(n: u64) -> (r: String)
    ensures
        r@ == decimal(n as nat),
{
    let mut out = String::new();
    push_decimal(&mut out, n);
    assert(out@ =~= decimal(n as nat));
    out
}

/// Decimal rendering of a signed number.
pub fn format_decimal(n: i64) -> (r: String)
    ensures
        r@ == signed_decimal(n as int),
{
    let mut out = String::new();
    if n < 0 {
        out.push('-');
        let magnitude: u64 = (-(n as i128)) as u64;
        push_decimal(&mut out, magnitude);
    } else {
        push_decimal(&mut out, n as u64);
    }
    assert(out@ =~= signed_decimal(n as int));
    out
}

/// The lower-case hexadecimal character of a value below sixteen.
pub open spec fn hex_char(nibble: nat) -> char {
    if nibble < 10 {
        (48 + nibble) as char
    } else {
        (87 + nibble) as char
    }
}

/// Two lower-case hexadecimal characters for each byte.
pub open spec fn hex(bytes: Seq<u8>) -> Seq<char> {
    Seq::new(
        2 * bytes.len(),
        |i: int|
            if i % 2 == 0 {
                hex_char((bytes[i / 2] / 16) as nat)
            } else {
                hex_char((bytes[i / 2] % 16) as nat)
            },
    )
}

fn hex_digit(nibble: u8) -> (c: char)
    requires
        nibble < 16,
    ensures
        c == hex_char(nibble as nat),
{
    if nibble < 10 {
        (48 + nibble) as char
    } else {
        (87 + nibble) as char
    }
}

/// Lower-case hexadecimal rendering of bytes.
pub fn format_hex(bytes: &[u8]) -> (r: String)
    ensures
        r@ == hex(bytes@),
{
    let mut out = String::new();
    let mut i: usize = 0;
    while i < bytes.len()
        invariant
            i <= bytes@.len(),
            out@ == hex(bytes@.take(i as int)),
        decreases bytes@.len() - i,
    {
        out.push(hex_digit(bytes[i] / 16));
        out.push(hex_digit(bytes[i] % 16));
        i += 1;
        assert(out@ =~= hex(bytes@.take(i as int)));
    }
    assert(bytes@.take(bytes@.len() as int) =~= bytes@);
    out
}

} // verus!
