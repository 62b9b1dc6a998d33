//! What the text helpers do, character by character.

use vstd::prelude::*;

use crate::text::{
    ascii_folded, contains, fold_stored, is_blank, is_bounded, is_label, is_like, is_listed, join,
    like, starts_with, texts, trim, trim_spaces, trimmed_end, trimmed_start, unspaced_end,
    unspaced_start, white_space,
};

verus! {

/// Whether two characters are the same but for the case of an ASCII letter.
pub open spec fn same_letter(a: char, b: char) -> bool {
    ||| a == b
    ||| 'A' <= a <= 'Z' && b as int == a as int + 32
    ||| 'A' <= b <= 'Z' && a as int == b as int + 32
}

/// A pattern that is a text without wildcards, with `%` behind it, matches
/// exactly the texts that open with that text, up to the case of ASCII letters.
pub proof fn law_open_pattern_matches_prefix(text: Seq<char>, prefix: Seq<char>)
    requires
        forall|i: int| 0 <= i < prefix.len() ==> #[trigger] prefix[i] != '%' && prefix[i] != '_',
    ensures
        like(text, prefix + "%"@) <==> prefix.len() <= text.len() && forall|i: int|
            0 <= i < prefix.len() ==> same_letter(#[trigger] text[i], prefix[i]),
    decreases prefix.len(),
{
    reveal_strlit("%");
    let pattern = prefix + "%"@;
    if prefix.len() == 0 {
        assert(pattern =~= seq!['%']);
        lemma_any_text_matches(text);
    } else {
        assert(pattern[0] == prefix[0]);
        if text.len() > 0 {
            let rest = text.skip(1);
            let fewer = prefix.skip(1);
            assert forall|i: int| 0 <= i < fewer.len() implies #[trigger] fewer[i] != '%'
                && fewer[i] != '_' by {
                assert(fewer[i] == prefix[i + 1]);
            }
            law_open_pattern_matches_prefix(rest, fewer);
            assert(pattern.skip(1) =~= fewer + "%"@);
            assert(ascii_folded(text[0]) == ascii_folded(pattern[0]) <==> same_letter(
                text[0],
                prefix[0],
            ));
            if prefix.len() <= text.len() && (forall|i: int|
                0 <= i < prefix.len() ==> same_letter(#[trigger] text[i], prefix[i])) {
                assert forall|i: int| 0 <= i < fewer.len() implies same_letter(
                    #[trigger] rest[i],
                    fewer[i],
                ) by {
                    assert(same_letter(text[i + 1], prefix[i + 1]));
                }
                assert(same_letter(text[0], prefix[0]));
            }
            if like(text, pattern) {
                assert forall|i: int| 0 <= i < prefix.len() implies same_letter(
                    #[trigger] text[i],
                    prefix[i],
                ) by {
                    if i > 0 {
                        assert(same_letter(rest[i - 1], fewer[i - 1]));
                    }
                }
            }
        }
    }
}

proof fn lemma_any_text_matches(text: Seq<char>)
    ensures
        like(text, seq!['%']),
    decreases text.len(),
{
    reveal_with_fuel(like, 2);
    assert(seq!['%'].skip(1) =~= Seq::<char>::empty());
    if text.len() > 0 {
        lemma_any_text_matches(text.skip(1));
    }
}

/// A pattern without `%` matches exactly the texts of its length that agree with
/// it at every place where it has no `_`, up to the case of ASCII letters.
pub proof fn law_closed_pattern_matches_its_length(text: &str, pattern: &str, r: bool)
    requires
        call_ensures(is_like, (text, pattern), r),
        forall|i: int| 0 <= i < pattern@.len() ==> #[trigger] pattern@[i] != '%',
    ensures
        r <==> text@.len() == pattern@.len() && forall|i: int|
            0 <= i < pattern@.len() ==> #[trigger] pattern@[i] == '_' || same_letter(
                text@[i],
                pattern@[i],
            ),
{
    lemma_closed_pattern(text@, pattern@);
}

proof fn lemma_closed_pattern(text: Seq<char>, pattern: Seq<char>)
    requires
        forall|i: int| 0 <= i < pattern.len() ==> #[trigger] pattern[i] != '%',
    ensures
        like(text, pattern) <==> text.len() == pattern.len() && forall|i: int|
            0 <= i < pattern.len() ==> #[trigger] pattern[i] == '_' || same_letter(
                text[i],
                pattern[i],
            ),
    decreases pattern.len(),
{
    if pattern.len() > 0 && text.len() > 0 {
        let rest = text.skip(1);
        let fewer = pattern.skip(1);
        assert forall|i: int| 0 <= i < fewer.len() implies #[trigger] fewer[i] != '%' by {
            assert(fewer[i] == pattern[i + 1]);
        }
        lemma_closed_pattern(rest, fewer);
        assert(pattern[0] != '%');
        assert(ascii_folded(text[0]) == ascii_folded(pattern[0]) <==> same_letter(
            text[0],
            pattern[0],
        ));
        if text.len() == pattern.len() && (forall|i: int|
            0 <= i < pattern.len() ==> #[trigger] pattern[i] == '_' || same_letter(
                text[i],
                pattern[i],
            )) {
            assert(pattern[0] == '_' || same_letter(text[0], pattern[0]));
            assert forall|i: int| 0 <= i < fewer.len() implies #[trigger] fewer[i] == '_'
                || same_letter(rest[i], fewer[i]) by {
                assert(pattern[i + 1] == '_' || same_letter(text[i + 1], pattern[i + 1]));
            }
        }
        if like(text, pattern) {
            assert forall|i: int| 0 <= i < pattern.len() implies #[trigger] pattern[i] == '_'
                || same_letter(text[i], pattern[i]) by {
                if i > 0 {
                    assert(fewer[i - 1] == '_' || same_letter(rest[i - 1], fewer[i - 1]));
                }
            }
        }
    }
}

/// A label is a text that is not empty, fits its bytes and holds no control
/// character; a bounded text only has to fit.
pub proof fn law_labels_hold_no_control_character(text: &str, max: usize, label: bool, fits: bool)
    requires
        call_ensures(is_label, (text, max), label),
        call_ensures(is_bounded, (text, max), fits),
    ensures
        label <==> text@.len() > 0 && vstd::utf8::encode_utf8(text@).len() <= max && forall|i: int|
            0 <= i < text@.len() ==> {
                let code = #[trigger] text@[i] as u32;
                0x1f < code && !(0x7f <= code <= 0x9f)
            },
        fits <==> text@.len() > 0 && vstd::utf8::encode_utf8(text@).len() <= max,
{
    if forall|i: int|
        0 <= i < text@.len() ==> {
            let code = #[trigger] text@[i] as u32;
            0x1f < code && !(0x7f <= code <= 0x9f)
        } {
        assert(!crate::text::has_control(text@));
    } else {
        let i = choose|i: int|
            0 <= i < text@.len() && {
                let code = #[trigger] text@[i] as u32;
                !(0x1f < code && !(0x7f <= code <= 0x9f))
            };
        assert(crate::text::control_char(text@[i]));
    }
}

/// White space is what Unicode calls so.
pub proof fn law_white_space_is_listed(c: char)
    ensures
        white_space(c) <==> seq![
            0x09u32, 0x0a, 0x0b, 0x0c, 0x0d, 0x20, 0x85, 0xa0, 0x1680, 0x2000, 0x2001, 0x2002,
            0x2003, 0x2004, 0x2005, 0x2006, 0x2007, 0x2008, 0x2009, 0x200a, 0x2028, 0x2029, 0x202f,
            0x205f, 0x3000,
        ].contains(c as u32),
{
    let codes = seq![
        0x09u32, 0x0a, 0x0b, 0x0c, 0x0d, 0x20, 0x85, 0xa0, 0x1680, 0x2000, 0x2001, 0x2002,
        0x2003, 0x2004, 0x2005, 0x2006, 0x2007, 0x2008, 0x2009, 0x200a, 0x2028, 0x2029, 0x202f,
        0x205f, 0x3000,
    ];
    if white_space(c) {
        let code = c as u32;
        let at: int = if code <= 0x0d {
            code - 0x09
        } else if code == 0x20 {
            5
        } else if code == 0x85 {
            6
        } else if code == 0xa0 {
            7
        } else if code == 0x1680 {
            8
        } else if code <= 0x200a {
            code - 0x2000 + 9
        } else if code == 0x2028 {
            20
        } else if code == 0x2029 {
            21
        } else if code == 0x202f {
            22
        } else if code == 0x205f {
            23
        } else {
            24
        };
        assert(codes[at] == code);
    }
}

/// Trimming takes white space off both ends and nothing else.
pub proof fn law_trim_takes_the_ends_off(text: &str, r: String, blank: bool)
    requires
        call_ensures(trim, (text,), r),
        call_ensures(is_blank, (text,), blank),
    ensures
        exists|from: int, to: int|
            {
                &&& 0 <= from <= to <= text@.len()
                &&& r@ == #[trigger] text@.subrange(from, to)
                &&& forall|i: int| 0 <= i < from ==> white_space(#[trigger] text@[i])
                &&& forall|i: int| to <= i < text@.len() ==> white_space(#[trigger] text@[i])
            },
        r@.len() > 0 ==> !white_space(r@[0]) && !white_space(r@.last()),
        blank <==> r@.len() == 0,
{
    lemma_trimmed_start(text@);
    let start = trimmed_start(text@);
    lemma_trimmed_end(start);
    let from = text@.len() - start.len();
    let to = from + trimmed_end(start).len();
    assert(r@ =~= text@.subrange(from, to));
    assert forall|i: int| to <= i < text@.len() implies white_space(#[trigger] text@[i]) by {
        assert(start[i - from] == text@[i]);
    }
}

proof fn lemma_trimmed_start(text: Seq<char>)
    ensures
        trimmed_start(text).len() <= text.len(),
        trimmed_start(text) == text.skip(text.len() - trimmed_start(text).len()),
        forall|i: int|
            0 <= i < text.len() - trimmed_start(text).len() ==> white_space(#[trigger] text[i]),
        trimmed_start(text).len() > 0 ==> !white_space(trimmed_start(text)[0]),
    decreases text.len(),
{
    if text.len() > 0 && white_space(text[0]) {
        let rest = text.skip(1);
        lemma_trimmed_start(rest);
        assert(trimmed_start(text) =~= text.skip(text.len() - trimmed_start(text).len()));
        assert forall|i: int| 0 <= i < text.len() - trimmed_start(text).len() implies white_space(
            #[trigger] text[i],
        ) by {
            if i > 0 {
                assert(rest[i - 1] == text[i]);
            }
        }
    } else {
        assert(text.skip(0) =~= text);
    }
}

proof fn lemma_trimmed_end(text: Seq<char>)
    ensures
        trimmed_end(text).len() <= text.len(),
        trimmed_end(text) == text.take(trimmed_end(text).len() as int),
        forall|i: int|
            trimmed_end(text).len() <= i < text.len() ==> white_space(#[trigger] text[i]),
        trimmed_end(text).len() > 0 ==> !white_space(trimmed_end(text).last()),
        text.len() > 0 && !white_space(text[0]) ==> trimmed_end(text).len() > 0 && trimmed_end(
            text,
        )[0] == text[0],
    decreases text.len(),
{
    if text.len() > 0 && white_space(text.last()) {
        let rest = text.drop_last();
        lemma_trimmed_end(rest);
        assert(trimmed_end(text) =~= text.take(trimmed_end(text).len() as int));
        assert forall|i: int| trimmed_end(text).len() <= i < text.len() implies white_space(
            #[trigger] text[i],
        ) by {
            if i < rest.len() {
                assert(rest[i] == text[i]);
            }
        }
    } else {
        assert(text.take(text.len() as int) =~= text);
    }
}

/// Trimming spaces takes spaces off both ends and no other character; what is
/// compared of a stored label has its ASCII letters in lower case besides.
pub proof fn law_spaces_alone_are_trimmed(text: &str, r: String, folded: String)
    requires
        call_ensures(trim_spaces, (text,), r),
        call_ensures(fold_stored, (text,), folded),
    ensures
        exists|from: int, to: int|
            {
                &&& 0 <= from <= to <= text@.len()
                &&& r@ == #[trigger] text@.subrange(from, to)
                &&& forall|i: int| 0 <= i < from ==> #[trigger] text@[i] == ' '
                &&& forall|i: int| to <= i < text@.len() ==> #[trigger] text@[i] == ' '
            },
        r@.len() > 0 ==> r@[0] != ' ' && r@.last() != ' ',
        folded@.len() == r@.len(),
        forall|i: int|
            0 <= i < r@.len() ==> #[trigger] folded@[i] as int == (if 'A' <= r@[i] <= 'Z' {
                r@[i] as int + 32
            } else {
                r@[i] as int
            }),
{
    lemma_unspaced_start(text@);
    let start = unspaced_start(text@);
    lemma_unspaced_end(start);
    let from = text@.len() - start.len();
    let to = from + unspaced_end(start).len();
    assert(r@ =~= text@.subrange(from, to));
    assert forall|i: int| to <= i < text@.len() implies #[trigger] text@[i] == ' ' by {
        assert(start[i - from] == text@[i]);
    }
}

proof fn lemma_unspaced_start(text: Seq<char>)
    ensures
        unspaced_start(text).len() <= text.len(),
        unspaced_start(text) == text.skip(text.len() - unspaced_start(text).len()),
        forall|i: int|
            0 <= i < text.len() - unspaced_start(text).len() ==> #[trigger] text[i] == ' ',
        unspaced_start(text).len() > 0 ==> unspaced_start(text)[0] != ' ',
    decreases text.len(),
{
    if text.len() > 0 && text[0] == ' ' {
        let rest = text.skip(1);
        lemma_unspaced_start(rest);
        assert(unspaced_start(text) =~= text.skip(text.len() - unspaced_start(text).len()));
        assert forall|i: int|
            0 <= i < text.len() - unspaced_start(text).len() implies #[trigger] text[i] == ' ' by {
            if i > 0 {
                assert(rest[i - 1] == text[i]);
            }
        }
    } else {
        assert(text.skip(0) =~= text);
    }
}

proof fn lemma_unspaced_end(text: Seq<char>)
    ensures
        unspaced_end(text).len() <= text.len(),
        unspaced_end(text) == text.take(unspaced_end(text).len() as int),
        forall|i: int| unspaced_end(text).len() <= i < text.len() ==> #[trigger] text[i] == ' ',
        unspaced_end(text).len() > 0 ==> unspaced_end(text).last() != ' ',
        text.len() > 0 && text[0] != ' ' ==> unspaced_end(text).len() > 0 && unspaced_end(text)[0]
            == text[0],
    decreases text.len(),
{
    if text.len() > 0 && text.last() == ' ' {
        let rest = text.drop_last();
        lemma_unspaced_end(rest);
        assert(unspaced_end(text) =~= text.take(unspaced_end(text).len() as int));
        assert forall|i: int| unspaced_end(text).len() <= i < text.len() implies #[trigger] text[i]
            == ' ' by {
            if i < rest.len() {
                assert(rest[i] == text[i]);
            }
        }
    } else {
        assert(text.take(text.len() as int) =~= text);
    }
}

/// A text starts with a prefix, holds a part or is in a list exactly where its
/// characters say so.
pub proof fn law_parts_are_found(
    text: &str,
    part: &str,
    values: &[String],
    opens: bool,
    holds: bool,
    listed: bool,
)
    requires
        call_ensures(starts_with, (text, part), opens),
        call_ensures(contains, (text, part), holds),
        call_ensures(is_listed, (values, text), listed),
    ensures
        opens <==> exists|rest: Seq<char>| text@ == #[trigger] (part@ + rest),
        holds <==> exists|before: Seq<char>, after: Seq<char>|
            text@ == #[trigger] (before + part@ + after),
        listed <==> exists|i: int| 0 <= i < values@.len() && (#[trigger] values@[i])@ == text@,
{
    let n = part@.len() as int;
    if opens {
        assert(text@ =~= part@ + text@.skip(n));
    }
    assert forall|rest: Seq<char>| text@ == #[trigger] (part@ + rest) implies opens by {
        assert(text@.take(n) =~= part@);
    }
    if holds {
        let at = choose|at: int| #[trigger] crate::text::occurs_at(text@, part@, at);
        assert(text@ =~= text@.take(at) + part@ + text@.skip(at + n));
    }
    assert forall|before: Seq<char>, after: Seq<char>|
        text@ == #[trigger] (before + part@ + after) implies holds by {
        let at = before.len() as int;
        assert(text@.subrange(at, at + n) =~= part@);
        assert(crate::text::occurs_at(text@, part@, at));
    }
}

/// Joining puts the separator between each two parts: of one part it is that
/// part, and a part more is added behind one separator.
pub proof fn law_joining_adds_part_by_part(
    parts: &[String],
    separator: &str,
    last: String,
    longer: &[String],
    r: String,
    more: String,
)
    requires
        call_ensures(join, (parts, separator), r),
        call_ensures(join, (longer, separator), more),
        longer@ == parts@.push(last),
    ensures
        parts@.len() == 0 ==> r@.len() == 0 && more@ == last@,
        parts@.len() > 0 ==> more@ == r@ + separator@ + last@,
{
    assert(texts(longer@).drop_last() =~= texts(parts@));
    assert(texts(longer@).last() == last@);
}

} // verus!
