use mcp_vault_state::memory_search_terms;
use mcp_vault_state::search::{classified_search_terms, CharClass, Letter};

#[test]
fn search_terms_cover_unspaced_han_and_natural_language_noise() {
    let terms = memory_search_terms(&["请问以后项目统一使用 Rust v1.94 吗？"], 64);
    assert!(terms.contains("以后"));
    assert!(terms.contains("项目"));
    assert!(terms.contains("统一"));
    assert!(terms.contains("rust"));
    assert!(terms.contains("v1"));
    assert!(terms.contains("94"));
    assert!(!terms.contains("请问"));
}

#[test]
fn search_terms_are_deduplicated_and_bounded() {
    assert_eq!(memory_search_terms(&["Rust rust RUST"], 64), "rust");
    assert_eq!(memory_search_terms(&["甲乙丙丁"], 2), "甲乙 乙丙");
}

#[test]
fn stop_words_and_short_words_are_left_out() {
    assert_eq!(memory_search_terms(&["What is the plan for a vault?"], 64), "plan vault");
    assert_eq!(memory_search_terms(&["x y z"], 64), "");
    assert_eq!(memory_search_terms(&["甲"], 64), "甲");
}

#[test]
fn no_term_is_given_without_room() {
    assert_eq!(memory_search_terms(&["rust"], 0), "");
}

#[test]
fn several_texts_share_one_bound_and_one_set_of_terms() {
    assert_eq!(memory_search_terms(&["alpha beta", "beta gamma"], 3), "alpha beta gamma");
    assert_eq!(memory_search_terms(&["alpha beta", "beta gamma"], 2), "alpha beta");
}

#[test]
fn compatibility_forms_are_folded() {
    // Full-width letters and the ligature fold to plain lower-case letters.
    assert_eq!(memory_search_terms(&["ＲＵＳＴ"], 8), "rust");
    assert_eq!(memory_search_terms(&["oﬃce"], 8), "office");
}

#[test]
fn output_holds_only_token_characters_and_spaces() {
    let terms = memory_search_terms(&["a\"b* OR (c:d) -- NEAR/2; \u{1F980} 漢字かな"], 64);
    assert!(terms.chars().all(|c| c == ' ' || c.is_alphanumeric()));
    assert_eq!(terms, "near 漢字 かな");
}

#[test]
fn a_character_without_a_letter_or_digit_is_never_given() {
    // Within the ideographic blocks, though no character is assigned there.
    let terms = memory_search_terms(&["\u{2FA1E}甲乙\u{2FA1E}"], 64);
    assert_eq!(terms, "甲乙");
    assert_eq!(memory_search_terms(&["\u{2FA1E}"], 64), "");
}

fn letters(text: &str) -> Vec<Letter> {
    text.chars()
        .map(|value| Letter {
            value,
            class: match value {
                '甲' | '乙' | '丙' => CharClass::Han,
                'a'..='z' | '0'..='9' => CharClass::Word,
                _ => CharClass::Separator,
            },
        })
        .collect()
}

#[test]
fn classified_texts_give_their_terms() {
    let terms = |text: &str| classified_search_terms(&[letters(text)], 8);
    assert_eq!(terms("rust甲乙丙 v1.94"), "rust 甲乙 乙丙 v1 94");
    assert_eq!(terms("甲 乙丙"), "甲 乙丙");
    assert_eq!(terms("the x"), "");
    let mut odd = letters("rust");
    odd[2].class = CharClass::Separator;
    assert_eq!(classified_search_terms(&[odd], 8), "ru");
}

#[test]
fn terms_give_themselves_and_a_space_keeps_texts_apart() {
    let terms = memory_search_terms(&["请问以后项目统一使用 Rust v1.94 吗？"], 64);
    assert_eq!(memory_search_terms(&[terms.as_str()], 64), terms);
    assert_eq!(
        memory_search_terms(&["alpha 甲乙", "丙丁 beta"], 64),
        memory_search_terms(&["alpha 甲乙 丙丁 beta"], 64)
    );
}

#[test]
fn plain_characters_keep_their_form() {
    for code in 0x4e00..=0x9fff_u32 {
        let ideograph = char::from_u32(code).unwrap().to_string();
        assert_eq!(memory_search_terms(&[ideograph.as_str()], 1), ideograph);
    }
    for code in 0..=0x7f_u8 {
        let c = code as char;
        let word = format!("{c}{c}");
        let expected =
            if c.is_ascii_alphanumeric() { word.to_ascii_lowercase() } else { String::new() };
        assert_eq!(memory_search_terms(&[word.as_str()], 1), expected);
    }
}

#[test]
fn a_space_bounds_combining_characters() {
    let ends = ["e\u{301}", "\u{301}\u{323}", "\u{1112}\u{1161}", "ab\u{fb03}", "\u{a8}", "甲\u{302}"];
    for x in ends {
        for y in ends {
            let one = format!("{x} {y}");
            assert_eq!(memory_search_terms(&[one.as_str()], 64), memory_search_terms(&[x, y], 64));
        }
    }
}
