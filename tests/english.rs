use kokoro_tts::english::{
    abbreviation_phonemes, contraction_phonemes, letters_to_ipa, rule_phonemes_lowered,
    word_rule_phonemes,
};
use kokoro_tts::phonemes::clean_phonemes;

#[test]
fn short_capitals_are_spelled() {
    assert_eq!(word_rule_phonemes("ABC"), Some("ˈeɪbˈiːsˈiː".to_string()));
    assert_eq!(word_rule_phonemes("TV"), Some(letters_to_ipa("TV")));
    assert_eq!(word_rule_phonemes("X"), Some("ˈɛks".to_string()));
}

#[test]
fn long_or_mixed_case_words_are_not_spelled() {
    assert_eq!(word_rule_phonemes("ABCD"), None);
    assert_eq!(word_rule_phonemes("Abc"), None);
    assert_eq!(word_rule_phonemes("hello"), None);
}

#[test]
fn known_abbreviation_wins_over_spelling() {
    assert_eq!(word_rule_phonemes("AI"), Some("ˈeɪaɪ".to_string()));
    assert_eq!(word_rule_phonemes("gpu"), Some("dʒiːpiːjˈuː".to_string()));
    assert_eq!(abbreviation_phonemes("usb"), Some("juːˈɛsbiː"));
    assert_eq!(abbreviation_phonemes("USB"), None);
}

#[test]
fn contraction_needs_an_apostrophe() {
    assert_eq!(word_rule_phonemes("you're"), Some("jɔːɹ".to_string()));
    assert_eq!(word_rule_phonemes("YOU'RE"), Some("jɔːɹ".to_string()));
    assert_eq!(word_rule_phonemes("won't"), Some("woʊnt".to_string()));
    assert_eq!(word_rule_phonemes("youre"), None);
    assert_eq!(word_rule_phonemes("well"), None);
    assert_eq!(contraction_phonemes("well"), Some("wiːl"));
}

#[test]
fn rules_take_the_lowered_word_as_given() {
    assert_eq!(rule_phonemes_lowered("Let's", "let's"), Some("lɛts".to_string()));
    assert_eq!(rule_phonemes_lowered("Let's", "Let's"), None);
}

#[test]
fn letters_keep_other_characters() {
    assert_eq!(letters_to_ipa("a-1"), "ˈeɪ-1");
    assert_eq!(letters_to_ipa(""), "");
}

#[test]
fn cleaning_cuts_at_the_separator() {
    assert_eq!(clean_phonemes("tˈuː||mʌtʃ"), "tˈuː");
    assert_eq!(clean_phonemes("||x"), "");
}

#[test]
fn cleaning_strips_one_context_fragment() {
    assert_eq!(clean_phonemes("ðˈɪswˌɒn"), "ðˈɪs");
    assert_eq!(clean_phonemes("wˈɪltə"), "wˈɪl");
    assert_eq!(clean_phonemes("ðɐthɐzbˈɪn"), "ðɐt");
    assert_eq!(clean_phonemes("ʃˈʊdhavtə"), "ʃˈʊdhav");
    assert_eq!(clean_phonemes("ðə"), "ðə");
}

#[test]
fn cleaning_drops_digits_and_modernises_hw() {
    assert_eq!(clean_phonemes("ðə2"), "ðə");
    assert_eq!(clean_phonemes("t2ˈaɪmɛ"), "tˈaɪmɛ");
    assert_eq!(clean_phonemes("hwˈɛn"), "wˈɛn");
    assert_eq!(clean_phonemes("1|2|3"), "");
}

#[test]
fn cleaned_output_is_clean() {
    for raw in ["a1||b2", "9hw||", "|1|", "x||y||z", "hɐzbˈɪn3"] {
        let out = clean_phonemes(raw);
        assert!(!out.chars().any(|c| c.is_ascii_digit()));
        assert!(!out.contains("||"));
    }
}
