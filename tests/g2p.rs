use kokoro_tts::chinese::{han_run_ipa, py2ipa, word2ipa_zh, G2PError};
use cmudict_fast::Cmudict;
use kokoro_tts::g2p::{
    english_words, finish_phonemes, g2p_dict, g2p_with_word_phonemes, is_en_word_piece,
    push_en_other, push_en_word, push_punct_run,
};
use std::str::FromStr;
use kokoro_tts::segment::{segment_text, split_en_pieces, to_half_shape, RunKind};

fn runs(text: &str) -> Vec<(RunKind, String)> {
    segment_text(text).into_iter().map(|r| (r.kind, r.text)).collect()
}

#[test]
fn han_scenario_gives_tone_marked_words() {
    let ipa = han_run_ipa("你好世界").unwrap();
    assert_eq!(ipa, "ni↓xau↓ ʂɻ↘ʨje↘ ");
    assert_eq!(finish_phonemes(&ipa), "ni↓xau↓ ʂɻ↘ʨje↘");
}

#[test]
fn chinese_word_follows_its_readings() {
    assert_eq!(word2ipa_zh("你好").unwrap(), "ni↓xau↓");
    assert_eq!(word2ipa_zh("a").unwrap(), "a");
    assert_eq!(word2ipa_zh("").unwrap(), "");
}

#[test]
fn syllables_map_to_ipa() {
    assert_eq!(py2ipa("hao3").unwrap(), "xau↓");
    assert_eq!(py2ipa("shi4").unwrap(), "ʂɻ↘");
    assert_eq!(py2ipa("zi1").unwrap(), "ʦɹ→");
    assert_eq!(py2ipa("ju2").unwrap(), "ʨy↗");
    assert_eq!(py2ipa("lü4").unwrap(), "ly↘");
    assert_eq!(py2ipa("yue4").unwrap(), "ɥe↘");
    assert_eq!(py2ipa("de").unwrap(), "tɤ");
    assert_eq!(py2ipa("er2").unwrap(), "ɚ↗");
    assert_eq!(py2ipa("m2").unwrap(), "m↗");
}

#[test]
fn unknown_syllable_is_an_error() {
    assert!(matches!(py2ipa("xyz1"), Err(G2PError::Pinyin(s)) if s == "xyz1"));
    assert!(py2ipa("").is_err());
}

#[test]
fn half_shape_maps_full_width_marks() {
    assert_eq!(to_half_shape("（你好）。"), "(你好).");
    assert_eq!(to_half_shape("《书》、！：；？"), "“书”,!:;?");
    assert_eq!(to_half_shape("abc"), "abc");
}

#[test]
fn segmentation_separates_scripts() {
    assert_eq!(
        runs("你好，world。"),
        vec![
            (RunKind::Han, "你好".to_string()),
            (RunKind::Punctuation, "，".to_string()),
            (RunKind::Latin, "world".to_string()),
            (RunKind::Punctuation, "。".to_string()),
        ]
    );
}

#[test]
fn segmentation_drops_characters_of_no_run() {
    assert_eq!(
        runs("a\u{1F600}b"),
        vec![(RunKind::Latin, "a".to_string()), (RunKind::Latin, "b".to_string())]
    );
    assert!(runs("").is_empty());
}

#[test]
fn latin_run_keeps_apostrophes_and_quotes_inside() {
    assert_eq!(runs("you're \"x\""), vec![(RunKind::Latin, "you're \"x\"".to_string())]);
    assert_eq!(
        runs("'hi"),
        vec![(RunKind::Punctuation, "'".to_string()), (RunKind::Latin, "hi".to_string())]
    );
}

#[test]
fn latin_pieces_alternate() {
    assert_eq!(split_en_pieces("Hello, world!"), vec!["Hello", ", ", "world", "!"]);
    assert_eq!(split_en_pieces("you're ok"), vec!["you're", " ", "ok"]);
    assert!(split_en_pieces("").is_empty());
}

#[test]
fn word_pieces_start_with_a_letter() {
    assert!(is_en_word_piece("Hello"));
    assert!(is_en_word_piece("'tis"));
    assert!(is_en_word_piece("_x"));
    assert!(!is_en_word_piece("42"));
    assert!(!is_en_word_piece(", "));
    assert!(!is_en_word_piece(""));
}

#[test]
fn comma_does_not_fuse_into_the_next_word() {
    let mut result = String::new();
    for piece in split_en_pieces("Hello, world!") {
        if is_en_word_piece(&piece) {
            let ipa = if piece == "Hello" { "həlˈəʊ" } else { "wˈɜːld" };
            push_en_word(&mut result, ipa);
        } else {
            push_en_other(&mut result, &piece);
        }
    }
    assert_eq!(finish_phonemes(&result), "həlˈəʊ, wˈɜːld!");
}

#[test]
fn word_after_bare_punctuation_gets_a_space() {
    let mut result = "a.".to_string();
    push_en_word(&mut result, "b");
    assert_eq!(result, "a. b");
    let mut result = "a. ".to_string();
    push_en_word(&mut result, "b");
    assert_eq!(result, "a. b");
    let mut result = "a".to_string();
    push_en_word(&mut result, "b");
    assert_eq!(result, "ab");
}

#[test]
fn leading_spaces_collapse_after_a_space() {
    let mut result = "a ".to_string();
    push_en_other(&mut result, "  ,");
    assert_eq!(result, "a ,");
    let mut result = "a".to_string();
    push_en_other(&mut result, "  ,");
    assert_eq!(result, "a  ,");
}

#[test]
fn punctuation_run_attaches_to_the_text_before() {
    let mut result = "ni↓xau↓ ".to_string();
    push_punct_run(&mut result, "，");
    assert_eq!(result, "ni↓xau↓, ");
}

#[test]
fn finishing_fixes_what_and_hw() {
    assert_eq!(finish_phonemes("  hwˈət ɪz  "), "wˈʌt ɪz");
    assert_eq!(finish_phonemes("wˈət"), "wˈʌt");
    assert_eq!(finish_phonemes("hwɛn aɪ hwɪtʃ"), "wɛn aɪ wɪtʃ");
    assert_eq!(finish_phonemes(""), "");
}

#[test]
fn test_g2p() {
    assert_eq!(g2p_with_word_phonemes("你好世界", &Vec::new()).unwrap(), "ni↓xau↓ ʂɻ↘ʨje↘");
}

#[test]
fn english_words_are_the_word_pieces() {
    assert_eq!(english_words("Hello, world! 42 你好 don't"), vec!["Hello", "world", "don't"]);
    assert!(english_words("你好。").is_empty());
}

#[test]
fn sentence_with_given_word_phonemes() {
    let ipa = vec!["həlˈəʊ".to_string(), "wˈɜːld".to_string()];
    assert_eq!(g2p_with_word_phonemes("Hello, world!", &ipa).unwrap(), "həlˈəʊ, wˈɜːld!");
}

#[test]
fn mixed_sentence_attaches_punctuation() {
    let ipa = vec!["aɪ".to_string()];
    assert_eq!(g2p_with_word_phonemes("你好，I", &ipa).unwrap(), "ni↓xau↓, aɪ");
}

#[test]
fn sentence_with_a_dictionary() {
    let dict = Cmudict::from_str("hello HH AH0 L OW1\nworld W ER1 L D\n").unwrap();
    assert_eq!(g2p_dict("Hello, world!", &dict, 0).unwrap(), "həlˈoʊ, wˈɝld!");
    assert_eq!(g2p_dict("OK AI", &dict, 0).unwrap(), "ˈoʊkˈeɪ ˈeɪaɪ");
}
