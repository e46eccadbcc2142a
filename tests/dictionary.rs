use cmudict_fast::Cmudict;
use kokoro_tts::dictionary::{dict_phonemes, dict_phonemes_lowered};
use kokoro_tts::english::letters_to_ipa;
use std::str::FromStr;

fn dict() -> Cmudict {
    Cmudict::from_str(
        "down D AW1 N\ntown T AW1 N\nread R EH1 D\nread(2) R IY1 D\nhello HH AH0 L OW1\nup AH1 P\n",
    )
    .unwrap()
}

#[test]
fn dictionary_word_maps_its_symbols() {
    assert_eq!(dict_phonemes_lowered(&dict(), "Hello", "hello", 0), "həlˈoʊ");
}

#[test]
fn choice_selects_among_pronunciations() {
    let d = dict();
    assert_eq!(dict_phonemes_lowered(&d, "read", "read", 0), "ɹˈɛd");
    assert_eq!(dict_phonemes_lowered(&d, "read", "read", 1), "ɹˈid");
    assert_eq!(dict_phonemes_lowered(&d, "read", "read", 3), "ɹˈid");
}

#[test]
fn compound_word_is_recovered_from_its_parts() {
    assert_eq!(dict_phonemes_lowered(&dict(), "Downtown", "downtown", 0), "dˈaʊntˈaʊn");
}

#[test]
fn prefix_alone_is_no_compound() {
    assert_eq!(dict_phonemes_lowered(&dict(), "Upx", "upx", 0), letters_to_ipa("Upx"));
}

#[test]
fn unknown_word_is_spelled() {
    assert_eq!(dict_phonemes_lowered(&dict(), "Qz", "qz", 0), "kjˈuːzˈiː");
}

#[test]
fn random_pick_is_one_of_the_recorded() {
    let out = dict_phonemes(&dict(), "READ");
    assert!(out == "ɹˈɛd" || out == "ɹˈid");
}
