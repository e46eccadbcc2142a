use kokoro_tts::tokenizer_v019::{get_token_ids_v019, load_vocab_from_tokens, vocab_v019};

#[test]
fn test_vocab_loading() {
    let vocab = vocab_v019();
    assert!(vocab.len() > 150, "Should have 170+ tokens, got {}", vocab.len());

    assert_eq!(vocab.get(&'$'), Some(&0));
    assert_eq!(vocab.get(&';'), Some(&1));
    assert_eq!(vocab.get(&'ɝ'), Some(&88));
    assert_eq!(vocab.get(&'ɚ'), Some(&85));
    assert_eq!(vocab.get(&'ˈ'), Some(&156));
    assert_eq!(vocab.get(&'a'), Some(&43));
    assert_eq!(vocab.get(&'z'), Some(&68));
}

#[test]
fn test_tokenization() {
    let tokens = get_token_ids_v019("hello");
    assert_eq!(tokens[0], 0);
    assert_eq!(tokens[tokens.len() - 1], 0);
    assert!(tokens.len() > 2);
}

#[test]
fn token_ids_are_exact() {
    assert_eq!(get_token_ids_v019("hello"), vec![0, 50, 47, 54, 54, 57, 0]);
    assert_eq!(get_token_ids_v019("ˈa"), vec![0, 156, 43, 0]);
}

#[test]
fn empty_phonemes_give_the_two_markers() {
    assert_eq!(get_token_ids_v019(""), vec![0, 0]);
}

#[test]
fn unknown_characters_are_skipped() {
    assert_eq!(get_token_ids_v019("a\u{4e00}b\t"), vec![0, 43, 44, 0]);
    assert_eq!(get_token_ids_v019("\u{4e00}"), vec![0, 0]);
}

#[test]
fn every_vocabulary_frames_with_zero() {
    let vocab = load_vocab_from_tokens("x 5\ny 6\n");
    assert_eq!(vocab.token_ids("xyzx"), vec![0, 5, 6, 5, 0]);
}

#[test]
fn loader_skips_malformed_lines() {
    let vocab = load_vocab_from_tokens("a 1\nb\n\nc 300\nd x\n  e   7 extra  \r\nfg +9\nh -1\n");
    assert_eq!(vocab.len(), 3);
    assert_eq!(vocab.get(&'a'), Some(&1));
    assert_eq!(vocab.get(&'b'), None);
    assert_eq!(vocab.get(&'c'), None);
    assert_eq!(vocab.get(&'d'), None);
    assert_eq!(vocab.get(&'e'), Some(&7));
    assert_eq!(vocab.get(&'f'), Some(&9));
    assert_eq!(vocab.get(&'h'), None);
}

#[test]
fn loader_takes_the_last_line_for_a_repeated_key() {
    let vocab = load_vocab_from_tokens("q 1\nq 2");
    assert_eq!(vocab.len(), 1);
    assert_eq!(vocab.get(&'q'), Some(&2));
}

#[test]
fn loader_accepts_the_largest_id() {
    let vocab = load_vocab_from_tokens("m 255\nn 256\nk 007");
    assert_eq!(vocab.get(&'m'), Some(&255));
    assert_eq!(vocab.get(&'n'), None);
    assert_eq!(vocab.get(&'k'), Some(&7));
}

#[test]
fn built_in_table_size() {
    assert_eq!(vocab_v019().len(), 176);
    assert_eq!(vocab_v019().get(&' '), None);
}
