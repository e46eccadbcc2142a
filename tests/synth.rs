use kokoro_tts::synth::{
    check_voices_v019_len, offset_v019, select_generation, split_chunks, style_index,
    style_vector, style_vector_nested, ModelGeneration, VOICES_V019_BYTES,
};

#[test]
fn style_index_is_clamped() {
    assert_eq!(style_index(10, 511), Some(9));
    assert_eq!(style_index(600, 511), Some(510));
    assert_eq!(style_index(1, 5), Some(0));
    assert_eq!(style_index(3, 0), None);
    assert_eq!(style_index(0, 5), None);
}

#[test]
fn style_vector_falls_back_to_zeros() {
    let pack = vec![vec![1, 1], vec![2, 2], vec![3, 3]];
    assert_eq!(style_vector(&pack, 2, 0, 2), vec![2, 2]);
    assert_eq!(style_vector(&pack, 9, 0, 2), vec![3, 3]);
    let empty: Vec<Vec<i32>> = Vec::new();
    assert_eq!(style_vector(&empty, 2, 0, 4), vec![0, 0, 0, 0]);
}

#[test]
fn nested_style_vector_takes_the_first_entry() {
    let pack = vec![vec![vec![1.5f32, 2.5]], vec![]];
    assert_eq!(style_vector_nested(&pack, 1, 0.0, 2), vec![1.5, 2.5]);
    assert_eq!(style_vector_nested(&pack, 2, 0.0, 3), vec![0.0, 0.0, 0.0]);
}

#[test]
fn chunks_rejoin_to_the_input() {
    let tokens: Vec<i64> = (0..1200).collect();
    let chunks = split_chunks(&tokens, 510);
    assert_eq!(chunks.len(), 3);
    assert_eq!(chunks[0].len(), 510);
    assert_eq!(chunks[2].len(), 180);
    assert_eq!(chunks.concat(), tokens);
}

#[test]
fn short_sequence_is_one_chunk() {
    let tokens = vec![0, 5, 0];
    assert_eq!(split_chunks(&tokens, 510), vec![tokens.clone()]);
    assert_eq!(split_chunks(&tokens, 3), vec![tokens.clone()]);
    assert!(split_chunks(&Vec::new(), 4).is_empty());
    assert!(split_chunks(&tokens, 0).is_empty());
}

#[test]
fn generation_prefers_the_current_model() {
    assert_eq!(select_generation(true, true), Some(ModelGeneration::V11));
    assert_eq!(select_generation(true, false), Some(ModelGeneration::V10));
    assert_eq!(select_generation(false, false), None);
}

#[test]
fn legacy_voice_file_layout() {
    assert_eq!(VOICES_V019_BYTES, 11 * 511 * 256 * 4);
    assert!(check_voices_v019_len(VOICES_V019_BYTES).is_ok());
    assert_eq!(check_voices_v019_len(12), Err(VOICES_V019_BYTES));
    assert_eq!(offset_v019(0, 0, 0), 0);
    assert_eq!(offset_v019(1, 2, 3), (130816 + 2 * 256 + 3) * 4);
    assert_eq!(offset_v019(10, 510, 255) + 4, VOICES_V019_BYTES);
}
