//! Text front end of a neural speech synthesizer.
//!
//! - `segment`: raw text into Han, punctuation and Latin runs.
//! - `chinese`: pinyin readings to IPA with tone contours.
//! - `english`, `phonemes`, `dictionary`: English words by fixed rules, by a
//!   pronunciation dictionary, or from an outside phonemizer, cleaned.
//! - `g2p`: a sentence's phonemes put together from the above.
//! - `tokenizer_v019`: phoneme strings to token ids.
//! - `synth`, `session`: style-vector selection, sub-chunking, and the state
//!   machine of a streaming synthesis session.

pub mod chars;
pub mod chinese;
pub mod dictionary;
pub mod english;
pub mod g2p;
pub mod phonemes;
pub mod segment;
pub mod session;
pub mod synth;
pub mod tokenizer_v019;
