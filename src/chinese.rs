//! Chinese phonemization: pinyin readings mapped to IPA with tone contours,
//! over the words that a dictionary segmenter finds in a Han run.

use crate::chars::{chars_of, push_char, push_str, same_chars};
use crate::phonemes::slice_of;
use crate::segment::{half_shape, to_half_shape};
use pinyin::ToPinyin;
use vstd::prelude::*;

verus! {

/// An error of the grapheme-to-phoneme conversion.
#[derive(Debug)]
pub enum G2PError {
    /// A pinyin reading that the syllable tables do not cover.
    Pinyin(String),
}

/// The tone-numbered pinyin reading of `c` (tone digit last, none for the
/// neutral tone), if it has one.
pub uninterp spec fn pinyin_of(c: char) -> Option<Seq<char>>;

/// The words that the dictionary segmenter finds in `s`.
pub uninterp spec fn jieba_words(s: Seq<char>) -> Seq<Seq<char>>;

/// Relies on `pinyin::ToPinyin` for `char` and `Pinyin::with_tone_num_end`:
/// the first reading of `c` with its tone number at the end, or `None` when
/// the data has no reading for `c`.
#[verifier::external_body]
fn pinyin_reading(c: char) -> (r: Option<&'static str>)
    ensures
        r matches Some(p) ==> pinyin_of(c) == Some(p@),
        r is None ==> pinyin_of(c) is None,
{
    c.to_pinyin().map(|p| p.with_tone_num_end())
}

/// Relies on `jieba_rs::Jieba::new` and `Jieba::cut` with the hidden Markov
/// model on: the words of `s` under the built-in dictionary, in order.
#[verifier::external_body]
fn cut_words(s: &str) -> (r: Vec<String>)
    ensures
        r@.map_values(|w: String| w@) == jieba_words(s@),
{
    jieba_rs::Jieba::new().cut(s, true).into_iter().map(|w| w.to_string()).collect()
}

/// The sound of a pinyin initial.
pub open spec fn initial_ipa(s: Seq<char>) -> Option<Seq<char>> {
    if s == "zh"@ {
        Some("ʈʂ"@)
    } else if s == "ch"@ {
        Some("ʈʂʰ"@)
    } else if s == "sh"@ {
        Some("ʂ"@)
    } else if s == "b"@ {
        Some("p"@)
    } else if s == "p"@ {
        Some("pʰ"@)
    } else if s == "m"@ {
        Some("m"@)
    } else if s == "f"@ {
        Some("f"@)
    } else if s == "d"@ {
        Some("t"@)
    } else if s == "t"@ {
        Some("tʰ"@)
    } else if s == "n"@ {
        Some("n"@)
    } else if s == "l"@ {
        Some("l"@)
    } else if s == "g"@ {
        Some("k"@)
    } else if s == "k"@ {
        Some("kʰ"@)
    } else if s == "h"@ {
        Some("x"@)
    } else if s == "j"@ {
        Some("ʨ"@)
    } else if s == "q"@ {
        Some("ʨʰ"@)
    } else if s == "x"@ {
        Some("ɕ"@)
    } else if s == "r"@ {
        Some("ɻ"@)
    } else if s == "z"@ {
        Some("ʦ"@)
    } else if s == "c"@ {
        Some("ʦʰ"@)
    } else if s == "s"@ {
        Some("s"@)
    } else {
        None
    }
}

/// The sound of a pinyin final, written after an initial.
pub open spec fn final_ipa(s: Seq<char>) -> Option<Seq<char>> {
    if s == "a"@ {
        Some("a"@)
    } else if s == "o"@ {
        Some("o"@)
    } else if s == "e"@ {
        Some("ɤ"@)
    } else if s == "ai"@ {
        Some("ai"@)
    } else if s == "ei"@ {
        Some("ei"@)
    } else if s == "ao"@ {
        Some("au"@)
    } else if s == "ou"@ {
        Some("ou"@)
    } else if s == "an"@ {
        Some("an"@)
    } else if s == "en"@ {
        Some("ən"@)
    } else if s == "ang"@ {
        Some("aŋ"@)
    } else if s == "eng"@ {
        Some("əŋ"@)
    } else if s == "ong"@ {
        Some("ʊŋ"@)
    } else if s == "er"@ {
        Some("ɚ"@)
    } else if s == "i"@ {
        Some("i"@)
    } else if s == "ia"@ {
        Some("ja"@)
    } else if s == "ie"@ {
        Some("je"@)
    } else if s == "iao"@ {
        Some("jau"@)
    } else if s == "iu"@ {
        Some("jou"@)
    } else if s == "ian"@ {
        Some("jɛn"@)
    } else if s == "in"@ {
        Some("in"@)
    } else if s == "iang"@ {
        Some("jaŋ"@)
    } else if s == "ing"@ {
        Some("iŋ"@)
    } else if s == "iong"@ {
        Some("jʊŋ"@)
    } else if s == "u"@ {
        Some("u"@)
    } else if s == "ua"@ {
        Some("wa"@)
    } else if s == "uo"@ {
        Some("wo"@)
    } else if s == "uai"@ {
        Some("wai"@)
    } else if s == "ui"@ {
        Some("wei"@)
    } else if s == "uan"@ {
        Some("wan"@)
    } else if s == "un"@ {
        Some("wən"@)
    } else if s == "uang"@ {
        Some("waŋ"@)
    } else if s == "ü"@ {
        Some("y"@)
    } else if s == "üe"@ {
        Some("ɥe"@)
    } else if s == "üan"@ {
        Some("ɥɛn"@)
    } else if s == "ün"@ {
        Some("yn"@)
    } else if s == "m"@ {
        Some("m"@)
    } else if s == "n"@ {
        Some("n"@)
    } else if s == "ng"@ {
        Some("ŋ"@)
    } else {
        None
    }
}

/// The sound of a syllable spelled with `y` or `w` in place of an initial.
pub open spec fn whole_syllable_ipa(s: Seq<char>) -> Option<Seq<char>> {
    if s == "yi"@ {
        Some("i"@)
    } else if s == "ya"@ {
        Some("ja"@)
    } else if s == "yo"@ {
        Some("jo"@)
    } else if s == "ye"@ {
        Some("je"@)
    } else if s == "yao"@ {
        Some("jau"@)
    } else if s == "you"@ {
        Some("jou"@)
    } else if s == "yan"@ {
        Some("jɛn"@)
    } else if s == "yin"@ {
        Some("in"@)
    } else if s == "yang"@ {
        Some("jaŋ"@)
    } else if s == "ying"@ {
        Some("iŋ"@)
    } else if s == "yong"@ {
        Some("jʊŋ"@)
    } else if s == "yu"@ {
        Some("y"@)
    } else if s == "yue"@ {
        Some("ɥe"@)
    } else if s == "yuan"@ {
        Some("ɥɛn"@)
    } else if s == "yun"@ {
        Some("yn"@)
    } else if s == "wu"@ {
        Some("u"@)
    } else if s == "wa"@ {
        Some("wa"@)
    } else if s == "wo"@ {
        Some("wo"@)
    } else if s == "wai"@ {
        Some("wai"@)
    } else if s == "wei"@ {
        Some("wei"@)
    } else if s == "wan"@ {
        Some("wan"@)
    } else if s == "wen"@ {
        Some("wən"@)
    } else if s == "wang"@ {
        Some("waŋ"@)
    } else if s == "weng"@ {
        Some("wəŋ"@)
    } else if s == "wong"@ {
        Some("wʊŋ"@)
    } else {
        None
    }
}

/// Looks up a pinyin initial.
fn initial_ipa_of(s: &Vec<char>) -> (r: Option<&'static str>)
    ensures
        r matches Some(p) ==> initial_ipa(s@) == Some(p@),
        r is None ==> initial_ipa(s@) is None,
{
    if same_chars(s, "zh") {
        Some("ʈʂ")
    } else if same_chars(s, "ch") {
        Some("ʈʂʰ")
    } else if same_chars(s, "sh") {
        Some("ʂ")
    } else if same_chars(s, "b") {
        Some("p")
    } else if same_chars(s, "p") {
        Some("pʰ")
    } else if same_chars(s, "m") {
        Some("m")
    } else if same_chars(s, "f") {
        Some("f")
    } else if same_chars(s, "d") {
        Some("t")
    } else if same_chars(s, "t") {
        Some("tʰ")
    } else if same_chars(s, "n") {
        Some("n")
    } else if same_chars(s, "l") {
        Some("l")
    } else if same_chars(s, "g") {
        Some("k")
    } else if same_chars(s, "k") {
        Some("kʰ")
    } else if same_chars(s, "h") {
        Some("x")
    } else if same_chars(s, "j") {
        Some("ʨ")
    } else if same_chars(s, "q") {
        Some("ʨʰ")
    } else if same_chars(s, "x") {
        Some("ɕ")
    } else if same_chars(s, "r") {
        Some("ɻ")
    } else if same_chars(s, "z") {
        Some("ʦ")
    } else if same_chars(s, "c") {
        Some("ʦʰ")
    } else if same_chars(s, "s") {
        Some("s")
    } else {
        None
    }
}

/// Looks up a pinyin final.
fn final_ipa_of(s: &Vec<char>) -> (r: Option<&'static str>)
    ensures
        r matches Some(p) ==> final_ipa(s@) == Some(p@),
        r is None ==> final_ipa(s@) is None,
{
    if same_chars(s, "a") {
        Some("a")
    } else if same_chars(s, "o") {
        Some("o")
    } else if same_chars(s, "e") {
        Some("ɤ")
    } else if same_chars(s, "ai") {
        Some("ai")
    } else if same_chars(s, "ei") {
        Some("ei")
    } else if same_chars(s, "ao") {
        Some("au")
    } else if same_chars(s, "ou") {
        Some("ou")
    } else if same_chars(s, "an") {
        Some("an")
    } else if same_chars(s, "en") {
        Some("ən")
    } else if same_chars(s, "ang") {
        Some("aŋ")
    } else if same_chars(s, "eng") {
        Some("əŋ")
    } else if same_chars(s, "ong") {
        Some("ʊŋ")
    } else if same_chars(s, "er") {
        Some("ɚ")
    } else if same_chars(s, "i") {
        Some("i")
    } else if same_chars(s, "ia") {
        Some("ja")
    } else if same_chars(s, "ie") {
        Some("je")
    } else if same_chars(s, "iao") {
        Some("jau")
    } else if same_chars(s, "iu") {
        Some("jou")
    } else if same_chars(s, "ian") {
        Some("jɛn")
    } else if same_chars(s, "in") {
        Some("in")
    } else if same_chars(s, "iang") {
        Some("jaŋ")
    } else if same_chars(s, "ing") {
        Some("iŋ")
    } else if same_chars(s, "iong") {
        Some("jʊŋ")
    } else if same_chars(s, "u") {
        Some("u")
    } else if same_chars(s, "ua") {
        Some("wa")
    } else if same_chars(s, "uo") {
        Some("wo")
    } else if same_chars(s, "uai") {
        Some("wai")
    } else if same_chars(s, "ui") {
        Some("wei")
    } else if same_chars(s, "uan") {
        Some("wan")
    } else if same_chars(s, "un") {
        Some("wən")
    } else if same_chars(s, "uang") {
        Some("waŋ")
    } else if same_chars(s, "ü") {
        Some("y")
    } else if same_chars(s, "üe") {
        Some("ɥe")
    } else if same_chars(s, "üan") {
        Some("ɥɛn")
    } else if same_chars(s, "ün") {
        Some("yn")
    } else if same_chars(s, "m") {
        Some("m")
    } else if same_chars(s, "n") {
        Some("n")
    } else if same_chars(s, "ng") {
        Some("ŋ")
    } else {
        None
    }
}

/// Looks up a syllable spelled with `y` or `w`.
fn whole_syllable_ipa_of(s: &Vec<char>) -> (r: Option<&'static str>)
    ensures
        r matches Some(p) ==> whole_syllable_ipa(s@) == Some(p@),
        r is None ==> whole_syllable_ipa(s@) is None,
{
    if same_chars(s, "yi") {
        Some("i")
    } else if same_chars(s, "ya") {
        Some("ja")
    } else if same_chars(s, "yo") {
        Some("jo")
    } else if same_chars(s, "ye") {
        Some("je")
    } else if same_chars(s, "yao") {
        Some("jau")
    } else if same_chars(s, "you") {
        Some("jou")
    } else if same_chars(s, "yan") {
        Some("jɛn")
    } else if same_chars(s, "yin") {
        Some("in")
    } else if same_chars(s, "yang") {
        Some("jaŋ")
    } else if same_chars(s, "ying") {
        Some("iŋ")
    } else if same_chars(s, "yong") {
        Some("jʊŋ")
    } else if same_chars(s, "yu") {
        Some("y")
    } else if same_chars(s, "yue") {
        Some("ɥe")
    } else if same_chars(s, "yuan") {
        Some("ɥɛn")
    } else if same_chars(s, "yun") {
        Some("yn")
    } else if same_chars(s, "wu") {
        Some("u")
    } else if same_chars(s, "wa") {
        Some("wa")
    } else if same_chars(s, "wo") {
        Some("wo")
    } else if same_chars(s, "wai") {
        Some("wai")
    } else if same_chars(s, "wei") {
        Some("wei")
    } else if same_chars(s, "wan") {
        Some("wan")
    } else if same_chars(s, "wen") {
        Some("wən")
    } else if same_chars(s, "wang") {
        Some("waŋ")
    } else if same_chars(s, "weng") {
        Some("wəŋ")
    } else if same_chars(s, "wong") {
        Some("wʊŋ")
    } else {
        None
    }
}

/// The contour mark of a tone number.
pub open spec fn tone_mark(c: char) -> Option<Seq<char>> {
    if c == '1' {
        Some("→"@)
    } else if c == '2' {
        Some("↗"@)
    } else if c == '3' {
        Some("↓"@)
    } else if c == '4' {
        Some("↘"@)
    } else {
        None
    }
}

fn tone_mark_of(c: char) -> (r: Option<&'static str>)
    ensures
        r matches Some(p) ==> tone_mark(c) == Some(p@),
        r is None ==> tone_mark(c) is None,
{
    if c == '1' {
        Some("→")
    } else if c == '2' {
        Some("↗")
    } else if c == '3' {
        Some("↓")
    } else if c == '4' {
        Some("↘")
    } else {
        None
    }
}

/// How many letters of the syllable body `b` form its initial: `zh`, `ch`
/// or `sh`, or one consonant, when a final follows.
pub open spec fn initial_len(b: Seq<char>) -> int {
    if b.len() > 2 && (b[0] == 'z' || b[0] == 'c' || b[0] == 's') && b[1] == 'h' {
        2
    } else if b.len() > 1 && initial_ipa(seq![b[0]]) is Some {
        1
    } else {
        0
    }
}

/// The sound of final `fin` after initial `ini`: the apical vowels after
/// the sibilants, `u` read as `ü` after `j`, `q` and `x`.
pub open spec fn final_after(ini: Seq<char>, fin: Seq<char>) -> Option<Seq<char>> {
    if fin == "i"@ && (ini == "z"@ || ini == "c"@ || ini == "s"@) {
        Some("ɹ"@)
    } else if fin == "i"@ && (ini == "zh"@ || ini == "ch"@ || ini == "sh"@ || ini == "r"@) {
        Some("ɻ"@)
    } else if (ini == "j"@ || ini == "q"@ || ini == "x"@) && fin.len() > 0 && fin[0] == 'u' {
        final_ipa(seq!['ü'] + fin.drop_first())
    } else {
        final_ipa(fin)
    }
}

/// The sound of a toneless pinyin syllable.
pub open spec fn body_ipa(b: Seq<char>) -> Option<Seq<char>> {
    if whole_syllable_ipa(b) is Some {
        whole_syllable_ipa(b)
    } else if initial_len(b) == 0 {
        final_ipa(b)
    } else {
        let ini = b.subrange(0, initial_len(b));
        let fin = b.subrange(initial_len(b), b.len() as int);
        if initial_ipa(ini) is Some && final_after(ini, fin) is Some {
            Some(initial_ipa(ini)->0 + final_after(ini, fin)->0)
        } else {
            None
        }
    }
}

/// The IPA of a tone-numbered pinyin syllable: the syllable's sound followed
/// by its tone contour (nothing for the neutral tone).
pub open spec fn syllable_ipa(p: Seq<char>) -> Option<Seq<char>> {
    if p.len() > 0 && tone_mark(p.last()) is Some {
        match body_ipa(p.drop_last()) {
            Some(b) => Some(b + tone_mark(p.last())->0),
            None => None,
        }
    } else {
        body_ipa(p)
    }
}

fn final_after_of(ini: &Vec<char>, fin: &Vec<char>) -> (r: Option<&'static str>)
    ensures
        r matches Some(p) ==> final_after(ini@, fin@) == Some(p@),
        r is None ==> final_after(ini@, fin@) is None,
{
    let is_i = same_chars(fin, "i");
    if is_i && (same_chars(ini, "z") || same_chars(ini, "c") || same_chars(ini, "s")) {
        Some("ɹ")
    } else if is_i && (same_chars(ini, "zh") || same_chars(ini, "ch") || same_chars(ini, "sh")
        || same_chars(ini, "r")) {
        Some("ɻ")
    } else if (same_chars(ini, "j") || same_chars(ini, "q") || same_chars(ini, "x")) && fin.len()
        > 0 && fin[0] == 'u' {
        let mut f: Vec<char> = Vec::new();
        f.push('ü');
        let rest = slice_of(fin, 1, fin.len());
        for i in 0..rest.len()
            invariant
                f@ == seq!['ü'] + rest@.subrange(0, i as int),
        {
            f.push(rest[i]);
            assert(f@ =~= seq!['ü'] + rest@.subrange(0, i + 1));
        }
        assert(rest@ =~= fin@.drop_first());
        assert(rest@.subrange(0, rest@.len() as int) =~= rest@);
        final_ipa_of(&f)
    } else {
        final_ipa_of(fin)
    }
}

fn body_ipa_of(b: &Vec<char>) -> (r: Option<String>)
    ensures
        r matches Some(p) ==> body_ipa(b@) == Some(p@),
        r is None ==> body_ipa(b@) is None,
{
    if let Some(w) = whole_syllable_ipa_of(b) {
        return Some(w.to_owned());
    }
    let mut k: usize = 0;
    if b.len() > 2 && (b[0] == 'z' || b[0] == 'c' || b[0] == 's') && b[1] == 'h' {
        k = 2;
    } else if b.len() > 1 {
        let first = vec![b[0]];
        assert(first@ =~= seq![b@[0]]);
        if initial_ipa_of(&first).is_some() {
            k = 1;
        }
    }
    assert(k == initial_len(b@));
    if k == 0 {
        return match final_ipa_of(b) {
            Some(f) => Some(f.to_owned()),
            None => None,
        };
    }
    let ini = slice_of(b, 0, k);
    let fin = slice_of(b, k, b.len());
    match (initial_ipa_of(&ini), final_after_of(&ini, &fin)) {
        (Some(a), Some(f)) => {
            let mut r = a.to_owned();
            push_str(&mut r, f);
            Some(r)
        },
        _ => None,
    }
}

/// Maps a tone-numbered pinyin syllable to IPA with its tone contour.
pub fn py2ipa(reading: &str) -> (r: Result<String, G2PError>)
    ensures
        r matches Ok(p) ==> syllable_ipa(reading@) == Some(p@),
        r is Err ==> syllable_ipa(reading@) is None,
{
    let p = chars_of(reading);
    if p.len() > 0 {
        if let Some(t) = tone_mark_of(p[p.len() - 1]) {
            let body = slice_of(&p, 0, p.len() - 1);
            assert(body@ =~= p@.drop_last());
            return match body_ipa_of(&body) {
                Some(b) => {
                    let mut r = b;
                    push_str(&mut r, t);
                    Ok(r)
                },
                None => Err(G2PError::Pinyin(reading.to_owned())),
            };
        }
    }
    match body_ipa_of(&p) {
        Some(b) => Ok(b),
        None => Err(G2PError::Pinyin(reading.to_owned())),
    }
}

/// The IPA of one character: its pinyin reading mapped to IPA, or the
/// character itself when it has no reading.
pub open spec fn zh_char_ipa(c: char) -> Option<Seq<char>> {
    match pinyin_of(c) {
        Some(p) => syllable_ipa(p),
        None => Some(seq![c]),
    }
}

/// The IPA of a word: its characters' IPA run together; `None` when a
/// reading is not covered by the tables.
pub open spec fn zh_word_ipa(w: Seq<char>) -> Option<Seq<char>>
    decreases w.len(),
{
    if w.len() == 0 {
        Some(Seq::empty())
    } else {
        match (zh_word_ipa(w.drop_last()), zh_char_ipa(w.last())) {
            (Some(a), Some(b)) => Some(a + b),
            _ => None,
        }
    }
}

/// Converts a Chinese word to IPA character by character.
pub fn word2ipa_zh(word: &str) -> (r: Result<String, G2PError>)
    ensures
        r matches Ok(p) ==> zh_word_ipa(word@) == Some(p@),
        r is Err ==> zh_word_ipa(word@) is None,
{
    let w = chars_of(word);
    let mut result = String::new();
    for i in 0..w.len()
        invariant
            w@ == word@,
            zh_word_ipa(w@.subrange(0, i as int)) == Some(result@),
    {
        let c = w[i];
        assert(w@.subrange(0, i + 1).drop_last() =~= w@.subrange(0, i as int));
        match pinyin_reading(c) {
            None => push_char(&mut result, c),
            Some(p) => match py2ipa(p) {
                Ok(s) => push_str(&mut result, s.as_str()),
                Err(e) => {
                    proof {
                        lemma_zh_word_fails(w@, i + 1);
                    }
                    return Err(e);
                },
            },
        }
    }
    assert(w@.subrange(0, w.len() as int) =~= w@);
    Ok(result)
}

proof fn lemma_zh_word_fails(w: Seq<char>, k: int)
    requires
        0 < k <= w.len(),
        zh_word_ipa(w.subrange(0, k)) is None,
    ensures
        zh_word_ipa(w) is None,
    decreases w.len() - k,
{
    if k < w.len() {
        assert(w.subrange(0, k + 1).drop_last() =~= w.subrange(0, k));
        lemma_zh_word_fails(w, k + 1);
    } else {
        assert(w.subrange(0, k) =~= w);
    }
}

/// The IPA of a sequence of words, each followed by a space.
pub open spec fn zh_words_ipa(ws: Seq<Seq<char>>) -> Option<Seq<char>>
    decreases ws.len(),
{
    if ws.len() == 0 {
        Some(Seq::empty())
    } else {
        match (zh_words_ipa(ws.drop_last()), zh_word_ipa(ws.last())) {
            (Some(a), Some(b)) => Some(a + b.push(' ')),
            _ => None,
        }
    }
}

/// Converts words to IPA, each followed by a space.
pub fn words2ipa_zh(words: &Vec<String>) -> (r: Result<String, G2PError>)
    ensures
        r matches Ok(p) ==> zh_words_ipa(words@.map_values(|w: String| w@)) == Some(p@),
        r is Err ==> zh_words_ipa(words@.map_values(|w: String| w@)) is None,
{
    let ghost ws = words@.map_values(|w: String| w@);
    let mut result = String::new();
    for i in 0..words.len()
        invariant
            ws == words@.map_values(|w: String| w@),
            zh_words_ipa(ws.subrange(0, i as int)) == Some(result@),
    {
        assert(ws.subrange(0, i + 1).drop_last() =~= ws.subrange(0, i as int));
        assert(ws.subrange(0, i + 1).last() == words@[i as int]@);
        match word2ipa_zh(words[i].as_str()) {
            Ok(s) => {
                push_str(&mut result, s.as_str());
                push_char(&mut result, ' ');
            },
            Err(e) => {
                proof {
                    lemma_zh_words_fail(ws, i + 1);
                }
                return Err(e);
            },
        }
    }
    assert(ws.subrange(0, words.len() as int) =~= ws);
    Ok(result)
}

proof fn lemma_zh_words_fail(ws: Seq<Seq<char>>, k: int)
    requires
        0 < k <= ws.len(),
        zh_words_ipa(ws.subrange(0, k)) is None,
    ensures
        zh_words_ipa(ws) is None,
    decreases ws.len() - k,
{
    if k < ws.len() {
        assert(ws.subrange(0, k + 1).drop_last() =~= ws.subrange(0, k));
        lemma_zh_words_fail(ws, k + 1);
    } else {
        assert(ws.subrange(0, k) =~= ws);
    }
}

/// Converts a run of Han text to IPA: full-width punctuation made
/// half-width, the run cut into dictionary words, and each word's IPA
/// followed by a space.
pub fn han_run_ipa(run: &str) -> (r: Result<String, G2PError>)
    ensures
        r matches Ok(p) ==> zh_words_ipa(jieba_words(half_shape(run@))) == Some(p@),
        r is Err ==> zh_words_ipa(jieba_words(half_shape(run@))) is None,
{
    let text = to_half_shape(run);
    let words = cut_words(text.as_str());
    words2ipa_zh(&words)
}

} // verus!
