//! English word phonemization: the fixed tables for contractions,
//! abbreviations and letter names, and the clean-up of what an external
//! phonemizer returns for one word.

use crate::chars::{chars_of, push_char, push_str, same_chars};
use vstd::prelude::*;

verus! {

/// What `str::to_lowercase` returns for `s`.
pub uninterp spec fn lower_of(s: Seq<char>) -> Seq<char>;

pub open spec fn is_ascii_seq(s: Seq<char>) -> bool {
    forall|i: int| 0 <= i < s.len() ==> (#[trigger] s[i] as u32) < 128
}

pub open spec fn ascii_lower_char(c: char) -> char {
    if 'A' <= c && c <= 'Z' {
        ((c as u32) + 32) as char
    } else {
        c
    }
}

/// `s` with its ASCII capitals made small.
pub open spec fn ascii_lower(s: Seq<char>) -> Seq<char> {
    s.map_values(|c: char| ascii_lower_char(c))
}

/// Relies on `str::to_lowercase`: the Unicode lower-case form of `s`, which
/// depends on `s` alone; on ASCII text it lowers the capitals A to Z.
#[verifier::external_body]
pub(crate) fn lowercase(s: &str) -> (r: String)
    ensures
        r@ == lower_of(s@),
        is_ascii_seq(s@) ==> r@ == ascii_lower(s@),
{
    s.to_lowercase()
}

/// The contraction table, keyed by the lower-case word: each form with an
/// apostrophe and the same letters without one.
pub open spec fn contraction_ipa(w: Seq<char>) -> Option<Seq<char>> {
    if w == "you're"@ || w == "youre"@ {
        Some("jɔːɹ"@)
    } else if w == "they're"@ || w == "theyre"@ {
        Some("ðɛɹ"@)
    } else if w == "we're"@ || w == "were"@ {
        Some("wɪɹ"@)
    } else if w == "you'll"@ || w == "youll"@ {
        Some("juːl"@)
    } else if w == "i'll"@ || w == "ill"@ {
        Some("aɪl"@)
    } else if w == "he'll"@ || w == "hell"@ {
        Some("hiːl"@)
    } else if w == "she'll"@ || w == "shell"@ {
        Some("ʃiːl"@)
    } else if w == "we'll"@ || w == "well"@ {
        Some("wiːl"@)
    } else if w == "they'll"@ || w == "theyll"@ {
        Some("ðeɪl"@)
    } else if w == "won't"@ || w == "wont"@ {
        Some("woʊnt"@)
    } else if w == "can't"@ || w == "cant"@ {
        Some("kænt"@)
    } else if w == "don't"@ || w == "dont"@ {
        Some("doʊnt"@)
    } else if w == "doesn't"@ || w == "doesnt"@ {
        Some("dʌzənt"@)
    } else if w == "didn't"@ || w == "didnt"@ {
        Some("dɪdənt"@)
    } else if w == "wouldn't"@ || w == "wouldnt"@ {
        Some("wʊdənt"@)
    } else if w == "shouldn't"@ || w == "shouldnt"@ {
        Some("ʃʊdənt"@)
    } else if w == "couldn't"@ || w == "couldnt"@ {
        Some("kʊdənt"@)
    } else if w == "i'm"@ || w == "im"@ {
        Some("aɪm"@)
    } else if w == "that's"@ || w == "thats"@ {
        Some("ðæts"@)
    } else if w == "what's"@ || w == "whats"@ {
        Some("wʌts"@)
    } else if w == "it's"@ || w == "its"@ {
        Some("ɪts"@)
    } else if w == "let's"@ || w == "lets"@ {
        Some("lɛts"@)
    } else {
        None
    }
}

/// The abbreviation table, keyed by the lower-case word.
pub open spec fn abbreviation_ipa(w: Seq<char>) -> Option<Seq<char>> {
    if w == "ai"@ {
        Some("ˈeɪaɪ"@)
    } else if w == "ui"@ {
        Some("juːˈaɪ"@)
    } else if w == "api"@ {
        Some("ˈeɪpiːˈaɪ"@)
    } else if w == "cpu"@ {
        Some("siːpiːjˈuː"@)
    } else if w == "gpu"@ {
        Some("dʒiːpiːjˈuː"@)
    } else if w == "usb"@ {
        Some("juːˈɛsbiː"@)
    } else {
        None
    }
}

/// The name of an ASCII letter, either case.
pub open spec fn letter_name(c: char) -> Option<Seq<char>> {
    if c == 'a' || c == 'A' {
        Some("ˈeɪ"@)
    } else if c == 'b' || c == 'B' {
        Some("bˈiː"@)
    } else if c == 'c' || c == 'C' {
        Some("sˈiː"@)
    } else if c == 'd' || c == 'D' {
        Some("dˈiː"@)
    } else if c == 'e' || c == 'E' {
        Some("ˈiː"@)
    } else if c == 'f' || c == 'F' {
        Some("ˈɛf"@)
    } else if c == 'g' || c == 'G' {
        Some("dʒˈiː"@)
    } else if c == 'h' || c == 'H' {
        Some("ˈeɪtʃ"@)
    } else if c == 'i' || c == 'I' {
        Some("ˈaɪ"@)
    } else if c == 'j' || c == 'J' {
        Some("dʒˈeɪ"@)
    } else if c == 'k' || c == 'K' {
        Some("kˈeɪ"@)
    } else if c == 'l' || c == 'L' {
        Some("ˈɛl"@)
    } else if c == 'm' || c == 'M' {
        Some("ˈɛm"@)
    } else if c == 'n' || c == 'N' {
        Some("ˈɛn"@)
    } else if c == 'o' || c == 'O' {
        Some("ˈoʊ"@)
    } else if c == 'p' || c == 'P' {
        Some("pˈiː"@)
    } else if c == 'q' || c == 'Q' {
        Some("kjˈuː"@)
    } else if c == 'r' || c == 'R' {
        Some("ˈɑːɹ"@)
    } else if c == 's' || c == 'S' {
        Some("ˈɛs"@)
    } else if c == 't' || c == 'T' {
        Some("tˈiː"@)
    } else if c == 'u' || c == 'U' {
        Some("jˈuː"@)
    } else if c == 'v' || c == 'V' {
        Some("vˈiː"@)
    } else if c == 'w' || c == 'W' {
        Some("dˈʌbəljuː"@)
    } else if c == 'x' || c == 'X' {
        Some("ˈɛks"@)
    } else if c == 'y' || c == 'Y' {
        Some("wˈaɪ"@)
    } else if c == 'z' || c == 'Z' {
        Some("zˈiː"@)
    } else {
        None
    }
}

/// Looks `lower` up in the contraction table.
pub fn contraction_phonemes(lower: &str) -> (r: Option<&'static str>)
    ensures
        r matches Some(p) ==> contraction_ipa(lower@) == Some(p@),
        r is None ==> contraction_ipa(lower@) is None,
{
    let w = chars_of(lower);
    if same_chars(&w, "you're") || same_chars(&w, "youre") {
        Some("jɔːɹ")
    } else if same_chars(&w, "they're") || same_chars(&w, "theyre") {
        Some("ðɛɹ")
    } else if same_chars(&w, "we're") || same_chars(&w, "were") {
        Some("wɪɹ")
    } else if same_chars(&w, "you'll") || same_chars(&w, "youll") {
        Some("juːl")
    } else if same_chars(&w, "i'll") || same_chars(&w, "ill") {
        Some("aɪl")
    } else if same_chars(&w, "he'll") || same_chars(&w, "hell") {
        Some("hiːl")
    } else if same_chars(&w, "she'll") || same_chars(&w, "shell") {
        Some("ʃiːl")
    } else if same_chars(&w, "we'll") || same_chars(&w, "well") {
        Some("wiːl")
    } else if same_chars(&w, "they'll") || same_chars(&w, "theyll") {
        Some("ðeɪl")
    } else if same_chars(&w, "won't") || same_chars(&w, "wont") {
        Some("woʊnt")
    } else if same_chars(&w, "can't") || same_chars(&w, "cant") {
        Some("kænt")
    } else if same_chars(&w, "don't") || same_chars(&w, "dont") {
        Some("doʊnt")
    } else if same_chars(&w, "doesn't") || same_chars(&w, "doesnt") {
        Some("dʌzənt")
    } else if same_chars(&w, "didn't") || same_chars(&w, "didnt") {
        Some("dɪdənt")
    } else if same_chars(&w, "wouldn't") || same_chars(&w, "wouldnt") {
        Some("wʊdənt")
    } else if same_chars(&w, "shouldn't") || same_chars(&w, "shouldnt") {
        Some("ʃʊdənt")
    } else if same_chars(&w, "couldn't") || same_chars(&w, "couldnt") {
        Some("kʊdənt")
    } else if same_chars(&w, "i'm") || same_chars(&w, "im") {
        Some("aɪm")
    } else if same_chars(&w, "that's") || same_chars(&w, "thats") {
        Some("ðæts")
    } else if same_chars(&w, "what's") || same_chars(&w, "whats") {
        Some("wʌts")
    } else if same_chars(&w, "it's") || same_chars(&w, "its") {
        Some("ɪts")
    } else if same_chars(&w, "let's") || same_chars(&w, "lets") {
        Some("lɛts")
    } else {
        None
    }
}

/// Looks `lower` up in the abbreviation table.
pub fn abbreviation_phonemes(lower: &str) -> (r: Option<&'static str>)
    ensures
        r matches Some(p) ==> abbreviation_ipa(lower@) == Some(p@),
        r is None ==> abbreviation_ipa(lower@) is None,
{
    let w = chars_of(lower);
    if same_chars(&w, "ai") {
        Some("ˈeɪaɪ")
    } else if same_chars(&w, "ui") {
        Some("juːˈaɪ")
    } else if same_chars(&w, "api") {
        Some("ˈeɪpiːˈaɪ")
    } else if same_chars(&w, "cpu") {
        Some("siːpiːjˈuː")
    } else if same_chars(&w, "gpu") {
        Some("dʒiːpiːjˈuː")
    } else if same_chars(&w, "usb") {
        Some("juːˈɛsbiː")
    } else {
        None
    }
}

/// The name of `c` when it is an ASCII letter.
fn letter_name_of(c: char) -> (r: Option<&'static str>)
    ensures
        r matches Some(p) ==> letter_name(c) == Some(p@),
        r is None ==> letter_name(c) is None,
{
    if c == 'a' || c == 'A' {
        Some("ˈeɪ")
    } else if c == 'b' || c == 'B' {
        Some("bˈiː")
    } else if c == 'c' || c == 'C' {
        Some("sˈiː")
    } else if c == 'd' || c == 'D' {
        Some("dˈiː")
    } else if c == 'e' || c == 'E' {
        Some("ˈiː")
    } else if c == 'f' || c == 'F' {
        Some("ˈɛf")
    } else if c == 'g' || c == 'G' {
        Some("dʒˈiː")
    } else if c == 'h' || c == 'H' {
        Some("ˈeɪtʃ")
    } else if c == 'i' || c == 'I' {
        Some("ˈaɪ")
    } else if c == 'j' || c == 'J' {
        Some("dʒˈeɪ")
    } else if c == 'k' || c == 'K' {
        Some("kˈeɪ")
    } else if c == 'l' || c == 'L' {
        Some("ˈɛl")
    } else if c == 'm' || c == 'M' {
        Some("ˈɛm")
    } else if c == 'n' || c == 'N' {
        Some("ˈɛn")
    } else if c == 'o' || c == 'O' {
        Some("ˈoʊ")
    } else if c == 'p' || c == 'P' {
        Some("pˈiː")
    } else if c == 'q' || c == 'Q' {
        Some("kjˈuː")
    } else if c == 'r' || c == 'R' {
        Some("ˈɑːɹ")
    } else if c == 's' || c == 'S' {
        Some("ˈɛs")
    } else if c == 't' || c == 'T' {
        Some("tˈiː")
    } else if c == 'u' || c == 'U' {
        Some("jˈuː")
    } else if c == 'v' || c == 'V' {
        Some("vˈiː")
    } else if c == 'w' || c == 'W' {
        Some("dˈʌbəljuː")
    } else if c == 'x' || c == 'X' {
        Some("ˈɛks")
    } else if c == 'y' || c == 'Y' {
        Some("wˈaɪ")
    } else if c == 'z' || c == 'Z' {
        Some("zˈiː")
    } else {
        None
    }
}

/// The spoken form of one character: an ASCII letter's name, any other
/// character as it is.
pub open spec fn letter_ipa(c: char) -> Seq<char> {
    match letter_name(c) {
        Some(p) => p,
        None => seq![c],
    }
}

/// A word spelled out letter by letter.
pub open spec fn spelled(w: Seq<char>) -> Seq<char>
    decreases w.len(),
{
    if w.len() == 0 {
        Seq::empty()
    } else {
        spelled(w.drop_last()) + letter_ipa(w.last())
    }
}

pub open spec fn has_apostrophe(w: Seq<char>) -> bool {
    w.contains('\'') || w.contains('\u{2019}')
}

pub open spec fn is_ascii_upper(c: char) -> bool {
    'A' <= c && c <= 'Z'
}

/// Fewer than four characters, all of them ASCII capitals.
pub open spec fn is_short_caps(w: Seq<char>) -> bool {
    w.len() < 4 && forall|i: int| 0 <= i < w.len() ==> is_ascii_upper(#[trigger] w[i])
}

/// The pronunciation that the fixed rules give to `word`, whose lower-case
/// form is `lower`: a contraction, when the word has an apostrophe; else a
/// known abbreviation; else a short all-capitals word spelled out; else none.
pub open spec fn rule_ipa(word: Seq<char>, lower: Seq<char>) -> Option<Seq<char>> {
    if has_apostrophe(word) && contraction_ipa(lower) is Some {
        contraction_ipa(lower)
    } else if abbreviation_ipa(lower) is Some {
        abbreviation_ipa(lower)
    } else if is_short_caps(word) {
        Some(spelled(word))
    } else {
        None
    }
}

/// Spells `word` out letter by letter.
pub fn letters_to_ipa(word: &str) -> (r: String)
    ensures
        r@ == spelled(word@),
{
    let w = chars_of(word);
    let mut r = String::new();
    for i in 0..w.len()
        invariant
            w@ == word@,
            r@ == spelled(w@.subrange(0, i as int)),
    {
        let c = w[i];
        assert(w@.subrange(0, i + 1).drop_last() =~= w@.subrange(0, i as int));
        match letter_name_of(c) {
            Some(p) => push_str(&mut r, p),
            None => push_char(&mut r, c),
        }
        assert(r@ =~= spelled(w@.subrange(0, i + 1)));
    }
    assert(w@.subrange(0, w.len() as int) =~= w@);
    r
}

fn has_apostrophe_chars(w: &Vec<char>) -> (r: bool)
    ensures
        r == has_apostrophe(w@),
{
    for i in 0..w.len()
        invariant
            forall|k: int| 0 <= k < i ==> w@[k] != '\'' && w@[k] != '\u{2019}',
    {
        if w[i] == '\'' || w[i] == '\u{2019}' {
            assert(w@[i as int] == w[i as int]);
            return true;
        }
    }
    false
}

fn is_short_caps_chars(w: &Vec<char>) -> (r: bool)
    ensures
        r == is_short_caps(w@),
{
    if w.len() >= 4 {
        return false;
    }
    for i in 0..w.len()
        invariant
            forall|k: int| 0 <= k < i ==> is_ascii_upper(#[trigger] w@[k]),
    {
        if !('A' <= w[i] && w[i] <= 'Z') {
            assert(!is_ascii_upper(w@[i as int]));
            return false;
        }
    }
    true
}

/// The fixed-rule pronunciation of `word` whose lower-case form is `lower`.
pub fn rule_phonemes_lowered(word: &str, lower: &str) -> (r: Option<String>)
    ensures
        r matches Some(p) ==> rule_ipa(word@, lower@) == Some(p@),
        r is None ==> rule_ipa(word@, lower@) is None,
{
    let w = chars_of(word);
    if has_apostrophe_chars(&w) {
        if let Some(p) = contraction_phonemes(lower) {
            return Some(p.to_owned());
        }
    }
    if let Some(p) = abbreviation_phonemes(lower) {
        return Some(p.to_owned());
    }
    if is_short_caps_chars(&w) {
        return Some(letters_to_ipa(word));
    }
    None
}

/// The fixed-rule pronunciation of `word`: contraction table, abbreviation
/// table, or a short all-capitals word spelled out; `None` when no rule
/// applies and the word needs a phonemizer.
pub fn word_rule_phonemes(word: &str) -> (r: Option<String>)
    ensures
        r matches Some(p) ==> rule_ipa(word@, lower_of(word@)) == Some(p@),
        r is None ==> rule_ipa(word@, lower_of(word@)) is None,
        is_ascii_seq(word@) ==> (r matches Some(p) ==> rule_ipa(word@, ascii_lower(word@)) == Some(
            p@,
        )),
        is_ascii_seq(word@) ==> (r is None ==> rule_ipa(word@, ascii_lower(word@)) is None),
{
    let lower = lowercase(word);
    rule_phonemes_lowered(word, lower.as_str())
}

/// A short all-capitals word whose lower-case form is no known abbreviation
/// is spelled out letter by letter.
pub proof fn lemma_short_caps_spelled(word: Seq<char>)
    requires
        is_short_caps(word),
        abbreviation_ipa(ascii_lower(word)) is None,
    ensures
        rule_ipa(word, ascii_lower(word)) == Some(spelled(word)),
{
    if has_apostrophe(word) {
        let i = choose|i: int| 0 <= i < word.len() && (word[i] == '\'' || word[i] == '\u{2019}');
        assert(is_ascii_upper(word[i]));
    }
}

/// A word with an apostrophe whose lower-case form is in the contraction
/// table is pronounced as the table says; a word without an apostrophe never
/// takes its pronunciation from that table.
pub proof fn lemma_contraction_needs_apostrophe(word: Seq<char>, lower: Seq<char>)
    ensures
        has_apostrophe(word) && contraction_ipa(lower) is Some ==> rule_ipa(word, lower)
            == contraction_ipa(lower),
        !has_apostrophe(word) ==> rule_ipa(word, lower) == (if abbreviation_ipa(lower) is Some {
            abbreviation_ipa(lower)
        } else if is_short_caps(word) {
            Some(spelled(word))
        } else {
            None
        }),
{
}

} // verus!
