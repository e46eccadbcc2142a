//! Dictionary phonemization of English words: a pronunciation dictionary
//! looked up by lower-case word, with compound words recovered from a fixed
//! list of prefixes and unknown words spelled out.

use crate::chars::{chars_of, push_str, same_chars, string_of};
use crate::english::{letters_to_ipa, lower_of, spelled};
use crate::phonemes::slice_of;
use cmudict_fast::Cmudict;
use vstd::prelude::*;

verus! {

#[verifier::external_type_specification]
#[verifier::external_body]
pub struct ExCmudict(Cmudict);

/// What a pronunciation dictionary holds: each word with its recorded
/// pronunciations, each a sequence of ARPAbet symbols.
pub uninterp spec fn cmudict_entries(d: Cmudict) -> Map<Seq<char>, Seq<Seq<Seq<char>>>>;

pub open spec fn rules_view(v: Seq<Vec<String>>) -> Seq<Seq<Seq<char>>> {
    v.map_values(|p: Vec<String>| p@.map_values(|s: String| s@))
}

/// Relies on `cmudict_fast::Cmudict::get` and `Rule::pronunciation`: the
/// pronunciations recorded for `word`, each symbol written as its `Display`
/// shows it, or `None` when the dictionary lacks the word.
#[verifier::external_body]
fn lookup(d: &Cmudict, word: &str) -> (r: Option<Vec<Vec<String>>>)
    ensures
        r is None <==> !cmudict_entries(*d).contains_key(word@),
        r matches Some(rules) ==> rules_view(rules@) == cmudict_entries(*d)[word@],
{
    d.get(word).map(
        |rules| rules.iter().map(|r| r.pronunciation().iter().map(|s| s.to_string()).collect()).collect(),
    )
}

/// Relies on `rand::random`: a number from the thread's generator. Nothing
/// is promised of it.
#[verifier::external_body]
fn draw() -> (r: u64) {
    rand::random::<u64>()
}

/// The IPA of one ARPAbet symbol as the dictionary writes it: vowels carry
/// their stress digit, which becomes a stress mark before the vowel.
pub open spec fn arpa_ipa(s: Seq<char>) -> Option<Seq<char>> {
    if s == "AA0"@ {
        Some("ɑ"@)
    } else if s == "AA1"@ {
        Some("ˈɑ"@)
    } else if s == "AA2"@ {
        Some("ˌɑ"@)
    } else if s == "AE0"@ {
        Some("æ"@)
    } else if s == "AE1"@ {
        Some("ˈæ"@)
    } else if s == "AE2"@ {
        Some("ˌæ"@)
    } else if s == "AH0"@ {
        Some("ə"@)
    } else if s == "AH1"@ {
        Some("ˈʌ"@)
    } else if s == "AH2"@ {
        Some("ˌʌ"@)
    } else if s == "AO0"@ {
        Some("ɔ"@)
    } else if s == "AO1"@ {
        Some("ˈɔ"@)
    } else if s == "AO2"@ {
        Some("ˌɔ"@)
    } else if s == "AW0"@ {
        Some("aʊ"@)
    } else if s == "AW1"@ {
        Some("ˈaʊ"@)
    } else if s == "AW2"@ {
        Some("ˌaʊ"@)
    } else if s == "AY0"@ {
        Some("aɪ"@)
    } else if s == "AY1"@ {
        Some("ˈaɪ"@)
    } else if s == "AY2"@ {
        Some("ˌaɪ"@)
    } else if s == "EH0"@ {
        Some("ɛ"@)
    } else if s == "EH1"@ {
        Some("ˈɛ"@)
    } else if s == "EH2"@ {
        Some("ˌɛ"@)
    } else if s == "ER0"@ {
        Some("ɚ"@)
    } else if s == "ER1"@ {
        Some("ˈɝ"@)
    } else if s == "ER2"@ {
        Some("ˌɝ"@)
    } else if s == "EY0"@ {
        Some("eɪ"@)
    } else if s == "EY1"@ {
        Some("ˈeɪ"@)
    } else if s == "EY2"@ {
        Some("ˌeɪ"@)
    } else if s == "IH0"@ {
        Some("ɪ"@)
    } else if s == "IH1"@ {
        Some("ˈɪ"@)
    } else if s == "IH2"@ {
        Some("ˌɪ"@)
    } else if s == "IY0"@ {
        Some("i"@)
    } else if s == "IY1"@ {
        Some("ˈi"@)
    } else if s == "IY2"@ {
        Some("ˌi"@)
    } else if s == "OW0"@ {
        Some("oʊ"@)
    } else if s == "OW1"@ {
        Some("ˈoʊ"@)
    } else if s == "OW2"@ {
        Some("ˌoʊ"@)
    } else if s == "OY0"@ {
        Some("ɔɪ"@)
    } else if s == "OY1"@ {
        Some("ˈɔɪ"@)
    } else if s == "OY2"@ {
        Some("ˌɔɪ"@)
    } else if s == "UH0"@ {
        Some("ʊ"@)
    } else if s == "UH1"@ {
        Some("ˈʊ"@)
    } else if s == "UH2"@ {
        Some("ˌʊ"@)
    } else if s == "UW0"@ {
        Some("u"@)
    } else if s == "UW1"@ {
        Some("ˈu"@)
    } else if s == "UW2"@ {
        Some("ˌu"@)
    } else if s == "B"@ {
        Some("b"@)
    } else if s == "CH"@ {
        Some("ʧ"@)
    } else if s == "D"@ {
        Some("d"@)
    } else if s == "DH"@ {
        Some("ð"@)
    } else if s == "F"@ {
        Some("f"@)
    } else if s == "G"@ {
        Some("ɡ"@)
    } else if s == "HH"@ {
        Some("h"@)
    } else if s == "JH"@ {
        Some("ʤ"@)
    } else if s == "K"@ {
        Some("k"@)
    } else if s == "L"@ {
        Some("l"@)
    } else if s == "M"@ {
        Some("m"@)
    } else if s == "N"@ {
        Some("n"@)
    } else if s == "NG"@ {
        Some("ŋ"@)
    } else if s == "P"@ {
        Some("p"@)
    } else if s == "R"@ {
        Some("ɹ"@)
    } else if s == "S"@ {
        Some("s"@)
    } else if s == "SH"@ {
        Some("ʃ"@)
    } else if s == "T"@ {
        Some("t"@)
    } else if s == "TH"@ {
        Some("θ"@)
    } else if s == "V"@ {
        Some("v"@)
    } else if s == "W"@ {
        Some("w"@)
    } else if s == "Y"@ {
        Some("j"@)
    } else if s == "Z"@ {
        Some("z"@)
    } else if s == "ZH"@ {
        Some("ʒ"@)
    } else {
        None
    }
}

fn arpa_ipa_of(s: &Vec<char>) -> (r: Option<&'static str>)
    ensures
        r matches Some(p) ==> arpa_ipa(s@) == Some(p@),
        r is None ==> arpa_ipa(s@) is None,
{
    if same_chars(s, "AA0") {
        Some("ɑ")
    } else if same_chars(s, "AA1") {
        Some("ˈɑ")
    } else if same_chars(s, "AA2") {
        Some("ˌɑ")
    } else if same_chars(s, "AE0") {
        Some("æ")
    } else if same_chars(s, "AE1") {
        Some("ˈæ")
    } else if same_chars(s, "AE2") {
        Some("ˌæ")
    } else if same_chars(s, "AH0") {
        Some("ə")
    } else if same_chars(s, "AH1") {
        Some("ˈʌ")
    } else if same_chars(s, "AH2") {
        Some("ˌʌ")
    } else if same_chars(s, "AO0") {
        Some("ɔ")
    } else if same_chars(s, "AO1") {
        Some("ˈɔ")
    } else if same_chars(s, "AO2") {
        Some("ˌɔ")
    } else if same_chars(s, "AW0") {
        Some("aʊ")
    } else if same_chars(s, "AW1") {
        Some("ˈaʊ")
    } else if same_chars(s, "AW2") {
        Some("ˌaʊ")
    } else if same_chars(s, "AY0") {
        Some("aɪ")
    } else if same_chars(s, "AY1") {
        Some("ˈaɪ")
    } else if same_chars(s, "AY2") {
        Some("ˌaɪ")
    } else if same_chars(s, "EH0") {
        Some("ɛ")
    } else if same_chars(s, "EH1") {
        Some("ˈɛ")
    } else if same_chars(s, "EH2") {
        Some("ˌɛ")
    } else if same_chars(s, "ER0") {
        Some("ɚ")
    } else if same_chars(s, "ER1") {
        Some("ˈɝ")
    } else if same_chars(s, "ER2") {
        Some("ˌɝ")
    } else if same_chars(s, "EY0") {
        Some("eɪ")
    } else if same_chars(s, "EY1") {
        Some("ˈeɪ")
    } else if same_chars(s, "EY2") {
        Some("ˌeɪ")
    } else if same_chars(s, "IH0") {
        Some("ɪ")
    } else if same_chars(s, "IH1") {
        Some("ˈɪ")
    } else if same_chars(s, "IH2") {
        Some("ˌɪ")
    } else if same_chars(s, "IY0") {
        Some("i")
    } else if same_chars(s, "IY1") {
        Some("ˈi")
    } else if same_chars(s, "IY2") {
        Some("ˌi")
    } else if same_chars(s, "OW0") {
        Some("oʊ")
    } else if same_chars(s, "OW1") {
        Some("ˈoʊ")
    } else if same_chars(s, "OW2") {
        Some("ˌoʊ")
    } else if same_chars(s, "OY0") {
        Some("ɔɪ")
    } else if same_chars(s, "OY1") {
        Some("ˈɔɪ")
    } else if same_chars(s, "OY2") {
        Some("ˌɔɪ")
    } else if same_chars(s, "UH0") {
        Some("ʊ")
    } else if same_chars(s, "UH1") {
        Some("ˈʊ")
    } else if same_chars(s, "UH2") {
        Some("ˌʊ")
    } else if same_chars(s, "UW0") {
        Some("u")
    } else if same_chars(s, "UW1") {
        Some("ˈu")
    } else if same_chars(s, "UW2") {
        Some("ˌu")
    } else if same_chars(s, "B") {
        Some("b")
    } else if same_chars(s, "CH") {
        Some("ʧ")
    } else if same_chars(s, "D") {
        Some("d")
    } else if same_chars(s, "DH") {
        Some("ð")
    } else if same_chars(s, "F") {
        Some("f")
    } else if same_chars(s, "G") {
        Some("ɡ")
    } else if same_chars(s, "HH") {
        Some("h")
    } else if same_chars(s, "JH") {
        Some("ʤ")
    } else if same_chars(s, "K") {
        Some("k")
    } else if same_chars(s, "L") {
        Some("l")
    } else if same_chars(s, "M") {
        Some("m")
    } else if same_chars(s, "N") {
        Some("n")
    } else if same_chars(s, "NG") {
        Some("ŋ")
    } else if same_chars(s, "P") {
        Some("p")
    } else if same_chars(s, "R") {
        Some("ɹ")
    } else if same_chars(s, "S") {
        Some("s")
    } else if same_chars(s, "SH") {
        Some("ʃ")
    } else if same_chars(s, "T") {
        Some("t")
    } else if same_chars(s, "TH") {
        Some("θ")
    } else if same_chars(s, "V") {
        Some("v")
    } else if same_chars(s, "W") {
        Some("w")
    } else if same_chars(s, "Y") {
        Some("j")
    } else if same_chars(s, "Z") {
        Some("z")
    } else if same_chars(s, "ZH") {
        Some("ʒ")
    } else {
        None
    }
}

/// The IPA of a pronunciation: its symbols' IPA run together; a symbol the
/// table lacks adds nothing.
pub open spec fn pron_ipa(p: Seq<Seq<char>>) -> Seq<char>
    decreases p.len(),
{
    if p.len() == 0 {
        Seq::empty()
    } else {
        pron_ipa(p.drop_last()) + match arpa_ipa(p.last()) {
            Some(x) => x,
            None => Seq::empty(),
        }
    }
}

/// The IPA of a word found in the dictionary with pronunciations `rules`:
/// the one that `choice` selects, or the word itself when none is recorded.
pub open spec fn entry_ipa(word: Seq<char>, rules: Seq<Seq<Seq<char>>>, choice: nat) -> Seq<char> {
    if rules.len() == 0 {
        word
    } else {
        pron_ipa(rules[(choice % rules.len()) as int])
    }
}

/// The prefixes tried, in order, to split an unknown compound word.
pub open spec fn compound_prefixes() -> Seq<Seq<char>> {
    seq!["down"@, "up"@, "out"@, "under"@, "over"@, "in"@, "off"@]
}

/// The first prefix of `list` that `lower` begins with, with more after it,
/// where both the prefix and the rest are in the dictionary.
pub open spec fn compound_prefix(
    m: Map<Seq<char>, Seq<Seq<Seq<char>>>>,
    lower: Seq<char>,
    list: Seq<Seq<char>>,
) -> Option<Seq<char>>
    decreases list.len(),
{
    if list.len() == 0 {
        None
    } else {
        let p = list[0];
        if p.len() < lower.len() && lower.subrange(0, p.len() as int) == p && m.contains_key(p)
            && m.contains_key(lower.subrange(p.len() as int, lower.len() as int)) {
            Some(p)
        } else {
            compound_prefix(m, lower, list.drop_first())
        }
    }
}

/// The dictionary pronunciation of `word`, whose lower-case form is
/// `lower`: its own entry; else the entries of a known prefix and the known
/// rest; else the word spelled out.
pub open spec fn dict_ipa(
    m: Map<Seq<char>, Seq<Seq<Seq<char>>>>,
    word: Seq<char>,
    lower: Seq<char>,
    choice: nat,
) -> Seq<char> {
    if m.contains_key(lower) {
        entry_ipa(word, m[lower], choice)
    } else {
        match compound_prefix(m, lower, compound_prefixes()) {
            Some(p) => {
                let rest = lower.subrange(p.len() as int, lower.len() as int);
                entry_ipa(p, m[p], choice) + entry_ipa(rest, m[rest], choice)
            },
            None => spelled(word),
        }
    }
}

fn pron_ipa_of(p: &Vec<String>) -> (r: String)
    ensures
        r@ == pron_ipa(p@.map_values(|s: String| s@)),
{
    let ghost pv = p@.map_values(|s: String| s@);
    let mut r = String::new();
    for i in 0..p.len()
        invariant
            pv == p@.map_values(|s: String| s@),
            r@ == pron_ipa(pv.subrange(0, i as int)),
    {
        assert(pv.subrange(0, i + 1).drop_last() =~= pv.subrange(0, i as int));
        let sym = chars_of(p[i].as_str());
        match arpa_ipa_of(&sym) {
            Some(x) => push_str(&mut r, x),
            None => {},
        }
        assert(r@ =~= pron_ipa(pv.subrange(0, i + 1)));
    }
    assert(pv.subrange(0, p.len() as int) =~= pv);
    r
}

fn entry_ipa_of(word: &str, rules: &Vec<Vec<String>>, choice: u64) -> (r: String)
    ensures
        r@ == entry_ipa(word@, rules_view(rules@), choice as nat),
{
    if rules.len() == 0 {
        return string_of(&chars_of(word));
    }
    let i = (choice % (rules.len() as u64)) as usize;
    pron_ipa_of(&rules[i])
}

/// The dictionary pronunciation of `word`, whose lower-case form is
/// `lower`, with `choice` selecting among recorded pronunciations.
pub fn dict_phonemes_lowered(dict: &Cmudict, word: &str, lower: &str, choice: u64) -> (r: String)
    ensures
        r@ == dict_ipa(cmudict_entries(*dict), word@, lower@, choice as nat),
{
    let ghost m = cmudict_entries(*dict);
    if let Some(rules) = lookup(dict, lower) {
        return entry_ipa_of(word, &rules, choice);
    }
    let l = chars_of(lower);
    let prefixes: Vec<&str> = vec!["down", "up", "out", "under", "over", "in", "off"];
    let ghost all = compound_prefixes();
    assert(prefixes@.map_values(|x: &str| x@) =~= all);
    assert(all.subrange(0, all.len() as int) =~= all);
    for k in 0..prefixes.len()
        invariant
            m == cmudict_entries(*dict),
            !m.contains_key(lower@),
            l@ == lower@,
            all == compound_prefixes(),
            prefixes@.map_values(|x: &str| x@) == all,
            compound_prefix(m, lower@, all) == compound_prefix(
                m,
                lower@,
                all.subrange(k as int, all.len() as int),
            ),
    {
        let p = chars_of(prefixes[k]);
        let ghost rest_list = all.subrange(k as int, all.len() as int);
        assert(rest_list[0] == p@);
        assert(rest_list.drop_first() =~= all.subrange(k + 1, all.len() as int));
        if p.len() < l.len() {
            let head = slice_of(&l, 0, p.len());
            if same_chars(&head, prefixes[k]) {
                let rest = string_of(&slice_of(&l, p.len(), l.len()));
                match (lookup(dict, prefixes[k]), lookup(dict, rest.as_str())) {
                    (Some(pr), Some(rr)) => {
                        assert(head@ == p@);
                        assert(rest@ == lower@.subrange(p@.len() as int, lower@.len() as int));
                        assert(compound_prefix(m, lower@, rest_list) == Some(p@));
                        let mut r = entry_ipa_of(prefixes[k], &pr, choice);
                        let tail = entry_ipa_of(rest.as_str(), &rr, choice);
                        push_str(&mut r, tail.as_str());
                        return r;
                    },
                    _ => {},
                }
            }
        }
    }
    assert(all.subrange(all.len() as int, all.len() as int) =~= Seq::<Seq<char>>::empty());
    letters_to_ipa(word)
}

/// The dictionary pronunciation of `word`, one of several recorded
/// pronunciations picked at random.
pub fn dict_phonemes(dict: &Cmudict, word: &str) -> (r: String)
    ensures
        exists|c: nat| r@ == dict_ipa(cmudict_entries(*dict), word@, lower_of(word@), c),
{
    let lower = crate::english::lowercase(word);
    let choice = draw();
    dict_phonemes_lowered(dict, word, lower.as_str(), choice)
}

} // verus!
