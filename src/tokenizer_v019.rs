//! The legacy phoneme vocabulary: a line-oriented `"<char> <id>"` table,
//! and the mapping of phoneme strings to token ids framed by the
//! sequence marker 0 at both ends.

use crate::chars::{chars_of, is_space, is_space_char};
use std::collections::HashMap;
use vstd::prelude::*;

verus! {

broadcast use vstd::std_specs::hash::group_hash_axioms;

/// The legacy token table, one `"<char> <id>"` entry per line.
pub const TOKENS_V019: &'static str = "$ 0\n; 1\n: 2\n, 3\n. 4\n! 5\n? 6\n¡ 7\n\
    ¿ 8\n— 9\n… 10\n\" 11\n« 12\n» 13\n“ 14\n” 15\n\
    \u{20} 16\nA 17\nB 18\nC 19\nD 20\nE 21\nF 22\nG 23\n\
    H 24\nI 25\nJ 26\nK 27\nL 28\nM 29\nN 30\nO 31\n\
    P 32\nQ 33\nR 34\nS 35\nT 36\nU 37\nV 38\nW 39\n\
    X 40\nY 41\nZ 42\na 43\nb 44\nc 45\nd 46\ne 47\n\
    f 48\ng 49\nh 50\ni 51\nj 52\nk 53\nl 54\nm 55\n\
    n 56\no 57\np 58\nq 59\nr 60\ns 61\nt 62\nu 63\n\
    v 64\nw 65\nx 66\ny 67\nz 68\nɑ 69\nɐ 70\nɒ 71\n\
    æ 72\nɓ 73\nʙ 74\nβ 75\nɔ 76\nɕ 77\nç 78\nɗ 79\n\
    ɖ 80\nð 81\nʤ 82\nə 83\nɘ 84\nɚ 85\nɛ 86\nɜ 87\n\
    ɝ 88\nɞ 89\nɟ 90\nʄ 91\nɡ 92\nɠ 93\nɢ 94\nʛ 95\n\
    ɦ 96\nɧ 97\nħ 98\nɥ 99\nʜ 100\nɨ 101\nɪ 102\nʝ 103\n\
    ɭ 104\nɬ 105\nɫ 106\nɮ 107\nʟ 108\nɱ 109\nɯ 110\nɰ 111\n\
    ŋ 112\nɳ 113\nɲ 114\nɴ 115\nø 116\nɵ 117\nɸ 118\nθ 119\n\
    œ 120\nɶ 121\nʘ 122\nɹ 123\nɺ 124\nɾ 125\nɻ 126\nʀ 127\n\
    ʁ 128\nɽ 129\nʂ 130\nʃ 131\nʈ 132\nʧ 133\nʉ 134\nʊ 135\n\
    ʋ 136\nⱱ 137\nʌ 138\nɣ 139\nɤ 140\nʍ 141\nχ 142\nʎ 143\n\
    ʏ 144\nʑ 145\nʐ 146\nʒ 147\nʔ 148\nʡ 149\nʕ 150\nʢ 151\n\
    ǀ 152\nǁ 153\nǂ 154\nǃ 155\nˈ 156\nˌ 157\nː 158\nˑ 159\n\
    ʼ 160\nʴ 161\nʰ 162\nʱ 163\nʲ 164\nʷ 165\nˠ 166\nˤ 167\n\
    ˞ 168\n↓ 169\n↑ 170\n→ 171\n↗ 172\n↘ 173\n' 174\n̩ 175\n\
    ' 176\nᵻ 177\n";

/// The sequence marker that opens and closes every token sequence.
pub const BOUNDARY_TOKEN: i64 = 0;

pub open spec fn is_ascii_digit(c: char) -> bool {
    '0' <= c && c <= '9'
}

/// The decimal value of a sequence of ASCII digits.
pub open spec fn digits_value(d: Seq<char>) -> int
    decreases d.len(),
{
    if d.len() == 0 {
        0
    } else {
        digits_value(d.drop_last()) * 10 + (d.last() as int - '0' as int)
    }
}

/// `s` without a leading `+`, if it has one.
pub open spec fn unsigned_digits(s: Seq<char>) -> Seq<char> {
    if s.len() > 0 && s[0] == '+' {
        s.drop_first()
    } else {
        s
    }
}

pub open spec fn all_digits(d: Seq<char>) -> bool {
    forall|i: int| 0 <= i < d.len() ==> is_ascii_digit(#[trigger] d[i])
}

/// What parsing `s` as a `u8` gives: an optional `+`, then one or more ASCII
/// digits whose value is at most 255.
pub open spec fn parse_u8(s: Seq<char>) -> Option<u8> {
    let d = unsigned_digits(s);
    if d.len() > 0 && all_digits(d) && digits_value(d) <= 255 {
        Some(digits_value(d) as u8)
    } else {
        None
    }
}

/// The pieces of `s` between line feeds; the piece after the last line feed
/// is included, even when empty.
pub open spec fn lines_of(s: Seq<char>) -> Seq<Seq<char>>
    decreases s.len(),
{
    if s.len() == 0 {
        seq![Seq::<char>::empty()]
    } else {
        let prev = lines_of(s.drop_last());
        if s.last() == '\n' {
            prev.push(Seq::<char>::empty())
        } else {
            prev.update(prev.len() - 1, prev.last().push(s.last()))
        }
    }
}

/// The maximal runs of non-whitespace characters of `s`, in order.
pub open spec fn words_of(s: Seq<char>) -> Seq<Seq<char>>
    decreases s.len(),
{
    if s.len() == 0 {
        Seq::<Seq<char>>::empty()
    } else {
        let prev = words_of(s.drop_last());
        let c = s.last();
        if is_space(c) {
            prev
        } else if s.len() >= 2 && !is_space(s[s.len() - 2]) {
            prev.update(prev.len() - 1, prev.last().push(c))
        } else {
            prev.push(seq![c])
        }
    }
}

/// The entry that a line with the given words defines: the first character
/// of the first word, keyed to the second word read as a `u8`.
pub open spec fn entry_of_words(w: Seq<Seq<char>>) -> Option<(char, u8)> {
    if w.len() >= 2 && w[0].len() > 0 && parse_u8(w[1]) is Some {
        Some((w[0][0], parse_u8(w[1])->0))
    } else {
        None
    }
}

/// The table that a sequence of lines defines; a later line overrides an
/// earlier one with the same character.
pub open spec fn vocab_of_lines(lines: Seq<Seq<char>>) -> Map<u32, u8>
    decreases lines.len(),
{
    if lines.len() == 0 {
        Map::empty()
    } else {
        let m = vocab_of_lines(lines.drop_last());
        match entry_of_words(words_of(lines.last())) {
            Some((c, id)) => m.insert(c as u32, id),
            None => m,
        }
    }
}

/// The table that the text of a token file defines, keyed by code point.
pub open spec fn vocab_model(text: Seq<char>) -> Map<u32, u8> {
    vocab_of_lines(lines_of(text))
}

/// The ids of the characters of `s` that the table knows, in order; the
/// others are skipped.
pub open spec fn token_ids_model(vocab: Map<u32, u8>, s: Seq<char>) -> Seq<i64>
    decreases s.len(),
{
    if s.len() == 0 {
        Seq::<i64>::empty()
    } else {
        let prev = token_ids_model(vocab, s.drop_last());
        if vocab.contains_key(s.last() as u32) {
            prev.push(vocab[s.last() as u32] as i64)
        } else {
            prev
        }
    }
}

/// A token sequence: the known characters' ids between two sequence markers.
pub open spec fn framed_ids(vocab: Map<u32, u8>, s: Seq<char>) -> Seq<i64> {
    seq![BOUNDARY_TOKEN] + token_ids_model(vocab, s) + seq![BOUNDARY_TOKEN]
}

pub open spec fn deep_words(w: Seq<Vec<char>>) -> Seq<Seq<char>> {
    w.map_values(|v: Vec<char>| v@)
}

proof fn lemma_digits_prefix(d: Seq<char>, k: int)
    requires
        0 <= k <= d.len(),
        forall|i: int| 0 <= i < d.len() ==> is_ascii_digit(#[trigger] d[i]),
    ensures
        0 <= digits_value(d.subrange(0, k)) <= digits_value(d),
    decreases d.len(),
{
    if d.len() > 0 {
        let dl = d.drop_last();
        if k < d.len() {
            lemma_digits_prefix(dl, k);
            assert(dl.subrange(0, k) =~= d.subrange(0, k));
        } else {
            lemma_digits_prefix(dl, dl.len() as int);
            assert(dl.subrange(0, dl.len() as int) =~= dl);
            assert(d.subrange(0, k) =~= d);
        }
    }
}

proof fn lemma_words_nonempty(s: Seq<char>)
    requires
        s.len() > 0,
        !is_space(s.last()),
    ensures
        words_of(s).len() > 0,
    decreases s.len(),
{
    let dl = s.drop_last();
    if s.len() >= 2 && !is_space(s[s.len() - 2]) {
        lemma_words_nonempty(dl);
    }
}

proof fn lemma_lines_nonempty(s: Seq<char>)
    ensures
        lines_of(s).len() > 0,
    decreases s.len(),
{
    if s.len() > 0 {
        lemma_lines_nonempty(s.drop_last());
    }
}

/// Reads `s` as a `u8` the way `str::parse` does.
fn parse_u8_chars(s: &Vec<char>) -> (r: Option<u8>)
    ensures
        r == parse_u8(s@),
{
    let start: usize = if s.len() > 0 && s[0] == '+' {
        1
    } else {
        0
    };
    let ghost d = unsigned_digits(s@);
    assert(d =~= s@.subrange(start as int, s@.len() as int));
    if start >= s.len() {
        return None;
    }
    let mut acc: u32 = 0;
    let mut i: usize = start;
    while i < s.len()
        invariant
            start <= i <= s.len(),
            d == unsigned_digits(s@),
            d =~= s@.subrange(start as int, s@.len() as int),
            forall|k: int| start <= k < i ==> is_ascii_digit(#[trigger] s@[k]),
            acc <= 255,
            acc == digits_value(s@.subrange(start as int, i as int)),
        decreases s.len() - i,
    {
        let c = s[i];
        if !('0' <= c && c <= '9') {
            assert(!is_ascii_digit(d[i - start]));
            return None;
        }
        let v = acc * 10 + (c as u32 - '0' as u32);
        assert(s@.subrange(start as int, i + 1).drop_last() =~= s@.subrange(start as int, i as int));
        if v > 255 {
            proof {
                if all_digits(d) {
                    lemma_digits_prefix(d, i + 1 - start);
                    assert(d.subrange(0, i + 1 - start) =~= s@.subrange(start as int, i + 1));
                }
            }
            return None;
        }
        acc = v;
        i = i + 1;
    }
    assert(s@.subrange(start as int, i as int) =~= d);
    Some(acc as u8)
}

/// The entry of a line whose words are `words`.
fn entry_of(words: &Vec<Vec<char>>) -> (r: Option<(char, u8)>)
    ensures
        r == entry_of_words(deep_words(words@)),
{
    if words.len() >= 2 && words[0].len() > 0 {
        match parse_u8_chars(&words[1]) {
            Some(id) => Some((words[0][0], id)),
            None => None,
        }
    } else {
        None
    }
}

/// A phoneme vocabulary: characters keyed by code point to token ids.
pub struct VocabV019 {
    ids: HashMap<u32, u8>,
}

impl View for VocabV019 {
    type V = Map<u32, u8>;

    closed spec fn view(&self) -> Map<u32, u8> {
        self.ids@
    }
}

impl VocabV019 {
    /// The id of `c`, if the vocabulary has it.
    pub fn get(&self, c: &char) -> (r: Option<&u8>)
        ensures
            r matches Some(id) ==> self@.contains_key(*c as u32) && *id == self@[*c as u32],
            r is None ==> !self@.contains_key(*c as u32),
    {
        self.ids.get(&(*c as u32))
    }

    /// The number of characters that the vocabulary knows.
    pub fn len(&self) -> (r: usize)
        ensures
            r == self@.len(),
    {
        self.ids.len()
    }

    /// Maps a phoneme string to token ids between two sequence markers;
    /// characters the vocabulary lacks are skipped.
    pub fn token_ids(&self, phonemes: &str) -> (r: Vec<i64>)
        ensures
            r@ == framed_ids(self@, phonemes@),
            r.len() >= 2,
            r[0] == BOUNDARY_TOKEN,
            r[r.len() - 1] == BOUNDARY_TOKEN,
    {
        let mut r: Vec<i64> = Vec::new();
        r.push(BOUNDARY_TOKEN);
        let cs = chars_of(phonemes);
        for i in 0..cs.len()
            invariant
                r@ == seq![BOUNDARY_TOKEN] + token_ids_model(self@, cs@.subrange(0, i as int)),
        {
            let c = cs[i];
            assert(cs@.subrange(0, i + 1).drop_last() =~= cs@.subrange(0, i as int));
            match self.ids.get(&(c as u32)) {
                Some(id) => {
                    r.push(*id as i64);
                },
                None => {},
            }
            assert(r@ =~= seq![BOUNDARY_TOKEN] + token_ids_model(
                self@,
                cs@.subrange(0, i + 1),
            ));
        }
        assert(cs@.subrange(0, cs.len() as int) =~= phonemes@);
        assert(r@ == seq![BOUNDARY_TOKEN] + token_ids_model(self@, phonemes@));
        r.push(BOUNDARY_TOKEN);
        assert(r@ =~= framed_ids(self@, phonemes@));
        r
    }
}

/// Reads a token table: each line holds a character token and a decimal id
/// separated by whitespace; the first character of the first field is the
/// key. Lines with fewer than two fields or whose second field is not a
/// number from 0 to 255 are skipped.
pub fn load_vocab_from_tokens(tokens_txt: &str) -> (r: VocabV019)
    ensures
        r@ == vocab_model(tokens_txt@),
{
    let s = chars_of(tokens_txt);
    let mut ids: HashMap<u32, u8> = HashMap::new();
    let mut words: Vec<Vec<char>> = Vec::new();
    let mut in_word = false;
    let ghost mut done: Seq<Seq<char>> = Seq::empty();
    let ghost mut cur: Seq<char> = Seq::empty();
    assert(s@.subrange(0, 0) =~= Seq::<char>::empty());
    assert(deep_words(words@) =~= Seq::<Seq<char>>::empty());
    for i in 0..s.len()
        invariant
            lines_of(s@.subrange(0, i as int)) == done.push(cur),
            ids@ == vocab_of_lines(done),
            deep_words(words@) == words_of(cur),
            in_word == (cur.len() > 0 && !is_space(cur.last())),
    {
        let c = s[i];
        assert(s@.subrange(0, i + 1).drop_last() =~= s@.subrange(0, i as int));
        if c == '\n' {
            let e = entry_of(&words);
            match e {
                Some((k, id)) => {
                    ids.insert(k as u32, id);
                },
                None => {},
            }
            proof {
                assert(done.push(cur).drop_last() =~= done);
                done = done.push(cur);
                cur = Seq::empty();
            }
            words = Vec::new();
            in_word = false;
            assert(deep_words(words@) =~= Seq::<Seq<char>>::empty());
        } else {
            let ghost next = cur.push(c);
            assert(next.drop_last() =~= cur);
            if is_space_char(c) {
                in_word = false;
            } else if in_word {
                proof {
                    lemma_words_nonempty(cur);
                }
                let ghost before = words@;
                let mut w = words.pop().unwrap();
                w.push(c);
                words.push(w);
                assert(words@ =~= before.drop_last().push(w));
                assert(w@ == before.last()@.push(c));
                assert(next[next.len() - 2] == cur.last());
                assert(words_of(next) == words_of(cur).update(
                    words_of(cur).len() - 1,
                    words_of(cur).last().push(c),
                ));
                let ghost dw = deep_words(before);
                assert(dw.len() == before.len());
                assert forall|j: int| 0 <= j < words@.len() implies #[trigger] deep_words(
                    words@,
                )[j] == dw.update(dw.len() - 1, dw.last().push(c))[j] by {
                    if j < words@.len() - 1 {
                        assert(words@[j] == before[j]);
                    }
                }
                assert(deep_words(words@) =~= dw.update(dw.len() - 1, dw.last().push(c)));
                assert(dw == words_of(cur));
                assert(deep_words(words@) == words_of(next));
            } else {
                let w = vec![c];
                assert(w@ =~= seq![c]);
                words.push(w);
                in_word = true;
                assert(cur.len() > 0 ==> next[next.len() - 2] == cur.last());
                assert(words_of(next) == words_of(cur).push(seq![c]));
                assert(deep_words(words@) =~= words_of(next));
            }
            proof {
                lemma_lines_nonempty(s@.subrange(0, i as int));
                assert(done.push(cur).update(done.len() as int, cur.push(c)) =~= done.push(next));
                cur = next;
            }
        }
    }
    assert(s@.subrange(0, s@.len() as int) =~= s@);
    let e = entry_of(&words);
    match e {
        Some((k, id)) => {
            ids.insert(k as u32, id);
        },
        None => {},
    }
    assert(done.push(cur).drop_last() =~= done);
    VocabV019 { ids }
}

/// The legacy vocabulary, read from the built-in token table.
pub fn vocab_v019() -> (r: VocabV019)
    ensures
        r@ == vocab_model(TOKENS_V019@),
{
    load_vocab_from_tokens(TOKENS_V019)
}

/// Maps a phoneme string to legacy token ids between two sequence markers.
pub fn get_token_ids_v019(phonemes: &str) -> (r: Vec<i64>)
    ensures
        r@ == framed_ids(vocab_model(TOKENS_V019@), phonemes@),
        r.len() >= 2,
        r[0] == BOUNDARY_TOKEN,
        r[r.len() - 1] == BOUNDARY_TOKEN,
{
    vocab_v019().token_ids(phonemes)
}

} // verus!
