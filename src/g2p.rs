//! Assembly of a sentence's phonemes: how word, punctuation and Han-run
//! phonemes are joined, and the pass over the finished sentence.

use crate::chars::{chars_of, is_space, is_space_char, push_char, push_str, string_of};
use crate::chinese::{han_run_ipa, jieba_words, zh_words_ipa, G2PError};
use crate::dictionary::{cmudict_entries, dict_ipa, dict_phonemes_lowered};
use crate::english::{lower_of, lowercase, rule_ipa, rule_phonemes_lowered};
use crate::phonemes::{modern_w, slice_of};
use crate::segment::{
    half_shape, pieces_of, runs_of, segment_text, split_en_pieces, strings_view, text_runs_view,
    to_half_shape, RunKind,
};
use cmudict_fast::Cmudict;
use vstd::prelude::*;

verus! {

/// `s` without trailing whitespace.
pub open spec fn trim_end(s: Seq<char>) -> Seq<char>
    decreases s.len(),
{
    if s.len() > 0 && is_space(s.last()) {
        trim_end(s.drop_last())
    } else {
        s
    }
}

/// `s` without leading whitespace.
pub open spec fn trim_start(s: Seq<char>) -> Seq<char>
    decreases s.len(),
{
    if s.len() > 0 && is_space(s[0]) {
        trim_start(s.drop_first())
    } else {
        s
    }
}

/// `s` without leading and trailing whitespace.
pub open spec fn trim(s: Seq<char>) -> Seq<char> {
    trim_start(trim_end(s))
}

fn trim_end_chars(s: &Vec<char>) -> (r: Vec<char>)
    ensures
        r@ == trim_end(s@),
{
    let mut j = s.len();
    assert(s@.subrange(0, j as int) =~= s@);
    while j > 0 && is_space_char(s[j - 1])
        invariant
            j <= s.len(),
            trim_end(s@) == trim_end(s@.subrange(0, j as int)),
        decreases j,
    {
        assert(s@.subrange(0, j as int).drop_last() =~= s@.subrange(0, j - 1));
        j = j - 1;
    }
    slice_of(s, 0, j)
}

fn trim_start_chars(s: &Vec<char>) -> (r: Vec<char>)
    ensures
        r@ == trim_start(s@),
{
    let mut i: usize = 0;
    assert(s@.subrange(0, s.len() as int) =~= s@);
    while i < s.len() && is_space_char(s[i])
        invariant
            i <= s.len(),
            trim_start(s@) == trim_start(s@.subrange(i as int, s.len() as int)),
        decreases s.len() - i,
    {
        assert(s@.subrange(i as int, s.len() as int).drop_first() =~= s@.subrange(
            i + 1,
            s.len() as int,
        ));
        i = i + 1;
    }
    slice_of(s, i, s.len())
}

/// `s` from `i` on with each occurrence of `p`, scanning left to right
/// without overlaps, replaced by `r`.
pub open spec fn replace_from(s: Seq<char>, p: Seq<char>, r: Seq<char>, i: int) -> Seq<char>
    decreases s.len() - i,
{
    if i < 0 || i >= s.len() || p.len() == 0 {
        s.subrange(i, s.len() as int)
    } else if i + p.len() <= s.len() && s.subrange(i, i + p.len()) == p {
        r + replace_from(s, p, r, i + p.len())
    } else {
        seq![s[i]] + replace_from(s, p, r, i + 1)
    }
}

/// `s` with each occurrence of `p` replaced by `r`.
pub open spec fn replace_all(s: Seq<char>, p: Seq<char>, r: Seq<char>) -> Seq<char> {
    replace_from(s, p, r, 0)
}

fn matches_at(s: &Vec<char>, p: &Vec<char>, i: usize) -> (r: bool)
    requires
        i <= s.len(),
    ensures
        r == (i + p.len() <= s.len() && s@.subrange(i as int, i + p.len()) == p@),
{
    if p.len() > s.len() - i {
        return false;
    }
    for k in 0..p.len()
        invariant
            i + p.len() <= s.len(),
            forall|j: int| 0 <= j < k ==> s@[i + j] == p@[j],
    {
        if s[i + k] != p[k] {
            assert(s@.subrange(i as int, i + p.len())[k as int] != p@[k as int]);
            return false;
        }
    }
    assert(s@.subrange(i as int, i + p.len()) =~= p@);
    true
}

fn replace_chars(s: &Vec<char>, pat: &str, rep: &str) -> (r: Vec<char>)
    ensures
        r@ == replace_all(s@, pat@, rep@),
{
    let p = chars_of(pat);
    let rp = chars_of(rep);
    let mut out: Vec<char> = Vec::new();
    if p.len() == 0 {
        assert(s@.subrange(0, s.len() as int) =~= s@);
        return slice_of(s, 0, s.len());
    }
    let mut i: usize = 0;
    while i < s.len()
        invariant
            i <= s.len(),
            p@ == pat@,
            rp@ == rep@,
            p.len() > 0,
            out@ + replace_from(s@, p@, rp@, i as int) == replace_all(s@, p@, rp@),
        decreases s.len() - i,
    {
        if matches_at(s, &p, i) {
            let ghost before = out@;
            for k in 0..rp.len()
                invariant
                    out@ == before + rp@.subrange(0, k as int),
            {
                out.push(rp[k]);
                assert(out@ =~= before + rp@.subrange(0, k + 1));
            }
            assert(rp@.subrange(0, rp.len() as int) =~= rp@);
            assert(out@ + replace_from(s@, p@, rp@, i + p.len()) =~= before + (rp@ + replace_from(
                s@,
                p@,
                rp@,
                i + p.len(),
            )));
            i = i + p.len();
        } else {
            let ghost before = out@;
            out.push(s[i]);
            assert(out@ + replace_from(s@, p@, rp@, i + 1) =~= before + (seq![s@[i as int]]
                + replace_from(s@, p@, rp@, i + 1)));
            i = i + 1;
        }
    }
    assert(out@ =~= out@ + replace_from(s@, p@, rp@, i as int));
    out
}

/// A finished sentence: trimmed, the vowel of "what" corrected, and the
/// archaic `hw` made `w` at the start and after each space.
pub open spec fn finished(s: Seq<char>) -> Seq<char> {
    let t0 = trim(s);
    let t1 = replace_all(t0, "hwˈət"@, "wˈʌt"@);
    let t2 = replace_all(t1, " hwˈət"@, " wˈʌt"@);
    let t3 = replace_all(t2, "wˈət"@, "wˈʌt"@);
    let t4 = replace_all(t3, " wˈət"@, " wˈʌt"@);
    replace_all(modern_w(t4), " hw"@, " w"@)
}

fn modern_w_of(s: Vec<char>) -> (r: Vec<char>)
    ensures
        r@ == modern_w(s@),
{
    if s.len() >= 2 && s[0] == 'h' && s[1] == 'w' {
        let rest = slice_of(&s, 2, s.len());
        let mut r: Vec<char> = Vec::new();
        r.push('w');
        for i in 0..rest.len()
            invariant
                r@ == seq!['w'] + rest@.subrange(0, i as int),
        {
            r.push(rest[i]);
            assert(r@ =~= seq!['w'] + rest@.subrange(0, i + 1));
        }
        assert(rest@.subrange(0, rest@.len() as int) =~= rest@);
        r
    } else {
        s
    }
}

/// The pass over a finished sentence: trims it, corrects the vowel of
/// "what", and turns the archaic `hw` into `w`.
pub fn finish_phonemes(result: &str) -> (r: String)
    ensures
        r@ == finished(result@),
{
    let s = chars_of(result);
    let t0 = trim_start_chars(&trim_end_chars(&s));
    let t1 = replace_chars(&t0, "hwˈət", "wˈʌt");
    let t2 = replace_chars(&t1, " hwˈət", " wˈʌt");
    let t3 = replace_chars(&t2, "wˈət", "wˈʌt");
    let t4 = replace_chars(&t3, " wˈət", " wˈʌt");
    let t5 = replace_chars(&modern_w_of(t4), " hw", " w");
    string_of(&t5)
}

pub open spec fn is_sentence_punct(c: char) -> bool {
    c == '.' || c == ',' || c == '!' || c == '?'
}

/// Whether a word's phonemes need a space before them: the text so far ends
/// in sentence punctuation, trailing whitespace aside, and not in a space.
pub open spec fn needs_gap(s: Seq<char>) -> bool {
    trim_end(s).len() > 0 && is_sentence_punct(trim_end(s).last()) && !(s.len() > 0 && s.last()
        == ' ')
}

/// The text so far with the space that the next word needs, if any.
pub open spec fn before_word(s: Seq<char>) -> Seq<char> {
    if needs_gap(s) {
        s.push(' ')
    } else {
        s
    }
}

/// Appends an English word's phonemes, with a space first where the text
/// so far ends in sentence punctuation, so that the two do not fuse.
pub fn push_en_word(result: &mut String, ipa: &str)
    ensures
        final(result)@ == before_word(old(result)@) + ipa@,
{
    let s = chars_of(result.as_str());
    let t = trim_end_chars(&s);
    if t.len() > 0 && (t[t.len() - 1] == '.' || t[t.len() - 1] == ',' || t[t.len() - 1] == '!'
        || t[t.len() - 1] == '?') && !(s.len() > 0 && s[s.len() - 1] == ' ') {
        push_char(result, ' ');
    }
    push_str(result, ipa);
}

/// The first character of `p`, or NUL for the empty string.
pub open spec fn first_or_nul(p: Seq<char>) -> char {
    if p.len() > 0 {
        p[0]
    } else {
        '\0'
    }
}

/// Whether a piece of Latin text is a word for the phonemizer: it begins
/// with an ASCII letter, an apostrophe, `_` or `-`.
pub open spec fn is_word_piece(p: Seq<char>) -> bool {
    let c = first_or_nul(p);
    c == '\'' || c == '_' || c == '-' || ('a' <= c && c <= 'z') || ('A' <= c && c <= 'Z')
}

/// Whether `piece` is a word for the phonemizer.
pub fn is_en_word_piece(piece: &str) -> (r: bool)
    ensures
        r == is_word_piece(piece@),
{
    let p = chars_of(piece);
    let c = if p.len() > 0 {
        p[0]
    } else {
        '\0'
    };
    c == '\'' || c == '_' || c == '-' || ('a' <= c && c <= 'z') || ('A' <= c && c <= 'Z')
}

/// What a piece that is no word adds: a piece that starts with a space loses
/// its leading whitespace when the text so far already ends in a space.
pub open spec fn other_piece_text(s: Seq<char>, p: Seq<char>) -> Seq<char> {
    if first_or_nul(p) == ' ' && s.len() > 0 && s.last() == ' ' {
        trim_start(p)
    } else {
        p
    }
}

/// Appends a piece of Latin text that is no word.
pub fn push_en_other(result: &mut String, piece: &str)
    ensures
        final(result)@ == old(result)@ + other_piece_text(old(result)@, piece@),
{
    let s = chars_of(result.as_str());
    let p = chars_of(piece);
    if p.len() > 0 && p[0] == ' ' && s.len() > 0 && s[s.len() - 1] == ' ' {
        let t = trim_start_chars(&p);
        push_str(result, string_of(&t).as_str());
    } else {
        push_str(result, piece);
    }
}

/// The text so far after a run of punctuation: trailing whitespace dropped,
/// the run in half-width form, then a space.
pub open spec fn after_punct(s: Seq<char>, run: Seq<char>) -> Seq<char> {
    trim_end(s) + half_shape(run) + seq![' ']
}

/// Appends a run of punctuation directly after the preceding text.
pub fn push_punct_run(result: &mut String, run: &str)
    ensures
        final(result)@ == after_punct(old(result)@, run@),
{
    let s = chars_of(result.as_str());
    let t = trim_end_chars(&s);
    let mut r = string_of(&t);
    let h = to_half_shape(run);
    push_str(&mut r, h.as_str());
    push_char(&mut r, ' ');
    *result = r;
}

/// The word pieces of `ps`, in order.
pub open spec fn word_pieces(ps: Seq<Seq<char>>) -> Seq<Seq<char>>
    decreases ps.len(),
{
    if ps.len() == 0 {
        Seq::empty()
    } else if is_word_piece(ps.last()) {
        word_pieces(ps.drop_last()).push(ps.last())
    } else {
        word_pieces(ps.drop_last())
    }
}

/// The English words of a sequence of runs: the word pieces of its Latin
/// runs, in order.
pub open spec fn words_in_runs(runs: Seq<(RunKind, Seq<char>)>) -> Seq<Seq<char>>
    decreases runs.len(),
{
    if runs.len() == 0 {
        Seq::empty()
    } else {
        let prev = words_in_runs(runs.drop_last());
        if runs.last().0 == RunKind::Latin {
            prev + word_pieces(pieces_of(runs.last().1))
        } else {
            prev
        }
    }
}

/// `acc` with the Latin pieces `ps` appended, the word pieces taking their
/// phonemes from `ipa`, starting at its `k`-th entry.
pub open spec fn latin_fold(acc: Seq<char>, ps: Seq<Seq<char>>, ipa: Seq<Seq<char>>, k: int) -> Seq<
    char,
>
    decreases ps.len(),
{
    if ps.len() == 0 {
        acc
    } else {
        let a = latin_fold(acc, ps.drop_last(), ipa, k);
        if is_word_piece(ps.last()) {
            before_word(a) + ipa[k + word_pieces(ps.drop_last()).len()]
        } else {
            a + other_piece_text(a, ps.last())
        }
    }
}

/// The phonemes of a sequence of runs, before the final pass; `None` when a
/// Han run has a reading that the tables do not cover.
pub open spec fn runs_fold(runs: Seq<(RunKind, Seq<char>)>, ipa: Seq<Seq<char>>) -> Option<
    Seq<char>,
>
    decreases runs.len(),
{
    if runs.len() == 0 {
        Some(Seq::empty())
    } else {
        match runs_fold(runs.drop_last(), ipa) {
            None => None,
            Some(a) => {
                let r = runs.last();
                if r.0 == RunKind::Han {
                    match zh_words_ipa(jieba_words(half_shape(r.1))) {
                        Some(z) => Some(a + z),
                        None => None,
                    }
                } else if r.0 == RunKind::Punctuation {
                    Some(after_punct(a, r.1))
                } else {
                    Some(
                        latin_fold(a, pieces_of(r.1), ipa, words_in_runs(runs.drop_last()).len() as int),
                    )
                }
            },
        }
    }
}

/// The phonemes of `text`, its English words, in order, having the
/// phonemes `ipa`.
pub open spec fn g2p_result(text: Seq<char>, ipa: Seq<Seq<char>>) -> Option<Seq<char>> {
    match runs_fold(runs_of(text), ipa) {
        Some(a) => Some(finished(a)),
        None => None,
    }
}

proof fn lemma_latin_runs_are_latin1(s: Seq<char>)
    ensures
        forall|i: int, j: int|
            0 <= i < runs_of(s).len() && runs_of(s)[i].0 == RunKind::Latin && 0 <= j
                < runs_of(s)[i].1.len() ==> crate::segment::is_latin1(#[trigger] runs_of(s)[i].1[j]),
    decreases s.len(),
{
    if s.len() > 0 {
        lemma_latin_runs_are_latin1(s.drop_last());
        lemma_open_kind_is_last(s.drop_last());
    }
}

proof fn lemma_open_kind_is_last(s: Seq<char>)
    ensures
        crate::segment::open_kind(s) is Some ==> runs_of(s).len() > 0 && runs_of(s).last().0
            == crate::segment::open_kind(s)->0,
    decreases s.len(),
{
    if s.len() > 0 {
        lemma_open_kind_is_last(s.drop_last());
    }
}

proof fn lemma_word_pieces_prefix(ps: Seq<Seq<char>>, j: int)
    requires
        0 <= j <= ps.len(),
    ensures
        word_pieces(ps.subrange(0, j)).len() <= word_pieces(ps).len(),
    decreases ps.len() - j,
{
    if j < ps.len() {
        assert(ps.subrange(0, j + 1).drop_last() =~= ps.subrange(0, j));
        lemma_word_pieces_prefix(ps, j + 1);
    } else {
        assert(ps.subrange(0, j) =~= ps);
    }
}

proof fn lemma_words_prefix(runs: Seq<(RunKind, Seq<char>)>, i: int)
    requires
        0 <= i <= runs.len(),
    ensures
        words_in_runs(runs.subrange(0, i)).len() <= words_in_runs(runs).len(),
    decreases runs.len() - i,
{
    if i < runs.len() {
        assert(runs.subrange(0, i + 1).drop_last() =~= runs.subrange(0, i));
        lemma_words_prefix(runs, i + 1);
    } else {
        assert(runs.subrange(0, i) =~= runs);
    }
}

proof fn lemma_runs_fold_fails(runs: Seq<(RunKind, Seq<char>)>, ipa: Seq<Seq<char>>, i: int)
    requires
        0 < i <= runs.len(),
        runs_fold(runs.subrange(0, i), ipa) is None,
    ensures
        runs_fold(runs, ipa) is None,
    decreases runs.len() - i,
{
    if i < runs.len() {
        assert(runs.subrange(0, i + 1).drop_last() =~= runs.subrange(0, i));
        lemma_runs_fold_fails(runs, ipa, i + 1);
    } else {
        assert(runs.subrange(0, i) =~= runs);
    }
}

/// The English words of `text` that need phonemes from a phonemizer, in
/// order.
pub fn english_words(text: &str) -> (r: Vec<String>)
    ensures
        strings_view(r@) == words_in_runs(runs_of(text@)),
{
    let runs = segment_text(text);
    let ghost rv = text_runs_view(runs@);
    proof {
        lemma_latin_runs_are_latin1(text@);
    }
    let mut out: Vec<String> = Vec::new();
    assert(rv.subrange(0, 0) =~= Seq::<(RunKind, Seq<char>)>::empty());
    assert(strings_view(out@) =~= Seq::<Seq<char>>::empty());
    for i in 0..runs.len()
        invariant
            rv == text_runs_view(runs@),
            rv == runs_of(text@),
            forall|a: int, b: int|
                0 <= a < rv.len() && rv[a].0 == RunKind::Latin && 0 <= b < rv[a].1.len()
                    ==> crate::segment::is_latin1(#[trigger] rv[a].1[b]),
            strings_view(out@) == words_in_runs(rv.subrange(0, i as int)),
    {
        assert(rv.subrange(0, i + 1).drop_last() =~= rv.subrange(0, i as int));
        assert(rv[i as int] == (runs@[i as int].kind, runs@[i as int].text@));
        if runs[i].kind == RunKind::Latin {
            assert forall|b: int| 0 <= b < runs@[i as int].text@.len() implies crate::segment::is_latin1(
                #[trigger] runs@[i as int].text@[b],
            ) by {
                assert(rv[i as int].1[b] == runs@[i as int].text@[b]);
            }
            let pieces = split_en_pieces(runs[i].text.as_str());
            let ghost pv = strings_view(pieces@);
            let ghost base = strings_view(out@);
            assert(pv.subrange(0, 0) =~= Seq::<Seq<char>>::empty());
            assert(base =~= base + word_pieces(pv.subrange(0, 0)));
            for j in 0..pieces.len()
                invariant
                    pv == strings_view(pieces@),
                    strings_view(out@) == base + word_pieces(pv.subrange(0, j as int)),
            {
                assert(pv.subrange(0, j + 1).drop_last() =~= pv.subrange(0, j as int));
                assert(pv[j as int] == pieces@[j as int]@);
                let ghost sub = pv.subrange(0, j + 1);
                assert(sub.last() == pv[j as int]);
                let ghost before = out@;
                if is_en_word_piece(pieces[j].as_str()) {
                    let w = string_of(&chars_of(pieces[j].as_str()));
                    out.push(w);
                    assert(strings_view(out@) =~= strings_view(before).push(pv[j as int]));
                }
                assert(strings_view(out@) =~= base + word_pieces(sub));
            }
            assert(pv.subrange(0, pieces.len() as int) =~= pv);
        }
    }
    assert(rv.subrange(0, runs.len() as int) =~= rv);
    out
}

/// Converts `text` to phonemes, its English words, in order, having the
/// phonemes `word_ipa`: Han runs through their pinyin readings, punctuation
/// attached to the text before it, English words joined so that
/// punctuation does not fuse into them, then the final pass.
pub fn g2p_with_word_phonemes(text: &str, word_ipa: &Vec<String>) -> (r: Result<String, G2PError>)
    requires
        word_ipa@.len() == words_in_runs(runs_of(text@)).len(),
    ensures
        r matches Ok(p) ==> g2p_result(text@, strings_view(word_ipa@)) == Some(p@),
        r is Err ==> g2p_result(text@, strings_view(word_ipa@)) is None,
{
    let runs = segment_text(text);
    let ghost rv = text_runs_view(runs@);
    let ghost ipa = strings_view(word_ipa@);
    proof {
        lemma_latin_runs_are_latin1(text@);
    }
    let mut acc = String::new();
    let mut k: usize = 0;
    assert(rv.subrange(0, 0) =~= Seq::<(RunKind, Seq<char>)>::empty());
    for i in 0..runs.len()
        invariant
            rv == text_runs_view(runs@),
            rv == runs_of(text@),
            ipa == strings_view(word_ipa@),
            word_ipa@.len() == words_in_runs(rv).len(),
            forall|a: int, b: int|
                0 <= a < rv.len() && rv[a].0 == RunKind::Latin && 0 <= b < rv[a].1.len()
                    ==> crate::segment::is_latin1(#[trigger] rv[a].1[b]),
            runs_fold(rv.subrange(0, i as int), ipa) == Some(acc@),
            k == words_in_runs(rv.subrange(0, i as int)).len(),
    {
        let ghost pre = rv.subrange(0, i as int);
        let ghost next = rv.subrange(0, i + 1);
        assert(next.drop_last() =~= pre);
        assert(rv[i as int] == (runs@[i as int].kind, runs@[i as int].text@));
        proof {
            lemma_words_prefix(rv, i + 1);
        }
        match runs[i].kind {
            RunKind::Han => match han_run_ipa(runs[i].text.as_str()) {
                Ok(z) => push_str(&mut acc, z.as_str()),
                Err(e) => {
                    proof {
                        lemma_runs_fold_fails(rv, ipa, i + 1);
                    }
                    return Err(e);
                },
            },
            RunKind::Punctuation => push_punct_run(&mut acc, runs[i].text.as_str()),
            RunKind::Latin => {
                assert forall|b: int| 0 <= b < runs@[i as int].text@.len() implies crate::segment::is_latin1(
                    #[trigger] runs@[i as int].text@[b],
                ) by {
                    assert(rv[i as int].1[b] == runs@[i as int].text@[b]);
                }
                let pieces = split_en_pieces(runs[i].text.as_str());
                let ghost pv = strings_view(pieces@);
                let ghost a0 = acc@;
                let ghost k0 = k as int;
                assert(pv.subrange(0, 0) =~= Seq::<Seq<char>>::empty());
                assert(next.last() == rv[i as int]);
                assert(words_in_runs(next) == words_in_runs(pre) + word_pieces(pv));
                assert(pv.subrange(0, pv.len() as int) =~= pv);
                for j in 0..pieces.len()
                    invariant
                        pv == strings_view(pieces@),
                        ipa == strings_view(word_ipa@),
                        k0 + word_pieces(pv).len() <= word_ipa@.len(),
                        acc@ == latin_fold(a0, pv.subrange(0, j as int), ipa, k0),
                        k == k0 + word_pieces(pv.subrange(0, j as int)).len(),
                {
                    let ghost sub = pv.subrange(0, j + 1);
                    assert(sub.drop_last() =~= pv.subrange(0, j as int));
                    assert(pv[j as int] == pieces@[j as int]@);
                    proof {
                        lemma_word_pieces_prefix(pv, j + 1);
                    }
                    assert(sub.last() == pv[j as int]);
                    if is_en_word_piece(pieces[j].as_str()) {
                        assert(word_pieces(sub).len() == word_pieces(pv.subrange(0, j as int)).len()
                            + 1);
                        assert(ipa[k as int] == word_ipa@[k as int]@);
                        let n = word_ipa.len();
                        assert(k + 1 <= n);
                        push_en_word(&mut acc, word_ipa[k].as_str());
                        k = k + 1;
                    } else {
                        push_en_other(&mut acc, pieces[j].as_str());
                    }
                }
                assert(pv.subrange(0, pieces.len() as int) =~= pv);
            },
        }
    }
    assert(rv.subrange(0, runs.len() as int) =~= rv);
    Ok(finish_phonemes(acc.as_str()))
}

/// The phonemes of an English word under the fixed rules and a dictionary
/// with entries `m`.
pub open spec fn en_dict_ipa(w: Seq<char>, m: Map<Seq<char>, Seq<Seq<Seq<char>>>>, choice: nat) -> Seq<
    char,
> {
    match rule_ipa(w, lower_of(w)) {
        Some(x) => x,
        None => dict_ipa(m, w, lower_of(w), choice),
    }
}

/// Converts `text` to phonemes with English words taken from the fixed
/// rules, then from the pronunciation dictionary, `choice` selecting among
/// recorded pronunciations.
pub fn g2p_dict(text: &str, dict: &Cmudict, choice: u64) -> (r: Result<String, G2PError>)
    ensures
        ({
            let ipa = words_in_runs(runs_of(text@)).map_values(
                |w: Seq<char>| en_dict_ipa(w, cmudict_entries(*dict), choice as nat),
            );
            &&& r matches Ok(p) ==> g2p_result(text@, ipa) == Some(p@)
            &&& r is Err ==> g2p_result(text@, ipa) is None
        }),
{
    let words = english_words(text);
    let ghost wv = strings_view(words@);
    let ghost m = cmudict_entries(*dict);
    let mut ipa: Vec<String> = Vec::new();
    for i in 0..words.len()
        invariant
            wv == strings_view(words@),
            m == cmudict_entries(*dict),
            strings_view(ipa@) == wv.subrange(0, i as int).map_values(
                |w: Seq<char>| en_dict_ipa(w, m, choice as nat),
            ),
    {
        let w = words[i].as_str();
        assert(wv[i as int] == w@);
        let lower = lowercase(w);
        let p = match rule_phonemes_lowered(w, lower.as_str()) {
            Some(p) => p,
            None => dict_phonemes_lowered(dict, w, lower.as_str(), choice),
        };
        assert(p@ == en_dict_ipa(wv[i as int], m, choice as nat));
        let ghost before = ipa@;
        ipa.push(p);
        assert(strings_view(ipa@) =~= strings_view(before).push(
            en_dict_ipa(wv[i as int], m, choice as nat),
        ));
        assert(strings_view(ipa@) =~= wv.subrange(0, i + 1).map_values(
            |w: Seq<char>| en_dict_ipa(w, m, choice as nat),
        ));
    }
    assert(wv.subrange(0, words.len() as int) =~= wv);
    g2p_with_word_phonemes(text, &ipa)
}

} // verus!

