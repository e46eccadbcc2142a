//! Segmentation of raw text into runs of Han characters, full-width
//! punctuation and Latin-1 text, and of Latin runs into word and non-word
//! pieces.

use crate::chars::{chars_of, string_of};
use crate::tokenizer_v019::deep_words;
use vstd::prelude::*;

verus! {

/// The half-width (or curly-quote) form of a full-width punctuation mark;
/// any other character is kept.
pub open spec fn half_shape_char(c: char) -> char {
    if c == '«' || c == '《' {
        '“'
    } else if c == '»' || c == '》' {
        '”'
    } else if c == '（' {
        '('
    } else if c == '）' {
        ')'
    } else if c == '、' || c == '，' {
        ','
    } else if c == '。' {
        '.'
    } else if c == '！' {
        '!'
    } else if c == '：' {
        ':'
    } else if c == '；' {
        ';'
    } else if c == '？' {
        '?'
    } else {
        c
    }
}

pub open spec fn half_shape(s: Seq<char>) -> Seq<char> {
    s.map_values(|c: char| half_shape_char(c))
}

fn half_shape_of(c: char) -> (r: char)
    ensures
        r == half_shape_char(c),
{
    if c == '«' || c == '《' {
        '“'
    } else if c == '»' || c == '》' {
        '”'
    } else if c == '（' {
        '('
    } else if c == '）' {
        ')'
    } else if c == '、' || c == '，' {
        ','
    } else if c == '。' {
        '.'
    } else if c == '！' {
        '!'
    } else if c == '：' {
        ':'
    } else if c == '；' {
        ';'
    } else if c == '？' {
        '?'
    } else {
        c
    }
}

/// Replaces each full-width punctuation mark of `text` by its half-width
/// form.
pub fn to_half_shape(text: &str) -> (r: String)
    ensures
        r@ == half_shape(text@),
{
    let s = chars_of(text);
    let mut v: Vec<char> = Vec::new();
    for i in 0..s.len()
        invariant
            s@ == text@,
            v@ == half_shape(s@.subrange(0, i as int)),
    {
        v.push(half_shape_of(s[i]));
        assert(v@ =~= half_shape(s@.subrange(0, i + 1)));
    }
    assert(s@.subrange(0, s.len() as int) =~= s@);
    string_of(&v)
}

/// The kind of a run of text.
#[derive(PartialEq, Eq, Structural, Clone, Copy, Debug)]
pub enum RunKind {
    /// Han characters of the basic CJK block.
    Han,
    /// Full-width punctuation and quotes.
    Punctuation,
    /// Latin-1 text: letters, digits, ASCII punctuation and whitespace.
    Latin,
}

pub open spec fn is_han(c: char) -> bool {
    0x4e00 <= (c as u32) && (c as u32) <= 0x9fff
}

/// The punctuation that forms runs of its own.
pub open spec fn is_run_punct(c: char) -> bool {
    let u = c as u32;
    u == 0xff0c || u == 0x3002 || u == 0xff1a || u == 0xb7 || u == 0xff1f || u == 0x3001 || u
        == 0xff01 || u == 0x300a || u == 0x300b || u == 0xff08 || u == 0xff09 || u == 0x3010 || u
        == 0x3011 || u == 0x3016 || u == 0x3017 || u == 0x3014 || u == 0x3015 || u == 0x22 || u
        == 0x27 || u == 0x3008 || u == 0x3009 || u == 0x2026 || u == 0x2014 || u == 0x3000
}

pub open spec fn is_latin1(c: char) -> bool {
    (c as u32) <= 0xff
}

/// The kind of run that `c` begins, tried in the order Han, punctuation,
/// Latin; `None` for a character that belongs to no run.
pub open spec fn start_kind(c: char) -> Option<RunKind> {
    if is_han(c) {
        Some(RunKind::Han)
    } else if is_run_punct(c) {
        Some(RunKind::Punctuation)
    } else if is_latin1(c) {
        Some(RunKind::Latin)
    } else {
        None
    }
}

/// Whether `c` extends a run of kind `k`.
pub open spec fn continues(k: RunKind, c: char) -> bool {
    match k {
        RunKind::Han => is_han(c),
        RunKind::Punctuation => is_run_punct(c),
        RunKind::Latin => is_latin1(c),
    }
}

/// The kind of the run that the last character of `s` belongs to.
pub open spec fn open_kind(s: Seq<char>) -> Option<RunKind>
    decreases s.len(),
{
    if s.len() == 0 {
        None
    } else {
        let k = open_kind(s.drop_last());
        if k is Some && continues(k->0, s.last()) {
            k
        } else {
            start_kind(s.last())
        }
    }
}

/// The runs of `s`, in order: each is as long as its kind allows, the next
/// starts at the first character that does not extend it, and characters
/// that begin no run are left out.
pub open spec fn runs_of(s: Seq<char>) -> Seq<(RunKind, Seq<char>)>
    decreases s.len(),
{
    if s.len() == 0 {
        Seq::empty()
    } else {
        let prev = runs_of(s.drop_last());
        let k = open_kind(s.drop_last());
        let c = s.last();
        if k is Some && continues(k->0, c) {
            prev.update(prev.len() - 1, (k->0, prev.last().1.push(c)))
        } else {
            match start_kind(c) {
                Some(nk) => prev.push((nk, seq![c])),
                None => prev,
            }
        }
    }
}

/// A run of text and its kind.
pub struct TextRun {
    pub kind: RunKind,
    pub text: String,
}

fn start_kind_of(c: char) -> (r: Option<RunKind>)
    ensures
        r == start_kind(c),
{
    let u = c as u32;
    if 0x4e00 <= u && u <= 0x9fff {
        Some(RunKind::Han)
    } else if u == 0xff0c || u == 0x3002 || u == 0xff1a || u == 0xb7 || u == 0xff1f || u
        == 0x3001 || u == 0xff01 || u == 0x300a || u == 0x300b || u == 0xff08 || u == 0xff09 || u
        == 0x3010 || u == 0x3011 || u == 0x3016 || u == 0x3017 || u == 0x3014 || u == 0x3015 || u
        == 0x22 || u == 0x27 || u == 0x3008 || u == 0x3009 || u == 0x2026 || u == 0x2014 || u
        == 0x3000 {
        Some(RunKind::Punctuation)
    } else if u <= 0xff {
        Some(RunKind::Latin)
    } else {
        None
    }
}

fn continues_of(k: RunKind, c: char) -> (r: bool)
    ensures
        r == continues(k, c),
{
    let u = c as u32;
    match k {
        RunKind::Han => 0x4e00 <= u && u <= 0x9fff,
        RunKind::Punctuation => u == 0xff0c || u == 0x3002 || u == 0xff1a || u == 0xb7 || u
            == 0xff1f || u == 0x3001 || u == 0xff01 || u == 0x300a || u == 0x300b || u == 0xff08
            || u == 0xff09 || u == 0x3010 || u == 0x3011 || u == 0x3016 || u == 0x3017 || u
            == 0x3014 || u == 0x3015 || u == 0x22 || u == 0x27 || u == 0x3008 || u == 0x3009 || u
            == 0x2026 || u == 0x2014 || u == 0x3000,
        RunKind::Latin => u <= 0xff,
    }
}

pub open spec fn runs_view(v: Seq<(RunKind, Vec<char>)>) -> Seq<(RunKind, Seq<char>)> {
    v.map_values(|r: (RunKind, Vec<char>)| (r.0, r.1@))
}

pub open spec fn text_runs_view(v: Seq<TextRun>) -> Seq<(RunKind, Seq<char>)> {
    v.map_values(|r: TextRun| (r.kind, r.text@))
}

/// Splits `text` into runs of Han characters, full-width punctuation and
/// Latin-1 text; characters outside all three are dropped.
pub fn segment_text(text: &str) -> (r: Vec<TextRun>)
    ensures
        text_runs_view(r@) == runs_of(text@),
{
    let s = chars_of(text);
    let mut runs: Vec<(RunKind, Vec<char>)> = Vec::new();
    let mut open: Option<RunKind> = None;
    assert(runs_view(runs@) =~= runs_of(s@.subrange(0, 0)));
    for i in 0..s.len()
        invariant
            s@ == text@,
            runs_view(runs@) == runs_of(s@.subrange(0, i as int)),
            open == open_kind(s@.subrange(0, i as int)),
            open is Some ==> runs@.len() > 0 && runs@.last().0 == open->0,
    {
        let c = s[i];
        let ghost pre = s@.subrange(0, i as int);
        assert(s@.subrange(0, i + 1).drop_last() =~= pre);
        let ghost before = runs@;
        let extend = match open {
            Some(k) => continues_of(k, c),
            None => false,
        };
        if extend {
            let (k, mut t) = runs.pop().unwrap();
            t.push(c);
            runs.push((k, t));
            let ghost rv = runs_view(before);
            assert forall|j: int| 0 <= j < runs@.len() implies #[trigger] runs_view(runs@)[j]
                == rv.update(rv.len() - 1, (k, rv.last().1.push(c)))[j] by {
                if j < runs@.len() - 1 {
                    assert(runs@[j] == before[j]);
                }
            }
            assert(runs_view(runs@) =~= rv.update(rv.len() - 1, (k, rv.last().1.push(c))));
        } else {
            let nk = start_kind_of(c);
            match nk {
                Some(k) => {
                    let t = vec![c];
                    assert(t@ =~= seq![c]);
                    runs.push((k, t));
                    assert(runs_view(runs@) =~= runs_view(before).push((k, seq![c])));
                    open = Some(k);
                },
                None => {
                    open = None;
                },
            }
        }
    }
    assert(s@.subrange(0, s.len() as int) =~= s@);
    let mut out: Vec<TextRun> = Vec::new();
    for j in 0..runs.len()
        invariant
            out@.len() == j,
            text_runs_view(out@) == runs_view(runs@).subrange(0, j as int),
    {
        let k = runs[j].0;
        let t = string_of(&runs[j].1);
        let ghost old_out = out@;
        out.push(TextRun { kind: k, text: t });
        assert forall|m: int| 0 <= m < j + 1 implies #[trigger] text_runs_view(out@)[m]
            == runs_view(runs@)[m] by {
            if m < j {
                assert(out@[m] == old_out[m]);
                assert(text_runs_view(old_out)[m] == runs_view(runs@).subrange(0, j as int)[m]);
            }
        }
        assert(text_runs_view(out@) =~= runs_view(runs@).subrange(0, j + 1));
    }
    assert(runs_view(runs@).subrange(0, runs@.len() as int) =~= runs_view(runs@));
    out
}

/// `\w` on Latin-1: ASCII letters and digits, `_`, `ª`, `µ`, `º`, and the
/// Latin-1 letters from `À` to `ÿ` but `×` and `÷`.
pub open spec fn is_word_char(c: char) -> bool {
    let u = c as u32;
    (0x30 <= u && u <= 0x39) || (0x41 <= u && u <= 0x5a) || u == 0x5f || (0x61 <= u && u <= 0x7a)
        || u == 0xaa || u == 0xb5 || u == 0xba || (0xc0 <= u && u <= 0xd6) || (0xd8 <= u && u
        <= 0xf6) || (0xf8 <= u && u <= 0xff)
}

/// A character of a word piece: a word character or an apostrophe.
pub open spec fn is_wordish(c: char) -> bool {
    is_word_char(c) || c == '\''
}

fn is_wordish_of(c: char) -> (r: bool)
    ensures
        r == is_wordish(c),
{
    let u = c as u32;
    (0x30 <= u && u <= 0x39) || (0x41 <= u && u <= 0x5a) || u == 0x5f || (0x61 <= u && u <= 0x7a)
        || u == 0xaa || u == 0xb5 || u == 0xba || (0xc0 <= u && u <= 0xd6) || (0xd8 <= u && u
        <= 0xf6) || (0xf8 <= u && u <= 0xff) || c == '\''
}

/// The pieces of `s`: maximal runs of word characters and apostrophes, and
/// maximal runs of everything else, alternating.
pub open spec fn pieces_of(s: Seq<char>) -> Seq<Seq<char>>
    decreases s.len(),
{
    if s.len() == 0 {
        Seq::empty()
    } else {
        let prev = pieces_of(s.drop_last());
        let c = s.last();
        if s.len() >= 2 && is_wordish(s[s.len() - 2]) == is_wordish(c) {
            prev.update(prev.len() - 1, prev.last().push(c))
        } else {
            prev.push(seq![c])
        }
    }
}

proof fn lemma_pieces_nonempty(s: Seq<char>)
    requires
        s.len() > 0,
    ensures
        pieces_of(s).len() > 0,
    decreases s.len(),
{
    if s.len() >= 2 {
        lemma_pieces_nonempty(s.drop_last());
    }
}

pub open spec fn strings_view(v: Seq<String>) -> Seq<Seq<char>> {
    v.map_values(|w: String| w@)
}

/// Splits a run of Latin-1 text into word pieces (word characters and
/// apostrophes) and the pieces between them.
pub fn split_en_pieces(run: &str) -> (r: Vec<String>)
    requires
        forall|i: int| 0 <= i < run@.len() ==> is_latin1(#[trigger] run@[i]),
    ensures
        strings_view(r@) == pieces_of(run@),
{
    let s = chars_of(run);
    let mut pieces: Vec<Vec<char>> = Vec::new();
    assert(deep_words(pieces@) =~= pieces_of(s@.subrange(0, 0)));
    for i in 0..s.len()
        invariant
            s@ == run@,
            deep_words(pieces@) == pieces_of(s@.subrange(0, i as int)),
    {
        let c = s[i];
        let ghost pre = s@.subrange(0, i as int);
        let ghost next = s@.subrange(0, i + 1);
        assert(next.drop_last() =~= pre);
        let ghost before = pieces@;
        if i > 0 && is_wordish_of(s[i - 1]) == is_wordish_of(c) {
            proof {
                lemma_pieces_nonempty(pre);
            }
            assert(next[next.len() - 2] == s@[i - 1]);
            let mut w = pieces.pop().unwrap();
            w.push(c);
            pieces.push(w);
            let ghost pv = deep_words(before);
            assert forall|j: int| 0 <= j < pieces@.len() implies #[trigger] deep_words(pieces@)[j] == pv.update(pv.len() - 1, pv.last().push(c))[j] by {
                if j < pieces@.len() - 1 {
                    assert(pieces@[j] == before[j]);
                }
            }
            assert(deep_words(pieces@) =~= pieces_of(next));
        } else {
            assert(i > 0 ==> next[next.len() - 2] == s@[i - 1]);
            let w = vec![c];
            assert(w@ =~= seq![c]);
            pieces.push(w);
            assert(deep_words(pieces@) =~= pieces_of(next));
        }
    }
    assert(s@.subrange(0, s.len() as int) =~= s@);
    let mut out: Vec<String> = Vec::new();
    for j in 0..pieces.len()
        invariant
            out@.len() == j,
            strings_view(out@) == deep_words(pieces@).subrange(0, j as int),
    {
        let ghost old_out = out@;
        out.push(string_of(&pieces[j]));
        assert forall|m: int| 0 <= m < j + 1 implies #[trigger] strings_view(out@)[m] == deep_words(
            pieces@,
        )[m] by {
            if m < j {
                assert(out@[m] == old_out[m]);
                assert(strings_view(old_out)[m] == deep_words(pieces@).subrange(0, j as int)[m]);
            }
        }
        assert(strings_view(out@) =~= deep_words(pieces@).subrange(0, j + 1));
    }
    assert(deep_words(pieces@).subrange(0, pieces@.len() as int)
        =~= deep_words(pieces@));
    out
}

} // verus!
