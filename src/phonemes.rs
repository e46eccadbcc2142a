//! Clean-up of phoneme strings: what a phonemizer returns for one word, and
//! the pass over a finished sentence.

use crate::chars::{chars_of, string_of};
use crate::tokenizer_v019::is_ascii_digit;
use vstd::prelude::*;

verus! {

/// `s` without its ASCII digits.
pub open spec fn drop_digits(s: Seq<char>) -> Seq<char>
    decreases s.len(),
{
    if s.len() == 0 {
        Seq::empty()
    } else if is_ascii_digit(s.last()) {
        drop_digits(s.drop_last())
    } else {
        drop_digits(s.drop_last()).push(s.last())
    }
}

pub open spec fn separator_at(s: Seq<char>, k: int) -> bool {
    0 <= k && k + 1 < s.len() && s[k] == '|' && s[k + 1] == '|'
}

/// Whether `s` holds the lookahead separator `||`.
pub open spec fn has_separator(s: Seq<char>) -> bool {
    exists|k: int| #[trigger] separator_at(s, k)
}

/// Where the first `||` at or after `i` starts, or the length of `s`.
pub open spec fn separator_from(s: Seq<char>, i: int) -> int
    decreases s.len() - i,
{
    if i < 0 || i + 1 >= s.len() {
        s.len() as int
    } else if s[i] == '|' && s[i + 1] == '|' {
        i
    } else {
        separator_from(s, i + 1)
    }
}

/// `s` up to its first `||`.
pub open spec fn before_separator(s: Seq<char>) -> Seq<char> {
    s.subrange(0, separator_from(s, 0))
}

/// Fragments of the following word that a phonemizer leaves at the end of a
/// word, most specific first.
pub open spec fn context_suffixes() -> Seq<Seq<char>> {
    seq![
        "hɐzbˈɪn"@,
        "ɛsənt"@,
        "ɔnðə"@,
        "ʃˈal"@,
        "wˌɒn"@,
        "wɒn"@,
        "ɪntʊ"@,
        "ənt"@,
        "hav"@,
        "tə"@,
        "ðə"@,
    ]
}

/// Whether `s` ends with `suf` and has more besides.
pub open spec fn ends_with_more(s: Seq<char>, suf: Seq<char>) -> bool {
    suf.len() < s.len() && s.subrange(s.len() - suf.len(), s.len() as int) == suf
}

/// `s` without the first of `list` that it ends with (and has more besides).
pub open spec fn strip_first_suffix(s: Seq<char>, list: Seq<Seq<char>>) -> Seq<char>
    decreases list.len(),
{
    if list.len() == 0 {
        s
    } else if ends_with_more(s, list[0]) {
        s.subrange(0, s.len() - list[0].len())
    } else {
        strip_first_suffix(s, list.drop_first())
    }
}

/// `s` with a leading `hw` made `w`.
pub open spec fn modern_w(s: Seq<char>) -> Seq<char> {
    if s.len() >= 2 && s[0] == 'h' && s[1] == 'w' {
        seq!['w'] + s.subrange(2, s.len() as int)
    } else {
        s
    }
}

/// A word's phonemes as a phonemizer returned them, cleaned: digits dropped,
/// cut at the lookahead separator, one trailing context fragment removed,
/// and a leading `hw` made `w`.
pub open spec fn cleaned(raw: Seq<char>) -> Seq<char> {
    modern_w(strip_first_suffix(before_separator(drop_digits(raw)), context_suffixes()))
}

proof fn lemma_drop_digits(s: Seq<char>)
    ensures
        forall|i: int| 0 <= i < drop_digits(s).len() ==> !is_ascii_digit(#[trigger] drop_digits(s)[i]),
    decreases s.len(),
{
    if s.len() > 0 {
        let prev = drop_digits(s.drop_last());
        lemma_drop_digits(s.drop_last());
        if !is_ascii_digit(s.last()) {
            assert forall|i: int| 0 <= i < prev.len() + 1 implies !is_ascii_digit(
                #[trigger] prev.push(s.last())[i],
            ) by {
                if i < prev.len() {
                    assert(prev.push(s.last())[i] == prev[i]);
                }
            }
        }
    }
}

proof fn lemma_separator_from(s: Seq<char>, i: int)
    requires
        0 <= i <= s.len(),
    ensures
        i <= separator_from(s, i) <= s.len(),
        forall|k: int| i <= k < separator_from(s, i) ==> !#[trigger] separator_at(s, k),
    decreases s.len() - i,
{
    if i + 1 < s.len() && !(s[i] == '|' && s[i + 1] == '|') {
        lemma_separator_from(s, i + 1);
    }
}

proof fn lemma_strip_is_prefix(s: Seq<char>, list: Seq<Seq<char>>)
    ensures
        strip_first_suffix(s, list).len() <= s.len(),
        strip_first_suffix(s, list) == s.subrange(0, strip_first_suffix(s, list).len() as int),
    decreases list.len(),
{
    if list.len() > 0 && !ends_with_more(s, list[0]) {
        lemma_strip_is_prefix(s, list.drop_first());
    } else if list.len() == 0 {
        assert(s.subrange(0, s.len() as int) =~= s);
    }
}

/// Cleaned phonemes hold no ASCII digit and no lookahead separator.
pub proof fn lemma_cleaned_is_clean(raw: Seq<char>)
    ensures
        forall|i: int| 0 <= i < cleaned(raw).len() ==> !is_ascii_digit(#[trigger] cleaned(raw)[i]),
        !has_separator(cleaned(raw)),
{
    let d = drop_digits(raw);
    lemma_drop_digits(raw);
    lemma_separator_from(d, 0);
    let b = before_separator(d);
    let t = strip_first_suffix(b, context_suffixes());
    lemma_strip_is_prefix(b, context_suffixes());
    assert forall|i: int| 0 <= i < t.len() implies !is_ascii_digit(#[trigger] t[i]) && (i + 1 < t.len()
        ==> !separator_at(t, i)) by {
        assert(t[i] == d[i]);
        if i + 1 < t.len() {
            assert(t[i + 1] == d[i + 1]);
            assert(!separator_at(d, i));
        }
    }
    let c = cleaned(raw);
    assert forall|i: int| 0 <= i < c.len() implies !is_ascii_digit(#[trigger] c[i]) by {
        if t.len() >= 2 && t[0] == 'h' && t[1] == 'w' && i > 0 {
            assert(c[i] == t[i + 1]);
        }
    }
    if has_separator(c) {
        let k = choose|k: int| #[trigger] separator_at(c, k);
        if t.len() >= 2 && t[0] == 'h' && t[1] == 'w' {
            assert(k > 0);
            assert(c[k] == t[k + 1] && c[k + 1] == t[k + 2]);
            assert(!separator_at(t, k + 1));
        } else {
            assert(!separator_at(t, k));
        }
    }
}

fn remove_digits(s: &Vec<char>) -> (r: Vec<char>)
    ensures
        r@ == drop_digits(s@),
{
    let mut r: Vec<char> = Vec::new();
    for i in 0..s.len()
        invariant
            r@ == drop_digits(s@.subrange(0, i as int)),
    {
        assert(s@.subrange(0, i + 1).drop_last() =~= s@.subrange(0, i as int));
        if !('0' <= s[i] && s[i] <= '9') {
            r.push(s[i]);
        }
    }
    assert(s@.subrange(0, s.len() as int) =~= s@);
    r
}

/// The elements of `s` from `from` up to `to`.
pub fn slice_of(s: &Vec<char>, from: usize, to: usize) -> (r: Vec<char>)
    requires
        from <= to <= s.len(),
    ensures
        r@ == s@.subrange(from as int, to as int),
{
    let mut r: Vec<char> = Vec::new();
    for i in from..to
        invariant
            to <= s.len(),
            r@ == s@.subrange(from as int, i as int),
    {
        r.push(s[i]);
        assert(r@ =~= s@.subrange(from as int, i + 1));
    }
    r
}

fn cut_at_separator(s: &Vec<char>) -> (r: Vec<char>)
    ensures
        r@ == before_separator(s@),
{
    let mut i: usize = 0;
    while i < s.len() && i + 1 < s.len() && !(s[i] == '|' && s[i + 1] == '|')
        invariant
            i <= s.len(),
            separator_from(s@, 0) == separator_from(s@, i as int),
        decreases s.len() - i,
    {
        i = i + 1;
    }
    let end = if i < s.len() && i + 1 < s.len() {
        i
    } else {
        s.len()
    };
    slice_of(s, 0, end)
}

/// Whether `s` ends with `suf` and has more besides.
fn ends_with_more_chars(s: &Vec<char>, suf: &Vec<char>) -> (r: bool)
    ensures
        r == ends_with_more(s@, suf@),
{
    if suf.len() >= s.len() {
        return false;
    }
    let off = s.len() - suf.len();
    for k in 0..suf.len()
        invariant
            off == s.len() - suf.len(),
            forall|j: int| 0 <= j < k ==> s@[off + j] == suf@[j],
    {
        if s[off + k] != suf[k] {
            assert(s@.subrange(off as int, s.len() as int)[k as int] != suf@[k as int]);
            return false;
        }
    }
    assert(s@.subrange(off as int, s.len() as int) =~= suf@);
    true
}

fn strip_context_suffix(s: &Vec<char>) -> (r: Vec<char>)
    ensures
        r@ == strip_first_suffix(s@, context_suffixes()),
{
    let list: Vec<&str> = vec![
        "hɐzbˈɪn",
        "ɛsənt",
        "ɔnðə",
        "ʃˈal",
        "wˌɒn",
        "wɒn",
        "ɪntʊ",
        "ənt",
        "hav",
        "tə",
        "ðə",
    ];
    let ghost all = context_suffixes();
    assert(list@.map_values(|x: &str| x@) =~= all);
    assert(all.subrange(0, all.len() as int) =~= all);
    for k in 0..list.len()
        invariant
            all == context_suffixes(),
            list@.map_values(|x: &str| x@) == all,
            strip_first_suffix(s@, all) == strip_first_suffix(
                s@,
                all.subrange(k as int, all.len() as int),
            ),
    {
        let suf = chars_of(list[k]);
        let ghost rest = all.subrange(k as int, all.len() as int);
        assert(rest[0] == suf@);
        if ends_with_more_chars(s, &suf) {
            assert(rest.len() > 0);
            assert(strip_first_suffix(s@, rest) == s@.subrange(0, s@.len() - suf@.len()));
            return slice_of(s, 0, s.len() - suf.len());
        }
        assert(rest.drop_first() =~= all.subrange(k + 1, all.len() as int));
    }
    assert(all.subrange(all.len() as int, all.len() as int) =~= Seq::<Seq<char>>::empty());
    slice_of(s, 0, s.len())
}

fn modern_w_chars(s: Vec<char>) -> (r: Vec<char>)
    ensures
        r@ == modern_w(s@),
{
    if s.len() >= 2 && s[0] == 'h' && s[1] == 'w' {
        let mut r: Vec<char> = Vec::new();
        r.push('w');
        for i in 2..s.len()
            invariant
                r@ == seq!['w'] + s@.subrange(2, i as int),
        {
            r.push(s[i]);
            assert(r@ =~= seq!['w'] + s@.subrange(2, i + 1));
        }
        r
    } else {
        assert(s@.subrange(0, s.len() as int) =~= s@);
        s
    }
}

/// Cleans what a phonemizer returned for one word: drops the ASCII digits,
/// cuts at the first lookahead separator `||`, removes one trailing context
/// fragment of the next word, and turns a leading `hw` into `w`.
pub fn clean_phonemes(raw: &str) -> (r: String)
    ensures
        r@ == cleaned(raw@),
        forall|i: int| 0 <= i < r@.len() ==> !is_ascii_digit(#[trigger] r@[i]),
        !has_separator(r@),
{
    let s = chars_of(raw);
    let d = remove_digits(&s);
    let b = cut_at_separator(&d);
    let t = strip_context_suffix(&b);
    let w = modern_w_chars(t);
    proof {
        lemma_cleaned_is_clean(raw@);
    }
    string_of(&w)
}

} // verus!
