//! The integer bookkeeping of synthesis: which model generation a voice
//! uses, which style vector of a voice pack goes with a token sequence, how a
//! long token sequence is cut into sub-chunks, and where the legacy voice
//! file keeps each value.

use vstd::prelude::*;

verus! {

/// A model generation; token sequences and tensors of one are meaningless
/// to the other.
#[derive(PartialEq, Eq, Structural, Clone, Copy, Debug)]
pub enum ModelGeneration {
    /// The earlier generation: inputs `tokens`, `style`, `speed`; output `audio`.
    V10,
    /// The current, long-form generation: inputs `input_ids`, `style`,
    /// `speed`; outputs `waveform` and `duration`.
    V11,
}

/// The generation that a voice with the given capabilities is synthesized
/// with: the current one where supported, else the earlier one, else none.
pub fn select_generation(v10_supported: bool, v11_supported: bool) -> (r: Option<ModelGeneration>)
    ensures
        v11_supported ==> r == Some(ModelGeneration::V11),
        !v11_supported && v10_supported ==> r == Some(ModelGeneration::V10),
        !v11_supported && !v10_supported ==> r is None,
{
    if v11_supported {
        Some(ModelGeneration::V11)
    } else if v10_supported {
        Some(ModelGeneration::V10)
    } else {
        None
    }
}

/// The row of a voice pack of `pack_len` rows that goes with `token_len`
/// tokens: `min(token_len - 1, pack_len - 1)`, or none when there is no
/// such row.
pub open spec fn style_index_spec(token_len: int, pack_len: int) -> Option<int> {
    if token_len >= 1 && pack_len >= 1 {
        Some(if token_len - 1 < pack_len - 1 {
            token_len - 1
        } else {
            pack_len - 1
        })
    } else {
        None
    }
}

/// The row of a voice pack of `pack_len` rows for `token_len` tokens.
pub fn style_index(token_len: usize, pack_len: usize) -> (r: Option<usize>)
    ensures
        r matches Some(i) ==> style_index_spec(token_len as int, pack_len as int) == Some(i as int),
        r is None ==> style_index_spec(token_len as int, pack_len as int) is None,
{
    if token_len >= 1 && pack_len >= 1 {
        if token_len - 1 < pack_len - 1 {
            Some(token_len - 1)
        } else {
            Some(pack_len - 1)
        }
    } else {
        None
    }
}

/// `width` copies of `zero`.
pub open spec fn zero_vector<T>(zero: T, width: nat) -> Seq<T> {
    Seq::new(width, |_j: int| zero)
}

/// The style vector of a voice pack whose rows are the vectors themselves:
/// the row that `style_index` picks, or `width` zeros when there is none.
pub fn style_vector<T: Copy>(pack: &Vec<Vec<T>>, token_len: usize, zero: T, width: usize) -> (r:
    Vec<T>)
    ensures
        r@ == match style_index_spec(token_len as int, pack@.len() as int) {
            Some(i) => pack@[i]@,
            None => zero_vector(zero, width as nat),
        },
{
    match style_index(token_len, pack.len()) {
        Some(i) => copy_row(&pack[i]),
        None => zeros(zero, width),
    }
}

/// The style vector of a voice pack whose rows hold the vector as their
/// first entry: that entry of the row that `style_index` picks, or `width`
/// zeros when the pack has no such row or the row is empty.
pub fn style_vector_nested<T: Copy>(
    pack: &Vec<Vec<Vec<T>>>,
    token_len: usize,
    zero: T,
    width: usize,
) -> (r: Vec<T>)
    ensures
        r@ == match style_index_spec(token_len as int, pack@.len() as int) {
            Some(i) => if pack@[i]@.len() > 0 {
                pack@[i]@[0]@
            } else {
                zero_vector(zero, width as nat)
            },
            None => zero_vector(zero, width as nat),
        },
{
    match style_index(token_len, pack.len()) {
        Some(i) => {
            if pack[i].len() > 0 {
                copy_row(&pack[i][0])
            } else {
                zeros(zero, width)
            }
        },
        None => zeros(zero, width),
    }
}

fn copy_row<T: Copy>(row: &Vec<T>) -> (r: Vec<T>)
    ensures
        r@ == row@,
{
    let mut r: Vec<T> = Vec::new();
    for k in 0..row.len()
        invariant
            r@ == row@.subrange(0, k as int),
    {
        r.push(row[k]);
        assert(r@ =~= row@.subrange(0, k + 1));
    }
    assert(row@.subrange(0, row@.len() as int) =~= row@);
    r
}

fn zeros<T: Copy>(zero: T, width: usize) -> (r: Vec<T>)
    ensures
        r@ == zero_vector(zero, width as nat),
{
    let mut r: Vec<T> = Vec::new();
    for k in 0..width
        invariant
            r@ == zero_vector(zero, k as nat),
    {
        r.push(zero);
        assert(r@ =~= zero_vector(zero, (k + 1) as nat));
    }
    r
}

/// `s` cut into consecutive sub-chunks of `span` items, the last one
/// possibly shorter; nothing for an empty `s` or a zero `span`.
pub open spec fn chunks_of(s: Seq<i64>, span: nat) -> Seq<Seq<i64>>
    decreases s.len(),
{
    if span == 0 || s.len() == 0 {
        Seq::empty()
    } else if s.len() <= span {
        seq![s]
    } else {
        seq![s.subrange(0, span as int)] + chunks_of(s.subrange(span as int, s.len() as int), span)
    }
}

/// The sub-chunks joined back together, in order.
pub open spec fn joined(cs: Seq<Seq<i64>>) -> Seq<i64>
    decreases cs.len(),
{
    if cs.len() == 0 {
        Seq::empty()
    } else {
        cs[0] + joined(cs.drop_first())
    }
}

/// Cutting a token sequence into sub-chunks of at most `span` tokens loses
/// and repeats nothing: the sub-chunks, joined in order, give the sequence
/// back; none is empty or longer than `span`; and there are as many as
/// `span`-sized pieces are needed to hold the sequence.
pub proof fn lemma_chunks_rejoin(s: Seq<i64>, span: nat)
    requires
        span > 0,
    ensures
        joined(chunks_of(s, span)) == s,
        forall|i: int|
            0 <= i < chunks_of(s, span).len() ==> 0 < (#[trigger] chunks_of(s, span)[i]).len()
                <= span,
        chunks_of(s, span).len() == (s.len() + span - 1) / span as int,
    decreases s.len(),
{
    let cs = chunks_of(s, span);
    if s.len() == 0 {
        assert(joined(cs) =~= s);
        assert((span - 1) / span as int == 0) by (nonlinear_arith)
            requires
                span > 0,
        ;
    } else if s.len() <= span {
        assert(cs.drop_first() =~= Seq::<Seq<i64>>::empty());
        assert(joined(cs.drop_first()) =~= Seq::<i64>::empty());
        assert(joined(cs) =~= s);
        assert((s.len() + span - 1) / span as int == 1) by (nonlinear_arith)
            requires
                0 < s.len() <= span,
        ;
    } else {
        let rest = s.subrange(span as int, s.len() as int);
        lemma_chunks_rejoin(rest, span);
        assert(cs.drop_first() =~= chunks_of(rest, span));
        assert(joined(cs) =~= s.subrange(0, span as int) + rest);
        assert(s.subrange(0, span as int) + rest =~= s);
        let n = s.len() as int;
        assert((n + span - 1) / span as int == (n - span + span - 1) / span as int + 1) by (
        nonlinear_arith)
            requires
                n > span,
                span > 0,
        {
            let m = n - span + span - 1;
            assert(n + span - 1 == m + span);
        }
        assert forall|i: int| 0 <= i < cs.len() implies 0 < (#[trigger] cs[i]).len() <= span by {
            if i > 0 {
                assert(cs[i] == chunks_of(rest, span)[i - 1]);
            }
        }
    }
}

pub open spec fn chunks_view(v: Seq<Vec<i64>>) -> Seq<Seq<i64>> {
    v.map_values(|c: Vec<i64>| c@)
}

/// Cuts a token sequence into consecutive sub-chunks of `span` tokens, the
/// last one possibly shorter.
pub fn split_chunks(tokens: &Vec<i64>, span: usize) -> (r: Vec<Vec<i64>>)
    ensures
        chunks_view(r@) == chunks_of(tokens@, span as nat),
        span > 0 ==> joined(chunks_view(r@)) == tokens@,
{
    let mut out: Vec<Vec<i64>> = Vec::new();
    if span == 0 {
        assert(chunks_view(out@) =~= chunks_of(tokens@, 0));
        return out;
    }
    let mut start: usize = 0;
    assert(tokens@.subrange(0, tokens@.len() as int) =~= tokens@);
    while start < tokens.len()
        invariant
            span > 0,
            start <= tokens.len(),
            chunks_of(tokens@, span as nat) == chunks_view(out@) + chunks_of(
                tokens@.subrange(start as int, tokens@.len() as int),
                span as nat,
            ),
        decreases tokens.len() - start,
    {
        let rest_len = tokens.len() - start;
        let end = if rest_len <= span {
            tokens.len()
        } else {
            start + span
        };
        let mut chunk: Vec<i64> = Vec::new();
        for k in start..end
            invariant
                end <= tokens.len(),
                chunk@ == tokens@.subrange(start as int, k as int),
        {
            chunk.push(tokens[k]);
            assert(chunk@ =~= tokens@.subrange(start as int, k + 1));
        }
        let ghost rest = tokens@.subrange(start as int, tokens@.len() as int);
        let ghost before = out@;
        out.push(chunk);
        assert(chunks_view(out@) =~= chunks_view(before).push(tokens@.subrange(
            start as int,
            end as int,
        )));
        if rest_len <= span {
            assert(rest =~= tokens@.subrange(start as int, end as int));
            assert(tokens@.subrange(end as int, tokens@.len() as int) =~= Seq::<i64>::empty());
            assert(chunks_of(rest, span as nat) =~= seq![rest]);
        } else {
            assert(rest.subrange(0, span as int) =~= tokens@.subrange(start as int, end as int));
            assert(rest.subrange(span as int, rest.len() as int) =~= tokens@.subrange(
                end as int,
                tokens@.len() as int,
            ));
        }
        assert(chunks_of(tokens@, span as nat) =~= chunks_view(out@) + chunks_of(
            tokens@.subrange(end as int, tokens@.len() as int),
            span as nat,
        ));
        start = end;
    }
    assert(chunks_view(out@) =~= chunks_view(out@) + chunks_of(
        tokens@.subrange(start as int, tokens@.len() as int),
        span as nat,
    ));
    proof {
        lemma_chunks_rejoin(tokens@, span as nat);
    }
    out
}

/// Voices in the legacy voice file.
pub const NUM_VOICES_V019: usize = 11;

/// Style vectors per voice in the legacy voice file.
pub const TIME_STEPS_V019: usize = 511;

/// Values per style vector in the legacy voice file.
pub const FEATURES_V019: usize = 256;

/// Values per voice in the legacy voice file.
pub const FLOATS_PER_VOICE: usize = 130816;

/// The size in bytes of the legacy voice file: every value a 4-byte float.
pub const VOICES_V019_BYTES: usize = 5755904;

/// Checks the size of a legacy voice file; the error holds the size that
/// was expected.
pub fn check_voices_v019_len(len: usize) -> (r: Result<(), usize>)
    ensures
        r is Ok <==> len == NUM_VOICES_V019 * TIME_STEPS_V019 * FEATURES_V019 * 4,
        r matches Err(e) ==> e == VOICES_V019_BYTES,
{
    if len == VOICES_V019_BYTES {
        Ok(())
    } else {
        Err(VOICES_V019_BYTES)
    }
}

/// Where the legacy voice file keeps value `feat` of style vector `time` of
/// voice `voice`: row-major, 4 bytes per value.
pub fn offset_v019(voice: usize, time: usize, feat: usize) -> (r: usize)
    requires
        voice < NUM_VOICES_V019,
        time < TIME_STEPS_V019,
        feat < FEATURES_V019,
    ensures
        r == ((voice * TIME_STEPS_V019 + time) * FEATURES_V019 + feat) * 4,
        r + 4 <= VOICES_V019_BYTES,
{
    assert(voice * FLOATS_PER_VOICE <= 10 * 130816) by (nonlinear_arith)
        requires
            voice <= 10,
    ;
    assert(FLOATS_PER_VOICE == TIME_STEPS_V019 * FEATURES_V019);
    assert(voice * FLOATS_PER_VOICE + time * FEATURES_V019 == (voice * TIME_STEPS_V019 + time)
        * FEATURES_V019) by (nonlinear_arith)
        requires
            FLOATS_PER_VOICE == TIME_STEPS_V019 * FEATURES_V019,
    ;
    assert(time * FEATURES_V019 <= 510 * 256) by (nonlinear_arith)
        requires
            time <= 510,
    ;
    (voice * FLOATS_PER_VOICE + time * FEATURES_V019 + feat) * 4
}

} // verus!
