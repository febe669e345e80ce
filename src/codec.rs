use vstd::prelude::*;
use crate::model::{DataSet, Family, Model};

verus! {

/// The first word of an encoded discriminator flag.
pub const FLAG_TAG: u32 = 0x464c_4147;

/// The first word of an encoded model.
pub const MODEL_TAG: u32 = 0x4d4f_444c;

/// The first word of an encoded data set.
pub const DATA_TAG: u32 = 0x4441_5441;

/// The first word of an encoded journal.
pub const JOURNAL_TAG: u32 = 0x4a52_4e4c;

/// The word that stands for a family in an encoded model.
pub open spec fn family_code(f: Family) -> u32 {
    match f {
        Family::Linear => 0,
        Family::SupportVector => 1,
    }
}

/// The low 32 bits of a value.
pub open spec fn low_word(v: u64) -> u32 {
    (v & 0xffff_ffff) as u32
}

/// The high 32 bits of a value.
pub open spec fn high_word(v: u64) -> u32 {
    (v >> 32u64) as u32
}

/// The value whose low and high halves are `lo` and `hi`.
pub open spec fn join_words(lo: u32, hi: u32) -> u64 {
    ((hi as u64) << 32u64) | (lo as u64)
}

/// Each value as two words, low half first.
pub open spec fn value_words(s: Seq<u64>) -> Seq<u32> {
    Seq::new(
        (2 * s.len()) as nat,
        |i: int|
            if i % 2 == 0 {
                low_word(s[i / 2])
            } else {
                high_word(s[i / 2])
            },
    )
}

/// Each byte as one word.
pub open spec fn byte_words(s: Seq<u8>) -> Seq<u32> {
    s.map_values(|b: u8| b as u32)
}

/// The encoding of a discriminator flag.
pub open spec fn flag_words(is_svm: bool) -> Seq<u32> {
    seq![FLAG_TAG, if is_svm { 1u32 } else { 0u32 }]
}

/// The encoding of a model: tag, family, feature count, parameter length,
/// parameters. The runtime configuration is not part of it.
pub open spec fn model_words(m: Model) -> Seq<u32> {
    seq![MODEL_TAG, family_code(m.family), m.n_features, m.weights@.len() as u32]
        + byte_words(m.weights@)
}

/// The encoding of a data set: tag, rows, columns, values.
pub open spec fn data_words(d: DataSet) -> Seq<u32> {
    seq![DATA_TAG, d.rows, d.cols] + value_words(d.values@)
}

/// `w` holds `e` from position `pos` on.
pub open spec fn holds_at(w: Seq<u32>, pos: int, e: Seq<u32>) -> bool {
    &&& 0 <= pos
    &&& pos + e.len() <= w.len()
    &&& w.subrange(pos, pos + e.len()) == e
}

pub proof fn lemma_split_join(v: u64)
    ensures
        join_words(low_word(v), high_word(v)) == v,
{
    assert((((((v >> 32u64) as u32) as u64) << 32u64) | (((v & 0xffff_ffff) as u32) as u64)) == v)
        by (bit_vector);
}

pub proof fn lemma_join_split(lo: u32, hi: u32)
    ensures
        low_word(join_words(lo, hi)) == lo,
        high_word(join_words(lo, hi)) == hi,
{
    assert(((((hi as u64) << 32u64) | (lo as u64)) & 0xffff_ffff) as u32 == lo) by (bit_vector);
    assert(((((hi as u64) << 32u64) | (lo as u64)) >> 32u64) as u32 == hi) by (bit_vector);
}

pub proof fn lemma_holds_at_index(w: Seq<u32>, pos: int, e: Seq<u32>, i: int)
    requires
        holds_at(w, pos, e),
        0 <= i < e.len(),
    ensures
        w[pos + i] == e[i],
{
    assert(w.subrange(pos, pos + e.len())[i] == w[pos + i]);
}

fn family_word(f: Family) -> (r: u32)
    ensures
        r == family_code(f),
{
    match f {
        Family::Linear => 0,
        Family::SupportVector => 1,
    }
}

/// Appends the encoding of a discriminator flag.
pub fn write_flag(out: &mut Vec<u32>, is_svm: bool)
    ensures
        final(out)@ == old(out)@ + flag_words(is_svm),
{
    out.push(FLAG_TAG);
    out.push(if is_svm { 1u32 } else { 0u32 });
    assert(final(out)@ =~= old(out)@ + flag_words(is_svm));
}

/// Appends the encoding of a model.
pub fn write_model(out: &mut Vec<u32>, m: &Model)
    requires
        m.weights@.len() <= u32::MAX,
    ensures
        final(out)@ == old(out)@ + model_words(*m),
{
    out.push(MODEL_TAG);
    out.push(family_word(m.family));
    out.push(m.n_features);
    out.push(m.weights.len() as u32);
    let ghost head = out@;
    let mut i: usize = 0;
    while i < m.weights.len()
        invariant
            i <= m.weights@.len(),
            out@ == head + byte_words(m.weights@.subrange(0, i as int)),
        decreases m.weights@.len() - i,
    {
        out.push(m.weights[i] as u32);
        i = i + 1;
        assert(byte_words(m.weights@.subrange(0, i as int)) =~= byte_words(
            m.weights@.subrange(0, i - 1),
        ).push(m.weights@[i - 1] as u32));
        assert(out@ =~= head + byte_words(m.weights@.subrange(0, i as int)));
    }
    assert(m.weights@.subrange(0, i as int) =~= m.weights@);
    assert(final(out)@ =~= old(out)@ + model_words(*m));
}

/// Appends the encoding of a data set.
pub fn write_data(out: &mut Vec<u32>, d: &DataSet)
    ensures
        final(out)@ == old(out)@ + data_words(*d),
{
    out.push(DATA_TAG);
    out.push(d.rows);
    out.push(d.cols);
    let ghost head = out@;
    let mut i: usize = 0;
    while i < d.values.len()
        invariant
            i <= d.values@.len(),
            out@ == head + value_words(d.values@.subrange(0, i as int)),
        decreases d.values@.len() - i,
    {
        let v = d.values[i];
        out.push((v & 0xffff_ffff) as u32);
        out.push((v >> 32u64) as u32);
        i = i + 1;
        assert(value_words(d.values@.subrange(0, i as int)) =~= value_words(
            d.values@.subrange(0, i - 1),
        ).push(low_word(v)).push(high_word(v)));
        assert(out@ =~= head + value_words(d.values@.subrange(0, i as int)));
    }
    assert(d.values@.subrange(0, i as int) =~= d.values@);
    assert(final(out)@ =~= old(out)@ + data_words(*d));
}

/// The kind of channel entry that a reader expected.
#[derive(Clone, Copy, Debug, PartialEq, Eq, Structural)]
pub enum EntryKind {
    Flag,
    Model,
    Data,
    Journal,
    /// The end of the channel: words were left after the last entry.
    End,
}

/// The words at `position` are not an encoding of the expected entry.
#[derive(Clone, Copy, Debug, PartialEq, Eq, Structural)]
pub struct DeserializationError {
    pub entry: EntryKind,
    pub position: usize,
}

/// Reads a discriminator flag at `pos`; on success also returns the position
/// after it.
pub fn read_flag(w: &Vec<u32>, pos: usize) -> (r: Result<(bool, usize), DeserializationError>)
    requires
        pos <= w@.len(),
    ensures
        match r {
            Ok((b, next)) => next == pos + 2 && holds_at(w@, pos as int, flag_words(b)),
            Err(e) => e == (DeserializationError { entry: EntryKind::Flag, position: pos })
                && forall|b: bool| !holds_at(w@, pos as int, #[trigger] flag_words(b)),
        },
{
    let err = DeserializationError { entry: EntryKind::Flag, position: pos };
    if w.len() - pos < 2 || w[pos] != FLAG_TAG || w[pos + 1] > 1 {
        proof {
            assert forall|b: bool| !holds_at(w@, pos as int, #[trigger] flag_words(b)) by {
                if holds_at(w@, pos as int, flag_words(b)) {
                    lemma_holds_at_index(w@, pos as int, flag_words(b), 0);
                    lemma_holds_at_index(w@, pos as int, flag_words(b), 1);
                }
            }
        }
        return Err(err);
    }
    let b = w[pos + 1] == 1;
    assert(w@.subrange(pos as int, pos + 2) =~= flag_words(b));
    Ok((b, pos + 2))
}

/// Reads a model of family `family` at `pos`; on success also returns the
/// position after it.
pub fn read_model(w: &Vec<u32>, pos: usize, family: Family) -> (r: Result<
    (Model, usize),
    DeserializationError,
>)
    requires
        pos <= w@.len(),
    ensures
        match r {
            Ok((m, next)) => m.family == family && m.is_raw() && next == pos + model_words(
                m,
            ).len() && holds_at(w@, pos as int, model_words(m)),
            Err(e) => e == (DeserializationError { entry: EntryKind::Model, position: pos })
                && forall|m: Model|
                m.family == family && m.is_raw() ==> !holds_at(
                    w@,
                    pos as int,
                    #[trigger] model_words(m),
                ),
        },
{
    let err = DeserializationError { entry: EntryKind::Model, position: pos };
    if w.len() - pos < 4 || w[pos] != MODEL_TAG || w[pos + 1] != family_word(family) || w.len()
        - (pos + 4) < w[pos + 3] as usize {
        proof {
            assert forall|m: Model|
                m.family == family && m.is_raw() implies !holds_at(
                    w@,
                    pos as int,
                    #[trigger] model_words(m),
                ) by {
                if holds_at(w@, pos as int, model_words(m)) {
                    lemma_holds_at_index(w@, pos as int, model_words(m), 0);
                    lemma_holds_at_index(w@, pos as int, model_words(m), 1);
                    lemma_holds_at_index(w@, pos as int, model_words(m), 3);
                }
            }
        }
        return Err(err);
    }
    let n_features = w[pos + 2];
    let len = w[pos + 3] as usize;
    let start = pos + 4;
    let wl: usize = w.len();
    let mut weights: Vec<u8> = Vec::new();
    let mut i: usize = 0;
    while i < len
        invariant
            wl == w@.len(),
            i <= len,
            len == w@[pos + 3],
            start == pos + 4,
            start + len <= wl,
            weights@.len() == i,
            forall|j: int| 0 <= j < i ==> weights@[j] as u32 == #[trigger] w@[start + j],
        decreases len - i,
    {
        let x = w[start + i];
        if x > 255 {
            proof {
                assert forall|m: Model|
                    m.family == family && m.is_raw() implies !holds_at(
                        w@,
                        pos as int,
                        #[trigger] model_words(m),
                    ) by {
                    if holds_at(w@, pos as int, model_words(m)) {
                        lemma_holds_at_index(w@, pos as int, model_words(m), 3);
                        assert(m.weights@.len() == len);
                        lemma_holds_at_index(w@, pos as int, model_words(m), 4 + i);
                        assert(model_words(m)[4 + i] == m.weights@[i as int] as u32);
                    }
                }
            }
            return Err(DeserializationError { entry: EntryKind::Model, position: pos });
        }
        weights.push(x as u8);
        i = i + 1;
    }
    let m = Model { family, n_features, weights, runtime: None };
    assert forall|k: int| 4 <= k < 4 + len implies #[trigger] model_words(m)[k] == w@[pos + k] by {
        assert(w@[start + (k - 4)] == weights@[k - 4] as u32);
    }
    assert(w@.subrange(pos as int, start + len) =~= model_words(m));
    Ok((m, start + len))
}

/// Reads a data set at `pos`; on success also returns the position after it.
pub fn read_data(w: &Vec<u32>, pos: usize) -> (r: Result<(DataSet, usize), DeserializationError>)
    requires
        pos <= w@.len(),
    ensures
        match r {
            Ok((d, next)) => d.wf() && next == pos + data_words(d).len() && holds_at(
                w@,
                pos as int,
                data_words(d),
            ),
            Err(e) => e == (DeserializationError { entry: EntryKind::Data, position: pos })
                && forall|d: DataSet| d.wf() ==> !holds_at(w@, pos as int, #[trigger] data_words(d)),
        },
{
    let err = DeserializationError { entry: EntryKind::Data, position: pos };
    if w.len() - pos < 3 || w[pos] != DATA_TAG {
        proof {
            assert forall|d: DataSet| d.wf() implies !holds_at(
                w@,
                pos as int,
                #[trigger] data_words(d),
            ) by {
                if holds_at(w@, pos as int, data_words(d)) {
                    lemma_holds_at_index(w@, pos as int, data_words(d), 0);
                }
            }
        }
        return Err(err);
    }
    let rows = w[pos + 1];
    let cols = w[pos + 2];
    let start = pos + 3;
    let avail: usize = w.len() - start;
    assert(rows as int * cols as int <= 0xffff_ffff * 0xffff_ffff) by (nonlinear_arith)
        requires
            rows <= 0xffff_ffff,
            cols <= 0xffff_ffff,
    ;
    let n: u64 = rows as u64 * cols as u64;
    if n > (avail / 2) as u64 {
        proof {
            assert forall|d: DataSet| d.wf() implies !holds_at(
                w@,
                pos as int,
                #[trigger] data_words(d),
            ) by {
                if holds_at(w@, pos as int, data_words(d)) {
                    lemma_holds_at_index(w@, pos as int, data_words(d), 1);
                    lemma_holds_at_index(w@, pos as int, data_words(d), 2);
                }
            }
        }
        return Err(err);
    }
    assert(avail as u64 == avail);
    let count = n as usize;
    assert(2 * count <= avail);
    let wl: usize = w.len();
    let mut values: Vec<u64> = Vec::new();
    let mut i: usize = 0;
    while i < count
        invariant
            wl == w@.len(),
            i <= count,
            count == rows as int * cols as int,
            start == pos + 3,
            start + 2 * count <= wl,
            values@.len() == i,
            forall|j: int|
                0 <= j < i ==> low_word(#[trigger] values@[j]) == w@[start + 2 * j] && high_word(
                    values@[j],
                ) == w@[start + 2 * j + 1],
        decreases count - i,
    {
        let lo = w[start + 2 * i];
        let hi = w[start + 2 * i + 1];
        proof {
            lemma_join_split(lo, hi);
        }
        values.push(((hi as u64) << 32u64) | (lo as u64));
        i = i + 1;
    }
    let d = DataSet { rows, cols, values };
    assert(w@.subrange(pos as int, start + 2 * count) =~= data_words(d));
    Ok((d, start + 2 * count))
}

/// Two raw models of one encoding are structurally equal.
pub proof fn lemma_model_words_injective(a: Model, b: Model)
    requires
        a.is_raw(),
        b.is_raw(),
        model_words(a) == model_words(b),
    ensures
        a.same_as(&b),
{
    assert(model_words(a)[1] == family_code(a.family));
    assert(model_words(b)[1] == family_code(b.family));
    assert(model_words(a)[2] == a.n_features);
    assert(model_words(b)[2] == b.n_features);
    assert(a.family == b.family) by {
        match a.family {
            Family::Linear => {},
            Family::SupportVector => {},
        }
    }
    assert(model_words(a)[3] == model_words(b)[3]);
    assert(byte_words(a.weights@).len() == a.weights@.len());
    assert(byte_words(b.weights@).len() == b.weights@.len());
    assert(model_words(a).len() == 4 + a.weights@.len());
    assert(model_words(b).len() == 4 + b.weights@.len());
    assert(a.weights@.len() == b.weights@.len());
    assert forall|i: int| 0 <= i < a.weights@.len() implies a.weights@[i] == b.weights@[i] by {
        assert(model_words(a)[4 + i] == model_words(b)[4 + i]);
        assert(model_words(a)[4 + i] == a.weights@[i] as u32);
        assert(model_words(b)[4 + i] == b.weights@[i] as u32);
    }
    assert(a.weights@ =~= b.weights@);
}

/// Two well-formed data sets of one encoding are structurally equal.
pub proof fn lemma_data_words_injective(a: DataSet, b: DataSet)
    requires
        a.wf(),
        b.wf(),
        data_words(a) == data_words(b),
    ensures
        a.same_as(&b),
{
    assert(data_words(a)[1] == a.rows);
    assert(data_words(b)[1] == b.rows);
    assert(data_words(a)[2] == a.cols);
    assert(data_words(b)[2] == b.cols);
    assert(data_words(a).len() == 3 + 2 * a.values@.len());
    assert(data_words(b).len() == 3 + 2 * b.values@.len());
    assert(a.values@.len() == b.values@.len());
    assert forall|i: int| 0 <= i < a.values@.len() implies a.values@[i] == b.values@[i] by {
        assert(data_words(a)[3 + 2 * i] == data_words(b)[3 + 2 * i]);
        assert(data_words(a)[3 + 2 * i + 1] == data_words(b)[3 + 2 * i + 1]);
        assert(data_words(a)[3 + 2 * i] == value_words(a.values@)[2 * i]);
        assert(data_words(b)[3 + 2 * i] == value_words(b.values@)[2 * i]);
        assert(data_words(a)[3 + 2 * i + 1] == value_words(a.values@)[2 * i + 1]);
        assert(data_words(b)[3 + 2 * i + 1] == value_words(b.values@)[2 * i + 1]);
        assert(value_words(a.values@)[2 * i] == low_word(a.values@[i]));
        assert(value_words(b.values@)[2 * i] == low_word(b.values@[i]));
        assert(value_words(a.values@)[2 * i + 1] == high_word(a.values@[i]));
        assert(value_words(b.values@)[2 * i + 1] == high_word(b.values@[i]));
        lemma_split_join(a.values@[i]);
        lemma_split_join(b.values@[i]);
    }
    assert(a.values@ =~= b.values@);
}

/// Two raw model encodings at one position have the same length.
pub proof fn lemma_model_words_prefix(w: Seq<u32>, pos: int, a: Model, b: Model)
    requires
        a.is_raw(),
        b.is_raw(),
        holds_at(w, pos, model_words(a)),
        holds_at(w, pos, model_words(b)),
    ensures
        model_words(a) == model_words(b),
{
    lemma_holds_at_index(w, pos, model_words(a), 3);
    lemma_holds_at_index(w, pos, model_words(b), 3);
}

/// Two well-formed data set encodings at one position have the same length.
pub proof fn lemma_data_words_prefix(w: Seq<u32>, pos: int, a: DataSet, b: DataSet)
    requires
        a.wf(),
        b.wf(),
        holds_at(w, pos, data_words(a)),
        holds_at(w, pos, data_words(b)),
    ensures
        data_words(a) == data_words(b),
{
    lemma_holds_at_index(w, pos, data_words(a), 1);
    lemma_holds_at_index(w, pos, data_words(b), 1);
    lemma_holds_at_index(w, pos, data_words(a), 2);
    lemma_holds_at_index(w, pos, data_words(b), 2);
}

} // verus!
