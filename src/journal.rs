use vstd::prelude::*;
use crate::codec::{DeserializationError, EntryKind};
use crate::dispatch::PredictionError;
use crate::model::DataSet;

verus! {

/// Byte `k` (0 to 7, least significant first) of a value.
pub open spec fn byte_of(v: u64, k: int) -> u8 {
    ((v >> (8 * k) as u64) & 0xff) as u8
}

/// The value whose little-endian bytes are `b[at..at + 8]`.
pub open spec fn value_at(b: Seq<u8>, at: int) -> u64 {
    (b[at] as u64) | ((b[at + 1] as u64) << 8u64) | ((b[at + 2] as u64) << 16u64) | ((b[at
        + 3] as u64) << 24u64) | ((b[at + 4] as u64) << 32u64) | ((b[at + 5] as u64) << 40u64)
        | ((b[at + 6] as u64) << 48u64) | ((b[at + 7] as u64) << 56u64)
}

/// The journal: each prediction as eight little-endian bytes, and nothing else.
pub open spec fn journal_bytes(p: Seq<u64>) -> Seq<u8> {
    Seq::new((8 * p.len()) as nat, |i: int| byte_of(p[i / 8], i % 8))
}

proof fn lemma_bytes_of_value(v: u64)
    ensures
        value_at(seq![byte_of(v, 0), byte_of(v, 1), byte_of(v, 2), byte_of(v, 3), byte_of(v, 4),
            byte_of(v, 5), byte_of(v, 6), byte_of(v, 7)], 0) == v,
{
    let s = seq![byte_of(v, 0), byte_of(v, 1), byte_of(v, 2), byte_of(v, 3), byte_of(v, 4),
        byte_of(v, 5), byte_of(v, 6), byte_of(v, 7)];
    assert(s[0] == ((v >> 0u64) & 0xff) as u8);
    assert(s[7] == ((v >> 56u64) & 0xff) as u8);
    assert((((v >> 0u64) & 0xff) as u8 as u64) | ((((v >> 8u64) & 0xff) as u8 as u64) << 8u64) | ((
    ((v >> 16u64) & 0xff) as u8 as u64) << 16u64) | ((((v >> 24u64) & 0xff) as u8 as u64)
        << 24u64) | ((((v >> 32u64) & 0xff) as u8 as u64) << 32u64) | ((((v >> 40u64) & 0xff) as u8
        as u64) << 40u64) | ((((v >> 48u64) & 0xff) as u8 as u64) << 48u64) | ((((v >> 56u64)
        & 0xff) as u8 as u64) << 56u64) == v) by (bit_vector);
}

proof fn lemma_value_of_bytes(b0: u8, b1: u8, b2: u8, b3: u8, b4: u8, b5: u8, b6: u8, b7: u8)
    ensures
        ({
            let v = (b0 as u64) | ((b1 as u64) << 8u64) | ((b2 as u64) << 16u64) | ((b3 as u64)
                << 24u64) | ((b4 as u64) << 32u64) | ((b5 as u64) << 40u64) | ((b6 as u64)
                << 48u64) | ((b7 as u64) << 56u64);
            &&& byte_of(v, 0) == b0
            &&& byte_of(v, 1) == b1
            &&& byte_of(v, 2) == b2
            &&& byte_of(v, 3) == b3
            &&& byte_of(v, 4) == b4
            &&& byte_of(v, 5) == b5
            &&& byte_of(v, 6) == b6
            &&& byte_of(v, 7) == b7
        }),
{
    let v = (b0 as u64) | ((b1 as u64) << 8u64) | ((b2 as u64) << 16u64) | ((b3 as u64) << 24u64)
        | ((b4 as u64) << 32u64) | ((b5 as u64) << 40u64) | ((b6 as u64) << 48u64) | ((b7 as u64)
        << 56u64);
    assert(((v >> 0u64) & 0xff) as u8 == b0) by (bit_vector)
        requires
            v == (b0 as u64) | ((b1 as u64) << 8u64) | ((b2 as u64) << 16u64) | ((b3 as u64)
                << 24u64) | ((b4 as u64) << 32u64) | ((b5 as u64) << 40u64) | ((b6 as u64)
                << 48u64) | ((b7 as u64) << 56u64),
    ;
    assert(((v >> 8u64) & 0xff) as u8 == b1) by (bit_vector)
        requires
            v == (b0 as u64) | ((b1 as u64) << 8u64) | ((b2 as u64) << 16u64) | ((b3 as u64)
                << 24u64) | ((b4 as u64) << 32u64) | ((b5 as u64) << 40u64) | ((b6 as u64)
                << 48u64) | ((b7 as u64) << 56u64),
    ;
    assert(((v >> 16u64) & 0xff) as u8 == b2) by (bit_vector)
        requires
            v == (b0 as u64) | ((b1 as u64) << 8u64) | ((b2 as u64) << 16u64) | ((b3 as u64)
                << 24u64) | ((b4 as u64) << 32u64) | ((b5 as u64) << 40u64) | ((b6 as u64)
                << 48u64) | ((b7 as u64) << 56u64),
    ;
    assert(((v >> 24u64) & 0xff) as u8 == b3) by (bit_vector)
        requires
            v == (b0 as u64) | ((b1 as u64) << 8u64) | ((b2 as u64) << 16u64) | ((b3 as u64)
                << 24u64) | ((b4 as u64) << 32u64) | ((b5 as u64) << 40u64) | ((b6 as u64)
                << 48u64) | ((b7 as u64) << 56u64),
    ;
    assert(((v >> 32u64) & 0xff) as u8 == b4) by (bit_vector)
        requires
            v == (b0 as u64) | ((b1 as u64) << 8u64) | ((b2 as u64) << 16u64) | ((b3 as u64)
                << 24u64) | ((b4 as u64) << 32u64) | ((b5 as u64) << 40u64) | ((b6 as u64)
                << 48u64) | ((b7 as u64) << 56u64),
    ;
    assert(((v >> 40u64) & 0xff) as u8 == b5) by (bit_vector)
        requires
            v == (b0 as u64) | ((b1 as u64) << 8u64) | ((b2 as u64) << 16u64) | ((b3 as u64)
                << 24u64) | ((b4 as u64) << 32u64) | ((b5 as u64) << 40u64) | ((b6 as u64)
                << 48u64) | ((b7 as u64) << 56u64),
    ;
    assert(((v >> 48u64) & 0xff) as u8 == b6) by (bit_vector)
        requires
            v == (b0 as u64) | ((b1 as u64) << 8u64) | ((b2 as u64) << 16u64) | ((b3 as u64)
                << 24u64) | ((b4 as u64) << 32u64) | ((b5 as u64) << 40u64) | ((b6 as u64)
                << 48u64) | ((b7 as u64) << 56u64),
    ;
    assert(((v >> 56u64) & 0xff) as u8 == b7) by (bit_vector)
        requires
            v == (b0 as u64) | ((b1 as u64) << 8u64) | ((b2 as u64) << 16u64) | ((b3 as u64)
                << 24u64) | ((b4 as u64) << 32u64) | ((b5 as u64) << 40u64) | ((b6 as u64)
                << 48u64) | ((b7 as u64) << 56u64),
    ;
}

/// Encodes predictions as a journal.
pub fn encode_journal(p: &Vec<u64>) -> (r: Vec<u8>)
    ensures
        r@ == journal_bytes(p@),
{
    let mut out: Vec<u8> = Vec::new();
    let mut i: usize = 0;
    while i < p.len()
        invariant
            i <= p@.len(),
            out@ == journal_bytes(p@.subrange(0, i as int)),
        decreases p@.len() - i,
    {
        let v = p[i];
        let ghost before = out@;
        out.push((v & 0xff) as u8);
        out.push(((v >> 8u64) & 0xff) as u8);
        out.push(((v >> 16u64) & 0xff) as u8);
        out.push(((v >> 24u64) & 0xff) as u8);
        out.push(((v >> 32u64) & 0xff) as u8);
        out.push(((v >> 40u64) & 0xff) as u8);
        out.push(((v >> 48u64) & 0xff) as u8);
        out.push(((v >> 56u64) & 0xff) as u8);
        proof {
            assert((v & 0xff) == ((v >> 0u64) & 0xff)) by (bit_vector);
            let old_p = p@.subrange(0, i as int);
            let new_p = p@.subrange(0, i + 1);
            assert forall|k: int| 0 <= k < 8 * new_p.len() implies #[trigger] journal_bytes(
                new_p,
            )[k] == out@[k] by {
                if k < 8 * old_p.len() {
                    assert(journal_bytes(old_p)[k] == out@[k]);
                    assert(new_p[k / 8] == old_p[k / 8]);
                } else {
                    assert(k / 8 == i);
                    assert(new_p[k / 8] == v);
                }
            }
            assert(out@ =~= journal_bytes(new_p));
        }
        i = i + 1;
    }
    assert(p@.subrange(0, i as int) =~= p@);
    out
}

/// Decodes a journal into its predictions.
pub fn decode_journal(b: &Vec<u8>) -> (r: Result<Vec<u64>, DeserializationError>)
    ensures
        r matches Ok(p) ==> b@ == journal_bytes(p@),
        r is Err <==> !exists|p: Seq<u64>| b@ == #[trigger] journal_bytes(p),
        r matches Err(e) ==> e == (DeserializationError { entry: EntryKind::Journal, position: 0 }),
{
    if b.len() % 8 != 0 {
        assert forall|p: Seq<u64>| b@ != #[trigger] journal_bytes(p) by {
            assert((8 * p.len()) % 8 == 0);
        }
        return Err(DeserializationError { entry: EntryKind::Journal, position: 0 });
    }
    let n = b.len() / 8;
    let wl: usize = b.len();
    let mut out: Vec<u64> = Vec::new();
    let mut i: usize = 0;
    while i < n
        invariant
            wl == b@.len(),
            n == b@.len() / 8,
            b@.len() % 8 == 0,
            i <= n,
            out@.len() == i,
            forall|j: int, k: int|
                0 <= j < i && 0 <= k < 8 ==> #[trigger] byte_of(out@[j], k) == b@[8 * j + k],
        decreases n - i,
    {
        let at = 8 * i;
        let v = (b[at] as u64) | ((b[at + 1] as u64) << 8u64) | ((b[at + 2] as u64) << 16u64) | ((
        b[at + 3] as u64) << 24u64) | ((b[at + 4] as u64) << 32u64) | ((b[at + 5] as u64) << 40u64)
            | ((b[at + 6] as u64) << 48u64) | ((b[at + 7] as u64) << 56u64);
        proof {
            lemma_value_of_bytes(
                b@[at as int],
                b@[at + 1],
                b@[at + 2],
                b@[at + 3],
                b@[at + 4],
                b@[at + 5],
                b@[at + 6],
                b@[at + 7],
            );
        }
        out.push(v);
        i = i + 1;
    }
    assert forall|k: int| 0 <= k < b@.len() implies #[trigger] journal_bytes(out@)[k] == b@[k] by {
        let j = k / 8;
        let m = k % 8;
        assert(8 * j + m == k);
        assert(byte_of(out@[j], m) == b@[8 * j + m]);
    }
    assert(b@ =~= journal_bytes(out@));
    Ok(out)
}

/// The guest's last step: checks that the numeric routine gave one
/// prediction per row of `d` and encodes them as the journal. Nothing of the
/// model or of the data set goes into it.
pub fn commit(predictions: &Vec<u64>, d: &DataSet) -> (r: Result<Vec<u8>, PredictionError>)
    ensures
        predictions@.len() == d.rows <==> r is Ok,
        r matches Ok(j) ==> j@ == journal_bytes(predictions@),
        predictions@.len() != d.rows ==> r == Err::<Vec<u8>, PredictionError>(
            PredictionError::WrongPredictionCount { rows: d.rows, predictions: predictions@.len() as usize },
        ),
{
    if predictions.len() != d.rows as usize {
        return Err(
            PredictionError::WrongPredictionCount { rows: d.rows, predictions: predictions.len() },
        );
    }
    Ok(encode_journal(predictions))
}

/// Journals of different predictions differ: a journal decodes back to
/// exactly the predictions it was made of.
pub proof fn lemma_journal_holds_predictions_only(p: Seq<u64>, q: Seq<u64>)
    ensures
        journal_bytes(p).len() == 8 * p.len(),
        journal_bytes(p) == journal_bytes(q) ==> p == q,
{
    if journal_bytes(p) == journal_bytes(q) {
        assert(p.len() == q.len());
        assert forall|i: int| 0 <= i < p.len() implies p[i] == q[i] by {
            let s = journal_bytes(p);
            assert forall|k: int| 0 <= k < 8 implies byte_of(p[i], k) == byte_of(q[i], k) by {
                assert(s[8 * i + k] == byte_of(p[(8 * i + k) / 8], (8 * i + k) % 8));
                assert((8 * i + k) / 8 == i);
                assert((8 * i + k) % 8 == k);
                assert(journal_bytes(q)[8 * i + k] == byte_of(q[i], k));
            }
            lemma_bytes_of_value(p[i]);
            lemma_bytes_of_value(q[i]);
            assert(seq![byte_of(p[i], 0), byte_of(p[i], 1), byte_of(p[i], 2), byte_of(p[i], 3),
                byte_of(p[i], 4), byte_of(p[i], 5), byte_of(p[i], 6), byte_of(p[i], 7)] =~= seq![
                byte_of(q[i], 0), byte_of(q[i], 1), byte_of(q[i], 2), byte_of(q[i], 3),
                byte_of(q[i], 4), byte_of(q[i], 5), byte_of(q[i], 6), byte_of(q[i], 7)]);
        }
        assert(p =~= q);
    }
}

/// Journal privacy: the journal that `commit` makes for a data set holds
/// eight bytes for each of its rows, and is a function of the predictions
/// alone: it is the same whatever model and data set gave them, and the only
/// predictions it decodes to are those.
pub proof fn lemma_journal_privacy(p: Seq<u64>, d: DataSet)
    requires
        p.len() == d.rows,
    ensures
        journal_bytes(p).len() == 8 * d.rows,
        forall|q: Seq<u64>| #[trigger] journal_bytes(q) == journal_bytes(p) ==> q == p,
{
    assert forall|q: Seq<u64>| #[trigger] journal_bytes(q) == journal_bytes(p) implies q == p by {
        lemma_journal_holds_predictions_only(q, p);
    }
}

} // verus!
