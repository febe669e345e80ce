use vstd::prelude::*;
use crate::codec::{
    data_words, flag_words, holds_at, lemma_data_words_injective, lemma_data_words_prefix,
    lemma_holds_at_index, lemma_model_words_injective, lemma_model_words_prefix, model_words,
    read_data, read_flag, read_model, write_data, write_flag, write_model, DeserializationError,
    EntryKind, MODEL_TAG,
};
use crate::model::{family_of_flag, spec_family_of_flag, DataSet, Model};

verus! {

/// The words of a channel that carries the flag, then the model, then the data.
pub open spec fn channel_words(is_svm: bool, m: Model, d: DataSet) -> Seq<u32> {
    flag_words(is_svm) + model_words(m) + data_words(d)
}

/// The three entries can travel together: the model is raw and of the family
/// that the flag announces, and the data set is well formed.
pub open spec fn valid_entries(is_svm: bool, m: Model, d: DataSet) -> bool {
    &&& m.family == spec_family_of_flag(is_svm)
    &&& m.is_raw()
    &&& d.wf()
}

/// The channel `w` is exactly the encoding of these valid entries.
pub open spec fn decodes_to(w: Seq<u32>, is_svm: bool, m: Model, d: DataSet) -> bool {
    &&& valid_entries(is_svm, m, d)
    &&& w == channel_words(is_svm, m, d)
}

/// The ordered words that the host hands to the guest.
#[derive(Clone, Debug)]
pub struct ExecutionChannel {
    pub words: Vec<u32>,
}

/// What the guest reads from a channel.
#[derive(Clone, Debug)]
pub struct GuestInputs {
    pub is_svm: bool,
    pub model: Model,
    pub data: DataSet,
}

/// Why the host could not write a model into a channel.
#[derive(Clone, Copy, Debug, PartialEq, Eq, Structural)]
pub enum ChannelError {
    /// The model is not of the family that the flag announced.
    FlagMismatch,
    /// The model's parameters are too long for one length word.
    ModelTooLarge,
}

/// A channel with nothing written yet.
pub struct ChannelWriter {
    words: Vec<u32>,
}

/// A channel whose flag is written; the model comes next.
pub struct FlagWritten {
    is_svm: bool,
    words: Vec<u32>,
}

/// A channel whose flag and model are written; the data set comes next.
pub struct ModelWritten {
    words: Vec<u32>,
}

impl ChannelWriter {
    pub closed spec fn written(&self) -> Seq<u32> {
        self.words@
    }

    pub fn new() -> (r: ChannelWriter)
        ensures
            r.written() == Seq::<u32>::empty(),
    {
        ChannelWriter { words: Vec::new() }
    }

    /// Writes the discriminator flag, the first entry.
    pub fn write_flag(self, is_svm: bool) -> (r: FlagWritten)
        ensures
            r.written() == self.written() + flag_words(is_svm),
            r.flag() == is_svm,
    {
        let mut words = self.words;
        write_flag(&mut words, is_svm);
        FlagWritten { is_svm, words }
    }
}

impl FlagWritten {
    pub closed spec fn written(&self) -> Seq<u32> {
        self.words@
    }

    pub closed spec fn flag(&self) -> bool {
        self.is_svm
    }

    /// Writes the model, which must be of the family that the flag announced.
    pub fn write_model(self, m: &Model) -> (r: Result<ModelWritten, ChannelError>)
        ensures
            m.family != spec_family_of_flag(self.flag()) ==> r == Err::<ModelWritten, ChannelError>(
                ChannelError::FlagMismatch,
            ),
            m.family == spec_family_of_flag(self.flag()) && m.weights@.len() > u32::MAX ==> r
                == Err::<ModelWritten, ChannelError>(ChannelError::ModelTooLarge),
            m.family == spec_family_of_flag(self.flag()) && m.weights@.len() <= u32::MAX ==> (
            r matches Ok(mw) && mw.written() == self.written() + model_words(*m)),
    {
        if m.family != family_of_flag(self.is_svm) {
            return Err(ChannelError::FlagMismatch);
        }
        if m.weights.len() > 0xffff_ffff {
            return Err(ChannelError::ModelTooLarge);
        }
        let mut words = self.words;
        write_model(&mut words, m);
        Ok(ModelWritten { words })
    }
}

impl ModelWritten {
    pub closed spec fn written(&self) -> Seq<u32> {
        self.words@
    }

    /// Writes the data set, the last entry, and closes the channel.
    pub fn write_data(self, d: &DataSet) -> (r: ExecutionChannel)
        ensures
            r.words@ == self.written() + data_words(*d),
    {
        let mut words = self.words;
        write_data(&mut words, d);
        ExecutionChannel { words }
    }
}

/// Writes flag, model and data set, in that order, into a new channel.
pub fn build_channel(is_svm: bool, m: &Model, d: &DataSet) -> (r: Result<
    ExecutionChannel,
    ChannelError,
>)
    ensures
        m.family != spec_family_of_flag(is_svm) ==> r == Err::<ExecutionChannel, ChannelError>(
            ChannelError::FlagMismatch,
        ),
        m.family == spec_family_of_flag(is_svm) && m.weights@.len() > u32::MAX ==> r == Err::<
            ExecutionChannel,
            ChannelError,
        >(ChannelError::ModelTooLarge),
        m.family == spec_family_of_flag(is_svm) && m.weights@.len() <= u32::MAX ==> (r matches Ok(
            c,
        ) && c.words@ == channel_words(is_svm, *m, *d)),
{
    let w = ChannelWriter::new().write_flag(is_svm);
    match w.write_model(m) {
        Ok(mw) => {
            let c = mw.write_data(d);
            assert(c.words@ =~= channel_words(is_svm, *m, *d));
            Ok(c)
        },
        Err(e) => Err(e),
    }
}

/// The three entries of a channel stand at their places in its words.
pub proof fn lemma_channel_parts(w: Seq<u32>, is_svm: bool, m: Model, d: DataSet)
    requires
        w == channel_words(is_svm, m, d),
    ensures
        holds_at(w, 0, flag_words(is_svm)),
        holds_at(w, 2, model_words(m)),
        holds_at(w, 2 + model_words(m).len() as int, data_words(d)),
        w.len() == 2 + model_words(m).len() + data_words(d).len(),
{
    let a = flag_words(is_svm);
    let b = model_words(m);
    let c = data_words(d);
    assert(w.subrange(0, 2) =~= a);
    assert(w.subrange(2, 2 + b.len() as int) =~= b);
    assert(w.subrange(2 + b.len() as int, 2 + b.len() + c.len() as int) =~= c);
}

/// Words that hold a flag, a model and a data set one after the other, and
/// nothing more, are the channel of those three entries.
pub proof fn lemma_channel_from_parts(w: Seq<u32>, is_svm: bool, m: Model, d: DataSet)
    requires
        holds_at(w, 0, flag_words(is_svm)),
        holds_at(w, 2, model_words(m)),
        holds_at(w, 2 + model_words(m).len() as int, data_words(d)),
        w.len() == 2 + model_words(m).len() + data_words(d).len(),
    ensures
        w == channel_words(is_svm, m, d),
{
    let after_model = 2 + model_words(m).len() as int;
    assert(w =~= w.subrange(0, 2) + w.subrange(2, after_model) + w.subrange(after_model, w.len() as int));
}

/// Reads the flag, then a model of the family it announces, then a data set,
/// and requires that nothing follows.
pub fn read_channel(c: &ExecutionChannel) -> (r: Result<GuestInputs, DeserializationError>)
    ensures
        r matches Ok(inp) ==> decodes_to(c.words@, inp.is_svm, inp.model, inp.data),
        r is Err <==> !exists|f: bool, m: Model, d: DataSet| decodes_to(c.words@, f, m, d),
{
    let w = &c.words;
    let (is_svm, after_flag) = match read_flag(w, 0) {
        Ok(x) => x,
        Err(e) => {
            proof {
                assert forall|f: bool, m: Model, d: DataSet| !#[trigger] decodes_to(w@, f, m, d) by {
                    if decodes_to(w@, f, m, d) {
                        lemma_channel_parts(w@, f, m, d);
                    }
                }
            }
            return Err(e);
        },
    };
    let family = family_of_flag(is_svm);
    let (model, after_model) = match read_model(w, after_flag, family) {
        Ok(x) => x,
        Err(e) => {
            proof {
                assert forall|f: bool, m: Model, d: DataSet| !#[trigger] decodes_to(w@, f, m, d) by {
                    if decodes_to(w@, f, m, d) {
                        lemma_channel_parts(w@, f, m, d);
                        lemma_holds_at_index(w@, 0, flag_words(f), 1);
                        lemma_holds_at_index(w@, 0, flag_words(is_svm), 1);
                    }
                }
            }
            return Err(e);
        },
    };
    let (data, after_data) = match read_data(w, after_model) {
        Ok(x) => x,
        Err(e) => {
            proof {
                assert forall|f: bool, m: Model, d: DataSet| !#[trigger] decodes_to(w@, f, m, d) by {
                    if decodes_to(w@, f, m, d) {
                        lemma_channel_parts(w@, f, m, d);
                        lemma_holds_at_index(w@, 0, flag_words(f), 1);
                        lemma_holds_at_index(w@, 0, flag_words(is_svm), 1);
                        lemma_model_words_prefix(w@, 2, m, model);
                    }
                }
            }
            return Err(e);
        },
    };
    if after_data != w.len() {
        proof {
            assert forall|f: bool, m: Model, d: DataSet| !#[trigger] decodes_to(w@, f, m, d) by {
                if decodes_to(w@, f, m, d) {
                    lemma_channel_parts(w@, f, m, d);
                    lemma_holds_at_index(w@, 0, flag_words(f), 1);
                    lemma_holds_at_index(w@, 0, flag_words(is_svm), 1);
                    lemma_model_words_prefix(w@, 2, m, model);
                    lemma_data_words_prefix(w@, after_model as int, d, data);
                }
            }
        }
        return Err(DeserializationError { entry: EntryKind::End, position: after_data });
    }
    proof {
        assert(w@.subrange(0, 2) == flag_words(is_svm));
        assert(w@ =~= channel_words(is_svm, model, data)) by {
            assert(w@ =~= w@.subrange(0, 2) + w@.subrange(2, after_model as int) + w@.subrange(
                after_model as int,
                after_data as int,
            ));
        }
        assert(decodes_to(w@, is_svm, model, data));
    }
    Ok(GuestInputs { is_svm, model, data })
}

/// Round trip: the channel words of valid entries decode to those entries,
/// and every decoding of them is structurally equal to them.
pub proof fn lemma_round_trip(is_svm: bool, m: Model, d: DataSet)
    requires
        valid_entries(is_svm, m, d),
    ensures
        decodes_to(channel_words(is_svm, m, d), is_svm, m, d),
        forall|f: bool, m2: Model, d2: DataSet| #[trigger]
            decodes_to(channel_words(is_svm, m, d), f, m2, d2) ==> f == is_svm && m2.same_as(&m)
                && d2.same_as(&d),
{
    let w = channel_words(is_svm, m, d);
    lemma_channel_parts(w, is_svm, m, d);
    assert forall|f: bool, m2: Model, d2: DataSet| #[trigger]
        decodes_to(w, f, m2, d2) implies f == is_svm && m2.same_as(&m) && d2.same_as(&d) by {
        lemma_channel_parts(w, f, m2, d2);
        lemma_holds_at_index(w, 0, flag_words(f), 1);
        lemma_holds_at_index(w, 0, flag_words(is_svm), 1);
        lemma_model_words_prefix(w, 2, m2, m);
        lemma_model_words_injective(m2, m);
        lemma_data_words_prefix(w, 2 + model_words(m).len() as int, d2, d);
        lemma_data_words_injective(d2, d);
    }
}

/// Order sensitivity: words that carry the model before the flag decode to
/// no entries at all, so the guest's read of them fails.
pub proof fn lemma_swapped_order_rejected(is_svm: bool, m: Model, d: DataSet)
    requires
        valid_entries(is_svm, m, d),
    ensures
        forall|f: bool, m2: Model, d2: DataSet|
            !#[trigger] decodes_to(model_words(m) + flag_words(is_svm) + data_words(d), f, m2, d2),
{
    let w = model_words(m) + flag_words(is_svm) + data_words(d);
    assert(w[0] == MODEL_TAG);
    assert forall|f: bool, m2: Model, d2: DataSet| !#[trigger] decodes_to(w, f, m2, d2) by {
        if decodes_to(w, f, m2, d2) {
            lemma_channel_parts(w, f, m2, d2);
            lemma_holds_at_index(w, 0, flag_words(f), 0);
        }
    }
}

} // verus!
