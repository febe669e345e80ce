use vstd::prelude::*;
use crate::channel::{
    decodes_to, lemma_channel_from_parts, lemma_channel_parts, ExecutionChannel,
};
use crate::codec::{
    data_words, flag_words, holds_at, lemma_data_words_prefix, lemma_holds_at_index,
    lemma_model_words_prefix, model_words, read_data, read_flag, read_model, DeserializationError,
    EntryKind,
};
use crate::dispatch::{dispatch, with_runtime, PredictionError};
use crate::journal::{commit, journal_bytes};
use crate::model::{family_of_flag, spec_family_of_flag, DataSet, Model, RuntimeConfig};

verus! {

/// Why the guest stopped without committing a journal.
#[derive(Clone, Copy, Debug, PartialEq, Eq, Structural)]
pub enum GuestError {
    Deserialization(DeserializationError),
    Prediction(PredictionError),
}

/// The guest's states. Each read state carries what was read so far and the
/// position of the next entry in the channel; no state is visited twice.
#[derive(Clone, Debug)]
pub enum GuestState {
    AwaitFlag,
    AwaitModel { is_svm: bool, pos: usize },
    AwaitData { model: Model, pos: usize },
    /// The model is ready for the numeric routine on `data`.
    Predicting { model: Model, data: DataSet },
    /// The journal to commit: the predictions and nothing else.
    Committed { journal: Vec<u8> },
    /// The guest stopped; no journal is committed.
    Aborted { error: GuestError },
}

/// What one read step does to a state, on channel words `w`.
pub open spec fn read_transition(
    s: GuestState,
    w: Seq<u32>,
    config: RuntimeConfig,
    r: GuestState,
) -> bool {
    match s {
        GuestState::AwaitFlag => match r {
            GuestState::AwaitModel { is_svm, pos } => pos == 2 && holds_at(w, 0, flag_words(is_svm)),
            GuestState::Aborted { error } => error == GuestError::Deserialization(
                DeserializationError { entry: EntryKind::Flag, position: 0 },
            ) && forall|b: bool| !holds_at(w, 0, #[trigger] flag_words(b)),
            _ => false,
        },
        GuestState::AwaitModel { is_svm, pos } => match r {
            GuestState::AwaitData { model, pos: next } => model.family == spec_family_of_flag(
                is_svm,
            ) && model.is_raw() && next == pos + model_words(model).len() && holds_at(
                w,
                pos as int,
                model_words(model),
            ),
            GuestState::Aborted { error } => error == GuestError::Deserialization(
                DeserializationError { entry: EntryKind::Model, position: pos },
            ) && forall|m: Model|
                m.family == spec_family_of_flag(is_svm) && m.is_raw() ==> !holds_at(
                    w,
                    pos as int,
                    #[trigger] model_words(m),
                ),
            _ => false,
        },
        GuestState::AwaitData { model, pos } => {
            &&& (forall|d: DataSet| d.wf() ==> !holds_at(w, pos as int, #[trigger] data_words(d)))
                ==> r == GuestState::Aborted {
                error: GuestError::Deserialization(
                    DeserializationError { entry: EntryKind::Data, position: pos },
                ),
            }
            &&& forall|d: DataSet| #[trigger]
                holds_at(w, pos as int, data_words(d)) && d.wf() ==> {
                    let end = pos + data_words(d).len();
                    &&& end != w.len() ==> r == GuestState::Aborted {
                        error: GuestError::Deserialization(
                            DeserializationError { entry: EntryKind::End, position: end as usize },
                        ),
                    }
                    &&& end == w.len() && model.n_features != d.cols ==> r
                        == GuestState::Aborted {
                        error: GuestError::Prediction(
                            PredictionError::DimensionMismatch {
                                expected: model.n_features,
                                found: d.cols,
                            },
                        ),
                    }
                    &&& end == w.len() && model.n_features == d.cols ==> (r matches GuestState::Predicting {
                        model: x,
                        data: y,
                    } && with_runtime(x, model, repaired_runtime(model, config)) && y.same_as(&d))
                }
        },
        _ => false,
    }
}

/// Takes the guest one read step forward: from `AwaitFlag`, `AwaitModel` or
/// `AwaitData`, reads the next entry of the channel; after the data set, the
/// channel must be at its end, and the model goes through dispatch.
pub fn read_step(s: GuestState, c: &ExecutionChannel, config: RuntimeConfig) -> (r: GuestState)
    requires
        match s {
            GuestState::AwaitFlag => true,
            GuestState::AwaitModel { pos, .. } => pos <= c.words@.len(),
            GuestState::AwaitData { model, pos } => pos <= c.words@.len() && model.is_raw(),
            _ => false,
        },
    ensures
        read_transition(s, c.words@, config, r),
{
    let w = &c.words;
    match s {
        GuestState::AwaitFlag => match read_flag(w, 0) {
            Ok((is_svm, pos)) => GuestState::AwaitModel { is_svm, pos },
            Err(e) => GuestState::Aborted { error: GuestError::Deserialization(e) },
        },
        GuestState::AwaitModel { is_svm, pos } => match read_model(w, pos, family_of_flag(is_svm)) {
            Ok((model, next)) => GuestState::AwaitData { model, pos: next },
            Err(e) => GuestState::Aborted { error: GuestError::Deserialization(e) },
        },
        GuestState::AwaitData { model, pos } => {
            let ghost raw = model;
            match read_data(w, pos) {
                Ok((data, next)) => {
                    proof {
                        assert forall|d: DataSet| #[trigger]
                            holds_at(w@, pos as int, data_words(d)) && d.wf() implies data_words(d)
                            == data_words(data) && d.same_as(&data) by {
                            lemma_data_words_prefix(w@, pos as int, d, data);
                            crate::codec::lemma_data_words_injective(d, data);
                        }
                    }
                    if next != w.len() {
                        return GuestState::Aborted {
                            error: GuestError::Deserialization(
                                DeserializationError { entry: EntryKind::End, position: next },
                            ),
                        };
                    }
                    match dispatch(model, &data, config) {
                        Ok(m) => {
                            assert(with_runtime(m, raw, repaired_runtime(raw, config)));
                            GuestState::Predicting { model: m, data }
                        },
                        Err(e) => GuestState::Aborted { error: GuestError::Prediction(e) },
                    }
                },
                Err(e) => GuestState::Aborted { error: GuestError::Deserialization(e) },
            }
        },
        _ => s,
    }
}

/// The guest's last step: from `Predicting`, commits the predictions that the
/// numeric routine gave, or aborts when there is not one per row.
pub fn commit_step(s: GuestState, predictions: &Vec<u64>) -> (r: GuestState)
    requires
        s is Predicting,
    ensures
        match s {
            GuestState::Predicting { data, .. } => {
                &&& predictions@.len() == data.rows ==> (r matches GuestState::Committed { journal }
                    && journal@ == journal_bytes(predictions@))
                &&& predictions@.len() != data.rows ==> r == GuestState::Aborted {
                    error: GuestError::Prediction(
                        PredictionError::WrongPredictionCount {
                            rows: data.rows,
                            predictions: predictions@.len() as usize,
                        },
                    ),
                }
            },
            _ => false,
        },
{
    match s {
        GuestState::Predicting { data, .. } => match commit(predictions, &data) {
            Ok(journal) => GuestState::Committed { journal },
            Err(e) => GuestState::Aborted { error: GuestError::Prediction(e) },
        },
        _ => s,
    }
}

/// The runtime configuration that a decoded model of family `m.family` ends
/// up with: `config` where the family needs repair, none otherwise.
pub open spec fn repaired_runtime(m: Model, config: RuntimeConfig) -> Option<RuntimeConfig> {
    if m.family.needs_repair() {
        Some(config)
    } else {
        None
    }
}

/// The guest's steps up to prediction: from `AwaitFlag`, reads the flag, the
/// model of the announced family and the data set, in that order, then hands
/// the model to dispatch, which re-attaches `config` where the family needs it
/// and checks the dimensions. What it returns is ready for the numeric routine.
pub fn prepare(c: &ExecutionChannel, config: RuntimeConfig) -> (r: Result<
    (Model, DataSet),
    GuestError,
>)
    ensures
        (r matches Err(GuestError::Deserialization(_))) <==> !exists|
            f: bool,
            m: Model,
            d: DataSet,
        | decodes_to(c.words@, f, m, d),
        forall|f: bool, m: Model, d: DataSet| #[trigger]
            decodes_to(c.words@, f, m, d) ==> {
                &&& m.n_features == d.cols <==> r is Ok
                &&& r matches Ok((x, y)) ==> with_runtime(x, m, repaired_runtime(m, config))
                    && y.same_as(&d)
                &&& m.n_features != d.cols ==> r == Err::<(Model, DataSet), GuestError>(
                    GuestError::Prediction(
                        PredictionError::DimensionMismatch { expected: m.n_features, found: d.cols },
                    ),
                )
            },
{
    let ghost w = c.words@;
    let (is_svm, after_flag) = match read_step(GuestState::AwaitFlag, c, config) {
        GuestState::AwaitModel { is_svm, pos } => (is_svm, pos),
        GuestState::Aborted { error } => {
            proof {
                assert forall|f: bool, m: Model, d: DataSet| !#[trigger] decodes_to(w, f, m, d) by {
                    if decodes_to(w, f, m, d) {
                        lemma_channel_parts(w, f, m, d);
                    }
                }
            }
            return Err(error);
        },
        _ => {
            proof {
                assert(false);
            }
            return Err(GuestError::Deserialization(DeserializationError { entry: EntryKind::Flag, position: 0 }));
        },
    };
    let (raw, after_model) = match read_step(GuestState::AwaitModel { is_svm, pos: after_flag }, c, config) {
        GuestState::AwaitData { model, pos } => (model, pos),
        GuestState::Aborted { error } => {
            proof {
                assert forall|f: bool, m: Model, d: DataSet| !#[trigger] decodes_to(w, f, m, d) by {
                    if decodes_to(w, f, m, d) {
                        lemma_channel_parts(w, f, m, d);
                        lemma_holds_at_index(w, 0, flag_words(f), 1);
                        lemma_holds_at_index(w, 0, flag_words(is_svm), 1);
                    }
                }
            }
            return Err(error);
        },
        _ => {
            proof {
                assert(false);
            }
            return Err(GuestError::Deserialization(DeserializationError { entry: EntryKind::Flag, position: 0 }));
        },
    };
    let ghost raw_g = raw;
    let s3 = read_step(GuestState::AwaitData { model: raw, pos: after_model }, c, config);
    proof {
        assert forall|f: bool, m: Model, d: DataSet| #[trigger]
            decodes_to(w, f, m, d) implies f == is_svm && m.same_as(&raw_g) && holds_at(
                w,
                after_model as int,
                data_words(d),
            ) && after_model + data_words(d).len() == w.len() by {
            lemma_channel_parts(w, f, m, d);
            lemma_holds_at_index(w, 0, flag_words(f), 1);
            lemma_holds_at_index(w, 0, flag_words(is_svm), 1);
            lemma_model_words_prefix(w, 2, m, raw_g);
            crate::codec::lemma_model_words_injective(m, raw_g);
        }
        if !(s3 matches GuestState::Aborted { error: GuestError::Deserialization(_) }) {
            let d = choose|d: DataSet| d.wf() && holds_at(w, after_model as int, data_words(d));
            lemma_channel_from_parts(w, is_svm, raw_g, d);
            assert(decodes_to(w, is_svm, raw_g, d));
        }
    }
    match s3 {
        GuestState::Predicting { model, data } => Ok((model, data)),
        GuestState::Aborted { error } => Err(error),
        _ => {
            proof {
                assert(false);
            }
            Err(GuestError::Deserialization(DeserializationError { entry: EntryKind::Flag, position: 0 }))
        },
    }
}

} // verus!
