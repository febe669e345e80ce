use kalpita::channel::{build_channel, read_channel, ChannelError, ChannelWriter, ExecutionChannel};
use kalpita::codec::{
    read_data, read_flag, read_model, write_data, write_flag, write_model, EntryKind, DATA_TAG,
    FLAG_TAG, MODEL_TAG,
};
use kalpita::dispatch::{attach_runtime_config, check_ready, dispatch, PredictionError};
use kalpita::guest::{commit_step, prepare, read_step, GuestError, GuestState};
use kalpita::host::{accept_run, prepare_run, HostError};
use kalpita::journal::{commit, decode_journal, encode_journal};
use kalpita::model::{
    family_of_flag, flag_of_family, repair_config, DataSet, Family, KernelKind, Model,
    RuntimeConfig, REPAIR_C,
};

fn linear_model(n_features: u32) -> Model {
    Model { family: Family::Linear, n_features, weights: vec![0x92, 0xcb, 7, 255], runtime: None }
}

fn svm_model(n_features: u32) -> Model {
    Model { family: Family::SupportVector, n_features, weights: vec![1, 2, 3], runtime: None }
}

fn column(values: &[f64]) -> DataSet {
    let bits: Vec<u64> = values.iter().map(|v| v.to_bits()).collect();
    DataSet::new(values.len() as u32, 1, bits).unwrap()
}

fn same_model(a: &Model, b: &Model) -> bool {
    a.family == b.family && a.n_features == b.n_features && a.weights == b.weights
        && a.runtime == b.runtime
}

#[test]
fn flag_selects_family() {
    assert_eq!(family_of_flag(false), Family::Linear);
    assert_eq!(family_of_flag(true), Family::SupportVector);
    assert!(!flag_of_family(Family::Linear));
    assert!(flag_of_family(Family::SupportVector));
}

#[test]
fn data_set_shape_is_checked() {
    assert!(DataSet::new(2, 3, vec![0; 6]).is_some());
    assert!(DataSet::new(2, 3, vec![0; 5]).is_none());
    assert!(DataSet::new(0, 7, vec![]).is_some());
}

#[test]
fn repair_config_is_linear_kernel_with_c_200() {
    let c = repair_config();
    assert_eq!(c, RuntimeConfig { kernel: KernelKind::Linear, c: 200 });
    assert_eq!(REPAIR_C, 200);
}

#[test]
fn flag_and_data_encodings_are_exact() {
    let mut w = Vec::new();
    write_flag(&mut w, true);
    assert_eq!(w, vec![FLAG_TAG, 1]);
    let mut w = Vec::new();
    write_data(&mut w, &column(&[2.0]));
    assert_eq!(w, vec![DATA_TAG, 1, 1, 0, 0x4000_0000]);
    let mut w = Vec::new();
    write_model(&mut w, &linear_model(3));
    assert_eq!(w, vec![MODEL_TAG, 0, 3, 4, 0x92, 0xcb, 7, 255]);
}

#[test]
fn entries_read_back_alone() {
    let mut w = Vec::new();
    write_flag(&mut w, false);
    write_model(&mut w, &svm_model(2));
    write_data(&mut w, &column(&[1.5, -3.25]));
    let (flag, after_flag) = read_flag(&w, 0).unwrap();
    assert!(!flag);
    assert_eq!(after_flag, 2);
    let (m, after_model) = read_model(&w, after_flag, Family::SupportVector).unwrap();
    assert!(same_model(&m, &svm_model(2)));
    let (d, after_data) = read_data(&w, after_model).unwrap();
    assert_eq!(d.values, vec![1.5f64.to_bits(), (-3.25f64).to_bits()]);
    assert_eq!(after_data, w.len());
    assert_eq!(read_model(&w, after_flag, Family::Linear).unwrap_err().entry, EntryKind::Model);
}

#[test]
fn channel_round_trip_linear() {
    let m = linear_model(1);
    let d = column(&[1.0, 2.0, 3.0]);
    let c = build_channel(false, &m, &d).unwrap();
    let inputs = read_channel(&c).unwrap();
    assert!(!inputs.is_svm);
    assert!(same_model(&inputs.model, &m));
    assert_eq!(inputs.data.rows, 3);
    assert_eq!(inputs.data.cols, 1);
    assert_eq!(inputs.data.values, d.values);
}

#[test]
fn channel_round_trip_svm_drops_runtime_config() {
    let mut m = svm_model(2);
    m.runtime = Some(repair_config());
    let d = DataSet::new(1, 2, vec![5, 6]).unwrap();
    let c = build_channel(true, &m, &d).unwrap();
    let inputs = read_channel(&c).unwrap();
    assert!(inputs.is_svm);
    assert_eq!(inputs.model.runtime, None);
    assert_eq!(inputs.model.weights, m.weights);
}

#[test]
fn typed_writer_refuses_mismatched_flag() {
    let w = ChannelWriter::new().write_flag(true);
    assert!(matches!(w.write_model(&linear_model(1)), Err(ChannelError::FlagMismatch)));
    assert!(matches!(
        build_channel(false, &svm_model(1), &column(&[1.0])),
        Err(ChannelError::FlagMismatch)
    ));
    assert!(matches!(
        prepare_run(true, &linear_model(1), &column(&[1.0])),
        Err(HostError::Channel(ChannelError::FlagMismatch))
    ));
}

#[test]
fn swapped_flag_and_model_fail_to_deserialize() {
    let m = linear_model(1);
    let d = column(&[1.0]);
    let mut words = Vec::new();
    write_model(&mut words, &m);
    write_flag(&mut words, false);
    write_data(&mut words, &d);
    let err = read_channel(&ExecutionChannel { words }).unwrap_err();
    assert_eq!(err.entry, EntryKind::Flag);
    assert_eq!(err.position, 0);
}

#[test]
fn flag_of_other_family_fails_at_model() {
    let mut words = Vec::new();
    write_flag(&mut words, true);
    write_model(&mut words, &linear_model(1));
    write_data(&mut words, &column(&[1.0]));
    let err = read_channel(&ExecutionChannel { words }).unwrap_err();
    assert_eq!(err.entry, EntryKind::Model);
    assert_eq!(err.position, 2);
}

#[test]
fn truncated_and_trailing_channels_fail() {
    let c = build_channel(false, &linear_model(1), &column(&[1.0, 2.0])).unwrap();
    let mut short = c.words.clone();
    short.pop();
    assert_eq!(read_channel(&ExecutionChannel { words: short }).unwrap_err().entry, EntryKind::Data);
    let mut long = c.words.clone();
    long.push(0);
    let err = read_channel(&ExecutionChannel { words: long }).unwrap_err();
    assert_eq!(err.entry, EntryKind::End);
    assert_eq!(err.position, c.words.len());
    assert_eq!(read_channel(&ExecutionChannel { words: vec![] }).unwrap_err().entry, EntryKind::Flag);
}

#[test]
fn weight_word_above_a_byte_fails() {
    let mut words = vec![FLAG_TAG, 0, MODEL_TAG, 0, 1, 1, 256];
    write_data(&mut words, &column(&[1.0]));
    assert_eq!(read_channel(&ExecutionChannel { words }).unwrap_err().entry, EntryKind::Model);
}

#[test]
fn decoded_svm_without_repair_cannot_predict() {
    let c = build_channel(true, &svm_model(1), &column(&[1.0])).unwrap();
    let inputs = read_channel(&c).unwrap();
    assert_eq!(check_ready(&inputs.model, &inputs.data), Err(PredictionError::MissingRuntimeConfig));
    let mut m = inputs.model.clone();
    assert_eq!(attach_runtime_config(&mut m, repair_config()), Ok(()));
    assert_eq!(m.runtime, Some(repair_config()));
    assert_eq!(check_ready(&m, &inputs.data), Ok(()));
}

#[test]
fn linear_model_takes_no_runtime_config() {
    let mut m = linear_model(1);
    assert_eq!(attach_runtime_config(&mut m, repair_config()), Err(PredictionError::IncompatibleRepair));
    assert_eq!(m.runtime, None);
    m.runtime = Some(repair_config());
    assert_eq!(check_ready(&m, &column(&[1.0])), Err(PredictionError::IncompatibleRepair));
}

#[test]
fn dimension_mismatch_is_reported() {
    let d = DataSet::new(1, 2, vec![1, 2]).unwrap();
    assert_eq!(
        dispatch(linear_model(3), &d, repair_config()).unwrap_err(),
        PredictionError::DimensionMismatch { expected: 3, found: 2 }
    );
    let c = build_channel(true, &svm_model(3), &d).unwrap();
    assert_eq!(
        prepare(&c, repair_config()).unwrap_err(),
        GuestError::Prediction(PredictionError::DimensionMismatch { expected: 3, found: 2 })
    );
}

#[test]
fn prepare_repairs_svm_and_keeps_linear() {
    let d = column(&[1.0]);
    let cfg = RuntimeConfig { kernel: KernelKind::Rbf, c: 7 };
    let (m, _) = prepare(&build_channel(true, &svm_model(1), &d).unwrap(), cfg).unwrap();
    assert_eq!(m.runtime, Some(cfg));
    let (m, data) = prepare(&build_channel(false, &linear_model(1), &d).unwrap(), cfg).unwrap();
    assert_eq!(m.runtime, None);
    assert_eq!(data.values, d.values);
    let bad = ExecutionChannel { words: vec![MODEL_TAG] };
    assert!(matches!(prepare(&bad, cfg), Err(GuestError::Deserialization(_))));
}

#[test]
fn commit_checks_prediction_count() {
    let d = column(&[1.0, 2.0]);
    assert_eq!(
        commit(&vec![1], &d).unwrap_err(),
        PredictionError::WrongPredictionCount { rows: 2, predictions: 1 }
    );
    let j = commit(&vec![0x0102_0304_0506_0708, 0], &d).unwrap();
    assert_eq!(j, vec![8, 7, 6, 5, 4, 3, 2, 1, 0, 0, 0, 0, 0, 0, 0, 0]);
}

#[test]
fn journal_round_trip_and_bad_length() {
    let p = vec![2.0f64.to_bits(), u64::MAX, 0];
    let j = encode_journal(&p);
    assert_eq!(j.len(), 24);
    assert_eq!(decode_journal(&j).unwrap(), p);
    let err = decode_journal(&vec![1, 2, 3]).unwrap_err();
    assert_eq!(err.entry, EntryKind::Journal);
    assert_eq!(decode_journal(&vec![]).unwrap(), Vec::<u64>::new());
}

#[test]
fn host_accepts_only_verified_journals_of_right_length() {
    let j = encode_journal(&vec![5, 6]);
    assert_eq!(accept_run(false, &j, 2), Err(HostError::Verification));
    assert_eq!(accept_run(true, &j, 2), Ok(vec![5, 6]));
    assert_eq!(
        accept_run(true, &j, 3),
        Err(HostError::WrongPredictionCount { rows: 3, predictions: 2 })
    );
    assert!(matches!(accept_run(true, &vec![1], 0), Err(HostError::Journal(_))));
}

#[test]
fn linear_run_of_three_rows_commits_doubled_values() {
    let d = column(&[1.0, 2.0, 3.0]);
    let c = prepare_run(false, &linear_model(1), &d).unwrap();
    let (m, data) = prepare(&c, repair_config()).unwrap();
    assert_eq!(m.family, Family::Linear);
    // the numeric routine of a model with weight 2.0 and bias 0.0
    let predictions: Vec<u64> = data
        .values
        .iter()
        .map(|v| (2.0 * f64::from_bits(*v) + 0.0).to_bits())
        .collect();
    let journal = commit(&predictions, &data).unwrap();
    assert_eq!(journal.len(), 24);
    let out = accept_run(true, &journal, 3).unwrap();
    let values: Vec<f64> = out.iter().map(|b| f64::from_bits(*b)).collect();
    assert_eq!(values, vec![2.0, 4.0, 6.0]);
    assert_eq!(accept_run(false, &journal, 3), Err(HostError::Verification));
}

#[test]
fn guest_states_advance_in_order() {
    let d = column(&[1.0, 2.0]);
    let c = build_channel(true, &svm_model(1), &d).unwrap();
    let cfg = repair_config();
    let s = read_step(GuestState::AwaitFlag, &c, cfg);
    assert!(matches!(s, GuestState::AwaitModel { is_svm: true, pos: 2 }));
    let s = read_step(s, &c, cfg);
    let model_end = 2 + 4 + 3;
    match &s {
        GuestState::AwaitData { model, pos } => {
            assert_eq!(*pos, model_end);
            assert_eq!(model.runtime, None);
        }
        other => panic!("unexpected state {:?}", other),
    }
    let s = read_step(s, &c, cfg);
    match &s {
        GuestState::Predicting { model, data } => {
            assert_eq!(model.runtime, Some(cfg));
            assert_eq!(data.values, d.values);
        }
        other => panic!("unexpected state {:?}", other),
    }
    let done = commit_step(s.clone(), &vec![1, 2]);
    match done {
        GuestState::Committed { journal } => assert_eq!(journal, encode_journal(&vec![1, 2])),
        other => panic!("unexpected state {:?}", other),
    }
    match commit_step(s, &vec![1, 2, 3]) {
        GuestState::Aborted { error } => assert_eq!(
            error,
            GuestError::Prediction(PredictionError::WrongPredictionCount { rows: 2, predictions: 3 })
        ),
        other => panic!("unexpected state {:?}", other),
    }
}

#[test]
fn guest_aborts_on_model_before_flag() {
    let mut words = Vec::new();
    write_model(&mut words, &linear_model(1));
    write_flag(&mut words, false);
    write_data(&mut words, &column(&[1.0]));
    let s = read_step(GuestState::AwaitFlag, &ExecutionChannel { words }, repair_config());
    match s {
        GuestState::Aborted { error: GuestError::Deserialization(e) } => {
            assert_eq!(e.entry, EntryKind::Flag);
            assert_eq!(e.position, 0);
        }
        other => panic!("unexpected state {:?}", other),
    }
}
