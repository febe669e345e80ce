use vstd::prelude::*;
use crate::model::{DataSet, Family, Model, RuntimeConfig};

verus! {

/// Why a model cannot predict on a data set.
#[derive(Clone, Copy, Debug, PartialEq, Eq, Structural)]
pub enum PredictionError {
    /// The model expects `expected` features; the data set has `found` columns.
    DimensionMismatch { expected: u32, found: u32 },
    /// A model of a family that needs repair has no runtime configuration.
    MissingRuntimeConfig,
    /// A runtime configuration was given to a family that has none.
    IncompatibleRepair,
    /// The numeric routine returned `predictions` values for `rows` rows.
    WrongPredictionCount { rows: u32, predictions: usize },
}

/// Whether `m` can predict on `d`, and if not, why.
pub open spec fn readiness(m: Model, d: DataSet) -> Result<(), PredictionError> {
    if m.family.needs_repair() && m.runtime.is_none() {
        Err(PredictionError::MissingRuntimeConfig)
    } else if !m.family.needs_repair() && m.runtime.is_some() {
        Err(PredictionError::IncompatibleRepair)
    } else if m.n_features != d.cols {
        Err(PredictionError::DimensionMismatch { expected: m.n_features, found: d.cols })
    } else {
        Ok(())
    }
}

/// `a` is `b` with its runtime configuration set to `runtime`.
pub open spec fn with_runtime(a: Model, b: Model, runtime: Option<RuntimeConfig>) -> bool {
    &&& a.family == b.family
    &&& a.n_features == b.n_features
    &&& a.weights@ == b.weights@
    &&& a.runtime == runtime
}

/// Second phase of building an executable model: re-attaches the runtime
/// configuration that serialization dropped. Only a family that needs repair
/// takes one; any other model is left as it was.
pub fn attach_runtime_config(m: &mut Model, config: RuntimeConfig) -> (r: Result<
    (),
    PredictionError,
>)
    ensures
        old(m).family.needs_repair() ==> r is Ok && with_runtime(*final(m), *old(m), Some(config)),
        !old(m).family.needs_repair() ==> r == Err::<(), PredictionError>(
            PredictionError::IncompatibleRepair,
        ) && final(m).same_as(old(m)),
{
    match m.family {
        Family::SupportVector => {
            m.runtime = Some(config);
            Ok(())
        },
        Family::Linear => Err(PredictionError::IncompatibleRepair),
    }
}

/// Checks that `m` can predict on `d`.
pub fn check_ready(m: &Model, d: &DataSet) -> (r: Result<(), PredictionError>)
    ensures
        r == readiness(*m, *d),
{
    let repair = match m.family {
        Family::SupportVector => true,
        Family::Linear => false,
    };
    if repair && m.runtime.is_none() {
        Err(PredictionError::MissingRuntimeConfig)
    } else if !repair && m.runtime.is_some() {
        Err(PredictionError::IncompatibleRepair)
    } else if m.n_features != d.cols {
        Err(PredictionError::DimensionMismatch { expected: m.n_features, found: d.cols })
    } else {
        Ok(())
    }
}

/// Turns a decoded model into one that can predict on `d`: a model of a
/// family that needs repair gets `config` attached, any other is taken as it
/// is; then the model's feature count must match the data set's columns.
pub fn dispatch(model: Model, d: &DataSet, config: RuntimeConfig) -> (r: Result<
    Model,
    PredictionError,
>)
    requires
        model.runtime.is_none(),
    ensures
        model.n_features == d.cols <==> r is Ok,
        r matches Ok(x) ==> with_runtime(
            x,
            model,
            if model.family.needs_repair() {
                Some(config)
            } else {
                None
            },
        ) && readiness(x, *d) == Ok::<(), PredictionError>(()),
        model.n_features != d.cols ==> r == Err::<Model, PredictionError>(
            PredictionError::DimensionMismatch { expected: model.n_features, found: d.cols },
        ),
{
    let mut m = model;
    if m.family == Family::SupportVector {
        let _ = attach_runtime_config(&mut m, config);
    }
    match check_ready(&m, d) {
        Ok(()) => Ok(m),
        Err(e) => Err(e),
    }
}

/// Repair necessity: a model of a family that needs repair, as decoding
/// leaves it, cannot predict: it fails for want of its runtime configuration.
pub proof fn lemma_repair_necessity(m: Model, d: DataSet)
    requires
        m.family.needs_repair(),
        m.is_raw(),
    ensures
        readiness(m, d) == Err::<(), PredictionError>(PredictionError::MissingRuntimeConfig),
{
}

} // verus!
