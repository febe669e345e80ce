use vstd::prelude::*;

verus! {

/// The model families that can follow the discriminator flag in the channel.
#[derive(Clone, Copy, Debug, PartialEq, Eq, Structural)]
pub enum Family {
    /// Linear regressors: the decoded model predicts as it is.
    Linear,
    /// Support-vector classifiers: the runtime configuration must be attached
    /// after decoding, before the model can predict.
    SupportVector,
}

/// The family that a discriminator flag announces.
pub open spec fn spec_family_of_flag(is_svm: bool) -> Family {
    if is_svm {
        Family::SupportVector
    } else {
        Family::Linear
    }
}

impl Family {
    /// Whether decoded models of this family need their runtime configuration
    /// re-attached before they can predict.
    pub open spec fn needs_repair(self) -> bool {
        self == Family::SupportVector
    }
}

/// The family announced by the discriminator flag.
pub fn family_of_flag(is_svm: bool) -> (r: Family)
    ensures
        r == spec_family_of_flag(is_svm),
{
    if is_svm {
        Family::SupportVector
    } else {
        Family::Linear
    }
}

/// The discriminator flag that announces a family.
pub fn flag_of_family(family: Family) -> (r: bool)
    ensures
        r == (family == Family::SupportVector),
        spec_family_of_flag(r) == family,
{
    match family {
        Family::Linear => false,
        Family::SupportVector => true,
    }
}

/// The kernel of a support-vector model.
#[derive(Clone, Copy, Debug, PartialEq, Eq, Structural)]
pub enum KernelKind {
    Linear,
    Polynomial,
    Rbf,
    Sigmoid,
}

/// The runtime parameters that a support-vector model drops when it is
/// serialized: its kernel and its regularization constant.
#[derive(Clone, Copy, Debug, PartialEq, Eq, Structural)]
pub struct RuntimeConfig {
    pub kernel: KernelKind,
    pub c: u32,
}

/// The protocol version whose repair configuration `repair_config` gives.
pub const PROTOCOL_VERSION: u32 = 1;

/// The regularization constant that models of `PROTOCOL_VERSION` were trained with.
pub const REPAIR_C: u32 = 200;

/// The repair configuration of `PROTOCOL_VERSION`: a linear kernel with
/// regularization constant `REPAIR_C`.
pub open spec fn spec_repair_config() -> RuntimeConfig {
    RuntimeConfig { kernel: KernelKind::Linear, c: REPAIR_C }
}

/// The repair configuration of `PROTOCOL_VERSION`.
pub fn repair_config() -> (r: RuntimeConfig)
    ensures
        r == spec_repair_config(),
{
    RuntimeConfig { kernel: KernelKind::Linear, c: REPAIR_C }
}

/// A model: its family, the number of features it expects, its learned
/// parameters in the family's own encoding, and, once attached, its runtime
/// configuration.
#[derive(Clone, Debug)]
pub struct Model {
    pub family: Family,
    pub n_features: u32,
    pub weights: Vec<u8>,
    pub runtime: Option<RuntimeConfig>,
}

impl Model {
    /// The model as it comes out of decoding: no runtime configuration, and
    /// learned parameters whose length fits in one channel word.
    pub open spec fn is_raw(&self) -> bool {
        &&& self.runtime.is_none()
        &&& self.weights@.len() <= u32::MAX
    }

    /// Structural equality of two models.
    pub open spec fn same_as(&self, other: &Model) -> bool {
        &&& self.family == other.family
        &&& self.n_features == other.n_features
        &&& self.weights@ == other.weights@
        &&& self.runtime == other.runtime
    }
}

/// A row-major matrix of `rows` by `cols` feature values, each held as the
/// bit pattern of a 64-bit float.
#[derive(Clone, Debug)]
pub struct DataSet {
    pub rows: u32,
    pub cols: u32,
    pub values: Vec<u64>,
}

impl DataSet {
    /// The matrix holds exactly `rows * cols` values.
    pub open spec fn wf(&self) -> bool {
        self.values@.len() == self.rows as int * self.cols as int
    }

    /// Structural equality of two data sets.
    pub open spec fn same_as(&self, other: &DataSet) -> bool {
        &&& self.rows == other.rows
        &&& self.cols == other.cols
        &&& self.values@ == other.values@
    }

    /// The value at `row`, `col`.
    pub open spec fn at(&self, row: int, col: int) -> u64 {
        self.values@[row * self.cols as int + col]
    }

    /// A data set of `rows` by `cols` values, or `None` when `values` does
    /// not hold exactly `rows * cols` of them.
    pub fn new(rows: u32, cols: u32, values: Vec<u64>) -> (r: Option<DataSet>)
        ensures
            r.is_some() == (values@.len() == rows as int * cols as int),
            r matches Some(d) ==> d.wf() && d.rows == rows && d.cols == cols
                && d.values@ == values@,
    {
        assert(rows as int * cols as int <= 0xffff_ffff * 0xffff_ffff) by (nonlinear_arith)
            requires
                rows <= 0xffff_ffff,
                cols <= 0xffff_ffff,
        ;
        let n: u64 = rows as u64 * cols as u64;
        if values.len() as u64 == n {
            Some(DataSet { rows, cols, values })
        } else {
            None
        }
    }
}

} // verus!
