use vstd::prelude::*;
use crate::channel::{build_channel, ChannelError, ExecutionChannel};
use crate::codec::DeserializationError;
use crate::journal::{decode_journal, journal_bytes};
use crate::model::{spec_family_of_flag, DataSet, Model};

verus! {

/// The zkVM's receipt of a run, its proof and its journal; carried through
/// unopened.
#[verifier::external_type_specification]
#[verifier::external_body]
pub struct ExReceipt(risc0_zkvm::Receipt);

/// Relies on risc0_zkvm::Receipt::verify: checks the receipt's seal and that
/// its claim is a successful run of the program `image_id` with its journal;
/// `true` where it returned `Ok`.
#[verifier::external_body]
fn verify_receipt(receipt: &risc0_zkvm::Receipt, image_id: [u32; 8]) -> (r: bool) {
    receipt.verify(image_id).is_ok()
}

/// Relies on the public field risc0_zkvm::Receipt::journal: a copy of the
/// journal's bytes.
#[verifier::external_body]
fn journal_of(receipt: &risc0_zkvm::Receipt) -> (r: Vec<u8>) {
    receipt.journal.bytes.clone()
}

/// Why the host gives up on a run.
#[derive(Clone, Copy, Debug, PartialEq, Eq, Structural)]
pub enum HostError {
    /// The channel could not be written.
    Channel(ChannelError),
    /// The receipt did not verify against the expected program identity.
    Verification,
    /// The journal is not an encoding of predictions.
    Journal(DeserializationError),
    /// The journal holds `predictions` values for `rows` rows.
    WrongPredictionCount { rows: u32, predictions: usize },
}

/// Writes the channel for a run: the flag, then the model, then the data.
pub fn prepare_run(is_svm: bool, m: &Model, d: &DataSet) -> (r: Result<ExecutionChannel, HostError>)
    ensures
        m.family != spec_family_of_flag(is_svm) ==> r == Err::<ExecutionChannel, HostError>(
            HostError::Channel(ChannelError::FlagMismatch),
        ),
        m.family == spec_family_of_flag(is_svm) && m.weights@.len() > u32::MAX ==> r == Err::<
            ExecutionChannel,
            HostError,
        >(HostError::Channel(ChannelError::ModelTooLarge)),
        m.family == spec_family_of_flag(is_svm) && m.weights@.len() <= u32::MAX ==> (r matches Ok(
            c,
        ) && c.words@ == crate::channel::channel_words(is_svm, *m, *d)),
{
    match build_channel(is_svm, m, d) {
        Ok(c) => Ok(c),
        Err(e) => Err(HostError::Channel(e)),
    }
}

/// Accepts the predictions of a run only if its receipt verified and its
/// journal holds exactly one prediction per row.
pub fn accept_run(verified: bool, journal: &Vec<u8>, rows: u32) -> (r: Result<Vec<u64>, HostError>)
    ensures
        !verified ==> r == Err::<Vec<u64>, HostError>(HostError::Verification),
        verified && (forall|p: Seq<u64>| journal@ != #[trigger] journal_bytes(p)) ==> r matches Err(
            HostError::Journal(_),
        ),
        forall|p: Seq<u64>| #[trigger]
            journal_bytes(p) == journal@ && verified ==> {
                &&& p.len() == rows ==> (r matches Ok(q) && q@ == p)
                &&& p.len() != rows ==> r == Err::<Vec<u64>, HostError>(
                    HostError::WrongPredictionCount { rows, predictions: p.len() as usize },
                )
            },
{
    if !verified {
        return Err(HostError::Verification);
    }
    match decode_journal(journal) {
        Ok(p) => {
            proof {
                assert forall|q: Seq<u64>| #[trigger] journal_bytes(q) == journal@ implies q
                    == p@ by {
                    crate::journal::lemma_journal_holds_predictions_only(q, p@);
                }
            }
            if p.len() != rows as usize {
                Err(HostError::WrongPredictionCount { rows, predictions: p.len() })
            } else {
                Ok(p)
            }
        },
        Err(e) => Err(HostError::Journal(e)),
    }
}

/// The host's last step: verifies the receipt against the pinned program
/// identity, then accepts its journal as `accept_run` does. A receipt that
/// does not verify yields `HostError::Verification`, never predictions.
pub fn finish_run(receipt: &risc0_zkvm::Receipt, image_id: [u32; 8], rows: u32) -> (r: Result<
    Vec<u64>,
    HostError,
>)
    ensures
        r matches Ok(p) ==> p@.len() == rows,
{
    let verified = verify_receipt(receipt, image_id);
    let journal = journal_of(receipt);
    let r = accept_run(verified, &journal, rows);
    proof {
        if r is Ok {
            assert(exists|p: Seq<u64>| journal@ == #[trigger] journal_bytes(p));
        }
    }
    r
}

} // verus!
