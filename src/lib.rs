//! Verifiable inference protocol: the ordered host/guest channel, its word
//! encoding, the guest's model dispatch, and the host's acceptance of a run.
pub mod model;
pub mod codec;
pub mod channel;
pub mod dispatch;
pub mod journal;
pub mod guest;
pub mod host;
