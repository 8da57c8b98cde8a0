//! Typed host-call boundary for smart-contract code: return flags, value
//! encoding, a keyed storage table, hashing, the chain-extension protocol and
//! an in-process backend that runs all of it without a real host.

pub mod backend;
pub mod codec;
pub mod engine;
pub mod extension;
pub mod flags;
pub mod hashing;
pub mod storage;

pub use backend::{EnvBackend, TypedEnvBackend};
pub use codec::Codec;
pub use engine::{
    AccountId, Balance, BlockNumber, CallParams, CallRecord, CreateParams, Engine, EnvError,
    ExecContext, Timestamp, Topics, UNKNOWN_EXTENSION,
};
pub use extension::dispatch_extension_output;
pub use flags::ReturnFlags;
pub use hashing::{Blake2x256, CryptoHash, Sha2x256};
pub use storage::{Key, Table};
