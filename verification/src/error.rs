//! Core error types.

use vstd::prelude::*;

verus! {

#[derive(Clone, Debug, PartialEq, Eq)]
pub enum CoreError {
    /// The storage layer failed; the message says how.
    Storage(String),
    /// A domain rule was broken; the message says which.
    Domain(String),
    SequenceExhausted,
    BadSignature,
    UnknownMember,
    OriginGap,
    InvalidCommand(String),
    ReadOnlyLowSpace,
    Closed,
    BackupEncryption,
    InvalidBackup,
    UnsupportedBackupVersion,
    BadPassphrase,
}

} // verus!
