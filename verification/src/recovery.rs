//! Storage recovery: map a failure to open a profile to a distinct replica
//! state, and decide whether the profile file must be quarantined.

use vstd::prelude::*;

verus! {

#[derive(Clone, Copy, Debug, PartialEq, Eq, Structural, Hash)]
pub enum ReplicaState {
    Ready,
    ReadOnlyLowSpace,
    Recovering(RecoveryReason),
    Unavailable(UnavailableReason),
}

#[derive(Clone, Copy, Debug, PartialEq, Eq, Structural, Hash)]
pub enum RecoveryReason {
    Corrupt,
    DirtyShutdown,
    Locked,
}

#[derive(Clone, Copy, Debug, PartialEq, Eq, Structural, Hash)]
pub enum UnavailableReason {
    MissingKey,
    FailedMigration,
}

/// Why the storage layer refused to open a profile.
#[derive(Clone, Copy, Debug, PartialEq, Eq, Structural, Hash)]
pub enum OpenFailure {
    /// The key did not decrypt the database.
    WrongKey,
    /// The database is not encrypted.
    NotEncrypted,
    /// The profile was written by a newer schema.
    UnsupportedDowngrade,
    /// A schema migration failed.
    MigrationFailed,
    /// SQLite reported an error.
    Sqlite,
    /// The file could not be read or locked.
    Io,
    /// The file is not a profile of this application.
    ApplicationIdMismatch,
}

/// Profiles smaller than this many bytes are truncated, hence corrupt.
pub const MIN_PROFILE_BYTES: u64 = 4096;

/// The outcome of a failed open: the replica state to report, and whether
/// the profile file is to be moved aside as corrupt.
#[derive(Clone, Copy, Debug, PartialEq, Eq, Structural, Hash)]
pub struct RecoveryPlan {
    pub state: ReplicaState,
    pub quarantine: bool,
}

/// A wrong key on an undersized file is corruption; otherwise the key is
/// missing. Undecryptable or wrong-schema profiles are unavailable; SQLite
/// errors and foreign files are corrupt; I/O errors mean the file is locked.
/// Every corrupt profile is moved aside, and nothing else is.
pub open spec fn plan_for(failure: OpenFailure, profile_len: Option<u64>) -> RecoveryPlan {
    match failure {
        OpenFailure::WrongKey => if profile_len matches Some(n) && n < MIN_PROFILE_BYTES {
            RecoveryPlan { state: ReplicaState::Recovering(RecoveryReason::Corrupt), quarantine: true }
        } else {
            RecoveryPlan {
                state: ReplicaState::Unavailable(UnavailableReason::MissingKey),
                quarantine: false,
            }
        },
        OpenFailure::NotEncrypted => RecoveryPlan {
            state: ReplicaState::Unavailable(UnavailableReason::MissingKey),
            quarantine: false,
        },
        OpenFailure::UnsupportedDowngrade | OpenFailure::MigrationFailed => RecoveryPlan {
            state: ReplicaState::Unavailable(UnavailableReason::FailedMigration),
            quarantine: false,
        },
        OpenFailure::Sqlite => RecoveryPlan {
            state: ReplicaState::Recovering(RecoveryReason::Corrupt),
            quarantine: true,
        },
        OpenFailure::Io => RecoveryPlan {
            state: ReplicaState::Recovering(RecoveryReason::Locked),
            quarantine: false,
        },
        OpenFailure::ApplicationIdMismatch => RecoveryPlan {
            state: ReplicaState::Recovering(RecoveryReason::Corrupt),
            quarantine: true,
        },
    }
}

/// Decide how to recover from a failed open. `profile_len` is the size of
/// the profile file, or `None` when it could not be read.
pub fn recovery_plan(failure: OpenFailure, profile_len: Option<u64>) -> (p: RecoveryPlan)
    ensures
        p == plan_for(failure, profile_len),
{
    match failure {
        OpenFailure::WrongKey => {
            // A truncated/undersized file is corruption, not a wrong key.
            let undersized = match profile_len {
                Some(n) => n < MIN_PROFILE_BYTES,
                None => false,
            };
            if undersized {
                RecoveryPlan {
                    state: ReplicaState::Recovering(RecoveryReason::Corrupt),
                    quarantine: true,
                }
            } else {
                RecoveryPlan {
                    state: ReplicaState::Unavailable(UnavailableReason::MissingKey),
                    quarantine: false,
                }
            }
        },
        OpenFailure::NotEncrypted => RecoveryPlan {
            state: ReplicaState::Unavailable(UnavailableReason::MissingKey),
            quarantine: false,
        },
        OpenFailure::UnsupportedDowngrade | OpenFailure::MigrationFailed => RecoveryPlan {
            state: ReplicaState::Unavailable(UnavailableReason::FailedMigration),
            quarantine: false,
        },
        OpenFailure::Sqlite => RecoveryPlan {
            state: ReplicaState::Recovering(RecoveryReason::Corrupt),
            quarantine: true,
        },
        OpenFailure::Io => RecoveryPlan {
            state: ReplicaState::Recovering(RecoveryReason::Locked),
            quarantine: false,
        },
        OpenFailure::ApplicationIdMismatch => RecoveryPlan {
            state: ReplicaState::Recovering(RecoveryReason::Corrupt),
            quarantine: true,
        },
    }
}

/// A file is moved aside exactly when the replica reports it corrupt, and a
/// failed open never reports the replica ready.
pub proof fn lemma_quarantine_only_when_corrupt(failure: OpenFailure, profile_len: Option<u64>)
    ensures
        plan_for(failure, profile_len).quarantine <==> plan_for(failure, profile_len).state
            == ReplicaState::Recovering(RecoveryReason::Corrupt),
        plan_for(failure, profile_len).state != ReplicaState::Ready,
        plan_for(failure, profile_len).state != ReplicaState::ReadOnlyLowSpace,
{
}

/// The label of a replica state at the platform boundary.
pub open spec fn replica_label(r: ReplicaState) -> Seq<char> {
    match r {
        ReplicaState::Ready => "ready"@,
        ReplicaState::ReadOnlyLowSpace => "read_only_low_space"@,
        ReplicaState::Recovering(_) => "recovering"@,
        ReplicaState::Unavailable(_) => "unavailable"@,
    }
}

/// The label of a replica state at the platform boundary.
pub fn replica_to_str(r: &ReplicaState) -> (s: &'static str)
    ensures
        s@ == replica_label(*r),
{
    match r {
        ReplicaState::Ready => "ready",
        ReplicaState::ReadOnlyLowSpace => "read_only_low_space",
        ReplicaState::Recovering(_) => "recovering",
        ReplicaState::Unavailable(_) => "unavailable",
    }
}

} // verus!
