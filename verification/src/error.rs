use vstd::prelude::*;

use crate::text::{concat2, concat3, owned};

verus! {

/// Everything that can go wrong in the library, with the data its message needs.
#[derive(Debug, Clone, PartialEq, Eq)]
pub enum LockerError {
    /// The platform reports no per-user data directory.
    NoDataDir,
    /// The platform reports no home directory.
    NoHomeDir,
    /// A required helper program is nowhere to be found.
    BinaryNotFound(String),
    /// The program that was asked to run inside the sandbox is nowhere to be found.
    TargetBinaryNotFound(String),
    /// Neither `fusermount3` nor `fusermount` is installed.
    FusermountNotFound,
    /// An empty passphrase was offered for a new vault.
    EmptyPassphrase,
    /// The passphrase and its confirmation differ.
    PassphraseMismatch,
    /// The vault's directory could not be created.
    CreateVaultDirFailed(String),
    /// The mount point could not be created.
    CreateMountDirFailed(String),
    /// A helper program could not be started.
    SpawnFailed(String),
    /// `gocryptfs -init` reported failure; the text is its trimmed error output.
    InitFailed(String),
    /// `gocryptfs` could not mount the vault; the text is its trimmed error output.
    MountFailed(String),
    /// The vault's storage could not be deleted.
    DeleteVaultFailed(String),
    /// A multi-step operation was driven with an event it did not expect.
    StepOutOfOrder,
    /// A lower-level input/output failure, with its description.
    Io(String),
}

/// An error as the contracts see it: the same variants, with texts as character sequences.
pub enum ErrorView {
    NoDataDir,
    NoHomeDir,
    BinaryNotFound(Seq<char>),
    TargetBinaryNotFound(Seq<char>),
    FusermountNotFound,
    EmptyPassphrase,
    PassphraseMismatch,
    CreateVaultDirFailed(Seq<char>),
    CreateMountDirFailed(Seq<char>),
    SpawnFailed(Seq<char>),
    InitFailed(Seq<char>),
    MountFailed(Seq<char>),
    DeleteVaultFailed(Seq<char>),
    StepOutOfOrder,
    Io(Seq<char>),
}

impl View for LockerError {
    type V = ErrorView;

    open spec fn view(&self) -> ErrorView {
        match self {
            LockerError::NoDataDir => ErrorView::NoDataDir,
            LockerError::NoHomeDir => ErrorView::NoHomeDir,
            LockerError::BinaryNotFound(s) => ErrorView::BinaryNotFound(s@),
            LockerError::TargetBinaryNotFound(s) => ErrorView::TargetBinaryNotFound(s@),
            LockerError::FusermountNotFound => ErrorView::FusermountNotFound,
            LockerError::EmptyPassphrase => ErrorView::EmptyPassphrase,
            LockerError::PassphraseMismatch => ErrorView::PassphraseMismatch,
            LockerError::CreateVaultDirFailed(s) => ErrorView::CreateVaultDirFailed(s@),
            LockerError::CreateMountDirFailed(s) => ErrorView::CreateMountDirFailed(s@),
            LockerError::SpawnFailed(s) => ErrorView::SpawnFailed(s@),
            LockerError::InitFailed(s) => ErrorView::InitFailed(s@),
            LockerError::MountFailed(s) => ErrorView::MountFailed(s@),
            LockerError::DeleteVaultFailed(s) => ErrorView::DeleteVaultFailed(s@),
            LockerError::StepOutOfOrder => ErrorView::StepOutOfOrder,
            LockerError::Io(s) => ErrorView::Io(s@),
        }
    }
}

/// The text of each error's message.
pub open spec fn error_text(e: ErrorView) -> Seq<char> {
    match e {
        ErrorView::NoDataDir => "Could not determine user data directory (~/.local/share)"@,
        ErrorView::NoHomeDir => "Could not resolve user home directory"@,
        ErrorView::BinaryNotFound(name) => "Required system binary '"@ + name
            + "' not found in PATH or standard locations."@,
        ErrorView::TargetBinaryNotFound(name) => "Target application binary '"@ + name
            + "' not found"@,
        ErrorView::FusermountNotFound => "Failed to find fusermount binary"@,
        ErrorView::EmptyPassphrase => "Passphrase cannot be empty."@,
        ErrorView::PassphraseMismatch => "Passphrases do not match. Aborting initialization."@,
        ErrorView::CreateVaultDirFailed(p) => "Failed to create vault directory at "@ + p,
        ErrorView::CreateMountDirFailed(p) => "Failed to create mount directory at "@ + p,
        ErrorView::SpawnFailed(p) => "Failed to execute "@ + p,
        ErrorView::InitFailed(d) => "gocryptfs -init failed: "@ + d,
        ErrorView::MountFailed(d) => "gocryptfs mount failed: "@ + d,
        ErrorView::DeleteVaultFailed(p) => "Failed to delete vault storage at "@ + p,
        ErrorView::StepOutOfOrder => "Operation steps arrived out of order"@,
        ErrorView::Io(d) => d,
    }
}

impl LockerError {
    /// The human-readable message of this error.
    pub fn message(&self) -> (r: String)
        ensures
            r@ == error_text(self@),
    {
        match self {
            LockerError::NoDataDir => owned("Could not determine user data directory (~/.local/share)"),
            LockerError::NoHomeDir => owned("Could not resolve user home directory"),
            LockerError::BinaryNotFound(name) => concat3(
                "Required system binary '",
                name.as_str(),
                "' not found in PATH or standard locations.",
            ),
            LockerError::TargetBinaryNotFound(name) => concat3(
                "Target application binary '",
                name.as_str(),
                "' not found",
            ),
            LockerError::FusermountNotFound => owned("Failed to find fusermount binary"),
            LockerError::EmptyPassphrase => owned("Passphrase cannot be empty."),
            LockerError::PassphraseMismatch => owned("Passphrases do not match. Aborting initialization."),
            LockerError::CreateVaultDirFailed(p) => concat2(
                "Failed to create vault directory at ",
                p.as_str(),
            ),
            LockerError::CreateMountDirFailed(p) => concat2(
                "Failed to create mount directory at ",
                p.as_str(),
            ),
            LockerError::SpawnFailed(p) => concat2("Failed to execute ", p.as_str()),
            LockerError::InitFailed(d) => concat2("gocryptfs -init failed: ", d.as_str()),
            LockerError::MountFailed(d) => concat2("gocryptfs mount failed: ", d.as_str()),
            LockerError::DeleteVaultFailed(p) => concat2(
                "Failed to delete vault storage at ",
                p.as_str(),
            ),
            LockerError::StepOutOfOrder => owned("Operation steps arrived out of order"),
            LockerError::Io(d) => owned(d.as_str()),
        }
    }
}

} // verus!
