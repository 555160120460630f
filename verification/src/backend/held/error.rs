//! How an inventory, a rewalk or a manifest stream is refused.

use crate::backend::certify::reason_name;
use crate::backend::certify::CertificationError;
use crate::text::decimal_text;
use crate::text::lossy_text;
use crate::text::number_text;
use crate::text::words_at;
use vstd::prelude::*;

verus! {

/// Which bound of a tree request was exceeded.
#[derive(Clone, Copy, Debug, PartialEq, Eq, Structural)]
pub enum HeldTreeLimit {
    Entries,
    Directories,
    Depth,
    PathBytes,
    ManifestBytes,
    ContentBytes,
}

/// The name of a bound.
pub open spec fn limit_name(kind: HeldTreeLimit) -> Seq<char> {
    match kind {
        HeldTreeLimit::Entries => "Entries"@,
        HeldTreeLimit::Directories => "Directories"@,
        HeldTreeLimit::Depth => "Depth"@,
        HeldTreeLimit::PathBytes => "PathBytes"@,
        HeldTreeLimit::ManifestBytes => "ManifestBytes"@,
        HeldTreeLimit::ContentBytes => "ContentBytes"@,
    }
}

impl HeldTreeLimit {
    /// Its name.
    pub fn name(self) -> (name: &'static str)
        ensures
            name@ == limit_name(self),
    {
        match self {
            HeldTreeLimit::Entries => "Entries",
            HeldTreeLimit::Directories => "Directories",
            HeldTreeLimit::Depth => "Depth",
            HeldTreeLimit::PathBytes => "PathBytes",
            HeldTreeLimit::ManifestBytes => "ManifestBytes",
            HeldTreeLimit::ContentBytes => "ContentBytes",
        }
    }
}

/// Why a tree was refused. Paths are relative to the tree root.
#[derive(Debug, PartialEq, Eq)]
pub enum HeldTreeError {
    InvalidRoot,
    InvalidDirectoryPath(Vec<u8>),
    InvalidDirectoryLimit,
    Limit { kind: HeldTreeLimit, limit: u64 },
    ParentPolicyRejected,
    ParentNotExclusive,
    ForeignOwner(Vec<u8>),
    ProtectedName(Vec<u8>),
    BackendBoundary(Vec<u8>),
    IdentityChanged(Vec<u8>),
    StrongIncarnationUnavailable(Vec<u8>),
    ExternalOrUnenumeratedHardLink(Vec<u8>),
    NonDirectoryExtendedMetadata(Vec<u8>),
    NonDirectoryMetadataUnavailable(Vec<u8>),
    UnsupportedContentProof(Vec<u8>),
    ContentChangedDuringHash(Vec<u8>),
    XattrsChangedDuringProof(Vec<u8>),
    RootNotDirectory,
    Certification { path: Vec<u8>, reason: CertificationError },
    PostAdded(Vec<u8>),
    PostRemoved(Vec<u8>),
    PostChanged(Vec<u8>),
    RootBindingChanged,
    /// A file system call failed with this system error number.
    Io { path: Vec<u8>, errno: i32 },
}

/// The mathematical content of a [`HeldTreeError`].
#[verifier::ext_equal]
pub enum TreeFault {
    InvalidRoot,
    InvalidDirectoryPath(Seq<u8>),
    InvalidDirectoryLimit,
    Limit { kind: HeldTreeLimit, limit: u64 },
    ParentPolicyRejected,
    ParentNotExclusive,
    ForeignOwner(Seq<u8>),
    ProtectedName(Seq<u8>),
    BackendBoundary(Seq<u8>),
    IdentityChanged(Seq<u8>),
    StrongIncarnationUnavailable(Seq<u8>),
    ExternalOrUnenumeratedHardLink(Seq<u8>),
    NonDirectoryExtendedMetadata(Seq<u8>),
    NonDirectoryMetadataUnavailable(Seq<u8>),
    UnsupportedContentProof(Seq<u8>),
    ContentChangedDuringHash(Seq<u8>),
    XattrsChangedDuringProof(Seq<u8>),
    RootNotDirectory,
    Certification { path: Seq<u8>, reason: CertificationError },
    PostAdded(Seq<u8>),
    PostRemoved(Seq<u8>),
    PostChanged(Seq<u8>),
    RootBindingChanged,
    Io { path: Seq<u8>, errno: i32 },
}

impl View for HeldTreeError {
    type V = TreeFault;

    open spec fn view(&self) -> TreeFault {
        match *self {
            HeldTreeError::InvalidRoot => TreeFault::InvalidRoot,
            HeldTreeError::InvalidDirectoryPath(p) => TreeFault::InvalidDirectoryPath(p@),
            HeldTreeError::InvalidDirectoryLimit => TreeFault::InvalidDirectoryLimit,
            HeldTreeError::Limit { kind, limit } => TreeFault::Limit { kind, limit },
            HeldTreeError::ParentPolicyRejected => TreeFault::ParentPolicyRejected,
            HeldTreeError::ParentNotExclusive => TreeFault::ParentNotExclusive,
            HeldTreeError::ForeignOwner(p) => TreeFault::ForeignOwner(p@),
            HeldTreeError::ProtectedName(p) => TreeFault::ProtectedName(p@),
            HeldTreeError::BackendBoundary(p) => TreeFault::BackendBoundary(p@),
            HeldTreeError::IdentityChanged(p) => TreeFault::IdentityChanged(p@),
            HeldTreeError::StrongIncarnationUnavailable(
                p,
            ) => TreeFault::StrongIncarnationUnavailable(p@),
            HeldTreeError::ExternalOrUnenumeratedHardLink(
                p,
            ) => TreeFault::ExternalOrUnenumeratedHardLink(p@),
            HeldTreeError::NonDirectoryExtendedMetadata(
                p,
            ) => TreeFault::NonDirectoryExtendedMetadata(p@),
            HeldTreeError::NonDirectoryMetadataUnavailable(
                p,
            ) => TreeFault::NonDirectoryMetadataUnavailable(p@),
            HeldTreeError::UnsupportedContentProof(p) => TreeFault::UnsupportedContentProof(p@),
            HeldTreeError::ContentChangedDuringHash(p) => TreeFault::ContentChangedDuringHash(p@),
            HeldTreeError::XattrsChangedDuringProof(p) => TreeFault::XattrsChangedDuringProof(p@),
            HeldTreeError::RootNotDirectory => TreeFault::RootNotDirectory,
            HeldTreeError::Certification { path, reason } => TreeFault::Certification {
                path: path@,
                reason,
            },
            HeldTreeError::PostAdded(p) => TreeFault::PostAdded(p@),
            HeldTreeError::PostRemoved(p) => TreeFault::PostRemoved(p@),
            HeldTreeError::PostChanged(p) => TreeFault::PostChanged(p@),
            HeldTreeError::RootBindingChanged => TreeFault::RootBindingChanged,
            HeldTreeError::Io { path, errno } => TreeFault::Io { path: path@, errno },
        }
    }
}

/// An error in words. `system` is what the operating system says of an error of
/// its own.
pub open spec fn tree_error_text(fault: TreeFault, system: Seq<char>) -> Seq<char> {
    match fault {
        TreeFault::InvalidRoot => "held tree root must be exactly one normal component"@,
        TreeFault::InvalidDirectoryLimit => "requested tree directory limit exceeds 1023 total directories (including the root)"@,
        TreeFault::ParentPolicyRejected => "source parent policy rejects sealing by this process"@,
        TreeFault::ParentNotExclusive => "source parent identity, backend, or mode changed"@,
        TreeFault::RootNotDirectory => "root is not a directory"@,
        TreeFault::RootBindingChanged => "root binding changed"@,
        TreeFault::InvalidDirectoryPath(path) => "directory evidence path contains a non-normal relative component at "@ + lossy_text(
            path,
        ),
        TreeFault::ForeignOwner(path) => "entry is not owned by the effective UID at "@ + lossy_text(
            path,
        ),
        TreeFault::ProtectedName(path) => "protected name encountered at "@ + lossy_text(
            path,
        ),
        TreeFault::BackendBoundary(path) => "mount or certified backend boundary encountered at "@ + lossy_text(
            path,
        ),
        TreeFault::IdentityChanged(path) => "entry identity changed at "@ + lossy_text(
            path,
        ),
        TreeFault::StrongIncarnationUnavailable(path) => "strong kernel incarnation is unavailable at "@ + lossy_text(
            path,
        ),
        TreeFault::ExternalOrUnenumeratedHardLink(path) => "regular file has an external or unenumerated hard link at "@ + lossy_text(
            path,
        ),
        TreeFault::NonDirectoryExtendedMetadata(path) => "non-directory ACL, xattr, or capability is present at "@ + lossy_text(
            path,
        ),
        TreeFault::NonDirectoryMetadataUnavailable(path) => "non-directory ACL or xattr evidence is unavailable at "@ + lossy_text(
            path,
        ),
        TreeFault::UnsupportedContentProof(path) => "non-directory content proof is unsupported at "@ + lossy_text(
            path,
        ),
        TreeFault::ContentChangedDuringHash(path) => "entry changed while its content was hashed at "@ + lossy_text(
            path,
        ),
        TreeFault::XattrsChangedDuringProof(path) => "ordinary regular-file xattrs changed while proof was collected at "@ + lossy_text(
            path,
        ),
        TreeFault::PostAdded(path) => "post-rewalk tree has an added entry at "@ + lossy_text(
            path,
        ),
        TreeFault::PostRemoved(path) => "post-rewalk tree is missing an entry at "@ + lossy_text(
            path,
        ),
        TreeFault::PostChanged(path) => "post-rewalk tree entry changed at "@ + lossy_text(
            path,
        ),
        TreeFault::Limit { kind, limit } => "held tree exceeded its "@ + limit_name(kind)
            + " limit of "@ + number_text(limit),
        TreeFault::Certification { path, reason } => "directory certification failed at "@
            + lossy_text(path) + ": "@ + reason_name(reason),
        TreeFault::Io { path, .. } => "filesystem operation failed at "@ + lossy_text(path) + ": "@
            + system,
    }
}

impl HeldTreeError {
    /// The error in words. `system` is what the operating system says of an
    /// error of its own.
    pub fn describe(&self, system: &str) -> (text: String)
        ensures
            text@ == tree_error_text(self@, system@),
    {
        match self {
            HeldTreeError::InvalidRoot => "held tree root must be exactly one normal component".to_owned(),
            HeldTreeError::InvalidDirectoryLimit => "requested tree directory limit exceeds 1023 total directories (including the root)".to_owned(),
            HeldTreeError::ParentPolicyRejected => "source parent policy rejects sealing by this process".to_owned(),
            HeldTreeError::ParentNotExclusive => "source parent identity, backend, or mode changed".to_owned(),
            HeldTreeError::RootNotDirectory => "root is not a directory".to_owned(),
            HeldTreeError::RootBindingChanged => "root binding changed".to_owned(),
            HeldTreeError::InvalidDirectoryPath(path) => words_at(
                "directory evidence path contains a non-normal relative component at ",
                path,
            ),
            HeldTreeError::ForeignOwner(path) => words_at(
                "entry is not owned by the effective UID at ",
                path,
            ),
            HeldTreeError::ProtectedName(path) => words_at(
                "protected name encountered at ",
                path,
            ),
            HeldTreeError::BackendBoundary(path) => words_at(
                "mount or certified backend boundary encountered at ",
                path,
            ),
            HeldTreeError::IdentityChanged(path) => words_at(
                "entry identity changed at ",
                path,
            ),
            HeldTreeError::StrongIncarnationUnavailable(path) => words_at(
                "strong kernel incarnation is unavailable at ",
                path,
            ),
            HeldTreeError::ExternalOrUnenumeratedHardLink(path) => words_at(
                "regular file has an external or unenumerated hard link at ",
                path,
            ),
            HeldTreeError::NonDirectoryExtendedMetadata(path) => words_at(
                "non-directory ACL, xattr, or capability is present at ",
                path,
            ),
            HeldTreeError::NonDirectoryMetadataUnavailable(path) => words_at(
                "non-directory ACL or xattr evidence is unavailable at ",
                path,
            ),
            HeldTreeError::UnsupportedContentProof(path) => words_at(
                "non-directory content proof is unsupported at ",
                path,
            ),
            HeldTreeError::ContentChangedDuringHash(path) => words_at(
                "entry changed while its content was hashed at ",
                path,
            ),
            HeldTreeError::XattrsChangedDuringProof(path) => words_at(
                "ordinary regular-file xattrs changed while proof was collected at ",
                path,
            ),
            HeldTreeError::PostAdded(path) => words_at(
                "post-rewalk tree has an added entry at ",
                path,
            ),
            HeldTreeError::PostRemoved(path) => words_at(
                "post-rewalk tree is missing an entry at ",
                path,
            ),
            HeldTreeError::PostChanged(path) => words_at(
                "post-rewalk tree entry changed at ",
                path,
            ),
            HeldTreeError::Limit { kind, limit } => {
                let mut text = "held tree exceeded its ".to_owned();
                text.append(kind.name());
                text.append(" limit of ");
                text.append(decimal_text(*limit).as_str());
                text
            },
            HeldTreeError::Certification { path, reason } => {
                let mut text = words_at("directory certification failed at ", path);
                text.append(": ");
                text.append(reason.name());
                text
            },
            HeldTreeError::Io { path, .. } => {
                let mut text = words_at("filesystem operation failed at ", path);
                text.append(": ");
                text.append(system);
                text
            },
        }
    }
}

/// A check that either passes or is refused for exactly one reason.
pub open spec fn refused_for<T>(outcome: Result<T, HeldTreeError>, fault: Option<TreeFault>) -> bool {
    match fault {
        Some(fault) => outcome is Err && outcome->Err_0@ == fault,
        None => outcome is Ok,
    }
}

/// Why a manifest stream, or a private scratch record, was refused.
#[derive(Clone, Copy, Debug, PartialEq, Eq, Structural)]
pub enum ManifestV3CodecError {
    RecordTooLarge,
    LengthOverflow,
    RecordCountMismatch,
    TrailingBytes,
    InvalidTag,
    KindContentMismatch,
    InvalidNanoseconds,
    InvalidMode,
    InvalidPath,
    InvalidOrder,
    InvalidRoot,
    MissingParent,
    Limit(HeldTreeLimit),
    EntryCountMismatch,
}

/// A refused stream in words.
pub open spec fn codec_error_text(error: ManifestV3CodecError) -> Seq<char> {
    match error {
        ManifestV3CodecError::RecordTooLarge => "one v3 manifest record exceeds the 1 MiB segment payload limit"@,
        ManifestV3CodecError::LengthOverflow => "v3 manifest aggregate or record length overflow"@,
        ManifestV3CodecError::RecordCountMismatch => "v3 manifest segment record count does not match its payload"@,
        ManifestV3CodecError::TrailingBytes => "v3 manifest segment contains trailing bytes"@,
        ManifestV3CodecError::InvalidTag => "v3 manifest contains an invalid kind or content tag"@,
        ManifestV3CodecError::KindContentMismatch => "v3 manifest kind and content proof do not match"@,
        ManifestV3CodecError::InvalidNanoseconds => "v3 manifest contains invalid timestamp nanoseconds"@,
        ManifestV3CodecError::InvalidMode => "v3 manifest contains an invalid mode"@,
        ManifestV3CodecError::InvalidPath => "v3 manifest path is not a canonical confined root-relative path"@,
        ManifestV3CodecError::InvalidOrder => "v3 manifest paths are not in strict canonical order"@,
        ManifestV3CodecError::InvalidRoot => "v3 manifest does not begin with its directory root"@,
        ManifestV3CodecError::MissingParent => "v3 manifest entry has no committed directory parent"@,
        ManifestV3CodecError::EntryCountMismatch => "v3 manifest total record count does not match the declared count"@,
        ManifestV3CodecError::Limit(kind) => "v3 manifest exceeds its existing held-tree "@
            + limit_name(kind) + " limit"@,
    }
}

impl ManifestV3CodecError {
    /// The error in words.
    pub fn describe(self) -> (text: String)
        ensures
            text@ == codec_error_text(self),
    {
        match self {
            ManifestV3CodecError::RecordTooLarge => "one v3 manifest record exceeds the 1 MiB segment payload limit".to_owned(),
            ManifestV3CodecError::LengthOverflow => "v3 manifest aggregate or record length overflow".to_owned(),
            ManifestV3CodecError::RecordCountMismatch => "v3 manifest segment record count does not match its payload".to_owned(),
            ManifestV3CodecError::TrailingBytes => "v3 manifest segment contains trailing bytes".to_owned(),
            ManifestV3CodecError::InvalidTag => "v3 manifest contains an invalid kind or content tag".to_owned(),
            ManifestV3CodecError::KindContentMismatch => "v3 manifest kind and content proof do not match".to_owned(),
            ManifestV3CodecError::InvalidNanoseconds => "v3 manifest contains invalid timestamp nanoseconds".to_owned(),
            ManifestV3CodecError::InvalidMode => "v3 manifest contains an invalid mode".to_owned(),
            ManifestV3CodecError::InvalidPath => "v3 manifest path is not a canonical confined root-relative path".to_owned(),
            ManifestV3CodecError::InvalidOrder => "v3 manifest paths are not in strict canonical order".to_owned(),
            ManifestV3CodecError::InvalidRoot => "v3 manifest does not begin with its directory root".to_owned(),
            ManifestV3CodecError::MissingParent => "v3 manifest entry has no committed directory parent".to_owned(),
            ManifestV3CodecError::EntryCountMismatch => "v3 manifest total record count does not match the declared count".to_owned(),
            ManifestV3CodecError::Limit(kind) => {
                let mut text = "v3 manifest exceeds its existing held-tree ".to_owned();
                text.append(kind.name());
                text.append(" limit");
                text
            },
        }
    }
}

} // verus!
