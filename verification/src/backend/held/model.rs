//! The data that a held-tree inventory is made of.
//!
//! None of these values holds a descriptor or grants any authority: they record
//! what was observed. Paths are relative to the tree root, which is the empty
//! path.

use crate::bytes::arrays_equal;
use crate::bytes::bytes_equal;
use crate::bytes::to_vec;
use vstd::prelude::*;

verus! {

/// What kind of entry a name binds.
#[derive(Clone, Copy, Debug, PartialEq, Eq, PartialOrd, Ord, Structural)]
pub enum NodeKind {
    Directory,
    Regular,
    Symlink,
    Other,
}

/// The strong identity of an entry. A reused inode number gets a new
/// incarnation.
#[derive(Clone, Copy, Debug, PartialEq, Eq, PartialOrd, Ord, Structural)]
pub struct NodeIdentity {
    pub kind: NodeKind,
    pub device: u64,
    pub inode: u64,
    pub incarnation: u64,
}

/// Commitment to the ordinary extended attributes of one regular file.
#[derive(Clone, Copy, Debug, PartialEq, Eq)]
pub struct RegularXattrProof {
    pub attribute_count: u64,
    pub value_bytes: u64,
    pub sha256: [u8; 32],
}

impl RegularXattrProof {
    /// Whether the file has no ordinary extended attribute.
    pub fn is_empty(self) -> (empty: bool)
        ensures
            empty == (self.attribute_count == 0),
    {
        self.attribute_count == 0
    }

    /// Whether both commit to the same attributes.
    pub fn same(&self, other: &RegularXattrProof) -> (same: bool)
        ensures
            same == (*self == *other),
    {
        self.attribute_count == other.attribute_count && self.value_bytes == other.value_bytes
            && arrays_equal(&self.sha256, &other.sha256)
    }
}

/// What a manifest commits to of an entry's content.
#[derive(Debug, PartialEq, Eq)]
pub enum ContentProof {
    /// The first schema does not look at content.
    Legacy,
    Directory,
    Regular {
        size: u64,
        nlink: u64,
        mtime_sec: i64,
        mtime_nsec: u32,
        ctime_sec: i64,
        ctime_nsec: u32,
        sha256: [u8; 32],
        xattrs: RegularXattrProof,
    },
    Symlink { target: Vec<u8> },
}

/// The mathematical content of a [`ContentProof`].
#[verifier::ext_equal]
pub enum ContentView {
    Legacy,
    Directory,
    Regular {
        size: u64,
        nlink: u64,
        mtime_sec: i64,
        mtime_nsec: u32,
        ctime_sec: i64,
        ctime_nsec: u32,
        sha256: [u8; 32],
        xattrs: RegularXattrProof,
    },
    Symlink { target: Seq<u8> },
}

impl View for ContentProof {
    type V = ContentView;

    open spec fn view(&self) -> ContentView {
        match *self {
            ContentProof::Legacy => ContentView::Legacy,
            ContentProof::Directory => ContentView::Directory,
            ContentProof::Regular {
                size,
                nlink,
                mtime_sec,
                mtime_nsec,
                ctime_sec,
                ctime_nsec,
                sha256,
                xattrs,
            } => ContentView::Regular {
                size,
                nlink,
                mtime_sec,
                mtime_nsec,
                ctime_sec,
                ctime_nsec,
                sha256,
                xattrs,
            },
            ContentProof::Symlink { target } => ContentView::Symlink { target: target@ },
        }
    }
}

impl Clone for ContentProof {
    fn clone(&self) -> (copy: Self)
        ensures
            copy@ == self@,
    {
        match self {
            ContentProof::Legacy => ContentProof::Legacy,
            ContentProof::Directory => ContentProof::Directory,
            ContentProof::Regular {
                size,
                nlink,
                mtime_sec,
                mtime_nsec,
                ctime_sec,
                ctime_nsec,
                sha256,
                xattrs,
            } => ContentProof::Regular {
                size: *size,
                nlink: *nlink,
                mtime_sec: *mtime_sec,
                mtime_nsec: *mtime_nsec,
                ctime_sec: *ctime_sec,
                ctime_nsec: *ctime_nsec,
                sha256: *sha256,
                xattrs: *xattrs,
            },
            ContentProof::Symlink { target } => ContentProof::Symlink { target: to_vec(target) },
        }
    }
}

impl ContentProof {
    /// Whether both commit to the same content.
    pub fn same(&self, other: &ContentProof) -> (same: bool)
        ensures
            same == (self@ == other@),
    {
        match (self, other) {
            (ContentProof::Legacy, ContentProof::Legacy) => true,
            (ContentProof::Directory, ContentProof::Directory) => true,
            (
                ContentProof::Regular {
                    size,
                    nlink,
                    mtime_sec,
                    mtime_nsec,
                    ctime_sec,
                    ctime_nsec,
                    sha256,
                    xattrs,
                },
                ContentProof::Regular {
                    size: size2,
                    nlink: nlink2,
                    mtime_sec: mtime_sec2,
                    mtime_nsec: mtime_nsec2,
                    ctime_sec: ctime_sec2,
                    ctime_nsec: ctime_nsec2,
                    sha256: sha256_2,
                    xattrs: xattrs2,
                },
            ) => *size == *size2 && *nlink == *nlink2 && *mtime_sec == *mtime_sec2 && *mtime_nsec
                == *mtime_nsec2 && *ctime_sec == *ctime_sec2 && *ctime_nsec == *ctime_nsec2
                && arrays_equal(sha256, sha256_2) && xattrs.same(xattrs2),
            (
                ContentProof::Symlink { target },
                ContentProof::Symlink { target: target2 },
            ) => bytes_equal(target, target2),
            _ => false,
        }
    }
}

/// One entry of a tree manifest.
#[derive(Debug, PartialEq, Eq)]
pub struct ManifestEntry {
    pub path: Vec<u8>,
    pub identity: NodeIdentity,
    pub uid: u32,
    pub gid: u32,
    pub mode: u32,
    pub content: ContentProof,
}

/// The mathematical content of a manifest entry.
#[verifier::ext_equal]
pub struct EntryView {
    pub path: Seq<u8>,
    pub identity: NodeIdentity,
    pub uid: u32,
    pub gid: u32,
    pub mode: u32,
    pub content: ContentView,
}

impl View for ManifestEntry {
    type V = EntryView;

    open spec fn view(&self) -> EntryView {
        EntryView {
            path: self.path@,
            identity: self.identity,
            uid: self.uid,
            gid: self.gid,
            mode: self.mode,
            content: self.content@,
        }
    }
}

impl Clone for ManifestEntry {
    fn clone(&self) -> (copy: Self)
        ensures
            copy@ == self@,
    {
        ManifestEntry {
            path: to_vec(&self.path),
            identity: self.identity,
            uid: self.uid,
            gid: self.gid,
            mode: self.mode,
            content: self.content.clone(),
        }
    }
}

impl ManifestEntry {
    /// Whether both record the same entry.
    pub fn same(&self, other: &ManifestEntry) -> (same: bool)
        ensures
            same == (self@ == other@),
    {
        bytes_equal(&self.path, &other.path) && self.identity == other.identity && self.uid
            == other.uid && self.gid == other.gid && self.mode == other.mode && self.content.same(
            &other.content,
        )
    }
}

/// The contents of a list of manifest entries.
pub open spec fn entries(manifest: Seq<ManifestEntry>) -> Seq<EntryView> {
    Seq::new(manifest.len(), |i: int| manifest[i]@)
}

/// The cheap metadata that must stay put between a full proof and a rewalk.
#[derive(Debug, PartialEq, Eq)]
pub enum StructureStability {
    Legacy,
    Directory,
    Regular {
        size: u64,
        nlink: u64,
        mtime_sec: i64,
        mtime_nsec: u32,
        ctime_sec: i64,
        ctime_nsec: u32,
    },
    Symlink { target: Vec<u8> },
}

/// The mathematical content of a [`StructureStability`].
#[verifier::ext_equal]
pub enum StabilityView {
    Legacy,
    Directory,
    Regular {
        size: u64,
        nlink: u64,
        mtime_sec: i64,
        mtime_nsec: u32,
        ctime_sec: i64,
        ctime_nsec: u32,
    },
    Symlink { target: Seq<u8> },
}

impl View for StructureStability {
    type V = StabilityView;

    open spec fn view(&self) -> StabilityView {
        match *self {
            StructureStability::Legacy => StabilityView::Legacy,
            StructureStability::Directory => StabilityView::Directory,
            StructureStability::Regular {
                size,
                nlink,
                mtime_sec,
                mtime_nsec,
                ctime_sec,
                ctime_nsec,
            } => StabilityView::Regular {
                size,
                nlink,
                mtime_sec,
                mtime_nsec,
                ctime_sec,
                ctime_nsec,
            },
            StructureStability::Symlink { target } => StabilityView::Symlink { target: target@ },
        }
    }
}

impl StructureStability {
    /// Whether both hold the same metadata.
    pub fn same(&self, other: &StructureStability) -> (same: bool)
        ensures
            same == (self@ == other@),
    {
        match (self, other) {
            (StructureStability::Legacy, StructureStability::Legacy) => true,
            (StructureStability::Directory, StructureStability::Directory) => true,
            (
                StructureStability::Regular {
                    size,
                    nlink,
                    mtime_sec,
                    mtime_nsec,
                    ctime_sec,
                    ctime_nsec,
                },
                StructureStability::Regular {
                    size: size2,
                    nlink: nlink2,
                    mtime_sec: mtime_sec2,
                    mtime_nsec: mtime_nsec2,
                    ctime_sec: ctime_sec2,
                    ctime_nsec: ctime_nsec2,
                },
            ) => *size == *size2 && *nlink == *nlink2 && *mtime_sec == *mtime_sec2 && *mtime_nsec
                == *mtime_nsec2 && *ctime_sec == *ctime_sec2 && *ctime_nsec == *ctime_nsec2,
            (
                StructureStability::Symlink { target },
                StructureStability::Symlink { target: target2 },
            ) => bytes_equal(target, target2),
            _ => false,
        }
    }
}

/// Descriptor-free evidence for one entry's name and stable metadata. Regular
/// file bytes, attribute values and their digests are left out; symlink targets
/// stay exact because they are small metadata.
#[derive(Debug, PartialEq, Eq)]
pub struct StructureEvidence {
    pub path: Vec<u8>,
    pub identity: NodeIdentity,
    pub uid: u32,
    pub gid: u32,
    pub mode: u32,
    pub stability: StructureStability,
}

/// The mathematical content of a [`StructureEvidence`].
#[verifier::ext_equal]
pub struct StructureView {
    pub path: Seq<u8>,
    pub identity: NodeIdentity,
    pub uid: u32,
    pub gid: u32,
    pub mode: u32,
    pub stability: StabilityView,
}

impl View for StructureEvidence {
    type V = StructureView;

    open spec fn view(&self) -> StructureView {
        StructureView {
            path: self.path@,
            identity: self.identity,
            uid: self.uid,
            gid: self.gid,
            mode: self.mode,
            stability: self.stability@,
        }
    }
}

/// The contents of a list of structure evidence.
pub open spec fn structures(list: Seq<StructureEvidence>) -> Seq<StructureView> {
    Seq::new(list.len(), |i: int| list[i]@)
}

impl StructureEvidence {
    /// The path of the entry.
    pub fn path(&self) -> (path: &[u8])
        ensures
            path@ == self@.path,
    {
        self.path.as_slice()
    }

    /// Whether the entry is a directory.
    pub fn is_directory(&self) -> (directory: bool)
        ensures
            directory == (self@.identity.kind == NodeKind::Directory),
    {
        self.identity.kind == NodeKind::Directory
    }

    /// The permission bits of the entry.
    pub fn mode(&self) -> (mode: u32)
        ensures
            mode == self@.mode,
    {
        self.mode
    }

    /// Replaces the mode of a directory.
    pub fn normalize_directory_mode(&mut self, mode: u32)
        requires
            old(self)@.identity.kind == NodeKind::Directory,
        ensures
            final(self)@ == (StructureView { mode, ..old(self)@ }),
    {
        self.mode = mode;
    }

    /// Whether both hold the same evidence.
    pub fn same(&self, other: &StructureEvidence) -> (same: bool)
        ensures
            same == (self@ == other@),
    {
        bytes_equal(&self.path, &other.path) && self.identity == other.identity && self.uid
            == other.uid && self.gid == other.gid && self.mode == other.mode
            && self.stability.same(&other.stability)
    }
}

/// What a metadata-only rewalk keeps of a content proof: everything but the
/// digests.
pub open spec fn stability_of(content: ContentView) -> StabilityView {
    match content {
        ContentView::Legacy => StabilityView::Legacy,
        ContentView::Directory => StabilityView::Directory,
        ContentView::Regular {
            size,
            nlink,
            mtime_sec,
            mtime_nsec,
            ctime_sec,
            ctime_nsec,
            ..
        } => StabilityView::Regular { size, nlink, mtime_sec, mtime_nsec, ctime_sec, ctime_nsec },
        ContentView::Symlink { target } => StabilityView::Symlink { target },
    }
}

/// The structure evidence that a manifest entry implies.
pub open spec fn structure_of(entry: EntryView) -> StructureView {
    StructureView {
        path: entry.path,
        identity: entry.identity,
        uid: entry.uid,
        gid: entry.gid,
        mode: entry.mode,
        stability: stability_of(entry.content),
    }
}

impl ManifestEntry {
    /// The structure evidence that this entry implies.
    pub fn structure_evidence(&self) -> (evidence: StructureEvidence)
        ensures
            evidence@ == structure_of(self@),
    {
        let stability = match &self.content {
            ContentProof::Legacy => StructureStability::Legacy,
            ContentProof::Directory => StructureStability::Directory,
            ContentProof::Regular {
                size,
                nlink,
                mtime_sec,
                mtime_nsec,
                ctime_sec,
                ctime_nsec,
                sha256: _,
                xattrs: _,
            } => StructureStability::Regular {
                size: *size,
                nlink: *nlink,
                mtime_sec: *mtime_sec,
                mtime_nsec: *mtime_nsec,
                ctime_sec: *ctime_sec,
                ctime_nsec: *ctime_nsec,
            },
            ContentProof::Symlink { target } => StructureStability::Symlink {
                target: to_vec(target),
            },
        };
        StructureEvidence {
            path: to_vec(&self.path),
            identity: self.identity,
            uid: self.uid,
            gid: self.gid,
            mode: self.mode,
            stability,
        }
    }
}

/// One observation of a regular file. The content digest is present only where
/// the file was read.
#[derive(Clone, Copy, Debug, PartialEq, Eq)]
pub struct RegularFileObservation {
    pub identity: NodeIdentity,
    pub uid: u32,
    pub gid: u32,
    pub mode: u32,
    pub size: u64,
    pub nlink: u64,
    pub mtime_sec: i64,
    pub mtime_nsec: u32,
    pub ctime_sec: i64,
    pub ctime_nsec: u32,
    pub sha256: Option<[u8; 32]>,
    pub xattrs: RegularXattrProof,
}

impl RegularFileObservation {
    /// Whether both record the same observation.
    pub fn same(&self, other: &RegularFileObservation) -> (same: bool)
        ensures
            same == (*self == *other),
    {
        let digests = match (&self.sha256, &other.sha256) {
            (Some(left), Some(right)) => arrays_equal(left, right),
            (None, None) => true,
            _ => false,
        };
        digests && self.identity == other.identity && self.uid == other.uid && self.gid
            == other.gid && self.mode == other.mode && self.size == other.size && self.nlink
            == other.nlink && self.mtime_sec == other.mtime_sec && self.mtime_nsec
            == other.mtime_nsec && self.ctime_sec == other.ctime_sec && self.ctime_nsec
            == other.ctime_nsec && self.xattrs.same(&other.xattrs)
    }
}

/// Canonical commitment to a bounded complete inventory of a tree. It is
/// evidence only.
#[derive(Clone, Copy, Debug, PartialEq, Eq)]
pub struct HeldTreeFingerprint {
    pub schema_version: u16,
    pub entry_count: u64,
    pub sha256: [u8; 32],
}

impl HeldTreeFingerprint {
    /// Whether both commit to the same inventory.
    pub fn same(&self, other: &HeldTreeFingerprint) -> (same: bool)
        ensures
            same == (*self == *other),
    {
        self.schema_version == other.schema_version && self.entry_count == other.entry_count
            && arrays_equal(&self.sha256, &other.sha256)
    }
}

/// The commitment that the recovery log keeps of a tree manifest.
#[derive(Clone, Copy, Debug, PartialEq, Eq)]
pub struct DurableTreeManifest {
    pub schema_version: u16,
    pub entry_count: u64,
    pub sha256: [u8; 32],
}

/// Aggregate hard-link facts of a tree.
#[derive(Clone, Copy, Debug, PartialEq, Eq, Structural)]
pub struct RegularHardLinkTopology {
    pub multi_link_groups: u64,
    pub linked_entries: u64,
}

impl Default for RegularHardLinkTopology {
    fn default() -> (topology: Self)
        ensures
            topology.multi_link_groups == 0,
            topology.linked_entries == 0,
    {
        RegularHardLinkTopology { multi_link_groups: 0, linked_entries: 0 }
    }
}

impl RegularHardLinkTopology {
    /// Whether some file has more than one name inside the tree.
    pub fn contains_multi_link_group(self) -> (contains: bool)
        ensures
            contains == (self.multi_link_groups != 0),
    {
        self.multi_link_groups != 0
    }
}

/// Aggregate extended-attribute facts of a tree.
#[derive(Clone, Copy, Debug, PartialEq, Eq, Structural)]
pub struct RegularXattrTopology {
    pub entries: u64,
    pub attributes: u64,
    pub value_bytes: u64,
}

impl Default for RegularXattrTopology {
    fn default() -> (topology: Self)
        ensures
            topology.entries == 0,
            topology.attributes == 0,
            topology.value_bytes == 0,
    {
        RegularXattrTopology { entries: 0, attributes: 0, value_bytes: 0 }
    }
}

impl RegularXattrTopology {
    /// Whether some regular file has an ordinary extended attribute.
    pub fn contains_xattrs(self) -> (contains: bool)
        ensures
            contains == (self.attributes != 0),
    {
        self.attributes != 0
    }
}

/// How an entry sits in the tree keeps all of it but what only a full reading
/// shows: two entries that sit alike have the same path, identity, owner, group and
/// mode, and files the same size, links and times, and links the same target.
pub proof fn law_structure_keeps_all_but_the_reading(first: EntryView, second: EntryView)
    requires
        structure_of(first) == structure_of(second),
    ensures
        first.path == second.path,
        first.identity == second.identity,
        first.uid == second.uid,
        first.gid == second.gid,
        first.mode == second.mode,
        first.content is Regular <==> second.content is Regular,
        first.content is Directory <==> second.content is Directory,
        first.content is Regular ==> first.content->Regular_size == second.content->Regular_size
            && first.content->Regular_nlink == second.content->Regular_nlink
            && first.content->Regular_mtime_sec == second.content->Regular_mtime_sec
            && first.content->Regular_mtime_nsec == second.content->Regular_mtime_nsec
            && first.content->Regular_ctime_sec == second.content->Regular_ctime_sec
            && first.content->Regular_ctime_nsec == second.content->Regular_ctime_nsec,
        first.content matches ContentView::Symlink { target } ==> second.content == (
        ContentView::Symlink { target }),
{
}

} // verus!
