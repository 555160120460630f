//! Which local file systems are certified, and why certification fails.
//!
//! On Linux a mount is certified when the mount id of the held descriptor, the
//! file system type that the mount table gives for it, and the magic number of
//! the file system agree. On macOS the name of the file system decides.

use crate::text::find_lines;
use crate::text::find_part;
use crate::text::find_part_within;
use crate::text::find_word;
use crate::text::first_word;
use crate::text::letters;
use crate::text::line_bounds;
use crate::text::lines;
use crate::text::parse_u64;
use crate::text::parsed_u64;
use vstd::prelude::*;

verus! {

broadcast use vstd::string::group_string_axioms;

/// The magic number of ext4.
pub const EXT4_MAGIC: u64 = 0x0000_EF53;

/// The magic number of XFS.
pub const XFS_MAGIC: u64 = 0x5846_5342;

/// A magic number is this wide; what is above is sign extension.
pub const LINUX_MAGIC_MASK: u64 = 0xffff_ffff;

/// A local file system whose mode bits are certified.
#[derive(Clone, Copy, Debug, PartialEq, Eq, Structural)]
pub enum CertifiedLocalBackend {
    Ext4,
    Xfs,
    Apfs,
}

/// Why a descriptor could not be certified.
#[derive(Clone, Copy, Debug, PartialEq, Eq, Structural)]
pub enum CertificationError {
    UnsupportedPlatform,
    MountIdentityUnavailable,
    MountInfoUnreadable,
    MountInfoMalformed,
    MountInfoMissing,
    MountInfoAmbiguous,
    UnsupportedFilesystem,
    FilesystemMagicMismatch,
    InspectionFailed,
    NotDirectory,
    AclPresent,
    AclProbeUnknown,
    ProcessCredentialsUnavailable,
}

/// The name of a reason.
pub open spec fn reason_name(reason: CertificationError) -> Seq<char> {
    match reason {
        CertificationError::UnsupportedPlatform => "UnsupportedPlatform"@,
        CertificationError::MountIdentityUnavailable => "MountIdentityUnavailable"@,
        CertificationError::MountInfoUnreadable => "MountInfoUnreadable"@,
        CertificationError::MountInfoMalformed => "MountInfoMalformed"@,
        CertificationError::MountInfoMissing => "MountInfoMissing"@,
        CertificationError::MountInfoAmbiguous => "MountInfoAmbiguous"@,
        CertificationError::UnsupportedFilesystem => "UnsupportedFilesystem"@,
        CertificationError::FilesystemMagicMismatch => "FilesystemMagicMismatch"@,
        CertificationError::InspectionFailed => "InspectionFailed"@,
        CertificationError::NotDirectory => "NotDirectory"@,
        CertificationError::AclPresent => "AclPresent"@,
        CertificationError::AclProbeUnknown => "AclProbeUnknown"@,
        CertificationError::ProcessCredentialsUnavailable => "ProcessCredentialsUnavailable"@,
    }
}

impl CertificationError {
    /// Its name.
    pub fn name(self) -> (name: &'static str)
        ensures
            name@ == reason_name(self),
    {
        match self {
            CertificationError::UnsupportedPlatform => "UnsupportedPlatform",
            CertificationError::MountIdentityUnavailable => "MountIdentityUnavailable",
            CertificationError::MountInfoUnreadable => "MountInfoUnreadable",
            CertificationError::MountInfoMalformed => "MountInfoMalformed",
            CertificationError::MountInfoMissing => "MountInfoMissing",
            CertificationError::MountInfoAmbiguous => "MountInfoAmbiguous",
            CertificationError::UnsupportedFilesystem => "UnsupportedFilesystem",
            CertificationError::FilesystemMagicMismatch => "FilesystemMagicMismatch",
            CertificationError::InspectionFailed => "InspectionFailed",
            CertificationError::NotDirectory => "NotDirectory",
            CertificationError::AclPresent => "AclPresent",
            CertificationError::AclProbeUnknown => "AclProbeUnknown",
            CertificationError::ProcessCredentialsUnavailable => "ProcessCredentialsUnavailable",
        }
    }
}

/// What the mount table says of one mount.
#[derive(Clone, Debug, PartialEq, Eq)]
pub struct LinuxMountRecord {
    pub mount_id: u64,
    pub filesystem_type: String,
}

/// What stands between the fields of a mount and those of its file system.
pub open spec fn field_separator() -> Seq<char> {
    seq![' ', '-', ' ']
}

/// The mount id and the file system type of one line of the mount table: the
/// first word, as a number, and the first word after the separator.
pub open spec fn mount_line(line: Seq<char>) -> Option<(u64, Seq<char>)> {
    let at = find_part(line, field_separator(), 0);
    if at >= line.len() {
        None
    } else {
        match (first_word(line.take(at)), first_word(line.skip(at + 3))) {
            (Some(id), Some(filesystem_type)) => match parsed_u64(id) {
                Some(mount_id) => Some((mount_id, filesystem_type)),
                None => None,
            },
            _ => None,
        }
    }
}

/// What the lines from `at` on give for the mount `wanted`, where `found` was
/// found before: every line has to be well formed, and one of them has to be
/// about the mount, and no second.
pub open spec fn mount_type(
    table: Seq<Seq<char>>,
    at: int,
    wanted: u64,
    found: Option<Seq<char>>,
) -> Result<Seq<char>, CertificationError>
    decreases table.len() - at,
{
    if at >= table.len() {
        match found {
            Some(filesystem_type) => Ok(filesystem_type),
            None => Err(CertificationError::MountInfoMissing),
        }
    } else {
        match mount_line(table[at]) {
            None => Err(CertificationError::MountInfoMalformed),
            Some((mount_id, filesystem_type)) => if mount_id != wanted {
                mount_type(table, at + 1, wanted, found)
            } else if found is Some {
                Err(CertificationError::MountInfoAmbiguous)
            } else {
                mount_type(table, at + 1, wanted, Some(filesystem_type))
            },
        }
    }
}

/// The file system type that a mount table gives for a mount.
pub open spec fn table_type(mountinfo: Seq<char>, wanted: u64) -> Result<
    Seq<char>,
    CertificationError,
> {
    mount_type(lines(mountinfo), 0, wanted, None)
}

/// Reads the line `text[from..to]` of a mount table: the mount id, and where
/// the file system type stands.
fn read_mount_line(text: &Vec<char>, from: usize, to: usize) -> (fields: Option<
    (u64, usize, usize),
>)
    requires
        from <= to <= text@.len(),
    ensures
        match fields {
            Some((mount_id, start, end)) => start <= end <= text@.len() && mount_line(
                text@.subrange(from as int, to as int),
            ) == Some((mount_id, text@.subrange(start as int, end as int))),
            None => mount_line(text@.subrange(from as int, to as int)) is None,
        },
{
    let ghost line = text@.subrange(from as int, to as int);
    let separator = vec![' ', '-', ' '];
    assert(separator@ =~= field_separator());
    let at = find_part_within(text, from, to, &separator);
    if at == to {
        return None;
    }
    let ghost offset = at - from;
    assert(line.take(offset) =~= text@.subrange(from as int, at as int));
    assert(line.skip(offset + 3) =~= text@.subrange(at + 3, to as int));
    match (find_word(text, from, at), find_word(text, at + 3, to)) {
        (Some((id_start, id_end)), Some((start, end))) => match parse_u64(text, id_start, id_end) {
            Some(mount_id) => Some((mount_id, start, end)),
            None => None,
        },
        _ => None,
    }
}

/// What the mount table `input` says of the mount `wanted_mount_id`.
pub fn parse_linux_mountinfo(input: &str, wanted_mount_id: u64) -> (record: Result<
    LinuxMountRecord,
    CertificationError,
>)
    ensures
        match record {
            Ok(record) => record.mount_id == wanted_mount_id && table_type(
                input@,
                wanted_mount_id,
            ) == Ok::<Seq<char>, CertificationError>(record.filesystem_type@),
            Err(error) => table_type(input@, wanted_mount_id)
                == Err::<Seq<char>, CertificationError>(error),
        },
{
    let text = letters(input);
    let bounds = find_lines(&text);
    let ghost table = lines(input@);
    let mut found: Option<(usize, usize)> = None;
    let mut i: usize = 0;
    while i < bounds.len()
        invariant
            i <= bounds@.len(),
            text@ == input@,
            table == lines(input@),
            line_bounds(text@, bounds@) == table,
            forall|n: int|
                0 <= n < bounds@.len() ==> (#[trigger] bounds@[n]).0 <= bounds@[n].1
                    <= text@.len(),
            found matches Some((start, end)) ==> start <= end <= text@.len(),
            table_type(input@, wanted_mount_id) == mount_type(
                table,
                i as int,
                wanted_mount_id,
                found_text(text@, found),
            ),
        decreases bounds@.len() - i,
    {
        let (from, to) = bounds[i];
        assert(table[i as int] == text@.subrange(from as int, to as int));
        match read_mount_line(&text, from, to) {
            None => {
                return Err(CertificationError::MountInfoMalformed);
            },
            Some((mount_id, start, end)) => {
                if mount_id == wanted_mount_id {
                    if found.is_some() {
                        return Err(CertificationError::MountInfoAmbiguous);
                    }
                    found = Some((start, end));
                }
            },
        }
        i += 1;
    }
    match found {
        Some((start, end)) => {
            let filesystem_type = input.substring_char(start, end).to_owned();
            Ok(LinuxMountRecord { mount_id: wanted_mount_id, filesystem_type })
        },
        None => Err(CertificationError::MountInfoMissing),
    }
}

/// The text at the bounds.
spec fn found_text(text: Seq<char>, found: Option<(usize, usize)>) -> Option<Seq<char>> {
    match found {
        Some((start, end)) => Some(text.subrange(start as int, end as int)),
        None => None,
    }
}

/// Which file system a type and a magic number certify together.
pub open spec fn certified_type(filesystem_type: Seq<char>, filesystem_magic: u64) -> Result<
    CertifiedLocalBackend,
    CertificationError,
> {
    let magic = filesystem_magic & LINUX_MAGIC_MASK;
    if filesystem_type == "ext4"@ {
        if magic == EXT4_MAGIC {
            Ok(CertifiedLocalBackend::Ext4)
        } else {
            Err(CertificationError::FilesystemMagicMismatch)
        }
    } else if filesystem_type == "xfs"@ {
        if magic == XFS_MAGIC {
            Ok(CertifiedLocalBackend::Xfs)
        } else {
            Err(CertificationError::FilesystemMagicMismatch)
        }
    } else {
        Err(CertificationError::UnsupportedFilesystem)
    }
}

/// What certifying the mount `mount_id` comes to.
pub open spec fn linux_certificate(
    mount_id: u64,
    mountinfo: Seq<char>,
    filesystem_magic: u64,
) -> Result<CertifiedLocalBackend, CertificationError> {
    match table_type(mountinfo, mount_id) {
        Ok(filesystem_type) => certified_type(filesystem_type, filesystem_magic),
        Err(error) => Err(error),
    }
}

/// Certifies the mount `mount_id`, from the mount table and the magic number of
/// its file system.
pub fn certify_linux_mount(mount_id: u64, mountinfo: &str, filesystem_magic: u64) -> (backend:
    Result<CertifiedLocalBackend, CertificationError>)
    ensures
        backend == linux_certificate(mount_id, mountinfo@, filesystem_magic),
{
    let record = parse_linux_mountinfo(mountinfo, mount_id)?;
    let magic: u64 = filesystem_magic & LINUX_MAGIC_MASK;
    if record.filesystem_type == "ext4".to_owned() {
        if magic == EXT4_MAGIC {
            Ok(CertifiedLocalBackend::Ext4)
        } else {
            Err(CertificationError::FilesystemMagicMismatch)
        }
    } else if record.filesystem_type == "xfs".to_owned() {
        if magic == XFS_MAGIC {
            Ok(CertifiedLocalBackend::Xfs)
        } else {
            Err(CertificationError::FilesystemMagicMismatch)
        }
    } else {
        Err(CertificationError::UnsupportedFilesystem)
    }
}

/// `apfs`
pub open spec fn apfs() -> Seq<u8> {
    seq![0x61u8, 0x70u8, 0x66u8, 0x73u8]
}

/// Certifies a macOS file system by its name: APFS, and nothing else.
pub fn certify_macos_filesystem_name(filesystem_name: &[u8]) -> (backend: Result<
    CertifiedLocalBackend,
    CertificationError,
>)
    ensures
        backend == if filesystem_name@ == apfs() {
            Ok::<CertifiedLocalBackend, CertificationError>(CertifiedLocalBackend::Apfs)
        } else {
            Err(CertificationError::UnsupportedFilesystem)
        },
{
    let named = filesystem_name.len() == 4 && filesystem_name[0] == 0x61 && filesystem_name[1]
        == 0x70 && filesystem_name[2] == 0x66 && filesystem_name[3] == 0x73;
    assert(named <==> filesystem_name@ =~= apfs());
    if named {
        Ok(CertifiedLocalBackend::Apfs)
    } else {
        Err(CertificationError::UnsupportedFilesystem)
    }
}

/// What asking a held object for one access control list gave.
#[derive(Clone, Copy, Debug, PartialEq, Eq, Structural)]
pub enum AclProbe {
    Absent,
    Present,
    Unknown,
}

/// Presence and uncertainty are refused.
pub open spec fn acl_refusal(probe: AclProbe) -> Option<CertificationError> {
    match probe {
        AclProbe::Absent => None,
        AclProbe::Present => Some(CertificationError::AclPresent),
        AclProbe::Unknown => Some(CertificationError::AclProbeUnknown),
    }
}

/// Requires that there is no access control list.
pub fn require_acl_absent(probe: AclProbe) -> (outcome: Result<(), CertificationError>)
    ensures
        outcome is Ok <==> acl_refusal(probe) is None,
        outcome matches Err(error) ==> acl_refusal(probe) == Some(error),
{
    match probe {
        AclProbe::Absent => Ok(()),
        AclProbe::Present => Err(CertificationError::AclPresent),
        AclProbe::Unknown => Err(CertificationError::AclProbeUnknown),
    }
}

/// What several probes come to: one presence is presence, one uncertainty
/// without presence is uncertainty.
pub open spec fn combined_probe(probes: Seq<AclProbe>) -> AclProbe {
    if probes.contains(AclProbe::Present) {
        AclProbe::Present
    } else if probes.contains(AclProbe::Unknown) {
        AclProbe::Unknown
    } else {
        AclProbe::Absent
    }
}

/// What several probes come to.
pub fn combine_acl_probes(probes: &[AclProbe]) -> (probe: AclProbe)
    ensures
        probe == combined_probe(probes@),
{
    let mut unknown = false;
    let mut i: usize = 0;
    while i < probes.len()
        invariant
            i <= probes@.len(),
            !probes@.take(i as int).contains(AclProbe::Present),
            unknown == probes@.take(i as int).contains(AclProbe::Unknown),
        decreases probes@.len() - i,
    {
        let probe = probes[i];
        let ghost before = probes@.take(i as int);
        proof {
            let after = probes@.take(i + 1);
            assert(after =~= before.push(probe));
            assert forall|p: AclProbe| after.contains(p) <==> before.contains(p) || p == probe by {
                if before.contains(p) {
                    let n = choose|n: int| 0 <= n < before.len() && before[n] == p;
                    assert(after[n] == p);
                }
                assert(after[i as int] == probe);
                if after.contains(p) {
                    let n = choose|n: int| 0 <= n < after.len() && after[n] == p;
                    if n < i {
                        assert(before[n] == p);
                    }
                }
            }
        }
        match probe {
            AclProbe::Present => {
                assert(probes@[i as int] == AclProbe::Present);
                return AclProbe::Present;
            },
            AclProbe::Unknown => {
                unknown = true;
            },
            AclProbe::Absent => {},
        }
        i += 1;
    }
    assert(probes@.take(probes@.len() as int) =~= probes@);
    if unknown {
        AclProbe::Unknown
    } else {
        AclProbe::Absent
    }
}

/// What one Linux attribute query says of an access control list: an attribute
/// is presence, the error for no data is absence, anything else is unknown.
pub fn linux_acl_probe(query: Result<u64, i32>, no_data: i32) -> (probe: AclProbe)
    ensures
        probe == match query {
            Ok(_) => AclProbe::Present,
            Err(errno) => if errno == no_data {
                AclProbe::Absent
            } else {
                AclProbe::Unknown
            },
        },
{
    match query {
        Ok(_) => AclProbe::Present,
        Err(errno) => if errno == no_data {
            AclProbe::Absent
        } else {
            AclProbe::Unknown
        },
    }
}

/// What a macOS query for the extended access control list says: a list that was
/// handed out is presence, once it was given back; the error for no entry is
/// absence, anything else is unknown.
pub fn macos_acl_probe(given_back: Result<bool, i32>, no_entry: i32) -> (probe: AclProbe)
    ensures
        probe == match given_back {
            Ok(true) => AclProbe::Present,
            Ok(false) => AclProbe::Unknown,
            Err(errno) => if errno == no_entry {
                AclProbe::Absent
            } else {
                AclProbe::Unknown
            },
        },
{
    match given_back {
        Ok(true) => AclProbe::Present,
        Ok(false) => AclProbe::Unknown,
        Err(errno) => if errno == no_entry {
            AclProbe::Absent
        } else {
            AclProbe::Unknown
        },
    }
}

/// A certificate names the file system that the table names and the magic
/// number confirms; neither alone certifies anything.
pub proof fn law_certificate_needs_type_and_magic(
    mount_id: u64,
    mountinfo: Seq<char>,
    filesystem_magic: u64,
)
    requires
        linux_certificate(mount_id, mountinfo, filesystem_magic) is Ok,
    ensures
        table_type(mountinfo, mount_id) is Ok,
        linux_certificate(mount_id, mountinfo, filesystem_magic) == Ok::<
            CertifiedLocalBackend,
            CertificationError,
        >(CertifiedLocalBackend::Ext4) ==> table_type(mountinfo, mount_id) == Ok::<
            Seq<char>,
            CertificationError,
        >("ext4"@) && filesystem_magic & LINUX_MAGIC_MASK == EXT4_MAGIC,
        linux_certificate(mount_id, mountinfo, filesystem_magic) == Ok::<
            CertifiedLocalBackend,
            CertificationError,
        >(CertifiedLocalBackend::Xfs) ==> table_type(mountinfo, mount_id) == Ok::<
            Seq<char>,
            CertificationError,
        >("xfs"@) && filesystem_magic & LINUX_MAGIC_MASK == XFS_MAGIC,
        linux_certificate(mount_id, mountinfo, filesystem_magic) != Ok::<
            CertifiedLocalBackend,
            CertificationError,
        >(CertifiedLocalBackend::Apfs),
{
}

/// A mount is certified wherever the table names a supported type for it once and
/// the magic number, as wide as it is, is that of the type.
pub proof fn law_supported_mounts_are_certified(
    mount_id: u64,
    mountinfo: Seq<char>,
    filesystem_magic: u64,
)
    ensures
        table_type(mountinfo, mount_id) == Ok::<Seq<char>, CertificationError>("ext4"@)
            && filesystem_magic & 0xffff_ffff == 0xEF53 ==> linux_certificate(
            mount_id,
            mountinfo,
            filesystem_magic,
        ) == Ok::<CertifiedLocalBackend, CertificationError>(CertifiedLocalBackend::Ext4),
        table_type(mountinfo, mount_id) == Ok::<Seq<char>, CertificationError>("xfs"@) && "xfs"@
            != "ext4"@ && filesystem_magic & 0xffff_ffff == 0x5846_5342 ==> linux_certificate(
            mount_id,
            mountinfo,
            filesystem_magic,
        ) == Ok::<CertifiedLocalBackend, CertificationError>(CertifiedLocalBackend::Xfs),
        linux_certificate(mount_id, mountinfo, filesystem_magic) == Ok::<
            CertifiedLocalBackend,
            CertificationError,
        >(CertifiedLocalBackend::Ext4) ==> filesystem_magic & 0xffff_ffff == 0xEF53,
        linux_certificate(mount_id, mountinfo, filesystem_magic) == Ok::<
            CertifiedLocalBackend,
            CertificationError,
        >(CertifiedLocalBackend::Xfs) ==> filesystem_magic & 0xffff_ffff == 0x5846_5342,
{
}

/// A table gives a type for a mount only where every line of it is well formed and
/// exactly one is about the mount, whose type it then is.
pub proof fn law_tables_name_a_mount_once(
    table: Seq<Seq<char>>,
    at: int,
    wanted: u64,
    found: Option<Seq<char>>,
    i: int,
    j: int,
)
    requires
        0 <= at <= table.len(),
        mount_type(table, at, wanted, found) is Ok,
    ensures
        at <= i < table.len() ==> mount_line(table[i]) is Some,
        at <= i < table.len() && (mount_line(table[i])->0).0 == wanted ==> found is None
            && mount_type(table, at, wanted, found) == Ok::<Seq<char>, CertificationError>(
            (mount_line(table[i])->0).1,
        ),
        at <= i < j < table.len() ==> (mount_line(table[i])->0).0 != wanted || (mount_line(
            table[j],
        )->0).0 != wanted,
        found is Some ==> mount_type(table, at, wanted, found) == Ok::<
            Seq<char>,
            CertificationError,
        >(found->0),
    decreases table.len() - at,
{
    if at < table.len() {
        let line = mount_line(table[at])->0;
        if line.0 != wanted {
            law_tables_name_a_mount_once(table, at + 1, wanted, found, i, j);
        } else {
            law_tables_name_a_mount_once(table, at + 1, wanted, Some(line.1), i, j);
            law_tables_name_a_mount_once(table, at + 1, wanted, Some(line.1), j, i);
        }
    }
}

/// Only what is known to carry no access control list passes, and of several
/// answers none may say otherwise.
pub proof fn law_lists_are_known_to_be_absent(probe: AclProbe, probes: Seq<AclProbe>)
    ensures
        acl_refusal(probe) is None <==> probe == AclProbe::Absent,
        acl_refusal(AclProbe::Present) == Some(CertificationError::AclPresent),
        combined_probe(probes) == AclProbe::Absent <==> forall|i: int|
            0 <= i < probes.len() ==> #[trigger] probes[i] == AclProbe::Absent,
        combined_probe(probes) == AclProbe::Present <==> exists|i: int|
            0 <= i < probes.len() && #[trigger] probes[i] == AclProbe::Present,
{
    if combined_probe(probes) == AclProbe::Absent {
        assert forall|i: int| 0 <= i < probes.len() implies #[trigger] probes[i]
            == AclProbe::Absent by {
            assert(probes.contains(probes[i]));
        }
    }
    if exists|i: int| 0 <= i < probes.len() && #[trigger] probes[i] == AclProbe::Present {
        let i = choose|i: int| 0 <= i < probes.len() && #[trigger] probes[i] == AclProbe::Present;
        assert(probes.contains(probes[i]));
    }
}

} // verus!
