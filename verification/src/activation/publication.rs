//! Reading and writing the records of an activation.
//!
//! A record is a file of its owner alone, with one name. It is written under
//! another name first, made durable, and then given its own, unless something
//! stands there.

use crate::activation::error::read_error;
use crate::activation::error::read_refusal;
use crate::activation::error::refused_as;
use crate::activation::error::store_error_from_record_read;
use crate::activation::error::store_error_from_record_validation;
use crate::activation::error::validation_read;
use crate::activation::error::validation_refusal;
use crate::activation::error::ActivationFault;
use crate::activation::error::IoFault;
use crate::activation::error::ReadFault;
use crate::activation::error::RecordReadError;
use crate::activation::error::RecordValidationError;
use crate::activation::error::StoreActivationError;
use crate::activation::record::MAX_RECORD_BYTES;
use crate::backend::certify::CertificationError;
use crate::bytes::append;
use crate::bytes::bytes_equal;
use crate::bytes::to_vec;
use crate::paths::push_path;
use crate::paths::pushed;
use crate::text::decimal_bytes;
use crate::text::digits_of;
use vstd::prelude::*;
use vstd::utf8::encode_utf8;

verus! {

pub const PREPARING_RECORD_NAME: &'static str = "sealed-staging.prepare";

pub const ACTIVE_RECORD_NAME: &'static str = "sealed-staging.active";

pub const AUTHORITY_RECORD_NAME: &'static str = "sealed-staging.authority";

pub const STORE_BINDING_NAME: &'static str = "store.activation";

/// The mode of a record.
pub const RECORD_MODE: u32 = 0o600;

/// What a file is.
#[derive(Clone, Copy, Debug, PartialEq, Eq, Structural)]
pub enum FileClass {
    Regular,
    Directory,
    Other,
}

/// What is seen of a file.
#[derive(Clone, Copy, Debug, PartialEq, Eq, Structural)]
pub struct FileStat {
    pub class: FileClass,
    pub device: u64,
    pub inode: u64,
    pub uid: u32,
    /// The permission bits, and those above them.
    pub mode: u32,
    pub links: u64,
}

/// Why an opened record is not what it has to be: a regular file of its owner
/// alone, with one name and no access control list.
pub open spec fn record_fault(
    stat: Result<FileStat, IoFault>,
    acl: Result<(), CertificationError>,
    euid: u32,
) -> Option<RecordValidationError> {
    match (stat, acl) {
        (Err(fault), _) => Some(RecordValidationError::Io(fault)),
        (Ok(_), Err(CertificationError::AclPresent)) => Some(RecordValidationError::Corrupt),
        (Ok(_), Err(reason)) => Some(RecordValidationError::Inspection(reason)),
        (Ok(stat), Ok(_)) => if stat.class == FileClass::Regular && stat.uid == euid && stat.mode
            & 0o7777 == RECORD_MODE && stat.links == 1 {
            None
        } else {
            Some(RecordValidationError::Corrupt)
        },
    }
}

/// Requires that an opened record is what it has to be.
pub fn validate_record_fd(
    stat: Result<FileStat, IoFault>,
    acl: Result<(), CertificationError>,
    euid: u32,
) -> (outcome: Result<(), RecordValidationError>)
    ensures
        match record_fault(stat, acl, euid) {
            Some(error) => outcome == Err::<(), RecordValidationError>(error),
            None => outcome is Ok,
        },
{
    let stat = match stat {
        Ok(stat) => stat,
        Err(fault) => {
            return Err(RecordValidationError::Io(fault));
        },
    };
    match acl {
        Ok(_) => {},
        Err(CertificationError::AclPresent) => {
            return Err(RecordValidationError::Corrupt);
        },
        Err(reason) => {
            return Err(RecordValidationError::Inspection(reason));
        },
    }
    if stat.class != FileClass::Regular || stat.uid != euid || stat.mode & 0o7777 != RECORD_MODE
        || stat.links != 1 {
        return Err(RecordValidationError::Corrupt);
    }
    Ok(())
}

/// Why the opened record is not the one that stands under its name.
pub open spec fn record_binding_fault(
    opened: Result<FileStat, IoFault>,
    entry: Result<FileStat, IoFault>,
) -> Option<RecordValidationError> {
    match (opened, entry) {
        (Err(fault), _) => Some(RecordValidationError::Io(fault)),
        (Ok(_), Err(fault)) => Some(RecordValidationError::Io(fault)),
        (Ok(opened), Ok(entry)) => if opened.device == entry.device && opened.inode == entry.inode
            && entry.class == FileClass::Regular {
            None
        } else {
            Some(RecordValidationError::Corrupt)
        },
    }
}

/// Requires that the opened record is the one that stands under its name.
pub fn validate_record_binding(
    opened: Result<FileStat, IoFault>,
    entry: Result<FileStat, IoFault>,
) -> (outcome: Result<(), RecordValidationError>)
    ensures
        match record_binding_fault(opened, entry) {
            Some(error) => outcome == Err::<(), RecordValidationError>(error),
            None => outcome is Ok,
        },
{
    let opened = match opened {
        Ok(stat) => stat,
        Err(fault) => {
            return Err(RecordValidationError::Io(fault));
        },
    };
    let entry = match entry {
        Ok(stat) => stat,
        Err(fault) => {
            return Err(RecordValidationError::Io(fault));
        },
    };
    if opened.device != entry.device || opened.inode != entry.inode || entry.class
        != FileClass::Regular {
        return Err(RecordValidationError::Corrupt);
    }
    Ok(())
}

/// What is seen of a record: when it is opened, of the opened file, of what it
/// holds, and once more of the file and under its name.
#[derive(Debug)]
pub struct RecordProbe {
    pub opened: Result<(), IoFault>,
    pub stat: Result<FileStat, IoFault>,
    pub acl: Result<(), CertificationError>,
    pub bytes: Result<Vec<u8>, IoFault>,
    pub stat_again: Result<FileStat, IoFault>,
    pub entry: Result<FileStat, IoFault>,
    pub euid: u32,
}

/// Why a record cannot be read.
pub open spec fn read_fault(path: Seq<u8>, probe: RecordProbe) -> Option<ReadFault> {
    match probe.opened {
        Err(IoFault::Loop) => Some(ReadFault::Corrupt),
        Err(fault) => Some(ReadFault::Io(path, fault)),
        Ok(_) => match record_fault(probe.stat, probe.acl, probe.euid) {
            Some(error) => Some(validation_read(path, error)),
            None => match probe.bytes {
                Err(fault) => Some(ReadFault::Io(path, fault)),
                Ok(bytes) => if bytes@.len() > MAX_RECORD_BYTES {
                    Some(ReadFault::Corrupt)
                } else {
                    match record_binding_fault(probe.stat_again, probe.entry) {
                        Some(error) => Some(validation_read(path, error)),
                        None => None,
                    }
                },
            },
        },
    }
}

/// What a record holds.
pub fn read_exact_record(directory: &[u8], name: &str, probe: RecordProbe) -> (bytes: Result<
    Vec<u8>,
    RecordReadError,
>)
    ensures
        match read_fault(pushed(directory@, encode_utf8(name@)), probe) {
            Some(fault) => bytes matches Err(error) && error@ == fault,
            None => bytes matches Ok(read) && probe.bytes == Ok::<Vec<u8>, IoFault>(read),
        },
{
    let path = push_path(directory, name.as_bytes());
    match probe.opened {
        Ok(_) => {},
        Err(IoFault::Loop) => {
            return Err(RecordReadError::Corrupt);
        },
        Err(fault) => {
            return Err(RecordReadError::Io(path, fault));
        },
    }
    match validate_record_fd(probe.stat, probe.acl, probe.euid) {
        Ok(_) => {},
        Err(error) => {
            return Err(read_error(path, error));
        },
    }
    let bytes = match probe.bytes {
        Ok(bytes) => bytes,
        Err(fault) => {
            return Err(RecordReadError::Io(path, fault));
        },
    };
    if bytes.len() > MAX_RECORD_BYTES {
        return Err(RecordReadError::Corrupt);
    }
    match validate_record_binding(probe.stat_again, probe.entry) {
        Ok(_) => Ok(bytes),
        Err(error) => Err(read_error(path, error)),
    }
}

/// What a record that may be missing holds.
pub open spec fn is_missing(read: Result<Vec<u8>, RecordReadError>) -> bool {
    read matches Err(RecordReadError::Io(_, IoFault::NotFound))
}

/// Where a publication starts.
#[derive(Clone, Copy, Debug, PartialEq, Eq, Structural)]
pub enum PublicationStart {
    /// The record is there; it only has to be made durable.
    AlreadyThere,
    /// The record has to be written.
    Write,
}

/// Why nothing is published over what stands there.
pub open spec fn publication_fault(existing: Result<Vec<u8>, RecordReadError>, bytes: Seq<u8>)
    -> Option<ActivationFault> {
    if is_missing(existing) {
        None
    } else {
        match existing {
            Ok(found) => if found@ == bytes {
                None
            } else {
                Some(ActivationFault::NotResumable)
            },
            Err(error) => Some(read_refusal(error@)),
        }
    }
}

/// Decides from what stands there how a publication starts.
pub fn begin_publication(existing: Result<Vec<u8>, RecordReadError>, bytes: &[u8]) -> (start: Result<
    PublicationStart,
    StoreActivationError,
>)
    ensures
        refused_as(start, publication_fault(existing, bytes@)),
        start matches Ok(begun) ==> begun == if is_missing(existing) {
            PublicationStart::Write
        } else {
            PublicationStart::AlreadyThere
        },
{
    match existing {
        Ok(found) => if bytes_equal(found.as_slice(), bytes) {
            Ok(PublicationStart::AlreadyThere)
        } else {
            Err(StoreActivationError::NotResumable)
        },
        Err(RecordReadError::Io(_, IoFault::NotFound)) => Ok(PublicationStart::Write),
        Err(error) => Err(store_error_from_record_read(error)),
    }
}

/// How many names are tried for a record that is being written.
pub const TEMPORARY_NAME_ATTEMPTS: u32 = 128;

/// The name of a record that is being written: `.name.tmp-process-number`.
pub open spec fn temporary_record_name(name: Seq<u8>, process: u32, sequence: u64) -> Seq<u8> {
    seq![0x2eu8] + name + encode_utf8(".tmp-"@) + digits_of(process as nat) + seq![0x2du8]
        + digits_of(sequence as nat)
}

/// The name of a record that is being written.
pub fn temporary_name(final_name: &str, process: u32, sequence: u64) -> (name: Vec<u8>)
    ensures
        name@ == temporary_record_name(encode_utf8(final_name@), process, sequence),
{
    let mut name: Vec<u8> = vec![0x2eu8];
    assert(name@ =~= seq![0x2eu8]);
    append(&mut name, final_name.as_bytes());
    append(&mut name, ".tmp-".as_bytes());
    append(&mut name, decimal_bytes(process as u64).as_slice());
    name.push(0x2d);
    append(&mut name, decimal_bytes(sequence).as_slice());
    assert(name@ =~= temporary_record_name(encode_utf8(final_name@), process, sequence));
    name
}

/// What became of the file that is being written: its mode set, its bytes
/// written and made durable, and what is seen of it.
#[derive(Debug)]
pub struct WriteProbe {
    pub chmod: Result<(), IoFault>,
    pub written: Result<(), IoFault>,
    pub synced: bool,
    pub stat: Result<FileStat, IoFault>,
    pub acl: Result<(), CertificationError>,
    pub euid: u32,
}

/// Why a written file does not get its name.
pub open spec fn write_fault(temporary: Seq<u8>, boundary: Seq<char>, probe: WriteProbe) -> Option<
    ActivationFault,
> {
    match (probe.chmod, probe.written) {
        (Err(fault), _) => Some(ActivationFault::Io { path: temporary, fault }),
        (Ok(_), Err(fault)) => Some(ActivationFault::Io { path: temporary, fault }),
        (Ok(_), Ok(_)) => if !probe.synced {
            Some(ActivationFault::SyncUncertain(boundary))
        } else {
            match record_fault(probe.stat, probe.acl, probe.euid) {
                Some(error) => Some(validation_refusal(temporary, error)),
                None => None,
            }
        },
    }
}

/// Requires that a written file may get its name.
pub fn check_written(temporary: Vec<u8>, boundary: &'static str, probe: WriteProbe) -> (outcome:
    Result<(), StoreActivationError>)
    ensures
        refused_as(outcome, write_fault(temporary@, boundary@, probe)),
{
    match probe.chmod {
        Ok(_) => {},
        Err(fault) => {
            return Err(StoreActivationError::Io { path: temporary, fault });
        },
    }
    match probe.written {
        Ok(_) => {},
        Err(fault) => {
            return Err(StoreActivationError::Io { path: temporary, fault });
        },
    }
    if !probe.synced {
        return Err(StoreActivationError::SyncUncertain(boundary));
    }
    match validate_record_fd(probe.stat, probe.acl, probe.euid) {
        Ok(_) => Ok(()),
        Err(error) => Err(store_error_from_record_validation(temporary, error)),
    }
}

/// Something may not be durable.
pub open spec fn sync_fault(synced: bool, boundary: Seq<char>) -> Option<ActivationFault> {
    if synced {
        None
    } else {
        Some(ActivationFault::SyncUncertain(boundary))
    }
}

/// Requires that something was made durable.
pub fn require_synced(synced: bool, boundary: &'static str) -> (outcome: Result<
    (),
    StoreActivationError,
>)
    ensures
        refused_as(outcome, sync_fault(synced, boundary@)),
{
    if synced {
        Ok(())
    } else {
        Err(StoreActivationError::SyncUncertain(boundary))
    }
}

/// What is done next with a record that is being published.
#[derive(Clone, Copy, Debug, PartialEq, Eq, Structural)]
pub enum RecordStage {
    /// A file is made under a name that nothing has.
    Open,
    /// It is written, and made durable.
    Write,
    /// It is given the name of the record.
    Name,
    /// The directory is made durable.
    Sync,
    /// Nothing: the record stands.
    Published,
}

/// The publication of a record.
#[derive(Debug)]
pub struct RecordPublication {
    directory: Vec<u8>,
    name: Vec<u8>,
    boundary: &'static str,
    attempts: u32,
    temporary: Vec<u8>,
    stage: RecordStage,
}

/// The publication of a record: where it is to stand, how the boundary is called
/// that it is to be durable at, how many names were tried, and the file that is
/// being written.
#[verifier::ext_equal]
pub struct PublicationView {
    pub directory: Seq<u8>,
    pub name: Seq<u8>,
    pub boundary: Seq<char>,
    pub attempts: u32,
    pub temporary: Seq<u8>,
    pub stage: RecordStage,
}

impl View for RecordPublication {
    type V = PublicationView;

    closed spec fn view(&self) -> PublicationView {
        PublicationView {
            directory: self.directory@,
            name: self.name@,
            boundary: self.boundary@,
            attempts: self.attempts,
            temporary: self.temporary@,
            stage: self.stage,
        }
    }
}

/// Why no file could be made under a name.
pub open spec fn attempt_fault(
    publication: PublicationView,
    name: Seq<u8>,
    made: Result<(), IoFault>,
) -> Option<ActivationFault> {
    match made {
        Ok(_) => None,
        Err(IoFault::Exists) => if publication.attempts + 1 < TEMPORARY_NAME_ATTEMPTS {
            None
        } else {
            Some(
                ActivationFault::Io {
                    path: publication.directory,
                    fault: IoFault::Other("activation temporary names are exhausted"),
                },
            )
        },
        Err(fault) => Some(
            ActivationFault::Io { path: pushed(publication.directory, name), fault },
        ),
    }
}

/// The publication after one more name was tried.
pub open spec fn after_attempt(
    publication: PublicationView,
    name: Seq<u8>,
    made: Result<(), IoFault>,
) -> PublicationView {
    let attempts = (publication.attempts + 1) as u32;
    if made is Ok {
        PublicationView {
            attempts,
            temporary: pushed(publication.directory, name),
            stage: RecordStage::Write,
            ..publication
        }
    } else {
        PublicationView { attempts, ..publication }
    }
}

impl RecordPublication {
    /// Begins to publish a record. One that stands there already only has to be
    /// made durable.
    pub fn begin(
        existing: Result<Vec<u8>, RecordReadError>,
        directory: &[u8],
        final_name: &str,
        bytes: &[u8],
        boundary: &'static str,
    ) -> (publication: Result<Self, StoreActivationError>)
        ensures
            refused_as(publication, publication_fault(existing, bytes@)),
            publication matches Ok(begun) ==> begun@ == (PublicationView {
                directory: directory@,
                name: encode_utf8(final_name@),
                boundary: boundary@,
                attempts: 0,
                temporary: Seq::empty(),
                stage: if is_missing(existing) {
                    RecordStage::Open
                } else {
                    RecordStage::Sync
                },
            }),
    {
        let stage = match begin_publication(existing, bytes)? {
            PublicationStart::Write => RecordStage::Open,
            PublicationStart::AlreadyThere => RecordStage::Sync,
        };
        let publication = RecordPublication {
            directory: to_vec(directory),
            name: to_vec(final_name.as_bytes()),
            boundary,
            attempts: 0,
            temporary: Vec::new(),
            stage,
        };
        assert(publication@.temporary =~= Seq::<u8>::empty());
        Ok(publication)
    }

    /// What is done next.
    pub fn next(&self) -> (stage: RecordStage)
        ensures
            stage == self@.stage,
    {
        self.stage
    }

    /// Takes what became of the attempt to make a file of that name. Where
    /// something has the name, the next is tried.
    pub fn opened(&mut self, name: &[u8], made: Result<(), IoFault>) -> (outcome: Result<
        (),
        StoreActivationError,
    >)
        requires
            old(self)@.stage == RecordStage::Open,
            old(self)@.attempts < TEMPORARY_NAME_ATTEMPTS,
        ensures
            refused_as(outcome, attempt_fault(old(self)@, name@, made)),
            final(self)@ == after_attempt(old(self)@, name@, made),
    {
        self.attempts = self.attempts + 1;
        match made {
            Ok(_) => {
                self.temporary = push_path(self.directory.as_slice(), name);
                self.stage = RecordStage::Write;
                Ok(())
            },
            Err(IoFault::Exists) => if self.attempts < TEMPORARY_NAME_ATTEMPTS {
                Ok(())
            } else {
                Err(
                    StoreActivationError::Io {
                        path: to_vec(self.directory.as_slice()),
                        fault: IoFault::Other("activation temporary names are exhausted"),
                    },
                )
            },
            Err(fault) => Err(
                StoreActivationError::Io {
                    path: push_path(self.directory.as_slice(), name),
                    fault,
                },
            ),
        }
    }

    /// Takes what became of the file that was written.
    pub fn written(&mut self, probe: WriteProbe) -> (outcome: Result<(), StoreActivationError>)
        requires
            old(self)@.stage == RecordStage::Write,
        ensures
            refused_as(outcome, write_fault(old(self)@.temporary, old(self)@.boundary, probe)),
            final(self)@ == if outcome is Ok {
                PublicationView { stage: RecordStage::Name, ..old(self)@ }
            } else {
                old(self)@
            },
    {
        check_written(to_vec(self.temporary.as_slice()), self.boundary, probe)?;
        self.stage = RecordStage::Name;
        Ok(())
    }

    /// Takes what became of the attempt to give the file the name of the record.
    pub fn named(&mut self, renamed: Result<(), IoFault>) -> (outcome: Result<
        (),
        StoreActivationError,
    >)
        requires
            old(self)@.stage == RecordStage::Name,
        ensures
            refused_as(
                outcome,
                match renamed {
                    Ok(_) => None,
                    Err(fault) => Some(
                        ActivationFault::Io {
                            path: pushed(old(self)@.directory, old(self)@.name),
                            fault,
                        },
                    ),
                },
            ),
            final(self)@ == if outcome is Ok {
                PublicationView { stage: RecordStage::Sync, ..old(self)@ }
            } else {
                old(self)@
            },
    {
        match renamed {
            Ok(_) => {
                self.stage = RecordStage::Sync;
                Ok(())
            },
            Err(fault) => Err(
                StoreActivationError::Io {
                    path: push_path(self.directory.as_slice(), self.name.as_slice()),
                    fault,
                },
            ),
        }
    }

    /// Takes whether the directory was made durable.
    pub fn synced(&mut self, synced: bool) -> (outcome: Result<(), StoreActivationError>)
        requires
            old(self)@.stage == RecordStage::Sync,
        ensures
            refused_as(outcome, sync_fault(synced, old(self)@.boundary)),
            final(self)@ == if outcome is Ok {
                PublicationView { stage: RecordStage::Published, ..old(self)@ }
            } else {
                old(self)@
            },
    {
        require_synced(synced, self.boundary)?;
        self.stage = RecordStage::Published;
        Ok(())
    }
}

/// The file was written: it is its owner's alone, and durable.
pub open spec fn is_written_out(before: PublicationView, after: PublicationView) -> bool {
    &&& before.stage == RecordStage::Write
    &&& after == (PublicationView { stage: RecordStage::Name, ..before })
    &&& exists|probe: WriteProbe|
        #![trigger write_fault(before.temporary, before.boundary, probe)]
        write_fault(before.temporary, before.boundary, probe) is None && probe.synced
}

/// The state follows on the one before it.
pub open spec fn record_follows(states: Seq<PublicationView>, k: int) -> bool {
    let (before, after) = (states[k - 1], states[k]);
    match before.stage {
        RecordStage::Open => exists|name: Seq<u8>, made: Result<(), IoFault>|
            #![trigger attempt_fault(before, name, made)]
            attempt_fault(before, name, made) is None && after == after_attempt(
                before,
                name,
                made,
            ),
        RecordStage::Write => is_written_out(before, after),
        RecordStage::Name => after == (PublicationView { stage: RecordStage::Sync, ..before }),
        RecordStage::Sync => after == (PublicationView { stage: RecordStage::Published, ..before }),
        RecordStage::Published => false,
    }
}

/// The states of a publication while every step succeeds.
pub open spec fn is_publication(states: Seq<PublicationView>) -> bool {
    &&& states.len() > 0
    &&& states[0].stage == RecordStage::Open || states[0].stage == RecordStage::Sync
    &&& forall|k: int| 0 < k < states.len() ==> #[trigger] record_follows(states, k)
}

/// A record gets its name only once it was written and made durable, and it is
/// published only once that name was made durable too.
pub proof fn law_records_are_named_once_durable(states: Seq<PublicationView>, k: int)
    requires
        is_publication(states),
        0 <= k < states.len(),
    ensures
        states[k].stage == RecordStage::Name ==> k > 0 && is_written_out(states[k - 1], states[k]),
        states[k].stage == RecordStage::Published && states[0].stage == RecordStage::Open ==> k > 2
            && states[k - 1].stage == RecordStage::Sync && states[k - 2].stage == RecordStage::Name
            && is_written_out(states[k - 3], states[k - 2]),
{
    if k > 0 {
        assert(record_follows(states, k));
    }
    if k > 1 {
        assert(record_follows(states, k - 1));
    }
    if k > 2 {
        assert(record_follows(states, k - 2));
    }
}

/// What is published stays: publishing the same bytes again changes nothing,
/// and other bytes are never written over it.
pub proof fn law_published_records_stay(found: Vec<u8>, bytes: Seq<u8>)
    ensures
        publication_fault(Ok(found), bytes) is None <==> found@ == bytes,
        !is_missing(Ok(found)),
{
}

/// A record is what it has to be exactly where it is a regular file with one
/// name, private to whom the process acts for, and has no access control list.
pub proof fn law_records_are_private(
    stat: Result<FileStat, IoFault>,
    acl: Result<(), CertificationError>,
    euid: u32,
)
    ensures
        record_fault(stat, acl, euid) is None <==> acl is Ok && (stat matches Ok(seen)
            && seen.class == FileClass::Regular && seen.uid == euid && seen.mode & 0o7777 == 0o600
            && seen.links == 1),
{
}

/// The opened record is the one under its name exactly where both are the same
/// file on the same device, and the name is that of a regular file.
pub proof fn law_records_stand_under_their_names(
    opened: Result<FileStat, IoFault>,
    entry: Result<FileStat, IoFault>,
)
    ensures
        record_binding_fault(opened, entry) is None <==> (opened matches Ok(file) && (
        entry matches Ok(named) && named.device == file.device && named.inode == file.inode
            && named.class == FileClass::Regular)),
{
}

/// A record is read exactly where it could be opened, is what it has to be, could
/// be read, is no longer than a record may be, and stands under its name still
/// once it was read.
pub proof fn law_only_sound_records_are_read(path: Seq<u8>, probe: RecordProbe)
    ensures
        read_fault(path, probe) is None <==> {
            &&& probe.opened is Ok
            &&& probe.acl is Ok
            &&& probe.stat matches Ok(seen) && seen.class == FileClass::Regular && seen.uid
                == probe.euid && seen.mode & 0o7777 == 0o600 && seen.links == 1
            &&& probe.bytes matches Ok(bytes) && bytes@.len() <= MAX_RECORD_BYTES
            &&& probe.stat_again matches Ok(again) && (probe.entry matches Ok(named)
                && named.device == again.device && named.inode == again.inode && named.class
                == FileClass::Regular)
        },
        read_fault(path, probe) matches Some(ReadFault::Io(_, IoFault::NotFound)) ==> (probe.opened
            is Err || probe.stat is Err || probe.bytes is Err || probe.stat_again is Err
            || probe.entry is Err),
{
}

/// A record is published only where none stands, or where exactly this one does.
pub proof fn law_nothing_is_published_over(
    existing: Result<Vec<u8>, RecordReadError>,
    bytes: Seq<u8>,
)
    ensures
        publication_fault(existing, bytes) is None <==> (existing matches Err(
            RecordReadError::Io(_, IoFault::NotFound),
        )) || (existing matches Ok(found) && found@ == bytes),
{
}

} // verus!
