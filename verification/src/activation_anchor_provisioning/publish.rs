//! Making one directory on the way to an anchor.
//!
//! A directory that is missing is made under a name that nothing has, brought
//! into shape and made durable, and only then given its own. Whatever was made
//! and did not get there is removed again, if it still is what was made.

use crate::activation::error::IoFault;
use crate::activation::publication::FileClass;
use crate::activation::publication::FileStat;
use crate::activation_anchor_provisioning::checks::binding_fault;
use crate::activation_anchor_provisioning::checks::binding_matches;
use crate::activation_anchor_provisioning::checks::directory_fault;
use crate::activation_anchor_provisioning::checks::entry_fault;
use crate::activation_anchor_provisioning::checks::opening_fault;
use crate::activation_anchor_provisioning::checks::require_opened;
use crate::activation_anchor_provisioning::checks::validate_binding;
use crate::activation_anchor_provisioning::checks::validate_directory;
use crate::activation_anchor_provisioning::checks::DirectoryKind;
use crate::activation_anchor_provisioning::checks::DirectoryProbe;
use crate::activation_anchor_provisioning::checks::EntryProbe;
use crate::activation_anchor_provisioning::checks::LEAF_MODE;
use crate::activation_anchor_provisioning::checks::PRIVATE_LOCK_MODE;
use crate::activation_anchor_provisioning::checks::PUBLIC_MODE;
use crate::activation_anchor_provisioning::error::first_of;
use crate::activation_anchor_provisioning::error::leaves_residue;
use crate::activation_anchor_provisioning::error::one_path;
use crate::activation_anchor_provisioning::error::residue_fault;
use crate::activation_anchor_provisioning::error::unprovisioned_for;
use crate::activation_anchor_provisioning::error::ActivationAnchorProvisioningError;
use crate::activation_anchor_provisioning::error::CauseView;
use crate::activation_anchor_provisioning::error::FailureCause;
use crate::activation_anchor_provisioning::error::ProvisionFault;
use crate::activation_anchor_provisioning::walk::SettledDirectory;
use crate::backend::certify::CertificationError;
use crate::backend::certify::CertifiedLocalBackend;
use crate::backend::held::inventory::StrongObjectIdentity;
use crate::bytes::to_vec;
use crate::paths::components;
use crate::paths::enclosing;
use crate::paths::enclosing_directory;
use crate::paths::lemma_enclosing;
use crate::paths::path_components;
use crate::paths::push_path;
use crate::paths::pushed;
use crate::paths::PathPart;
use crate::paths::SLASH;
use crate::random::random_bytes;
use vstd::prelude::*;
use vstd::utf8::encode_utf8;

verus! {

/// A directory that is to be there: where, whose, and what for.
#[derive(Debug)]
pub struct DirectoryRequest {
    pub path: Vec<u8>,
    pub owner: u32,
    pub kind: DirectoryKind,
}

/// The content of a [`DirectoryRequest`].
#[verifier::ext_equal]
pub struct RequestView {
    pub path: Seq<u8>,
    pub owner: u32,
    pub kind: DirectoryKind,
}

impl View for DirectoryRequest {
    type V = RequestView;

    open spec fn view(&self) -> RequestView {
        RequestView { path: self.path@, owner: self.owner, kind: self.kind }
    }
}

/// The path ends in the name of an entry.
pub open spec fn ends_in_name(path: Seq<u8>) -> bool {
    components(path).len() > 0 && components(path).last() is Normal
}

/// `path` with another name in place of its last one, or behind it where it ends
/// in none.
pub open spec fn beside(path: Seq<u8>, name: Seq<u8>) -> Seq<u8> {
    if ends_in_name(path) {
        pushed(enclosing(path)->0, name)
    } else {
        pushed(path, name)
    }
}

fn path_beside(path: &[u8], name: &[u8]) -> (other: Vec<u8>)
    ensures
        other@ == beside(path@, name@),
{
    let parts = path_components(path);
    let ghost list = components(path@);
    assert(parts@.len() > 0 ==> list.last() == parts@.last()@);
    if parts.len() > 0 && matches!(parts[parts.len() - 1], PathPart::Normal(_)) {
        proof {
            lemma_enclosing(path@);
        }
        match enclosing_directory(path) {
            Some(directory) => push_path(directory.as_slice(), name),
            None => to_vec(name),
        }
    } else {
        push_path(path, name)
    }
}

/// The directory above `path`.
pub open spec fn above(path: Seq<u8>) -> Seq<u8> {
    match enclosing(path) {
        Some(directory) => directory,
        None => seq![SLASH],
    }
}

fn directory_above(path: &[u8]) -> (directory: Vec<u8>)
    ensures
        directory@ == above(path@),
{
    match enclosing_directory(path) {
        Some(directory) => directory,
        None => {
            let root = vec![SLASH];
            assert(root@ =~= seq![SLASH]);
            root
        },
    }
}

/// What is seen of a directory that is looked for by its name.
#[derive(Clone, Copy, Debug, PartialEq, Eq)]
pub struct FoundProbe {
    pub opened: Result<(), IoFault>,
    pub directory: DirectoryProbe,
    pub entry: EntryProbe,
}

/// Why a directory that is there is not taken.
pub open spec fn found_fault(request: RequestView, probe: FoundProbe) -> Option<ProvisionFault> {
    first_of(
        opening_fault(request.path, probe.opened),
        first_of(
            directory_fault(request.path, request.owner, request.kind, probe.directory),
            binding_fault(request.path, probe.directory.identity->0, probe.entry),
        ),
    )
}

/// The directory that was seen is there now, made or found.
pub open spec fn is_taken(
    settled: SettledDirectory,
    seen: DirectoryProbe,
    created: bool,
) -> bool {
    &&& seen.identity == Some(settled.directory.identity)
    &&& seen.backend == Ok::<CertifiedLocalBackend, CertificationError>(settled.directory.backend)
    &&& settled.created == created
}

/// Takes a directory that has to be there.
pub fn take_directory(request: &DirectoryRequest, probe: FoundProbe) -> (found: Result<
    SettledDirectory,
    ActivationAnchorProvisioningError,
>)
    ensures
        unprovisioned_for(found, found_fault(request@, probe)),
        found matches Ok(settled) ==> is_taken(settled, probe.directory, false),
{
    let path = request.path.as_slice();
    require_opened(path, probe.opened)?;
    let directory = validate_directory(path, request.owner, request.kind, probe.directory)?;
    validate_binding(path, directory.identity, probe.entry)?;
    Ok(SettledDirectory { directory, created: false })
}

/// Takes the directory that everything lies in. It has no name to go by.
pub fn take_root(request: &DirectoryRequest, probe: DirectoryProbe) -> (root: Result<
    SettledDirectory,
    ActivationAnchorProvisioningError,
>)
    ensures
        unprovisioned_for(
            root,
            directory_fault(request@.path, request@.owner, request@.kind, probe),
        ),
        root matches Ok(settled) ==> is_taken(settled, probe, false),
{
    let directory = validate_directory(
        request.path.as_slice(),
        request.owner,
        request.kind,
        probe,
    )?;
    Ok(SettledDirectory { directory, created: false })
}

/// Takes a directory that is there; gives nothing where it has to be made.
pub fn find_directory(request: &DirectoryRequest, probe: FoundProbe) -> (found: Result<
    Option<SettledDirectory>,
    ActivationAnchorProvisioningError,
>)
    ensures
        match probe.opened {
            Err(IoFault::NotFound) => found matches Ok(None),
            _ => unprovisioned_for(found, found_fault(request@, probe)) && (found matches Ok(
                taken,
            ) ==> (taken matches Some(settled) && is_taken(settled, probe.directory, false))),
        },
{
    match probe.opened {
        Err(IoFault::NotFound) => {
            return Ok(None);
        },
        _ => {},
    }
    Ok(Some(take_directory(request, probe)?))
}

/// The hexadecimal digit of a number below sixteen.
pub open spec fn hex_digit(value: u8) -> u8 {
    if value < 10 {
        (0x30 + value) as u8
    } else {
        (0x61 + value - 10) as u8
    }
}

/// The hexadecimal digits of bytes.
pub open spec fn hex(bytes: Seq<u8>) -> Seq<u8>
    decreases bytes.len(),
{
    if bytes.len() == 0 {
        Seq::empty()
    } else {
        hex(bytes.drop_last()).push(hex_digit((bytes.last() / 16) as u8)).push(
            hex_digit((bytes.last() % 16) as u8),
        )
    }
}

fn digit(value: u8) -> (byte: u8)
    requires
        value < 16,
    ensures
        byte == hex_digit(value),
{
    if value < 10 {
        0x30 + value
    } else {
        0x61 + (value - 10)
    }
}

/// The name of a directory that is being made, for the bytes that were drawn.
pub open spec fn initializer_name(drawn: Seq<u8>) -> Seq<u8> {
    encode_utf8(".degu-anchor-initializing-"@) + hex(drawn)
}

/// The name of a directory that is being made, for the bytes that were drawn.
pub fn name_initializer(drawn: &[u8]) -> (name: Vec<u8>)
    ensures
        name@ == initializer_name(drawn@),
{
    let mut name = to_vec(".degu-anchor-initializing-".as_bytes());
    let ghost start = name@;
    let mut i: usize = 0;
    proof {
        assert(drawn@.take(0) =~= Seq::<u8>::empty());
        assert(name@ =~= start + hex(drawn@.take(0)));
    }
    while i < drawn.len()
        invariant
            i <= drawn@.len(),
            name@ == start + hex(drawn@.take(i as int)),
        decreases drawn@.len() - i,
    {
        let byte: u8 = drawn[i];
        name.push(digit(byte / 16));
        name.push(digit(byte % 16));
        proof {
            let longer = drawn@.take(i + 1);
            assert(longer.drop_last() =~= drawn@.take(i as int));
            assert(longer.last() == byte);
            assert(name@ =~= start + hex(longer));
        }
        i += 1;
    }
    assert(drawn@.take(i as int) =~= drawn@);
    name
}

/// Why no name was drawn.
pub open spec fn unnamed_fault(source: getrandom::Error) -> ProvisionFault {
    ProvisionFault::Io {
        path: encode_utf8("platform random source"@),
        fault: IoFault::Random(source),
    }
}

/// Draws a name for a directory that is being made. Of the name it is stated
/// that it is the one for some sixteen bytes, and of an error that it is what
/// the random number source came to.
pub fn private_temp_name() -> (name: Result<Vec<u8>, ActivationAnchorProvisioningError>)
    ensures
        match name {
            Ok(found) => exists|drawn: Seq<u8>|
                drawn.len() == 16 && found@ == #[trigger] initializer_name(drawn),
            Err(error) => exists|source: getrandom::Error|
                error@ == #[trigger] unnamed_fault(source),
        },
{
    match random_bytes(16) {
        Ok(drawn) => Ok(name_initializer(drawn.as_slice())),
        Err(source) => {
            let error = ActivationAnchorProvisioningError::Io {
                path: to_vec("platform random source".as_bytes()),
                fault: IoFault::Random(source),
            };
            assert(error@ == unnamed_fault(source));
            Err(error)
        },
    }
}

/// How far a directory that is being made has come.
#[derive(Clone, Copy, Debug, PartialEq, Eq, Structural)]
pub enum InitializerStage {
    /// It was made.
    Made,
    /// The name that was drawn for it leads to it.
    Born,
    /// It may get its name.
    Initialized,
    /// It got its name.
    Published,
    /// Something else has the name.
    Adopting,
}

/// A directory that is being made, under the name that was drawn for it. It gets
/// its own name only once it is all that it is to be, and durable.
#[derive(Debug)]
pub struct Initializer {
    request: DirectoryRequest,
    temp_path: Vec<u8>,
    identity: StrongObjectIdentity,
    stage: InitializerStage,
}

/// Why a directory that was just made is not gone on with, and may be left.
pub open spec fn birth_fault(
    temp_path: Seq<u8>,
    made: Result<(), IoFault>,
    opened: Result<(), IoFault>,
    identity: Option<StrongObjectIdentity>,
) -> Option<ProvisionFault> {
    match made {
        Err(fault) => Some(ProvisionFault::Io { path: temp_path, fault }),
        Ok(_) => match opening_fault(temp_path, opened) {
            Some(fault) => Some(residue_fault(fault, seq![temp_path])),
            None => if identity is None {
                Some(
                    ProvisionFault::RollbackResidue {
                        failure: CauseView::Text(
                            "strong birth identity is unavailable for the private initializer"@,
                        ),
                        residue: seq![temp_path],
                    },
                )
            } else {
                None
            },
        },
    }
}

/// The mode that a directory is given.
pub open spec fn mode_of(kind: DirectoryKind) -> u32 {
    match kind {
        DirectoryKind::Public => PUBLIC_MODE,
        DirectoryKind::PrivateLock => PRIVATE_LOCK_MODE,
        _ => LEAF_MODE,
    }
}

/// What became of a directory that is being made: its mode and, for an anchor,
/// its owner set; what is seen of it; and whether it and the directory above are
/// durable.
#[derive(Clone, Copy, Debug, PartialEq, Eq)]
pub struct InitializedProbe {
    pub chmod: Result<(), IoFault>,
    pub chown: Result<(), IoFault>,
    pub directory: DirectoryProbe,
    pub entry: EntryProbe,
    pub synced: Result<(), IoFault>,
    pub parent_synced: Result<(), IoFault>,
}

/// A file system call that failed at `path`.
pub open spec fn call_fault(path: Seq<u8>, outcome: Result<(), IoFault>) -> Option<ProvisionFault> {
    match outcome {
        Ok(_) => None,
        Err(fault) => Some(ProvisionFault::Io { path, fault }),
    }
}

fn require_call(path: &[u8], outcome: Result<(), IoFault>) -> (checked: Result<
    (),
    ActivationAnchorProvisioningError,
>)
    ensures
        unprovisioned_for(checked, call_fault(path@, outcome)),
{
    match outcome {
        Ok(_) => Ok(()),
        Err(fault) => Err(ActivationAnchorProvisioningError::Io { path: to_vec(path), fault }),
    }
}

/// Why a directory that is being made does not get its name.
pub open spec fn initialization_fault(
    request: RequestView,
    temp_path: Seq<u8>,
    identity: StrongObjectIdentity,
    probe: InitializedProbe,
) -> Option<ProvisionFault> {
    first_of(
        call_fault(temp_path, probe.chmod),
        first_of(
            if request.kind is Leaf {
                call_fault(temp_path, probe.chown)
            } else {
                None
            },
            first_of(
                directory_fault(temp_path, request.owner, request.kind, probe.directory),
                first_of(
                    binding_fault(temp_path, identity, probe.entry),
                    first_of(
                        call_fault(temp_path, probe.synced),
                        call_fault(above(request.path), probe.parent_synced),
                    ),
                ),
            ),
        ),
    )
}

/// What is seen of a directory that was given its name.
#[derive(Clone, Copy, Debug, PartialEq, Eq)]
pub struct PublishedProbe {
    pub parent_synced: Result<(), IoFault>,
    pub entry: EntryProbe,
    pub directory: DirectoryProbe,
}

/// Why a directory that was given its name is not taken.
pub open spec fn published_fault(
    request: RequestView,
    identity: StrongObjectIdentity,
    probe: PublishedProbe,
) -> Option<ProvisionFault> {
    first_of(
        call_fault(above(request.path), probe.parent_synced),
        first_of(
            binding_fault(request.path, identity, probe.entry),
            directory_fault(request.path, request.owner, request.kind, probe.directory),
        ),
    )
}

/// What follows once the directory was to be given its name.
#[derive(Clone, Copy, Debug, PartialEq, Eq, Structural)]
pub enum Naming {
    /// It was.
    Published,
    /// Something has the name by now: what was made is removed, and that is
    /// taken.
    Adopt,
}

impl Initializer {
    /// What is to be there.
    pub closed spec fn request(&self) -> RequestView {
        self.request@
    }

    /// Where it is being made.
    pub closed spec fn temp_path(&self) -> Seq<u8> {
        self.temp_path@
    }

    /// What was made.
    pub closed spec fn identity(&self) -> StrongObjectIdentity {
        self.identity
    }

    /// How far it has come.
    pub closed spec fn stage(&self) -> InitializerStage {
        self.stage
    }

    /// The same directory at another stage.
    pub open spec fn is_now(&self, before: &Self, stage: InitializerStage) -> bool {
        &&& self.request() == before.request()
        &&& self.temp_path() == before.temp_path()
        &&& self.identity() == before.identity()
        &&& self.stage() == stage
    }

    /// Goes on with a directory that was just made.
    pub fn begin(
        request: DirectoryRequest,
        temp_name: &[u8],
        made: Result<(), IoFault>,
        opened: Result<(), IoFault>,
        identity: Option<StrongObjectIdentity>,
    ) -> (initializer: Result<Self, ActivationAnchorProvisioningError>)
        ensures
            unprovisioned_for(
                initializer,
                birth_fault(beside(request.path@, temp_name@), made, opened, identity),
            ),
            initializer matches Ok(begun) ==> begun.request() == request@ && begun.temp_path()
                == beside(request.path@, temp_name@) && identity == Some(begun.identity())
                && begun.stage() == InitializerStage::Made,
    {
        let temp_path = path_beside(request.path.as_slice(), temp_name);
        require_call(temp_path.as_slice(), made)?;
        match require_opened(temp_path.as_slice(), opened) {
            Ok(_) => {},
            Err(error) => {
                return Err(leaves_residue(error, one_path(temp_path.as_slice())));
            },
        }
        match identity {
            Some(identity) => Ok(
                Initializer { request, temp_path, identity, stage: InitializerStage::Made },
            ),
            None => Err(
                ActivationAnchorProvisioningError::RollbackResidue {
                    failure: FailureCause::Text(
                        "strong birth identity is unavailable for the private initializer",
                    ),
                    residue: one_path(temp_path.as_slice()),
                },
            ),
        }
    }

    /// Where it is being made.
    pub fn temporary_path(&self) -> (path: &[u8])
        ensures
            path@ == self.temp_path(),
    {
        self.temp_path.as_slice()
    }

    /// The mode that it is given. What the system provides is never made.
    pub fn mode(&self) -> (mode: u32)
        requires
            !(self.request().kind is System),
        ensures
            mode == mode_of(self.request().kind),
    {
        match self.request.kind {
            DirectoryKind::Public => PUBLIC_MODE,
            DirectoryKind::PrivateLock => PRIVATE_LOCK_MODE,
            _ => LEAF_MODE,
        }
    }

    /// Requires that the name that was drawn leads to what was made.
    pub fn check_born(&mut self, entry: EntryProbe) -> (outcome: Result<
        (),
        ActivationAnchorProvisioningError,
    >)
        requires
            old(self).stage() == InitializerStage::Made,
        ensures
            unprovisioned_for(
                outcome,
                binding_fault(old(self).temp_path(), old(self).identity(), entry),
            ),
            final(self).is_now(
                old(self),
                if outcome is Ok {
                    InitializerStage::Born
                } else {
                    old(self).stage()
                },
            ),
    {
        validate_binding(self.temp_path.as_slice(), self.identity, entry)?;
        self.stage = InitializerStage::Born;
        Ok(())
    }

    /// Requires that it may get its name.
    pub fn check_initialized(&mut self, probe: InitializedProbe) -> (outcome: Result<
        (),
        ActivationAnchorProvisioningError,
    >)
        requires
            old(self).stage() == InitializerStage::Born,
        ensures
            unprovisioned_for(
                outcome,
                initialization_fault(
                    old(self).request(),
                    old(self).temp_path(),
                    old(self).identity(),
                    probe,
                ),
            ),
            final(self).is_now(
                old(self),
                if outcome is Ok {
                    InitializerStage::Initialized
                } else {
                    old(self).stage()
                },
            ),
    {
        let temp = self.temp_path.as_slice();
        require_call(temp, probe.chmod)?;
        match self.request.kind {
            DirectoryKind::Leaf(_) => require_call(temp, probe.chown)?,
            _ => {},
        }
        validate_directory(temp, self.request.owner, self.request.kind, probe.directory)?;
        validate_binding(temp, self.identity, probe.entry)?;
        require_call(temp, probe.synced)?;
        require_call(
            directory_above(self.request.path.as_slice()).as_slice(),
            probe.parent_synced,
        )?;
        self.stage = InitializerStage::Initialized;
        Ok(())
    }

    /// Decides what follows once it was to be given its name.
    pub fn named(&mut self, renamed: Result<(), IoFault>) -> (naming: Result<
        Naming,
        ActivationAnchorProvisioningError,
    >)
        requires
            old(self).stage() == InitializerStage::Initialized,
        ensures
            match renamed {
                Ok(_) => naming == Ok::<Naming, ActivationAnchorProvisioningError>(
                    Naming::Published,
                ),
                Err(IoFault::Exists) => naming == Ok::<Naming, ActivationAnchorProvisioningError>(
                    Naming::Adopt,
                ),
                Err(fault) => naming matches Err(error) && error@ == (ProvisionFault::Io {
                    path: old(self).request().path,
                    fault,
                }),
            },
            final(self).is_now(
                old(self),
                match naming {
                    Ok(Naming::Published) => InitializerStage::Published,
                    Ok(Naming::Adopt) => InitializerStage::Adopting,
                    Err(_) => old(self).stage(),
                },
            ),
    {
        match renamed {
            Ok(_) => {
                self.stage = InitializerStage::Published;
                Ok(Naming::Published)
            },
            Err(IoFault::Exists) => {
                self.stage = InitializerStage::Adopting;
                Ok(Naming::Adopt)
            },
            Err(fault) => Err(
                ActivationAnchorProvisioningError::Io {
                    path: to_vec(self.request.path.as_slice()),
                    fault,
                },
            ),
        }
    }

    /// Takes it, once it was given its name.
    pub fn check_published(&self, probe: PublishedProbe) -> (published: Result<
        SettledDirectory,
        ActivationAnchorProvisioningError,
    >)
        requires
            self.stage() == InitializerStage::Published,
        ensures
            unprovisioned_for(
                published,
                published_fault(self.request(), self.identity(), probe),
            ),
            published matches Ok(settled) ==> is_taken(settled, probe.directory, true),
    {
        let path = self.request.path.as_slice();
        require_call(directory_above(path).as_slice(), probe.parent_synced)?;
        validate_binding(path, self.identity, probe.entry)?;
        let directory = validate_directory(
            path,
            self.request.owner,
            self.request.kind,
            probe.directory,
        )?;
        Ok(SettledDirectory { directory, created: true })
    }

    /// Takes what has the name, once what was made is gone.
    pub fn adopt(
        &self,
        removed: Result<(), ActivationAnchorProvisioningError>,
        probe: FoundProbe,
    ) -> (adopted: Result<SettledDirectory, ActivationAnchorProvisioningError>)
        requires
            self.stage() == InitializerStage::Adopting,
        ensures
            unprovisioned_for(
                adopted,
                match removed {
                    Err(error) => Some(error@),
                    Ok(_) => found_fault(self.request(), probe),
                },
            ),
            adopted matches Ok(settled) ==> is_taken(settled, probe.directory, false),
    {
        removed?;
        take_directory(&self.request, probe)
    }
}

/// What is left to say of a failure once it was tried to remove what was made.
pub fn cleanup_after_failure(
    path: &[u8],
    removed: bool,
    failure: ActivationAnchorProvisioningError,
) -> (error: ActivationAnchorProvisioningError)
    ensures
        error@ == if removed {
            failure@
        } else {
            residue_fault(failure@, seq![path@])
        },
{
    if removed {
        failure
    } else {
        leaves_residue(failure, one_path(path))
    }
}

/// Why something is not removed: it is not what was made any more.
pub open spec fn removal_fault(
    path: Seq<u8>,
    identity: StrongObjectIdentity,
    opened: Result<(), IoFault>,
    entry: EntryProbe,
) -> Option<ProvisionFault> {
    match opening_fault(path, opened) {
        Some(fault) => Some(fault),
        None => if entry.identity != Some(identity) {
            Some(
                ProvisionFault::Unsafe {
                    path,
                    reason:
                        "refusing to remove an initializer whose identity or binding changed"@,
                },
            )
        } else {
            entry_fault(
                path,
                identity,
                entry,
                "refusing to remove an initializer whose identity or binding changed"@,
            )
        },
    }
}

/// Requires that something still is what was made, before it is removed.
pub fn may_remove(
    path: &[u8],
    identity: StrongObjectIdentity,
    opened: Result<(), IoFault>,
    entry: EntryProbe,
) -> (outcome: Result<(), ActivationAnchorProvisioningError>)
    ensures
        unprovisioned_for(outcome, removal_fault(path@, identity, opened, entry)),
{
    require_opened(path, opened)?;
    let same = match entry.identity {
        Some(found) => found == identity,
        None => false,
    };
    if same {
        match binding_matches(&entry) {
            Err(fault) => {
                return Err(ActivationAnchorProvisioningError::Io { path: to_vec(path), fault });
            },
            Ok(matches) => {
                if matches {
                    return Ok(());
                }
            },
        }
    }
    Err(
        ActivationAnchorProvisioningError::Unsafe {
            path: to_vec(path),
            reason: "refusing to remove an initializer whose identity or binding changed",
        },
    )
}

/// Requires that something was removed, and durably so.
pub fn check_removed(
    path: &[u8],
    unlinked: Result<(), IoFault>,
    parent_synced: Result<(), IoFault>,
) -> (outcome: Result<(), ActivationAnchorProvisioningError>)
    ensures
        unprovisioned_for(
            outcome,
            first_of(call_fault(path@, unlinked), call_fault(above(path@), parent_synced)),
        ),
{
    require_call(path, unlinked)?;
    require_call(directory_above(path).as_slice(), parent_synced)
}

/// What is removed is what was made, and nothing else.
pub proof fn law_only_what_was_made_is_removed(
    path: Seq<u8>,
    identity: StrongObjectIdentity,
    opened: Result<(), IoFault>,
    entry: EntryProbe,
)
    requires
        removal_fault(path, identity, opened, entry) is None,
    ensures
        entry.identity == Some(identity),
        entry.entry matches Ok(named) && (entry.opened matches Ok(held) && named.device
            == held.device && named.inode == held.inode),
{
}

/// A directory that is there is taken exactly where it could be opened, passes as
/// what it is to be, and is what stands under its name.
pub proof fn law_found_directories_are_sound(request: RequestView, probe: FoundProbe)
    ensures
        found_fault(request, probe) is None <==> probe.opened is Ok && directory_fault(
            request.path,
            request.owner,
            request.kind,
            probe.directory,
        ) is None && (probe.entry.entry matches Ok(named) && (probe.entry.opened matches Ok(held)
            && named.class == FileClass::Directory && named.device == held.device && named.inode
            == held.inode)) && probe.entry.identity == probe.directory.identity,
{
    if probe.directory.identity is None {
        assert(found_fault(request, probe) is Some);
    }
}

/// What is made is made with a mode that lets nobody but its owner change it, and
/// that it passes with.
pub proof fn law_made_modes_pass(
    path: Seq<u8>,
    owner: u32,
    kind: DirectoryKind,
    probe: DirectoryProbe,
    stat: FileStat,
)
    requires
        kind != DirectoryKind::System,
        probe.stat == Ok::<FileStat, IoFault>(stat),
        stat.class == FileClass::Directory,
        stat.uid == owner,
        stat.mode == mode_of(kind),
        probe.acl is Ok,
        probe.backend is Ok,
        probe.identity is Some,
        probe.held is Ok,
    ensures
        directory_fault(path, owner, kind, probe) is None,
        mode_of(kind) & 0o022 == 0,
        mode_of(kind) & 0o700 == 0o700,
        kind is Leaf || kind is PrivateLock ==> mode_of(kind) & 0o077 == 0,
{
    assert(0o755u32 & 0o7777 == 0o755 && 0o700u32 & 0o7777 == 0o700 && 0o755u32 & 0o022 == 0
        && 0o700u32 & 0o022 == 0 && 0o755u32 & 0o700 == 0o700 && 0o700u32 & 0o700 == 0o700
        && 0o700u32 & 0o077 == 0) by (bit_vector);
}

/// What is being made goes on only where it was made, could be opened and has a
/// strong identity.
pub proof fn law_births_are_complete(
    temp_path: Seq<u8>,
    made: Result<(), IoFault>,
    opened: Result<(), IoFault>,
    identity: Option<StrongObjectIdentity>,
)
    ensures
        birth_fault(temp_path, made, opened, identity) is None <==> made is Ok && opened is Ok
            && identity is Some,
{
}

/// A directory gets its name only once its mode and, for an anchor, its owner are
/// set, it passes as what it is to be, is still what was made, and is durable
/// with the directory that it lies in.
pub proof fn law_names_come_last(
    request: RequestView,
    temp_path: Seq<u8>,
    identity: StrongObjectIdentity,
    probe: InitializedProbe,
)
    ensures
        initialization_fault(request, temp_path, identity, probe) is None <==> {
            &&& probe.chmod is Ok
            &&& request.kind is Leaf ==> probe.chown is Ok
            &&& directory_fault(temp_path, request.owner, request.kind, probe.directory) is None
            &&& probe.entry.identity == Some(identity)
            &&& probe.entry.entry matches Ok(named) && (probe.entry.opened matches Ok(held)
                && named.class == FileClass::Directory && named.device == held.device
                && named.inode == held.inode)
            &&& probe.synced is Ok
            &&& probe.parent_synced is Ok
        },
{
}

/// A directory that was given its name is taken exactly where that is durable,
/// the name leads to what was made, and it passes as what it is to be.
pub proof fn law_published_directories_are_what_was_made(
    request: RequestView,
    identity: StrongObjectIdentity,
    probe: PublishedProbe,
)
    ensures
        published_fault(request, identity, probe) is None <==> {
            &&& probe.parent_synced is Ok
            &&& probe.entry.identity == Some(identity)
            &&& probe.entry.entry matches Ok(named) && (probe.entry.opened matches Ok(held)
                && named.class == FileClass::Directory && named.device == held.device
                && named.inode == held.inode)
            &&& directory_fault(request.path, request.owner, request.kind, probe.directory) is None
        },
{
}

/// What was made is removed wherever it is still what was made.
pub proof fn law_what_was_made_can_be_removed(
    path: Seq<u8>,
    identity: StrongObjectIdentity,
    opened: Result<(), IoFault>,
    entry: EntryProbe,
)
    ensures
        removal_fault(path, identity, opened, entry) is None <==> opened is Ok && entry.identity
            == Some(identity) && (entry.entry matches Ok(named) && (entry.opened matches Ok(held)
            && named.class == FileClass::Directory && named.device == held.device && named.inode
            == held.inode)),
{
}

} // verus!
