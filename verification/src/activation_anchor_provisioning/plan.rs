//! Which directories lead to an anchor.

use crate::activation::anchor::PROVISIONING_LOCK_NAME;
use crate::activation_anchor_provisioning::checks::DirectoryKind;
use crate::activation_anchor_provisioning::error::unprovisioned_for;
use crate::activation_anchor_provisioning::error::ActivationAnchorProvisioningError;
use crate::activation_anchor_provisioning::error::ProvisionFault;
use crate::anchor_layout::component_texts;
use crate::anchor_layout::followed;
use crate::anchor_layout::os_prefix;
use crate::anchor_layout::os_prefix_components;
use crate::anchor_layout::product;
use crate::anchor_layout::AnchorPlatform;
use crate::backend::certify::CertifiedLocalBackend;
use crate::bytes::to_vec;
use crate::paths::paths_equal;
use crate::paths::push_path;
use crate::paths::pushed;
use crate::paths::same_path;
use crate::paths::SLASH;
use crate::text::decimal_bytes;
use crate::text::digits_of;
use vstd::prelude::*;
use vstd::utf8::encode_utf8;

verus! {

/// What making an anchor came to.
#[derive(Debug)]
pub struct ActivationAnchorProvisioningOutcome {
    pub path: Vec<u8>,
    pub uid: u32,
    pub backend: CertifiedLocalBackend,
    pub status: ActivationAnchorProvisioningStatus,
}

/// The content of an [`ActivationAnchorProvisioningOutcome`].
#[verifier::ext_equal]
pub struct OutcomeView {
    pub path: Seq<u8>,
    pub uid: u32,
    pub backend: CertifiedLocalBackend,
    pub status: ActivationAnchorProvisioningStatus,
}

impl View for ActivationAnchorProvisioningOutcome {
    type V = OutcomeView;

    open spec fn view(&self) -> OutcomeView {
        OutcomeView {
            path: self.path@,
            uid: self.uid,
            backend: self.backend,
            status: self.status,
        }
    }
}

impl Clone for ActivationAnchorProvisioningOutcome {
    fn clone(&self) -> (copy: Self)
        ensures
            copy@ == self@,
    {
        ActivationAnchorProvisioningOutcome {
            path: to_vec(self.path.as_slice()),
            uid: self.uid,
            backend: self.backend,
            status: self.status,
        }
    }
}

/// The two say the same of one path.
pub open spec fn same_outcome(left: OutcomeView, right: OutcomeView) -> bool {
    same_path(left.path, right.path) && left.uid == right.uid && left.backend == right.backend
        && left.status == right.status
}

impl PartialEq for ActivationAnchorProvisioningOutcome {
    fn eq(&self, other: &Self) -> (same: bool) {
        paths_equal(self.path.as_slice(), other.path.as_slice()) && self.uid == other.uid
            && self.backend == other.backend && self.status == other.status
    }
}

impl vstd::std_specs::cmp::PartialEqSpecImpl for ActivationAnchorProvisioningOutcome {
    open spec fn obeys_eq_spec() -> bool {
        true
    }

    open spec fn eq_spec(&self, other: &Self) -> bool {
        same_outcome(self@, other@)
    }
}

impl Eq for ActivationAnchorProvisioningOutcome {

}

impl ActivationAnchorProvisioningOutcome {
    /// Whether something was made.
    pub fn mutated(&self) -> (mutated: bool)
        ensures
            mutated == (self.status == ActivationAnchorProvisioningStatus::Created),
    {
        self.status == ActivationAnchorProvisioningStatus::Created
    }
}

/// Whether an anchor was made.
#[derive(Clone, Copy, Debug, PartialEq, Eq, Structural)]
pub enum ActivationAnchorProvisioningStatus {
    Created,
    AlreadyProvisioned,
}

/// Who makes an anchor.
#[derive(Clone, Copy, Debug, PartialEq, Eq, Structural)]
pub struct Credentials {
    /// Who owns the directories that lead to it.
    pub controller_uid: u32,
    /// Whether it has to be the administrator.
    pub enforce_root: bool,
}

/// The anchor that is to be made.
#[derive(Debug)]
pub struct ProvisioningRequest {
    pub filesystem_root: Vec<u8>,
    pub platform: AnchorPlatform,
    pub uid: u32,
    pub credentials: Credentials,
}

/// The directory of the product.
pub open spec fn product_path(root: Seq<u8>, platform: AnchorPlatform) -> Seq<u8> {
    pushed(
        followed(root, os_prefix(platform), os_prefix(platform).len() as int),
        encode_utf8("degu"@),
    )
}

/// The directory of the anchors.
pub open spec fn store_path(root: Seq<u8>, platform: AnchorPlatform) -> Seq<u8> {
    pushed(product_path(root, platform), encode_utf8("store-activation"@))
}

/// Where the anchor of an account lies. A system without a place for anchors
/// still has a path to name.
pub open spec fn fixed_anchor_path(root: Seq<u8>, platform: Option<AnchorPlatform>, uid: u32) -> Seq<
    u8,
> {
    match platform {
        Some(platform) => pushed(store_path(root, platform), digits_of(uid as nat)),
        None => pushed(root, digits_of(uid as nat)),
    }
}

fn follow_prefix(root: &[u8], platform: AnchorPlatform, count: usize) -> (path: Vec<u8>)
    requires
        count <= os_prefix(platform).len(),
    ensures
        path@ == followed(root@, os_prefix(platform), count as int),
{
    let components = os_prefix_components(platform);
    let ghost texts = os_prefix(platform);
    let mut path = to_vec(root);
    let mut i: usize = 0;
    while i < count
        invariant
            i <= count <= texts.len(),
            texts == component_texts(components@),
            texts == os_prefix(platform),
            path@ == followed(root@, texts, i as int),
        decreases count - i,
    {
        assert(texts[i as int] == components@[i as int]@);
        path = push_path(path.as_slice(), components[i].as_bytes());
        i += 1;
    }
    path
}

fn prefix_length(platform: AnchorPlatform) -> (count: usize)
    ensures
        count == os_prefix(platform).len(),
{
    match platform {
        AnchorPlatform::Linux => 2,
        AnchorPlatform::MacOs => 3,
    }
}

fn product_directory(root: &[u8], platform: AnchorPlatform) -> (path: Vec<u8>)
    ensures
        path@ == product_path(root@, platform),
{
    let prefix = follow_prefix(root, platform, prefix_length(platform));
    push_path(prefix.as_slice(), "degu".as_bytes())
}

fn store_directory(root: &[u8], platform: AnchorPlatform) -> (path: Vec<u8>)
    ensures
        path@ == store_path(root@, platform),
{
    let directory = product_directory(root, platform);
    push_path(directory.as_slice(), "store-activation".as_bytes())
}

/// Where the anchor of an account lies.
pub fn fixed_path(root: &[u8], platform: Option<AnchorPlatform>, uid: u32) -> (path: Vec<u8>)
    ensures
        path@ == fixed_anchor_path(root@, platform, uid),
{
    let name = decimal_bytes(uid as u64);
    match platform {
        Some(platform) => push_path(store_directory(root, platform).as_slice(), name.as_slice()),
        None => push_path(root, name.as_slice()),
    }
}

/// Why no anchor is made for an account.
pub open spec fn admission_fault(
    root: Seq<u8>,
    platform: Option<AnchorPlatform>,
    uid: u32,
    initial: bool,
    credentials: Credentials,
    effective_uid: u32,
) -> Option<ProvisionFault> {
    if credentials.enforce_root && effective_uid != 0 {
        Some(ProvisionFault::NotRoot)
    } else if uid == 0 || uid == u32::MAX {
        Some(ProvisionFault::InvalidUid { uid })
    } else if !initial {
        Some(
            ProvisionFault::Unsafe {
                path: fixed_anchor_path(root, platform, uid),
                reason:
                    "the administrator must assert --initial; provisioning is not repair or recovery"@,
            },
        )
    } else if platform is None {
        Some(ProvisionFault::UnsupportedPlatform)
    } else {
        None
    }
}

/// Lets an anchor be made for an account.
pub fn provision(
    filesystem_root: Vec<u8>,
    platform: Option<AnchorPlatform>,
    uid: u32,
    initial: bool,
    credentials: Credentials,
    effective_uid: u32,
) -> (request: Result<ProvisioningRequest, ActivationAnchorProvisioningError>)
    ensures
        unprovisioned_for(
            request,
            admission_fault(
                filesystem_root@,
                platform,
                uid,
                initial,
                credentials,
                effective_uid,
            ),
        ),
        request matches Ok(admitted) ==> admitted == (ProvisioningRequest {
            filesystem_root,
            platform: platform->0,
            uid,
            credentials,
        }),
{
    if credentials.enforce_root && effective_uid != 0 {
        return Err(ActivationAnchorProvisioningError::NotRoot);
    }
    if uid == 0 || uid == u32::MAX {
        return Err(ActivationAnchorProvisioningError::InvalidUid { uid });
    }
    if !initial {
        return Err(
            ActivationAnchorProvisioningError::Unsafe {
                path: fixed_path(filesystem_root.as_slice(), platform, uid),
                reason:
                    "the administrator must assert --initial; provisioning is not repair or recovery",
            },
        );
    }
    match platform {
        Some(platform) => Ok(ProvisioningRequest { filesystem_root, platform, uid, credentials }),
        None => Err(ActivationAnchorProvisioningError::UnsupportedPlatform),
    }
}

/// Lets the administrator make the anchor of an account, where the system has
/// its place for it.
pub fn provision_activation_anchor(
    uid: u32,
    initial: bool,
    platform: Option<AnchorPlatform>,
    effective_uid: u32,
) -> (request: Result<ProvisioningRequest, ActivationAnchorProvisioningError>)
    ensures
        unprovisioned_for(
            request,
            admission_fault(
                seq![SLASH],
                platform,
                uid,
                initial,
                Credentials { controller_uid: 0, enforce_root: true },
                effective_uid,
            ),
        ),
        request matches Ok(admitted) ==> admitted.filesystem_root@ == seq![SLASH] && platform
            == Some(admitted.platform) && admitted.uid == uid && admitted.credentials == (
        Credentials { controller_uid: 0, enforce_root: true }),
{
    let root = vec![SLASH];
    assert(root@ =~= seq![SLASH]);
    provision(
        root,
        platform,
        uid,
        initial,
        Credentials { controller_uid: 0, enforce_root: true },
        effective_uid,
    )
}

/// What a directory on the way is.
#[derive(Clone, Copy, Debug, PartialEq, Eq, Structural)]
pub enum Role {
    /// The system provides it; it is never made.
    Existing,
    /// The directory of the product, which stays once it was made.
    Product,
    /// The lock, which stays once it was made.
    Lock,
    /// The directory of the anchors.
    Store,
    /// The anchor.
    Anchor,
}

/// A directory on the way to an anchor.
#[derive(Debug)]
pub struct PlannedDirectory {
    pub path: Vec<u8>,
    pub owner: u32,
    pub kind: DirectoryKind,
    pub role: Role,
}

/// The content of a [`PlannedDirectory`].
#[verifier::ext_equal]
pub struct PlannedView {
    pub path: Seq<u8>,
    pub owner: u32,
    pub kind: DirectoryKind,
    pub role: Role,
}

impl View for PlannedDirectory {
    type V = PlannedView;

    open spec fn view(&self) -> PlannedView {
        PlannedView { path: self.path@, owner: self.owner, kind: self.kind, role: self.role }
    }
}

/// The contents of a plan.
pub open spec fn planned_views(list: Seq<PlannedDirectory>) -> Seq<PlannedView> {
    Seq::new(list.len(), |i: int| list[i]@)
}

/// A directory that the system provides.
pub open spec fn system_directory(path: Seq<u8>, owner: u32) -> PlannedView {
    PlannedView { path, owner, kind: DirectoryKind::System, role: Role::Existing }
}

/// The first directories that the system provides, from the root on.
pub open spec fn system_part(
    root: Seq<u8>,
    components: Seq<Seq<char>>,
    count: int,
    owner: u32,
) -> Seq<PlannedView>
    decreases count,
{
    if count <= 0 {
        seq![system_directory(root, owner)]
    } else {
        system_part(root, components, count - 1, owner).push(
            system_directory(followed(root, components, count), owner),
        )
    }
}

/// Who owns the anchor.
pub open spec fn anchor_owner(request: ProvisioningRequest) -> u32 {
    if request.credentials.enforce_root {
        request.uid
    } else {
        request.credentials.controller_uid
    }
}

/// The directories on the way to an anchor, in the order in which they are seen
/// to.
pub open spec fn plan_of(request: ProvisioningRequest) -> Seq<PlannedView> {
    let root = request.filesystem_root@;
    let platform = request.platform;
    let controller = request.credentials.controller_uid;
    let owner = anchor_owner(request);
    system_part(root, os_prefix(platform), os_prefix(platform).len() as int, controller).push(
        PlannedView {
            path: product_path(root, platform),
            owner: controller,
            kind: DirectoryKind::Public,
            role: Role::Product,
        },
    ).push(
        PlannedView {
            path: pushed(product_path(root, platform), encode_utf8(PROVISIONING_LOCK_NAME@)),
            owner: controller,
            kind: DirectoryKind::PrivateLock,
            role: Role::Lock,
        },
    ).push(
        PlannedView {
            path: store_path(root, platform),
            owner: controller,
            kind: DirectoryKind::Public,
            role: Role::Store,
        },
    ).push(
        PlannedView {
            path: fixed_anchor_path(root, Some(platform), request.uid),
            owner,
            kind: DirectoryKind::Leaf(owner),
            role: Role::Anchor,
        },
    )
}

/// How long the first part of a plan is.
pub proof fn lemma_system_part(root: Seq<u8>, components: Seq<Seq<char>>, count: int, owner: u32)
    requires
        0 <= count,
    ensures
        system_part(root, components, count, owner).len() == count + 1,
        forall|i: int|
            0 <= i <= count ==> (#[trigger] system_part(root, components, count, owner)[i]).role
                == Role::Existing,
    decreases count,
{
    if count > 0 {
        lemma_system_part(root, components, count - 1, owner);
    }
}

/// Plans the way to an anchor.
pub fn plan_directories(request: &ProvisioningRequest) -> (plan: Vec<PlannedDirectory>)
    ensures
        planned_views(plan@) == plan_of(*request),
{
    let root = request.filesystem_root.as_slice();
    let platform = request.platform;
    let controller: u32 = request.credentials.controller_uid;
    let owner: u32 = if request.credentials.enforce_root {
        request.uid
    } else {
        controller
    };
    let ghost components = os_prefix(platform);
    let count: usize = prefix_length(platform);
    let mut plan: Vec<PlannedDirectory> = Vec::new();
    plan.push(
        PlannedDirectory {
            path: to_vec(root),
            owner: controller,
            kind: DirectoryKind::System,
            role: Role::Existing,
        },
    );
    let mut i: usize = 0;
    assert(planned_views(plan@) =~= system_part(root@, components, 0, controller));
    while i < count
        invariant
            i <= count == os_prefix(platform).len(),
            components == os_prefix(platform),
            planned_views(plan@) == system_part(root@, components, i as int, controller),
        decreases count - i,
    {
        let ghost before = planned_views(plan@);
        i += 1;
        plan.push(
            PlannedDirectory {
                path: follow_prefix(root, platform, i),
                owner: controller,
                kind: DirectoryKind::System,
                role: Role::Existing,
            },
        );
        assert(planned_views(plan@) =~= before.push(
            system_directory(followed(root@, components, i as int), controller),
        ));
    }
    let product = product_directory(root, platform);
    plan.push(
        PlannedDirectory {
            path: product_directory(root, platform),
            owner: controller,
            kind: DirectoryKind::Public,
            role: Role::Product,
        },
    );
    plan.push(
        PlannedDirectory {
            path: push_path(product.as_slice(), PROVISIONING_LOCK_NAME.as_bytes()),
            owner: controller,
            kind: DirectoryKind::PrivateLock,
            role: Role::Lock,
        },
    );
    plan.push(
        PlannedDirectory {
            path: store_directory(root, platform),
            owner: controller,
            kind: DirectoryKind::Public,
            role: Role::Store,
        },
    );
    plan.push(
        PlannedDirectory {
            path: fixed_path(root, Some(platform), request.uid),
            owner,
            kind: DirectoryKind::Leaf(owner),
            role: Role::Anchor,
        },
    );
    assert(planned_views(plan@) =~= plan_of(*request));
    plan
}

/// An anchor is made for every account but root and the one that no account has,
/// on every system that has a place for it, where the administrator asserts that
/// it is the first, and by nobody but root where root is asked for.
pub proof fn law_who_may_provision_for_whom(
    root: Seq<u8>,
    platform: Option<AnchorPlatform>,
    uid: u32,
    initial: bool,
    credentials: Credentials,
    effective_uid: u32,
)
    ensures
        admission_fault(root, platform, uid, initial, credentials, effective_uid) is None <==> {
            &&& credentials.enforce_root ==> effective_uid == 0
            &&& 0 < uid < u32::MAX
            &&& initial
            &&& platform is Some
        },
        credentials.enforce_root && effective_uid != 0 ==> admission_fault(
            root,
            platform,
            uid,
            initial,
            credentials,
            effective_uid,
        ) == Some(ProvisionFault::NotRoot),
{
}

/// Only the anchor belongs to the account; everything above it belongs to whoever
/// makes anchors. The anchor is private, the lock is private, what lies between
/// can be looked into, and what the system provides is never made.
pub proof fn law_only_the_anchor_is_the_accounts(request: ProvisioningRequest, i: int)
    requires
        0 <= i < plan_of(request).len(),
    ensures
        ({
            let planned = plan_of(request)[i];
            &&& planned.role == Role::Anchor <==> i == plan_of(request).len() - 1
            &&& planned.role != Role::Anchor ==> planned.owner
                == request.credentials.controller_uid
            &&& planned.role == Role::Anchor && request.credentials.enforce_root ==> planned.owner
                == request.uid
            &&& planned.role == Role::Anchor && !request.credentials.enforce_root ==> planned.owner
                == request.credentials.controller_uid
            &&& planned.role == Role::Anchor <==> planned.kind is Leaf
            &&& planned.kind matches DirectoryKind::Leaf(owner) ==> owner == planned.owner
            &&& planned.role == Role::Existing <==> planned.kind is System
            &&& planned.role == Role::Lock <==> planned.kind is PrivateLock
            &&& planned.role == Role::Product || planned.role == Role::Store <==> planned.kind
                is Public
        }),
{
    let prefix = os_prefix(request.platform);
    lemma_existing(
        request.filesystem_root@,
        prefix,
        prefix.len() as int,
        request.credentials.controller_uid,
    );
    let system = system_part(
        request.filesystem_root@,
        prefix,
        prefix.len() as int,
        request.credentials.controller_uid,
    );
    if i < system.len() {
        assert(plan_of(request)[i] == system[i]);
    }
}

/// What the system provides is all alike.
proof fn lemma_existing(root: Seq<u8>, components: Seq<Seq<char>>, count: int, owner: u32)
    ensures
        forall|i: int|
            0 <= i < system_part(root, components, count, owner).len() ==> {
                let planned = #[trigger] system_part(root, components, count, owner)[i];
                planned.owner == owner && planned.kind == DirectoryKind::System && planned.role
                    == Role::Existing
            },
    decreases count,
{
    if count > 0 {
        lemma_existing(root, components, count - 1, owner);
        let before = system_part(root, components, count - 1, owner);
        assert forall|i: int|
            0 <= i < system_part(root, components, count, owner).len() implies ({
            let planned = #[trigger] system_part(root, components, count, owner)[i];
            planned.owner == owner && planned.kind == DirectoryKind::System && planned.role
                == Role::Existing
        }) by {
            if i < before.len() {
                assert(system_part(root, components, count, owner)[i] == before[i]);
            }
        }
    }
}

} // verus!
