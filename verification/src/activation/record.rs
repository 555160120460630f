//! The records of an activation, byte by byte.
//!
//! A record starts with what it is and the number of the activation, and names
//! the objects that it binds: each by its place, what it is and its file system.

use crate::backend::certify::CertifiedLocalBackend;
use crate::backend::held::inventory::StrongObjectIdentity;
use crate::bytes::append;
use crate::bytes::be32;
use crate::bytes::be64;
use crate::bytes::bytes_equal;
use crate::bytes::get_array32;
use crate::bytes::get_u32;
use crate::bytes::get_u64;
use crate::bytes::lemma_be32_bytes_round_trip;
use crate::bytes::lemma_be32_round_trip;
use crate::bytes::lemma_be64_bytes_round_trip;
use crate::bytes::lemma_be64_round_trip;
use crate::bytes::put_u32;
use crate::bytes::put_u64;
use crate::bytes::to_vec;
use crate::paths::components;
use crate::paths::is_absolute;
use crate::paths::part_views;
use crate::paths::path_components;
use crate::paths::PathPart;
use crate::paths::SLASH;
use crate::paths::paths_equal;
use crate::paths::same_path;
use vstd::prelude::*;
use vstd::slice::slice_subrange;

verus! {

/// How long the number of an activation is.
pub const ACTIVATION_ID_LEN: usize = 32;

/// The most bytes that a record may have.
pub const MAX_RECORD_BYTES: usize = 131_072;

/// The most bytes that a place may have.
pub const MAX_LOCATOR_BYTES: usize = 65_536;

/// What a record that prepares an activation starts with.
pub open spec fn prepare_magic() -> Seq<u8> {
    seq![0x44, 0x47, 0x55, 0x41, 0x50, 0x52, 0x50, 0x31]
}

/// What the record of an activation starts with.
pub open spec fn active_magic() -> Seq<u8> {
    seq![0x44, 0x47, 0x55, 0x41, 0x43, 0x54, 0x56, 0x31]
}

/// What the record of a claim starts with.
pub open spec fn authority_magic() -> Seq<u8> {
    seq![0x44, 0x47, 0x55, 0x41, 0x55, 0x54, 0x48, 0x31]
}

/// The place does not depend on anything: it is absolute, names something, and
/// never goes up.
pub open spec fn is_locator(path: Seq<u8>) -> bool {
    &&& is_absolute(path)
    &&& forall|i: int|
        0 <= i < components(path).len() ==> !((#[trigger] components(path)[i]) is Current)
            && !(components(path)[i] is Parent)
    &&& exists|i: int|
        0 <= i < components(path).len() && (#[trigger] components(path)[i]) is Normal
}

/// Whether the place does not depend on anything.
pub fn validate_absolute_locator(path: &[u8]) -> (valid: bool)
    ensures
        valid == is_locator(path@),
{
    if path.len() == 0 || path[0] != SLASH {
        return false;
    }
    let parts = path_components(path);
    let ghost list = components(path@);
    let mut saw_normal = false;
    let mut i: usize = 0;
    while i < parts.len()
        invariant
            i <= parts@.len(),
            list == components(path@),
            part_views(parts@) == list,
            is_absolute(path@),
            forall|j: int|
                0 <= j < i ==> !((#[trigger] list[j]) is Current) && !(list[j] is Parent),
            saw_normal == exists|j: int| 0 <= j < i && (#[trigger] list[j]) is Normal,
        decreases parts@.len() - i,
    {
        assert(list[i as int] == parts@[i as int]@);
        match &parts[i] {
            PathPart::Root => {},
            PathPart::Normal(_) => {
                saw_normal = true;
            },
            PathPart::Current => {
                return false;
            },
            PathPart::Parent => {
                return false;
            },
        }
        i += 1;
    }
    saw_normal
}

/// Something that a record binds: its place, what it is, and its file system.
#[derive(Debug)]
pub struct BoundObject {
    pub locator: Vec<u8>,
    pub identity: StrongObjectIdentity,
    pub backend: CertifiedLocalBackend,
}

/// The content of a [`BoundObject`].
#[verifier::ext_equal]
pub struct BoundView {
    pub locator: Seq<u8>,
    pub identity: StrongObjectIdentity,
    pub backend: CertifiedLocalBackend,
}

impl View for BoundObject {
    type V = BoundView;

    open spec fn view(&self) -> BoundView {
        BoundView { locator: self.locator@, identity: self.identity, backend: self.backend }
    }
}

impl Clone for BoundObject {
    fn clone(&self) -> (copy: Self)
        ensures
            copy@ == self@,
    {
        BoundObject {
            locator: to_vec(self.locator.as_slice()),
            identity: self.identity,
            backend: self.backend,
        }
    }
}

/// The two are one object at one place.
pub open spec fn same_object(left: BoundView, right: BoundView) -> bool {
    same_path(left.locator, right.locator) && left.identity == right.identity && left.backend
        == right.backend
}

impl BoundObject {
    /// Whether the two are the same.
    pub fn same(&self, other: &Self) -> (same: bool)
        ensures
            same == same_object(self@, other@),
    {
        paths_equal(self.locator.as_slice(), other.locator.as_slice()) && self.identity
            == other.identity && self.backend == other.backend
    }
}

/// The byte of a file system.
pub open spec fn backend_byte(backend: CertifiedLocalBackend) -> u8 {
    match backend {
        CertifiedLocalBackend::Ext4 => 1,
        CertifiedLocalBackend::Xfs => 2,
        CertifiedLocalBackend::Apfs => 3,
    }
}

/// The bytes of what something is.
pub open spec fn identity_bytes(identity: StrongObjectIdentity) -> Seq<u8> {
    be64(identity.device) + be64(identity.inode) + be64(identity.incarnation) + be64(
        identity.mount_id,
    )
}

/// The bytes of a place.
pub open spec fn locator_bytes(locator: Seq<u8>) -> Seq<u8> {
    be32(locator.len() as u32) + locator
}

/// The bytes of what something is and of its file system.
pub open spec fn stamp_bytes(identity: StrongObjectIdentity, backend: CertifiedLocalBackend) -> Seq<
    u8,
> {
    identity_bytes(identity) + seq![backend_byte(backend)]
}

/// The bytes of something that a record binds.
pub open spec fn object_bytes(object: BoundView) -> Seq<u8> {
    locator_bytes(object.locator) + stamp_bytes(object.identity, object.backend)
}

/// Something that a record can bind.
pub open spec fn is_storable(object: BoundView) -> bool {
    is_locator(object.locator) && object.locator.len() <= MAX_LOCATOR_BYTES
}

/// An activation that is being prepared: its number, the authority that it is
/// under, and the store.
#[derive(Debug)]
pub struct PrepareRecord {
    pub activation_id: [u8; 32],
    pub authority: BoundObject,
    pub store: BoundObject,
}

/// The content of a [`PrepareRecord`].
#[verifier::ext_equal]
pub struct PrepareView {
    pub activation_id: [u8; 32],
    pub authority: BoundView,
    pub store: BoundView,
}

impl View for PrepareRecord {
    type V = PrepareView;

    open spec fn view(&self) -> PrepareView {
        PrepareView {
            activation_id: self.activation_id,
            authority: self.authority@,
            store: self.store@,
        }
    }
}

impl Clone for PrepareRecord {
    fn clone(&self) -> (copy: Self)
        ensures
            copy@ == self@,
    {
        PrepareRecord {
            activation_id: self.activation_id,
            authority: self.authority.clone(),
            store: self.store.clone(),
        }
    }
}

/// The two prepare one activation.
pub open spec fn same_preparation(left: PrepareView, right: PrepareView) -> bool {
    left.activation_id == right.activation_id && same_object(left.authority, right.authority)
        && same_object(left.store, right.store)
}

impl PrepareRecord {
    /// Whether the two are the same.
    pub fn same(&self, other: &Self) -> (same: bool)
        ensures
            same == same_preparation(self@, other@),
    {
        crate::bytes::arrays_equal(&self.activation_id, &other.activation_id)
            && self.authority.same(&other.authority) && self.store.same(&other.store)
    }
}

/// An activation that is complete: it repeats what prepared it.
#[derive(Debug)]
pub struct ActiveRecord {
    pub prepare: PrepareRecord,
}

/// The claim of an authority: the number of the activation, and the authority
/// that was chosen.
#[derive(Debug)]
pub struct AuthorityRecord {
    pub selection_id: [u8; 32],
    pub selected: BoundObject,
}

/// The content of an [`AuthorityRecord`].
#[verifier::ext_equal]
pub struct ClaimView {
    pub selection_id: [u8; 32],
    pub selected: BoundView,
}

impl View for AuthorityRecord {
    type V = ClaimView;

    open spec fn view(&self) -> ClaimView {
        ClaimView { selection_id: self.selection_id, selected: self.selected@ }
    }
}

impl Clone for AuthorityRecord {
    fn clone(&self) -> (copy: Self)
        ensures
            copy@ == self@,
    {
        AuthorityRecord { selection_id: self.selection_id, selected: self.selected.clone() }
    }
}

/// The two choose one authority for one activation.
pub open spec fn same_claim(left: ClaimView, right: ClaimView) -> bool {
    left.selection_id == right.selection_id && same_object(left.selected, right.selected)
}

impl AuthorityRecord {
    /// Whether the two are the same.
    pub fn same(&self, other: &Self) -> (same: bool)
        ensures
            same == same_claim(self@, other@),
    {
        crate::bytes::arrays_equal(&self.selection_id, &other.selection_id) && self.selected.same(
            &other.selected,
        )
    }
}

/// The bytes of a preparation, under one of two headings.
pub open spec fn binding_bytes(magic: Seq<u8>, record: PrepareView) -> Seq<u8> {
    magic + record.activation_id@ + object_bytes(record.authority) + object_bytes(record.store)
}

/// The bytes of a record that prepares an activation.
pub open spec fn prepare_bytes(record: PrepareView) -> Seq<u8> {
    binding_bytes(prepare_magic(), record)
}

/// The bytes of the record of an activation.
pub open spec fn active_bytes(record: PrepareView) -> Seq<u8> {
    binding_bytes(active_magic(), record)
}

/// The bytes of a claim.
pub open spec fn authority_bytes(record: ClaimView) -> Seq<u8> {
    authority_magic() + record.selection_id@ + object_bytes(record.selected)
}

/// A preparation that can be recorded.
pub open spec fn is_binding(record: PrepareView) -> bool {
    is_storable(record.authority) && is_storable(record.store)
}

/// A place that cannot be recorded.
#[derive(Clone, Copy, Debug, PartialEq, Eq, Structural)]
pub struct InvalidLocator;

fn put_object(out: &mut Vec<u8>, object: &BoundObject) -> (outcome: Result<(), InvalidLocator>)
    ensures
        outcome is Ok <==> is_storable(object@),
        outcome is Ok ==> final(out)@ == old(out)@ + object_bytes(object@),
{
    let locator = object.locator.as_slice();
    let size: usize = locator.len();
    if !validate_absolute_locator(locator) || size > MAX_LOCATOR_BYTES {
        return Err(InvalidLocator);
    }
    put_u32(out, size as u32);
    append(out, locator);
    put_u64(out, object.identity.device);
    put_u64(out, object.identity.inode);
    put_u64(out, object.identity.incarnation);
    put_u64(out, object.identity.mount_id);
    out.push(encode_backend(object.backend));
    assert(out@ =~= old(out)@ + object_bytes(object@));
    Ok(())
}

/// The byte of a file system.
pub fn encode_backend(backend: CertifiedLocalBackend) -> (byte: u8)
    ensures
        byte == backend_byte(backend),
{
    match backend {
        CertifiedLocalBackend::Ext4 => 1,
        CertifiedLocalBackend::Xfs => 2,
        CertifiedLocalBackend::Apfs => 3,
    }
}

/// The file system of a byte.
pub fn decode_backend(byte: u8) -> (backend: Option<CertifiedLocalBackend>)
    ensures
        match backend {
            Some(found) => backend_byte(found) == byte,
            None => forall|any: CertifiedLocalBackend| #[trigger] backend_byte(any) != byte,
        },
{
    match byte {
        1 => Some(CertifiedLocalBackend::Ext4),
        2 => Some(CertifiedLocalBackend::Xfs),
        3 => Some(CertifiedLocalBackend::Apfs),
        _ => None,
    }
}

fn prepare_heading() -> (heading: Vec<u8>)
    ensures
        heading@ == prepare_magic(),
{
    let heading = vec![0x44u8, 0x47, 0x55, 0x41, 0x50, 0x52, 0x50, 0x31];
    assert(heading@ =~= prepare_magic());
    heading
}

fn active_heading() -> (heading: Vec<u8>)
    ensures
        heading@ == active_magic(),
{
    let heading = vec![0x44u8, 0x47, 0x55, 0x41, 0x43, 0x54, 0x56, 0x31];
    assert(heading@ =~= active_magic());
    heading
}

fn authority_heading() -> (heading: Vec<u8>)
    ensures
        heading@ == authority_magic(),
{
    let heading = vec![0x44u8, 0x47, 0x55, 0x41, 0x55, 0x54, 0x48, 0x31];
    assert(heading@ =~= authority_magic());
    heading
}

fn encode_binding(heading: Vec<u8>, record: &PrepareRecord) -> (bytes: Result<
    Vec<u8>,
    InvalidLocator,
>)
    ensures
        bytes is Ok <==> is_binding(record@),
        bytes matches Ok(out) ==> out@ == binding_bytes(heading@, record@),
{
    let mut out = heading;
    append(&mut out, record.activation_id.as_slice());
    put_object(&mut out, &record.authority)?;
    put_object(&mut out, &record.store)?;
    assert(out@ =~= binding_bytes(heading@, record@));
    Ok(out)
}

/// The bytes of a record that prepares an activation, if its places can be
/// recorded.
pub fn encode_prepare(record: &PrepareRecord) -> (bytes: Result<Vec<u8>, InvalidLocator>)
    ensures
        bytes is Ok <==> is_binding(record@),
        bytes matches Ok(out) ==> out@ == prepare_bytes(record@),
{
    encode_binding(prepare_heading(), record)
}

/// The bytes of the record of an activation, if its places can be recorded.
pub fn encode_active(record: &ActiveRecord) -> (bytes: Result<Vec<u8>, InvalidLocator>)
    ensures
        bytes is Ok <==> is_binding(record.prepare@),
        bytes matches Ok(out) ==> out@ == active_bytes(record.prepare@),
{
    encode_binding(active_heading(), &record.prepare)
}

/// The bytes of a claim, if its place can be recorded.
pub fn encode_authority(record: &AuthorityRecord) -> (bytes: Result<Vec<u8>, InvalidLocator>)
    ensures
        bytes is Ok <==> is_storable(record@.selected),
        bytes matches Ok(out) ==> out@ == authority_bytes(record@),
{
    let mut out = authority_heading();
    append(&mut out, record.selection_id.as_slice());
    put_object(&mut out, &record.selected)?;
    assert(out@ =~= authority_bytes(record@));
    Ok(out)
}

/// Two texts of the same length in front of others.
proof fn lemma_cancel(first: Seq<u8>, second: Seq<u8>, left: Seq<u8>, right: Seq<u8>)
    requires
        first.len() == second.len(),
        first + left == second + right,
    ensures
        first == second,
        left == right,
{
    let size = first.len() as int;
    assert(first =~= (first + left).take(size));
    assert(second =~= (second + right).take(size));
    assert(left =~= (first + left).skip(size));
    assert(right =~= (second + right).skip(size));
}

/// Two places in front of others.
proof fn lemma_cancel_locator(first: Seq<u8>, second: Seq<u8>, left: Seq<u8>, right: Seq<u8>)
    requires
        first.len() <= MAX_LOCATOR_BYTES,
        second.len() <= MAX_LOCATOR_BYTES,
        locator_bytes(first) + left == locator_bytes(second) + right,
    ensures
        first == second,
        left == right,
{
    let a = be32(first.len() as u32);
    let b = be32(second.len() as u32);
    assert(locator_bytes(first) + left =~= a + (first + left));
    assert(locator_bytes(second) + right =~= b + (second + right));
    lemma_cancel(a, b, first + left, second + right);
    lemma_be32_round_trip(first.len() as u32);
    lemma_be32_round_trip(second.len() as u32);
    lemma_cancel(first, second, left, right);
}

/// Two identities of the same bytes.
proof fn lemma_identity_bytes(first: StrongObjectIdentity, second: StrongObjectIdentity)
    ensures
        identity_bytes(first).len() == 32,
        identity_bytes(first) == identity_bytes(second) ==> first == second,
{
    let a = identity_bytes(first);
    let b = identity_bytes(second);
    lemma_be64_round_trip(first.device);
    lemma_be64_round_trip(second.device);
    lemma_be64_round_trip(first.inode);
    lemma_be64_round_trip(second.inode);
    lemma_be64_round_trip(first.incarnation);
    lemma_be64_round_trip(second.incarnation);
    lemma_be64_round_trip(first.mount_id);
    lemma_be64_round_trip(second.mount_id);
    assert(a.subrange(0, 8) =~= be64(first.device));
    assert(b.subrange(0, 8) =~= be64(second.device));
    assert(a.subrange(8, 16) =~= be64(first.inode));
    assert(b.subrange(8, 16) =~= be64(second.inode));
    assert(a.subrange(16, 24) =~= be64(first.incarnation));
    assert(b.subrange(16, 24) =~= be64(second.incarnation));
    assert(a.subrange(24, 32) =~= be64(first.mount_id));
    assert(b.subrange(24, 32) =~= be64(second.mount_id));
}

/// Two bound objects in front of others.
proof fn lemma_cancel_object(first: BoundView, second: BoundView, left: Seq<u8>, right: Seq<u8>)
    requires
        is_storable(first),
        is_storable(second),
        object_bytes(first) + left == object_bytes(second) + right,
    ensures
        first == second,
        left == right,
{
    let a = stamp_bytes(first.identity, first.backend);
    let b = stamp_bytes(second.identity, second.backend);
    lemma_identity_bytes(first.identity, second.identity);
    lemma_identity_bytes(second.identity, first.identity);
    assert(object_bytes(first) + left =~= locator_bytes(first.locator) + (a + left));
    assert(object_bytes(second) + right =~= locator_bytes(second.locator) + (b + right));
    lemma_cancel_locator(first.locator, second.locator, a + left, b + right);
    lemma_cancel(a, b, left, right);
    lemma_cancel(
        identity_bytes(first.identity),
        identity_bytes(second.identity),
        seq![backend_byte(first.backend)],
        seq![backend_byte(second.backend)],
    );
    assert(seq![backend_byte(first.backend)][0] == seq![backend_byte(second.backend)][0]);
}

/// Reads a place at `at`.
fn take_locator(input: &[u8], at: usize) -> (found: Option<(Vec<u8>, usize)>)
    requires
        at <= input@.len(),
    ensures
        match found {
            Some((locator, next)) => {
                &&& next <= input@.len()
                &&& input@.skip(at as int) == locator_bytes(locator@) + input@.skip(next as int)
                &&& is_locator(locator@) && locator@.len() <= MAX_LOCATOR_BYTES
            },
            None => forall|locator: Seq<u8>, rest: Seq<u8>|
                is_locator(locator) && locator.len() <= MAX_LOCATOR_BYTES ==> input@.skip(
                    at as int,
                ) != #[trigger] (locator_bytes(locator) + rest),
        },
{
    let ghost tail = input@.skip(at as int);
    let total: usize = input.len();
    if total - at < 4 {
        proof {
            assert forall|locator: Seq<u8>, rest: Seq<u8>|
                is_locator(locator) && locator.len() <= MAX_LOCATOR_BYTES implies tail
                != #[trigger] (locator_bytes(locator) + rest) by {
                assert((locator_bytes(locator) + rest).len() >= 4);
            }
        }
        return None;
    }
    let length: u32 = get_u32(input, at);
    let ghost head = input@.subrange(at as int, at + 4);
    proof {
        lemma_be32_bytes_round_trip(head);
    }
    let size: usize = length as usize;
    let start: usize = at + 4;
    if size > MAX_LOCATOR_BYTES || size > total - start {
        proof {
            assert forall|locator: Seq<u8>, rest: Seq<u8>|
                is_locator(locator) && locator.len() <= MAX_LOCATOR_BYTES implies tail
                != #[trigger] (locator_bytes(locator) + rest) by {
                if tail == locator_bytes(locator) + rest {
                    let b = be32(locator.len() as u32);
                    assert(head =~= tail.take(4));
                    assert(b =~= (locator_bytes(locator) + rest).take(4));
                    lemma_be32_round_trip(locator.len() as u32);
                    assert(tail.len() == 4 + locator.len() + rest.len());
                }
            }
        }
        return None;
    }
    let end: usize = start + size;
    let locator = slice_subrange(input, start, end);
    proof {
        assert(be32(length) == head);
        assert(locator@.len() == length);
        assert(tail =~= locator_bytes(locator@) + input@.skip(end as int));
    }
    if !validate_absolute_locator(locator) {
        proof {
            assert forall|other: Seq<u8>, rest: Seq<u8>|
                is_locator(other) && other.len() <= MAX_LOCATOR_BYTES implies tail != #[trigger] (
            locator_bytes(other) + rest) by {
                if tail == locator_bytes(other) + rest {
                    lemma_cancel_locator(locator@, other, input@.skip(end as int), rest);
                }
            }
        }
        return None;
    }
    Some((to_vec(locator), end))
}

/// Reads at `at` what something is and its file system.
fn take_stamp(input: &[u8], at: usize) -> (found: Option<
    (StrongObjectIdentity, CertifiedLocalBackend, usize),
>)
    requires
        at <= input@.len(),
    ensures
        match found {
            Some((identity, backend, next)) => {
                &&& next <= input@.len()
                &&& input@.skip(at as int) == stamp_bytes(identity, backend) + input@.skip(
                    next as int,
                )
            },
            None => forall|
                identity: StrongObjectIdentity,
                backend: CertifiedLocalBackend,
                rest: Seq<u8>,
            |
                input@.skip(at as int) != #[trigger] (stamp_bytes(identity, backend) + rest),
        },
{
    let ghost tail = input@.skip(at as int);
    let total: usize = input.len();
    if total - at < 33 {
        proof {
            assert forall|
                identity: StrongObjectIdentity,
                backend: CertifiedLocalBackend,
                rest: Seq<u8>,
            | tail != #[trigger] (stamp_bytes(identity, backend) + rest) by {
                lemma_identity_bytes(identity, identity);
                assert((stamp_bytes(identity, backend) + rest).len() >= 33);
            }
        }
        return None;
    }
    let identity = StrongObjectIdentity {
        device: get_u64(input, at),
        inode: get_u64(input, at + 8),
        incarnation: get_u64(input, at + 16),
        mount_id: get_u64(input, at + 24),
    };
    let byte: u8 = input[at + 32];
    let end: usize = at + 33;
    match decode_backend(byte) {
        Some(backend) => {
            proof {
                lemma_be64_bytes_round_trip(input@.subrange(at as int, at + 8));
                lemma_be64_bytes_round_trip(input@.subrange(at + 8, at + 16));
                lemma_be64_bytes_round_trip(input@.subrange(at + 16, at + 24));
                lemma_be64_bytes_round_trip(input@.subrange(at + 24, at + 32));
                assert(tail =~= stamp_bytes(identity, backend) + input@.skip(end as int));
            }
            Some((identity, backend, end))
        },
        None => {
            proof {
                assert forall|
                    any: StrongObjectIdentity,
                    backend: CertifiedLocalBackend,
                    rest: Seq<u8>,
                | tail != #[trigger] (stamp_bytes(any, backend) + rest) by {
                    lemma_identity_bytes(any, any);
                    assert((stamp_bytes(any, backend) + rest)[32] == backend_byte(backend));
                    assert(tail[32] == byte);
                }
            }
            None
        },
    }
}

/// Reads a bound object at `at`.
fn take_object(input: &[u8], at: usize) -> (found: Option<(BoundObject, usize)>)
    requires
        at <= input@.len(),
    ensures
        match found {
            Some((object, next)) => {
                &&& next <= input@.len()
                &&& input@.skip(at as int) == object_bytes(object@) + input@.skip(next as int)
                &&& is_storable(object@)
            },
            None => forall|object: BoundView, rest: Seq<u8>|
                is_storable(object) ==> input@.skip(at as int) != #[trigger] (object_bytes(object)
                    + rest),
        },
{
    let ghost tail = input@.skip(at as int);
    let (locator, start) = match take_locator(input, at) {
        Some(found) => found,
        None => {
            proof {
                assert forall|object: BoundView, rest: Seq<u8>| is_storable(object) implies tail
                    != #[trigger] (object_bytes(object) + rest) by {
                    lemma_object_split(object, rest);
                }
            }
            return None;
        },
    };
    let ghost after = input@.skip(start as int);
    match take_stamp(input, start) {
        Some((identity, backend, end)) => {
            let object = BoundObject { locator, identity, backend };
            proof {
                lemma_object_split(object@, input@.skip(end as int));
            }
            Some((object, end))
        },
        None => {
            proof {
                assert forall|object: BoundView, rest: Seq<u8>| is_storable(object) implies tail
                    != #[trigger] (object_bytes(object) + rest) by {
                    lemma_object_split(object, rest);
                    let more = stamp_bytes(object.identity, object.backend) + rest;
                    if tail == object_bytes(object) + rest {
                        lemma_cancel_locator(locator@, object.locator, after, more);
                    }
                }
            }
            None
        },
    }
}

/// The bytes of an object are those of its place and the rest.
proof fn lemma_object_split(object: BoundView, rest: Seq<u8>)
    ensures
        object_bytes(object) + rest == locator_bytes(object.locator) + (stamp_bytes(
            object.identity,
            object.backend,
        ) + rest),
{
    assert(object_bytes(object) + rest =~= locator_bytes(object.locator) + (stamp_bytes(
        object.identity,
        object.backend,
    ) + rest));
}

/// Reads a heading and a number.
fn take_head(input: &[u8], heading: &Vec<u8>) -> (found: Option<[u8; 32]>)
    requires
        heading@.len() == 8,
    ensures
        match found {
            Some(id) => input@.len() >= 40 && input@ == heading@ + id@ + input@.skip(40),
            None => forall|id: [u8; 32], rest: Seq<u8>|
                input@ != #[trigger] (heading@ + id@ + rest),
        },
{
    if input.len() < 40 {
        return None;
    }
    let start = slice_subrange(input, 0, 8);
    if !bytes_equal(start, heading.as_slice()) {
        proof {
            assert forall|id: [u8; 32], rest: Seq<u8>| input@ != #[trigger] (heading@ + id@
                + rest) by {
                if input@ == heading@ + id@ + rest {
                    assert(start@ =~= heading@);
                }
            }
        }
        return None;
    }
    let id = get_array32(input, 8);
    assert(input@ =~= heading@ + id@ + input@.skip(40));
    Some(id)
}

/// Two numbers with the same bytes.
proof fn lemma_same_id(first: [u8; 32], second: [u8; 32])
    requires
        first@ == second@,
    ensures
        first == second,
{
    assert(first =~= second);
}

fn decode_binding(input: &[u8], heading: Vec<u8>) -> (record: Option<PrepareRecord>)
    requires
        heading@.len() == 8,
    ensures
        match record {
            Some(found) => input@ == binding_bytes(heading@, found@) && is_binding(found@),
            None => forall|any: PrepareView|
                is_binding(any) ==> input@ != #[trigger] binding_bytes(heading@, any),
        },
{
    let ghost magic = heading@;
    let activation_id = match take_head(input, &heading) {
        Some(id) => id,
        None => {
            proof {
                assert forall|any: PrepareView| is_binding(any) implies input@
                    != #[trigger] binding_bytes(magic, any) by {
                    assert(binding_bytes(magic, any) =~= magic + any.activation_id@ + (
                    object_bytes(any.authority) + object_bytes(any.store)));
                }
            }
            return None;
        },
    };
    let ghost rest = input@.skip(40);
    proof {
        assert forall|any: PrepareView| input@ == #[trigger] binding_bytes(magic, any) implies rest
            == object_bytes(any.authority) + object_bytes(any.store) && activation_id
            == any.activation_id by {
            let more = object_bytes(any.authority) + object_bytes(any.store);
            assert(binding_bytes(magic, any) =~= (magic + any.activation_id@) + more);
            lemma_cancel(magic + activation_id@, magic + any.activation_id@, rest, more);
            lemma_cancel(magic, magic, activation_id@, any.activation_id@);
            lemma_same_id(activation_id, any.activation_id);
        }
    }
    let (authority, middle) = match take_object(input, 40) {
        Some(found) => found,
        None => {
            proof {
                assert forall|any: PrepareView| is_binding(any) implies input@
                    != #[trigger] binding_bytes(magic, any) by {
                    if input@ == binding_bytes(magic, any) {
                        assert(rest == object_bytes(any.authority) + object_bytes(any.store));
                    }
                }
            }
            return None;
        },
    };
    let ghost second = input@.skip(middle as int);
    proof {
        assert forall|any: PrepareView|
            is_binding(any) && input@ == #[trigger] binding_bytes(magic, any) implies second
            == object_bytes(any.store) by {
            lemma_cancel_object(authority@, any.authority, second, object_bytes(any.store));
        }
    }
    let (store, end) = match take_object(input, middle) {
        Some(found) => found,
        None => {
            proof {
                assert forall|any: PrepareView| is_binding(any) implies input@
                    != #[trigger] binding_bytes(magic, any) by {
                    if input@ == binding_bytes(magic, any) {
                        assert(object_bytes(any.store) + Seq::<u8>::empty() =~= object_bytes(
                            any.store,
                        ));
                    }
                }
            }
            return None;
        },
    };
    let ghost left = input@.skip(end as int);
    if end != input.len() {
        proof {
            assert forall|any: PrepareView| is_binding(any) implies input@
                != #[trigger] binding_bytes(magic, any) by {
                if input@ == binding_bytes(magic, any) {
                    let nothing = Seq::<u8>::empty();
                    assert(object_bytes(any.store) + nothing =~= object_bytes(any.store));
                    lemma_cancel_object(store@, any.store, left, nothing);
                    assert(left.len() > 0);
                }
            }
        }
        return None;
    }
    let record = PrepareRecord { activation_id, authority, store };
    proof {
        assert(left =~= Seq::<u8>::empty());
        assert(input@ =~= binding_bytes(magic, record@));
    }
    Some(record)
}

/// Reads a record that prepares an activation.
pub fn decode_prepare(bytes: &[u8]) -> (record: Option<PrepareRecord>)
    ensures
        match record {
            Some(found) => bytes@ == prepare_bytes(found@) && is_binding(found@),
            None => forall|any: PrepareView|
                is_binding(any) ==> bytes@ != #[trigger] prepare_bytes(any),
        },
{
    let record = decode_binding(bytes, prepare_heading());
    proof {
        if record is None {
            assert forall|any: PrepareView| is_binding(any) implies bytes@
                != #[trigger] prepare_bytes(any) by {
                assert(bytes@ != binding_bytes(prepare_magic(), any));
            }
        }
    }
    record
}

/// Reads the record of an activation.
pub fn decode_active(bytes: &[u8]) -> (record: Option<ActiveRecord>)
    ensures
        match record {
            Some(found) => bytes@ == active_bytes(found.prepare@) && is_binding(found.prepare@),
            None => forall|any: PrepareView|
                is_binding(any) ==> bytes@ != #[trigger] active_bytes(any),
        },
{
    match decode_binding(bytes, active_heading()) {
        Some(prepare) => Some(ActiveRecord { prepare }),
        None => {
            proof {
                assert forall|any: PrepareView| is_binding(any) implies bytes@
                    != #[trigger] active_bytes(any) by {
                    assert(bytes@ != binding_bytes(active_magic(), any));
                }
            }
            None
        },
    }
}

/// Reads a claim.
pub fn decode_authority(bytes: &[u8]) -> (record: Option<AuthorityRecord>)
    ensures
        match record {
            Some(found) => bytes@ == authority_bytes(found@) && is_storable(found@.selected),
            None => forall|any: ClaimView|
                is_storable(any.selected) ==> bytes@ != #[trigger] authority_bytes(any),
        },
{
    let heading = authority_heading();
    let ghost magic = heading@;
    let selection_id = match take_head(bytes, &heading) {
        Some(id) => id,
        None => {
            proof {
                assert forall|any: ClaimView| is_storable(any.selected) implies bytes@
                    != #[trigger] authority_bytes(any) by {
                    assert(authority_bytes(any) =~= magic + any.selection_id@ + object_bytes(
                        any.selected,
                    ));
                }
            }
            return None;
        },
    };
    let ghost rest = bytes@.skip(40);
    proof {
        assert forall|any: ClaimView| bytes@ == #[trigger] authority_bytes(any) implies rest
            == object_bytes(any.selected) by {
            lemma_cancel(
                magic + selection_id@,
                magic + any.selection_id@,
                rest,
                object_bytes(any.selected),
            );
        }
    }
    let (selected, end) = match take_object(bytes, 40) {
        Some(found) => found,
        None => {
            proof {
                assert forall|any: ClaimView| is_storable(any.selected) implies bytes@
                    != #[trigger] authority_bytes(any) by {
                    if bytes@ == authority_bytes(any) {
                        assert(object_bytes(any.selected) + Seq::<u8>::empty() =~= object_bytes(
                            any.selected,
                        ));
                    }
                }
            }
            return None;
        },
    };
    let ghost left = bytes@.skip(end as int);
    if end != bytes.len() {
        proof {
            assert forall|any: ClaimView| is_storable(any.selected) implies bytes@
                != #[trigger] authority_bytes(any) by {
                if bytes@ == authority_bytes(any) {
                    let nothing = Seq::<u8>::empty();
                    assert(object_bytes(any.selected) + nothing =~= object_bytes(any.selected));
                    lemma_cancel_object(selected@, any.selected, left, nothing);
                    assert(left.len() > 0);
                }
            }
        }
        return None;
    }
    let record = AuthorityRecord { selection_id, selected };
    proof {
        assert(left =~= Seq::<u8>::empty());
        assert(bytes@ =~= authority_bytes(record@));
    }
    Some(record)
}

/// Two preparations with the same bytes are the same, and the record of an
/// activation is never taken for its preparation.
pub proof fn law_records_are_told_apart(first: PrepareView, second: PrepareView)
    requires
        is_binding(first),
        is_binding(second),
    ensures
        prepare_bytes(first) == prepare_bytes(second) ==> first == second,
        active_bytes(first) == active_bytes(second) ==> first == second,
        prepare_bytes(first) != active_bytes(second),
{
    assert(prepare_bytes(first)[4] == 0x50);
    assert(active_bytes(second)[4] == 0x43);
    if prepare_bytes(first) == prepare_bytes(second) {
        lemma_same_binding(prepare_magic(), first, second);
    }
    if active_bytes(first) == active_bytes(second) {
        lemma_same_binding(active_magic(), first, second);
    }
}

/// Under one heading equal bytes are the bytes of one preparation.
proof fn lemma_same_binding(magic: Seq<u8>, first: PrepareView, second: PrepareView)
    requires
        magic.len() == 8,
        is_binding(first),
        is_binding(second),
        binding_bytes(magic, first) == binding_bytes(magic, second),
    ensures
        first == second,
{
    let left = object_bytes(first.authority) + object_bytes(first.store);
    let right = object_bytes(second.authority) + object_bytes(second.store);
    assert(binding_bytes(magic, first) =~= (magic + first.activation_id@) + left);
    assert(binding_bytes(magic, second) =~= (magic + second.activation_id@) + right);
    lemma_cancel(magic + first.activation_id@, magic + second.activation_id@, left, right);
    lemma_cancel(magic, magic, first.activation_id@, second.activation_id@);
    lemma_same_id(first.activation_id, second.activation_id);
    lemma_cancel_object(
        first.authority,
        second.authority,
        object_bytes(first.store),
        object_bytes(second.store),
    );
    let nothing = Seq::<u8>::empty();
    assert(object_bytes(first.store) + nothing =~= object_bytes(first.store));
    assert(object_bytes(second.store) + nothing =~= object_bytes(second.store));
    lemma_cancel_object(first.store, second.store, nothing, nothing);
}

/// Two bound objects are one only where they lie at the same place and are the same
/// object on the same file system.
pub proof fn law_bound_objects_are_compared_in_full(left: BoundView, right: BoundView)
    ensures
        same_object(left, right) <==> components(left.locator) == components(right.locator)
            && left.identity.device == right.identity.device && left.identity.inode
            == right.identity.inode && left.identity.incarnation == right.identity.incarnation
            && left.identity.mount_id == right.identity.mount_id && left.backend == right.backend,
{
}

/// Claims and preparations are the same only where their numbers and everything that
/// they bind are.
pub proof fn law_records_are_compared_in_full(
    left: PrepareView,
    right: PrepareView,
    claim: ClaimView,
    other: ClaimView,
)
    ensures
        same_preparation(left, right) <==> left.activation_id == right.activation_id && same_object(
            left.authority,
            right.authority,
        ) && same_object(left.store, right.store),
        same_claim(claim, other) <==> claim.selection_id == other.selection_id && same_object(
            claim.selected,
            other.selected,
        ),
{
}

} // verus!
