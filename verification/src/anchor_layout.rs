//! Where the anchor of a store's activation lies.
//!
//! The path is made of the same components whether the anchor is looked for or
//! made, so that the two cannot drift apart.

use crate::paths::is_absolute;
use crate::paths::push_path;
use crate::paths::pushed;
use crate::paths::SLASH;
use vstd::prelude::*;
use vstd::utf8::encode_utf8;

verus! {

/// The systems on which an anchor can lie.
#[derive(Clone, Copy, Debug, PartialEq, Eq, Structural)]
pub enum AnchorPlatform {
    Linux,
    MacOs,
}

/// Why the root of an account's own anchor is not known.
#[derive(Clone, Copy, Debug, PartialEq, Eq, Structural)]
pub enum SelfAnchorRootError {
    /// The account database could not be asked.
    Lookup(i32),
    /// The account database does not know the account.
    AccountMissing,
    /// The home of the account is empty or depends on the working directory.
    HomeNotAbsolute,
}

/// The directories that the system provides.
pub open spec fn os_prefix(platform: AnchorPlatform) -> Seq<Seq<char>> {
    match platform {
        AnchorPlatform::Linux => seq!["var"@, "lib"@],
        AnchorPlatform::MacOs => seq!["private"@, "var"@, "db"@],
    }
}

/// The directories of an account in which state is kept.
pub open spec fn self_state() -> Seq<Seq<char>> {
    seq![".local"@, "state"@]
}

/// The directories that are made for anchors.
pub open spec fn product() -> Seq<Seq<char>> {
    seq!["degu"@, "store-activation"@]
}

/// The texts of a list.
pub open spec fn component_texts(list: Seq<&'static str>) -> Seq<Seq<char>> {
    Seq::new(list.len(), |i: int| list[i]@)
}

/// The directories that the system provides.
pub fn os_prefix_components(platform: AnchorPlatform) -> (components: Vec<&'static str>)
    ensures
        component_texts(components@) == os_prefix(platform),
{
    let components = match platform {
        AnchorPlatform::Linux => vec!["var", "lib"],
        AnchorPlatform::MacOs => vec!["private", "var", "db"],
    };
    assert(component_texts(components@) =~= os_prefix(platform));
    components
}

/// The directories that are made for anchors.
pub fn product_components() -> (components: Vec<&'static str>)
    ensures
        component_texts(components@) == product(),
{
    let components = vec!["degu", "store-activation"];
    assert(component_texts(components@) =~= product());
    components
}

fn self_state_components() -> (components: Vec<&'static str>)
    ensures
        component_texts(components@) == self_state(),
{
    let components = vec![".local", "state"];
    assert(component_texts(components@) =~= self_state());
    components
}

/// The first `count` components followed from `base`.
pub open spec fn followed(base: Seq<u8>, components: Seq<Seq<char>>, count: int) -> Seq<u8>
    decreases count,
{
    if count <= 0 {
        base
    } else {
        pushed(followed(base, components, count - 1), encode_utf8(components[count - 1]))
    }
}

/// All components followed from `base`.
pub open spec fn followed_all(base: Seq<u8>, components: Seq<Seq<char>>) -> Seq<u8> {
    followed(base, components, components.len() as int)
}

/// Follows components from a path.
fn follow(base: Vec<u8>, components: Vec<&'static str>) -> (path: Vec<u8>)
    ensures
        path@ == followed_all(base@, component_texts(components@)),
{
    let ghost start = base@;
    let ghost texts = component_texts(components@);
    let mut path = base;
    let mut i: usize = 0;
    while i < components.len()
        invariant
            i <= components@.len(),
            texts == component_texts(components@),
            path@ == followed(start, texts, i as int),
        decreases components@.len() - i,
    {
        path = push_path(path.as_slice(), components[i].as_bytes());
        i += 1;
    }
    path
}

/// The root of the anchors of a system.
pub open spec fn system_root(platform: AnchorPlatform) -> Seq<u8> {
    followed_all(followed_all(seq![SLASH], os_prefix(platform)), product())
}

/// The directory that holds an anchor for each account.
pub fn system_anchor_root(platform: AnchorPlatform) -> (path: Vec<u8>)
    ensures
        path@ == system_root(platform),
{
    let start = vec![SLASH];
    assert(start@ =~= seq![SLASH]);
    follow(follow(start, os_prefix_components(platform)), product_components())
}

/// The root of an account's own anchor.
pub open spec fn self_root(home: Seq<u8>) -> Seq<u8> {
    followed_all(followed_all(home, self_state()), product())
}

/// The directory that holds an account's own anchor, given what the account
/// database says of its home.
pub fn self_anchor_root(home: Result<Option<Vec<u8>>, i32>) -> (path: Result<
    Vec<u8>,
    SelfAnchorRootError,
>)
    ensures
        match home {
            Err(errno) => path == Err::<Vec<u8>, SelfAnchorRootError>(
                SelfAnchorRootError::Lookup(errno),
            ),
            Ok(None) => path == Err::<Vec<u8>, SelfAnchorRootError>(
                SelfAnchorRootError::AccountMissing,
            ),
            Ok(Some(home)) => if is_absolute(home@) {
                path matches Ok(root) && root@ == self_root(home@)
            } else {
                path == Err::<Vec<u8>, SelfAnchorRootError>(SelfAnchorRootError::HomeNotAbsolute)
            },
        },
{
    let home = match home {
        Err(errno) => {
            return Err(SelfAnchorRootError::Lookup(errno));
        },
        Ok(None) => {
            return Err(SelfAnchorRootError::AccountMissing);
        },
        Ok(Some(home)) => home,
    };
    if home.len() == 0 || home[0] != SLASH {
        return Err(SelfAnchorRootError::HomeNotAbsolute);
    }
    Ok(follow(follow(home, self_state_components()), product_components()))
}

/// The shortest buffer for an entry of the account database.
pub const MIN_PASSWD_BUFFER_BYTES: usize = 1024;

/// How large a buffer for an entry of the account database is at first, given
/// what the system suggests.
pub fn first_passwd_buffer(suggested: i64) -> (size: usize)
    ensures
        size == if suggested <= MIN_PASSWD_BUFFER_BYTES || suggested > usize::MAX {
            MIN_PASSWD_BUFFER_BYTES as int
        } else {
            suggested as int
        },
{
    if suggested <= 1024 || suggested as u64 > usize::MAX as u64 {
        MIN_PASSWD_BUFFER_BYTES
    } else {
        suggested as usize
    }
}

/// What an attempt to read the account database came to.
#[derive(Clone, Copy, Debug, PartialEq, Eq, Structural)]
pub enum PasswdStep {
    /// Try again with a buffer of this size.
    Grow(usize),
    /// It failed.
    Failed(i32),
    /// The account is not known.
    Missing,
    /// The entry was read.
    Found,
}

/// The error number of a buffer that is too small.
pub const BUFFER_TOO_SMALL: i32 = 34;

/// The error number of memory that ran out.
pub const OUT_OF_MEMORY: i32 = 12;

/// The error number of an entry that makes no sense.
pub const INVALID_ENTRY: i32 = 22;

/// What an attempt to read the account database that did not fail shows.
#[derive(Clone, Copy, Debug, PartialEq, Eq, Structural)]
pub enum PasswdEntry {
    /// No entry.
    Absent,
    /// An entry that names no home at all.
    Homeless,
    /// An entry that names a home, be it an empty one.
    Complete,
}

/// Decides how to go on after an attempt to read the account database with a
/// buffer of `size` bytes.
pub fn passwd_step(status: i32, entry: PasswdEntry, size: usize) -> (step: PasswdStep)
    ensures
        step == if status == BUFFER_TOO_SMALL {
            if 2 * size > usize::MAX {
                PasswdStep::Failed(OUT_OF_MEMORY)
            } else {
                PasswdStep::Grow((2 * size) as usize)
            }
        } else if status != 0 {
            PasswdStep::Failed(status)
        } else {
            match entry {
                PasswdEntry::Absent => PasswdStep::Missing,
                PasswdEntry::Homeless => PasswdStep::Failed(INVALID_ENTRY),
                PasswdEntry::Complete => PasswdStep::Found,
            }
        },
{
    if status == BUFFER_TOO_SMALL {
        return match size.checked_mul(2) {
            Some(larger) => PasswdStep::Grow(larger),
            None => PasswdStep::Failed(OUT_OF_MEMORY),
        };
    }
    if status != 0 {
        return PasswdStep::Failed(status);
    }
    match entry {
        PasswdEntry::Absent => PasswdStep::Missing,
        PasswdEntry::Homeless => PasswdStep::Failed(INVALID_ENTRY),
        PasswdEntry::Complete => PasswdStep::Found,
    }
}

/// An account's own anchor never lies where the system's anchors lie unless its
/// home does: its root starts with the home.
pub proof fn law_self_root_lies_in_the_home(home: Seq<u8>)
    requires
        is_absolute(home),
    ensures
        self_root(home).len() >= home.len(),
        self_root(home).take(home.len() as int) == home,
{
    reveal_strlit(".local");
    reveal_strlit("state");
    reveal_strlit("degu");
    reveal_strlit("store-activation");
    lemma_followed_extends(home, self_state(), 2);
    let state = followed_all(home, self_state());
    lemma_followed_extends(state, product(), 2);
    assert(self_root(home).take(home.len() as int) =~= home) by {
        assert(self_root(home).take(state.len() as int).take(home.len() as int) =~= self_root(
            home,
        ).take(home.len() as int));
    }
}

/// Following relative components extends a path.
proof fn lemma_followed_extends(base: Seq<u8>, components: Seq<Seq<char>>, count: int)
    requires
        0 <= count <= components.len(),
        base.len() > 0,
        forall|i: int|
            0 <= i < components.len() ==> (#[trigger] components[i]).len() > 0 && components[i][0]
                != '/' && components[i][0] as u32 <= 0x7f,
    ensures
        followed(base, components, count).len() >= base.len(),
        followed(base, components, count).take(base.len() as int) == base,
    decreases count,
{
    if count > 0 {
        lemma_followed_extends(base, components, count - 1);
        let before = followed(base, components, count - 1);
        let next = components[count - 1];
        lemma_relative(next);
        let after = followed(base, components, count);
        assert(after.take(base.len() as int) =~= before.take(base.len() as int));
    } else {
        assert(base.take(base.len() as int) =~= base);
    }
}

/// A text that does not start with a slash does not start with its byte.
proof fn lemma_relative(text: Seq<char>)
    requires
        text.len() > 0,
        text[0] != '/',
        text[0] as u32 <= 0x7f,
    ensures
        !is_absolute(encode_utf8(text)),
{
    let first = text[0] as u32;
    lemma_not_a_slash(text[0]);
    assert((first & 0x7f) as u8 != 0x2f) by (bit_vector)
        requires
            first <= 0x7f,
            first != 0x2f,
    ;
    assert(encode_utf8(text)[0] == vstd::utf8::encode_scalar(first)[0]);
}

/// Only the slash has its number.
proof fn lemma_not_a_slash(letter: char)
    requires
        letter != '/',
    ensures
        letter as u32 != 0x2f,
{
}

} // verus!
