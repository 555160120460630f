//! Manifests with other directory modes.
//!
//! Sealing changes the modes of directories and nothing else. What a manifest
//! is after that is the manifest before it with other modes put in.

use crate::backend::held::manifest::emit_manifest_entry_v3_with_mode;
use crate::backend::held::manifest::is_fingerprint;
use crate::backend::held::manifest::lemma_records_push;
use crate::backend::held::manifest::record_for;
use crate::backend::held::manifest::record_v3_with_mode;
use crate::backend::held::manifest::records_for;
use crate::backend::held::manifest::start_fingerprint_v3;
use crate::backend::held::limits::CONTENT_PROOF_VERSION;
use crate::backend::held::model::entries;
use crate::backend::held::model::EntryView;
use crate::backend::held::model::HeldTreeFingerprint;
use crate::backend::held::model::ManifestEntry;
use crate::backend::held::model::NodeKind;
use crate::backend::held::manifest::manifest_domain_v3;
use crate::bytes::be64;
use crate::digest::absorbed;
use crate::digest::sha256_finalize;
use crate::digest::sha256_update;
use crate::paths::components;
use crate::paths::paths_equal;
use crate::paths::Component;
use vstd::prelude::*;

verus! {

/// The mode of one directory.
#[derive(Debug)]
pub struct DirectoryMode {
    pub path: Vec<u8>,
    pub mode: u32,
}

/// The modes of some directories. Paths with the same components are one path.
#[derive(Debug)]
pub struct DirectoryModes {
    modes: Vec<DirectoryMode>,
}

/// The modes of the first `count` directories of a list.
pub open spec fn modes_of(list: Seq<DirectoryMode>, count: int) -> Map<Seq<Component>, u32>
    decreases count,
{
    if count <= 0 {
        Map::empty()
    } else {
        modes_of(list, count - 1).insert(components(list[count - 1].path@), list[count - 1].mode)
    }
}

/// No path stands twice.
pub open spec fn paths_are_distinct(list: Seq<DirectoryMode>) -> bool {
    forall|i: int, j: int|
        #![trigger list[i], list[j]]
        0 <= i < j < list.len() ==> components(list[i].path@) != components(list[j].path@)
}

/// What a list of distinct paths maps, and how many.
proof fn lemma_modes(list: Seq<DirectoryMode>, count: int)
    requires
        0 <= count <= list.len(),
        paths_are_distinct(list),
    ensures
        modes_of(list, count).dom().finite(),
        modes_of(list, count).len() == count,
        forall|path: Seq<Component>|
            #![trigger modes_of(list, count).dom().contains(path)]
            modes_of(list, count).dom().contains(path) <==> exists|i: int|
                0 <= i < count && components((#[trigger] list[i]).path@) == path,
        forall|i: int|
            #![trigger list[i]]
            0 <= i < count ==> modes_of(list, count).dom().contains(components(list[i].path@))
                && modes_of(list, count)[components(list[i].path@)] == list[i].mode,
    decreases count,
{
    if count > 0 {
        lemma_modes(list, count - 1);
        let last = components(list[count - 1].path@);
        assert(!modes_of(list, count - 1).dom().contains(last));
        assert forall|path: Seq<Component>| #[trigger]
            modes_of(list, count).dom().contains(path) implies exists|i: int|
            0 <= i < count && components((#[trigger] list[i]).path@) == path by {
            if path == last {
                assert(components(list[count - 1].path@) == path);
            } else {
                assert(modes_of(list, count - 1).dom().contains(path));
            }
        }
    }
}

/// Other contents at the first places map the same.
proof fn lemma_modes_extend(list: Seq<DirectoryMode>, longer: Seq<DirectoryMode>, count: int)
    requires
        0 <= count <= list.len() <= longer.len(),
        forall|i: int| 0 <= i < count ==> list[i] == longer[i],
    ensures
        modes_of(list, count) == modes_of(longer, count),
    decreases count,
{
    if count > 0 {
        lemma_modes_extend(list, longer, count - 1);
    }
}

impl View for DirectoryModes {
    type V = Map<Seq<Component>, u32>;

    closed spec fn view(&self) -> Map<Seq<Component>, u32> {
        modes_of(self.modes@, self.modes@.len() as int)
    }
}

impl DirectoryModes {
    #[verifier::type_invariant]
    spec fn is_valid(self) -> bool {
        paths_are_distinct(self.modes@)
    }

    /// No modes.
    pub fn new() -> (modes: Self)
        ensures
            modes@ == Map::<Seq<Component>, u32>::empty(),
    {
        DirectoryModes { modes: Vec::new() }
    }

    /// Where the mode of `path` stands.
    fn position(&self, path: &[u8]) -> (position: Option<usize>)
        ensures
            match position {
                Some(i) => i < self.modes@.len() && components(self.modes@[i as int].path@)
                    == components(path@) && self@.dom().contains(components(path@))
                    && self@[components(path@)] == self.modes@[i as int].mode,
                None => !self@.dom().contains(components(path@)) && forall|i: int|
                    0 <= i < self.modes@.len() ==> components((#[trigger] self.modes@[i]).path@)
                        != components(path@),
            },
    {
        proof {
            use_type_invariant(self);
            lemma_modes(self.modes@, self.modes@.len() as int);
        }
        let mut i: usize = 0;
        while i < self.modes.len()
            invariant
                i <= self.modes@.len(),
                forall|j: int|
                    0 <= j < i ==> components((#[trigger] self.modes@[j]).path@) != components(
                        path@,
                    ),
                forall|j: int|
                    #![trigger self.modes@[j]]
                    0 <= j < self.modes@.len() ==> self@.dom().contains(
                        components(self.modes@[j].path@),
                    ) && self@[components(self.modes@[j].path@)] == self.modes@[j].mode,
            decreases self.modes@.len() - i,
        {
            if paths_equal(self.modes[i].path.as_slice(), path) {
                return Some(i);
            }
            i += 1;
        }
        None
    }

    /// The mode of `path`.
    pub fn get(&self, path: &[u8]) -> (mode: Option<u32>)
        ensures
            mode == if self@.dom().contains(components(path@)) {
                Some(self@[components(path@)])
            } else {
                None
            },
    {
        match self.position(path) {
            Some(i) => Some(self.modes[i].mode),
            None => None,
        }
    }

    /// Sets the mode of `path`.
    pub fn insert(&mut self, path: Vec<u8>, mode: u32)
        ensures
            final(self)@ == old(self)@.insert(components(path@), mode),
    {
        let ghost before = self.modes@;
        let ghost view_before = self@;
        let found = self.position(path.as_slice());
        proof {
            use_type_invariant(&*self);
            lemma_modes(before, before.len() as int);
        }
        let mut modes: Vec<DirectoryMode> = Vec::new();
        std::mem::swap(&mut modes, &mut self.modes);
        match found {
            Some(i) => {
                modes.set(i, DirectoryMode { path, mode });
                proof {
                    assert forall|a: int, b: int|
                        #![trigger modes@[a], modes@[b]]
                        0 <= a < b < modes@.len() implies components(modes@[a].path@)
                            != components(modes@[b].path@) by {
                        assert(components(before[a].path@) != components(before[b].path@));
                    }
                    lemma_modes(modes@, modes@.len() as int);
                    let after = modes_of(modes@, modes@.len() as int);
                    assert forall|key: Seq<Component>|
                        #![trigger after.dom().contains(key)]
                        after.dom().contains(key) == view_before.insert(
                            components(path@),
                            mode,
                        ).dom().contains(key) by {
                        if after.dom().contains(key) && key != components(path@) {
                            let w = choose|n: int|
                                0 <= n < modes@.len() && components(
                                (#[trigger] modes@[n]).path@,
                            ) == key;
                            assert(components(before[w].path@) == key);
                        }
                        if view_before.dom().contains(key) && key != components(path@) {
                            let w = choose|n: int|
                                0 <= n < before.len() && components(
                                (#[trigger] before[n]).path@,
                            ) == key;
                            assert(components(modes@[w].path@) == key);
                        }
                        assert(components(modes@[i as int].path@) == components(path@));
                    }
                    assert forall|key: Seq<Component>| #[trigger]
                        after.dom().contains(key) implies after[key] == view_before.insert(
                        components(path@),
                        mode,
                    )[key] by {
                        let w = choose|n: int|
                            0 <= n < modes@.len() && components(
                                (#[trigger] modes@[n]).path@,
                            ) == key;
                        assert(components(modes@[w].path@) == key);
                        assert(components(modes@[i as int].path@) == components(path@));
                        if w != i {
                            assert(before[w] == modes@[w]);
                            assert(components(before[i as int].path@) == components(path@));
                        }
                    }
                    assert(after =~= view_before.insert(components(path@), mode));
                }
            },
            None => {
                modes.push(DirectoryMode { path, mode });
                proof {
                    assert forall|a: int, b: int|
                        #![trigger modes@[a], modes@[b]]
                        0 <= a < b < modes@.len() implies components(modes@[a].path@)
                            != components(modes@[b].path@) by {
                        if b < before.len() {
                            assert(components(before[a].path@) != components(before[b].path@));
                        } else {
                            assert(components(before[a].path@) != components(path@));
                        }
                    }
                    lemma_modes_extend(before, modes@, before.len() as int);
                }
            },
        }
        self.modes = modes;
    }

    /// How many directories have a mode.
    pub fn len(&self) -> (count: usize)
        ensures
            count == self@.len(),
    {
        proof {
            use_type_invariant(self);
            lemma_modes(self.modes@, self.modes@.len() as int);
        }
        self.modes.len()
    }

    /// The first path that no directory of the manifest has.
    fn unused(&self, manifest: &Vec<ManifestEntry>) -> (unused: bool)
        ensures
            unused == has_unused_mode(entries(manifest@), self@),
    {
        proof {
            use_type_invariant(self);
            lemma_modes(self.modes@, self.modes@.len() as int);
        }
        let mut i: usize = 0;
        while i < self.modes.len()
            invariant
                i <= self.modes@.len(),
                forall|j: int|
                    #![trigger self.modes@[j]]
                    0 <= j < i ==> names_directory(
                        entries(manifest@),
                        components(self.modes@[j].path@),
                    ),
                forall|j: int|
                    #![trigger self.modes@[j]]
                    0 <= j < self.modes@.len() ==> self@.dom().contains(
                        components(self.modes@[j].path@),
                    ),
                forall|path: Seq<Component>|
                    #![trigger self@.dom().contains(path)]
                    self@.dom().contains(path) <==> exists|n: int|
                        0 <= n < self.modes@.len() && components(
                            (#[trigger] self.modes@[n]).path@,
                        ) == path,
            decreases self.modes@.len() - i,
        {
            if !is_directory_name(manifest, self.modes[i].path.as_slice()) {
                assert(self@.dom().contains(components(self.modes@[i as int].path@)));
                return true;
            }
            i += 1;
        }
        proof {
            assert forall|path: Seq<Component>| self@.dom().contains(path) implies #[trigger]
            names_directory(entries(manifest@), path) by {
                let n = choose|n: int|
                    0 <= n < self.modes@.len() && components((#[trigger] self.modes@[n]).path@)
                        == path;
                assert(names_directory(entries(manifest@), components(self.modes@[n].path@)));
            }
        }
        false
    }
}

/// A directory of the manifest has this path.
pub open spec fn names_directory(manifest: Seq<EntryView>, path: Seq<Component>) -> bool {
    exists|i: int|
        0 <= i < manifest.len() && components((#[trigger] manifest[i]).path) == path
            && manifest[i].identity.kind == NodeKind::Directory
}

/// A mode is given for something that is no directory of the manifest.
pub open spec fn has_unused_mode(
    manifest: Seq<EntryView>,
    modes: Map<Seq<Component>, u32>,
) -> bool {
    exists|path: Seq<Component>|
        modes.dom().contains(path) && !#[trigger] names_directory(manifest, path)
}

/// Whether a directory of the manifest has this path.
fn is_directory_name(manifest: &Vec<ManifestEntry>, path: &[u8]) -> (found: bool)
    ensures
        found == names_directory(entries(manifest@), components(path@)),
{
    let ghost list = entries(manifest@);
    let mut i: usize = 0;
    while i < manifest.len()
        invariant
            i <= manifest@.len(),
            list == entries(manifest@),
            forall|j: int|
                0 <= j < i ==> !(components((#[trigger] list[j]).path) == components(path@)
                    && list[j].identity.kind == NodeKind::Directory),
        decreases manifest@.len() - i,
    {
        assert(list[i as int] == manifest@[i as int]@);
        if manifest[i].identity.kind == NodeKind::Directory && paths_equal(
            manifest[i].path.as_slice(),
            path,
        ) {
            return true;
        }
        i += 1;
    }
    false
}

/// How many directories the first `count` entries hold.
pub open spec fn directory_count(manifest: Seq<EntryView>, count: int) -> nat
    decreases count,
{
    if count <= 0 {
        0
    } else if manifest[count - 1].identity.kind == NodeKind::Directory {
        directory_count(manifest, count - 1) + 1
    } else {
        directory_count(manifest, count - 1)
    }
}

/// The path of the first directory that no mode is given for.
pub open spec fn first_without_mode(
    manifest: Seq<EntryView>,
    modes: Map<Seq<Component>, u32>,
    from: int,
) -> Option<Seq<u8>>
    decreases manifest.len() - from,
{
    if from >= manifest.len() {
        None
    } else if manifest[from].identity.kind == NodeKind::Directory && !modes.dom().contains(
        components(manifest[from].path),
    ) {
        Some(manifest[from].path)
    } else {
        first_without_mode(manifest, modes, from + 1)
    }
}

/// The entry with its directory mode put in.
pub open spec fn entry_with_mode(entry: EntryView, modes: Map<Seq<Component>, u32>) -> EntryView {
    if entry.identity.kind == NodeKind::Directory {
        EntryView { mode: modes[components(entry.path)], ..entry }
    } else {
        entry
    }
}

/// The manifest with its directory modes put in.
pub open spec fn manifest_with_modes(
    manifest: Seq<EntryView>,
    modes: Map<Seq<Component>, u32>,
) -> Seq<EntryView> {
    Seq::new(manifest.len(), |i: int| entry_with_mode(manifest[i], modes))
}

/// The manifest with the modes put in one by one.
pub open spec fn manifest_with_mode_list(manifest: Seq<EntryView>, modes: Seq<u32>) -> Seq<
    EntryView,
> {
    Seq::new(manifest.len(), |i: int| EntryView { mode: modes[i], ..manifest[i] })
}

/// The fingerprint of the third schema of the manifest with other modes.
pub fn fingerprint_v3_with_modes(manifest: &Vec<ManifestEntry>, modes: &Vec<u32>) -> (fingerprint:
    HeldTreeFingerprint)
    requires
        modes@.len() == manifest@.len(),
    ensures
        is_fingerprint(
            fingerprint,
            manifest_with_mode_list(entries(manifest@), modes@),
            CONTENT_PROOF_VERSION,
        ),
{
    let count: usize = manifest.len();
    let ghost views = manifest_with_mode_list(entries(manifest@), modes@);
    let ghost start = manifest_domain_v3() + be64(count as u64);
    let mut digest = start_fingerprint_v3(count as u64);
    let mut i: usize = 0;
    proof {
        assert(views.take(0) =~= Seq::<EntryView>::empty());
        assert(absorbed(digest) =~= start + records_for(views.take(0), CONTENT_PROOF_VERSION));
    }
    while i < count
        invariant
            i <= count == manifest@.len() == modes@.len(),
            views == manifest_with_mode_list(entries(manifest@), modes@),
            absorbed(digest) == start + records_for(views.take(i as int), CONTENT_PROOF_VERSION),
        decreases count - i,
    {
        let mut record: Vec<u8> = Vec::new();
        emit_manifest_entry_v3_with_mode(&manifest[i], modes[i], &mut record);
        proof {
            reveal(record_v3_with_mode);
            assert(record@ =~= record_for(views[i as int], CONTENT_PROOF_VERSION));
        }
        sha256_update(&mut digest, &record);
        proof {
            lemma_records_push(views, CONTENT_PROOF_VERSION, i as int);
            assert(absorbed(digest) =~= start + records_for(
                views.take(i + 1),
                CONTENT_PROOF_VERSION,
            ));
        }
        i += 1;
    }
    assert(views.take(i as int) =~= views);
    HeldTreeFingerprint {
        schema_version: CONTENT_PROOF_VERSION,
        entry_count: count as u64,
        sha256: sha256_finalize(digest),
    }
}

/// The modes of the entries of a manifest, with directory modes put in; the
/// path of the first directory without one where there is such a directory.
pub fn substituted_modes(manifest: &Vec<ManifestEntry>, modes: &DirectoryModes) -> (list: Result<
    (Vec<u32>, usize),
    usize,
>)
    ensures
        match list {
            Ok((list, count)) => {
                &&& first_without_mode(entries(manifest@), modes@, 0) is None
                &&& list@.len() == manifest@.len()
                &&& manifest_with_mode_list(entries(manifest@), list@) == manifest_with_modes(
                    entries(manifest@),
                    modes@,
                )
                &&& count == directory_count(entries(manifest@), manifest@.len() as int)
            },
            Err(i) => i < manifest@.len() && first_without_mode(entries(manifest@), modes@, 0)
                == Some(manifest@[i as int].path@),
        },
{
    let ghost views = entries(manifest@);
    let mut list: Vec<u32> = Vec::new();
    let mut count: usize = 0;
    let mut i: usize = 0;
    while i < manifest.len()
        invariant
            i <= manifest@.len(),
            views == entries(manifest@),
            list@.len() == i,
            count <= i,
            count == directory_count(views, i as int),
            first_without_mode(views, modes@, 0) == first_without_mode(views, modes@, i as int),
            forall|j: int|
                0 <= j < i ==> (#[trigger] list@[j]) == entry_with_mode(views[j], modes@).mode,
        decreases manifest@.len() - i,
    {
        assert(views[i as int] == manifest@[i as int]@);
        if manifest[i].identity.kind == NodeKind::Directory {
            match modes.get(manifest[i].path.as_slice()) {
                Some(mode) => list.push(mode),
                None => {
                    return Err(i);
                },
            }
            count += 1;
        } else {
            list.push(manifest[i].mode);
        }
        i += 1;
    }
    proof {
        assert(manifest_with_mode_list(views, list@) =~= manifest_with_modes(views, modes@)) by {
            assert forall|j: int| 0 <= j < views.len() implies (#[trigger] manifest_with_mode_list(
                views,
                list@,
            )[j]) == manifest_with_modes(views, modes@)[j] by {
                assert(list@[j] == entry_with_mode(views[j], modes@).mode);
            }
        }
    }
    Ok((list, count))
}

/// Whether a mode is given for something that is no directory of the manifest.
pub fn mode_is_unused(manifest: &Vec<ManifestEntry>, modes: &DirectoryModes) -> (unused: bool)
    ensures
        unused == has_unused_mode(entries(manifest@), modes@),
{
    modes.unused(manifest)
}

/// Putting in the modes that the directories have changes nothing.
pub proof fn law_recorded_modes_change_nothing(
    manifest: Seq<EntryView>,
    modes: Map<Seq<Component>, u32>,
)
    requires
        forall|i: int|
            0 <= i < manifest.len() && (#[trigger] manifest[i]).identity.kind
                == NodeKind::Directory ==> modes[components(manifest[i].path)] == manifest[i].mode,
    ensures
        manifest_with_modes(manifest, modes) == manifest,
{
    assert(manifest_with_modes(manifest, modes) =~= manifest);
}

/// The modes put in last stay: what was put in before leaves no trace.
pub proof fn law_last_modes_stay(
    manifest: Seq<EntryView>,
    first: Map<Seq<Component>, u32>,
    second: Map<Seq<Component>, u32>,
)
    ensures
        manifest_with_modes(manifest_with_modes(manifest, first), second) == manifest_with_modes(
            manifest,
            second,
        ),
{
    assert(manifest_with_modes(manifest_with_modes(manifest, first), second)
        =~= manifest_with_modes(manifest, second));
}

/// Putting modes in changes the modes of directories, to those given, and nothing
/// else of any entry.
pub proof fn law_only_directory_modes_are_put_in(
    manifest: Seq<EntryView>,
    modes: Map<Seq<Component>, u32>,
    i: int,
)
    requires
        0 <= i < manifest.len(),
    ensures
        manifest_with_modes(manifest, modes).len() == manifest.len(),
        ({
            let (before, after) = (manifest[i], manifest_with_modes(manifest, modes)[i]);
            &&& after.path == before.path
            &&& after.identity == before.identity
            &&& after.uid == before.uid
            &&& after.gid == before.gid
            &&& after.content == before.content
            &&& before.identity.kind == NodeKind::Directory ==> after.mode == modes[components(
                before.path,
            )]
            &&& before.identity.kind != NodeKind::Directory ==> after.mode == before.mode
        }),
{
}

/// Every directory of the manifest has a mode, or the first that has none is named.
pub proof fn law_every_directory_needs_a_mode(
    manifest: Seq<EntryView>,
    modes: Map<Seq<Component>, u32>,
    from: int,
)
    requires
        0 <= from <= manifest.len(),
    ensures
        first_without_mode(manifest, modes, from) is None <==> forall|i: int|
            from <= i < manifest.len() && (#[trigger] manifest[i]).identity.kind
                == NodeKind::Directory ==> modes.dom().contains(components(manifest[i].path)),
    decreases manifest.len() - from,
{
    if from < manifest.len() {
        law_every_directory_needs_a_mode(manifest, modes, from + 1);
        let here = manifest[from];
        if first_without_mode(manifest, modes, from) is None {
            assert forall|i: int|
                from <= i < manifest.len() && (#[trigger] manifest[i]).identity.kind
                    == NodeKind::Directory implies modes.dom().contains(
                components(manifest[i].path),
            ) by {
                if i > from {
                }
            }
        }
    }
}

} // verus!
