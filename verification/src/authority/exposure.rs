//! Who can write, and how far: the exposure of a mutation unit.

use crate::authority::principal::lemma_principal_words_prefix;
use crate::authority::principal::principal_words;
use crate::authority::principal::Principal;
use crate::authority::principal::PrincipalView;
use crate::authority::AuthorityBackend;
use crate::authority::AuthorityControlRights;
use crate::authority::AuthorityScope;
use crate::authority::EvidenceCertainty;
use crate::authority::MutationUnitId;
use crate::authority::NamespaceRights;
use crate::authority::ObjectFileType;
use crate::order::compare_words;
use crate::order::lemma_insert_keeps_order;
use crate::order::lemma_words_asymmetric;
use crate::order::lemma_words_transitive;
use crate::order::strictly_increasing;
use crate::order::words_less;
use crate::paths::PathOrder;
use vstd::prelude::*;

verus! {

/// What an exposure is about.
#[derive(Debug, PartialEq, Eq, PartialOrd, Ord)]
pub struct ExposureKey {
    pub mutation_unit_id: MutationUnitId,
    pub scope: AuthorityScope,
    pub principal: Principal,
    pub backend: AuthorityBackend,
}

/// The content of an [`ExposureKey`].
#[verifier::ext_equal]
pub struct ExposureKeyView {
    pub mutation_unit_id: MutationUnitId,
    pub scope: AuthorityScope,
    pub principal: PrincipalView,
    pub backend: AuthorityBackend,
}

impl View for ExposureKey {
    type V = ExposureKeyView;

    open spec fn view(&self) -> ExposureKeyView {
        ExposureKeyView {
            mutation_unit_id: self.mutation_unit_id,
            scope: self.scope,
            principal: self.principal@,
            backend: self.backend,
        }
    }
}

impl Clone for ExposureKey {
    fn clone(&self) -> (copy: Self)
        ensures
            copy@ == self@,
    {
        ExposureKey {
            mutation_unit_id: self.mutation_unit_id,
            scope: self.scope,
            principal: self.principal.clone(),
            backend: self.backend,
        }
    }
}

/// Where a file type stands among the file types.
pub open spec fn file_type_word(file_type: ObjectFileType) -> u64 {
    match file_type {
        ObjectFileType::Directory => 0,
        ObjectFileType::RegularFile => 1,
        ObjectFileType::Symlink => 2,
        ObjectFileType::Other => 3,
    }
}

/// The words that a scope is ordered by.
pub open spec fn scope_words(scope: AuthorityScope) -> Seq<u64> {
    match scope {
        AuthorityScope::RootBinding => seq![0u64],
        AuthorityScope::WholeMutationUnit => seq![1u64],
        AuthorityScope::Directory(id) => seq![
            2u64,
            id.mount_id.0,
            id.device,
            id.inode,
            file_type_word(id.file_type),
        ],
    }
}

/// Where a backend stands among the backends.
pub open spec fn backend_word(backend: AuthorityBackend) -> u64 {
    match backend {
        AuthorityBackend::PosixMode => 0,
        AuthorityBackend::LinuxPosixAcl => 1,
        AuthorityBackend::MacOsAcl => 2,
        AuthorityBackend::Nfs4Acl => 3,
        AuthorityBackend::Unknown => 4,
    }
}

/// The words that a key is ordered by: unit, scope, principal, backend.
pub open spec fn key_words(key: ExposureKeyView) -> Seq<u64> {
    seq![key.mutation_unit_id.0] + (scope_words(key.scope) + (principal_words(key.principal)
        + seq![backend_word(key.backend)]))
}

/// The words of a scope, whatever follows them, tell which it is.
proof fn lemma_scope_words_prefix(
    left: AuthorityScope,
    left_rest: Seq<u64>,
    right: AuthorityScope,
    right_rest: Seq<u64>,
)
    requires
        scope_words(left) + left_rest == scope_words(right) + right_rest,
    ensures
        left == right,
        left_rest == right_rest,
{
    let a = scope_words(left) + left_rest;
    let b = scope_words(right) + right_rest;
    assert(a[0] == scope_words(left)[0]);
    assert(b[0] == scope_words(right)[0]);
    if let (AuthorityScope::Directory(one), AuthorityScope::Directory(other)) = (left, right) {
        assert(a[1] == one.mount_id.0 && b[1] == other.mount_id.0);
        assert(a[2] == one.device && b[2] == other.device);
        assert(a[3] == one.inode && b[3] == other.inode);
        assert(a[4] == file_type_word(one.file_type) && b[4] == file_type_word(other.file_type));
    }
    let n = scope_words(left).len() as int;
    assert(left == right);
    assert(left_rest =~= a.skip(n));
    assert(right_rest =~= b.skip(n));
}

/// Different keys have different words.
pub proof fn lemma_key_words_injective(left: ExposureKeyView, right: ExposureKeyView)
    requires
        key_words(left) == key_words(right),
    ensures
        left == right,
{
    let left_tail = principal_words(left.principal) + seq![backend_word(left.backend)];
    let right_tail = principal_words(right.principal) + seq![backend_word(right.backend)];
    assert(key_words(left)[0] == left.mutation_unit_id.0);
    assert(key_words(right)[0] == right.mutation_unit_id.0);
    assert(scope_words(left.scope) + left_tail =~= key_words(left).skip(1));
    assert(scope_words(right.scope) + right_tail =~= key_words(right).skip(1));
    lemma_scope_words_prefix(left.scope, left_tail, right.scope, right_tail);
    lemma_principal_words_prefix(
        left.principal,
        seq![backend_word(left.backend)],
        right.principal,
        seq![backend_word(right.backend)],
    );
    assert(seq![backend_word(left.backend)][0] == seq![backend_word(right.backend)][0]);
}

impl ExposureKey {
    /// The words that the key is ordered by.
    pub fn words(&self) -> (words: Vec<u64>)
        ensures
            words@ == key_words(self@),
    {
        let mut words: Vec<u64> = Vec::new();
        words.push(self.mutation_unit_id.0);
        match self.scope {
            AuthorityScope::RootBinding => {
                words.push(0);
            },
            AuthorityScope::WholeMutationUnit => {
                words.push(1);
            },
            AuthorityScope::Directory(id) => {
                words.push(2);
                words.push(id.mount_id.0);
                words.push(id.device);
                words.push(id.inode);
                words.push(
                    match id.file_type {
                        ObjectFileType::Directory => 0,
                        ObjectFileType::RegularFile => 1,
                        ObjectFileType::Symlink => 2,
                        ObjectFileType::Other => 3,
                    },
                );
            },
        }
        assert(words@ =~= seq![self.mutation_unit_id.0] + scope_words(self.scope));
        self.principal.append_words(&mut words);
        words.push(
            match self.backend {
                AuthorityBackend::PosixMode => 0,
                AuthorityBackend::LinuxPosixAcl => 1,
                AuthorityBackend::MacOsAcl => 2,
                AuthorityBackend::Nfs4Acl => 3,
                AuthorityBackend::Unknown => 4,
            },
        );
        assert(words@ =~= key_words(self@));
        words
    }
}

/// How far an exposure goes.
#[derive(Clone, Copy, Debug, PartialEq, Eq, Structural)]
pub struct ExposureValue {
    pub rights: NamespaceRights,
    pub control_rights: AuthorityControlRights,
    pub certainty: EvidenceCertainty,
}

impl ExposureValue {
    /// No more rights than `confirmed`, and evidence at least as sure.
    pub open spec fn no_wider(self, confirmed: Self) -> bool {
        &&& self.rights.within(confirmed.rights)
        &&& self.control_rights.within(confirmed.control_rights)
        &&& self.certainty.no_weaker(confirmed.certainty)
    }

    /// The rights of both, as sure as the less sure of the two.
    #[verifier::opaque]
    pub open spec fn joined(self, other: Self) -> Self {
        ExposureValue {
            rights: self.rights.joined(other.rights),
            control_rights: self.control_rights.joined(other.control_rights),
            certainty: self.certainty.weaker_of(other.certainty),
        }
    }

    /// Whether `self` fits within `confirmed`.
    pub fn is_no_wider_than(self, confirmed: Self) -> (fits: bool)
        ensures
            fits == self.no_wider(confirmed),
            fits <==> {
                &&& self.rights.create_file ==> confirmed.rights.create_file
                &&& self.rights.create_dir ==> confirmed.rights.create_dir
                &&& self.rights.delete_child ==> confirmed.rights.delete_child
                &&& self.rights.replace_child ==> confirmed.rights.replace_child
                &&& self.rights.traverse ==> confirmed.rights.traverse
                &&& self.control_rights.change_mode ==> confirmed.control_rights.change_mode
                &&& self.control_rights.change_acl ==> confirmed.control_rights.change_acl
                &&& self.control_rights.replace_binding
                    ==> confirmed.control_rights.replace_binding
                &&& self.certainty == EvidenceCertainty::Verified || (self.certainty
                    == EvidenceCertainty::Inferred && confirmed.certainty
                    == EvidenceCertainty::Inferred)
                &&& confirmed.certainty != EvidenceCertainty::Unknown
            },
    {
        self.rights.is_subset_of(confirmed.rights) && self.control_rights.is_subset_of(
            confirmed.control_rights,
        ) && self.certainty.is_no_weaker_than(confirmed.certainty)
    }

    /// The rights of both, as sure as the less sure of the two.
    pub fn union(self, other: Self) -> (both: Self)
        ensures
            both == self.joined(other),
    {
        reveal(ExposureValue::joined);
        ExposureValue {
            rights: self.rights.union(other.rights),
            control_rights: self.control_rights.union(other.control_rights),
            certainty: self.certainty.least(other.certainty),
        }
    }
}

/// One exposure of a set.
#[verifier::ext_equal]
pub struct Exposure {
    pub key: ExposureKeyView,
    pub value: ExposureValue,
}

/// The words of the keys of a list of exposures.
pub open spec fn exposure_words(list: Seq<Exposure>) -> Seq<Seq<u64>> {
    Seq::new(list.len(), |i: int| key_words(list[i].key))
}

/// The exposures as a map from what they are about to how far they go.
pub open spec fn exposure_map(list: Seq<Exposure>) -> Map<ExposureKeyView, ExposureValue>
    decreases list.len(),
{
    if list.len() == 0 {
        Map::empty()
    } else {
        exposure_map(list.drop_last()).insert(list.last().key, list.last().value)
    }
}

/// The map with one more exposure: what is there already is widened.
pub open spec fn with_exposure(
    map: Map<ExposureKeyView, ExposureValue>,
    key: ExposureKeyView,
    value: ExposureValue,
) -> Map<ExposureKeyView, ExposureValue> {
    if map.dom().contains(key) {
        map.insert(key, map[key].joined(value))
    } else {
        map.insert(key, value)
    }
}

/// `actual` fits within `confirmed`: the same unit, principal and backend, all
/// of them known, in a scope that `confirmed` covers, and no more rights.
pub open spec fn fits_within(actual: Exposure, confirmed: Exposure) -> bool {
    &&& confirmed.key.principal != PrincipalView::Unknown
    &&& confirmed.key.backend != AuthorityBackend::Unknown
    &&& actual.key.mutation_unit_id == confirmed.key.mutation_unit_id
    &&& actual.key.principal == confirmed.key.principal
    &&& actual.key.backend == confirmed.key.backend
    &&& actual.key.scope.inside(confirmed.key.scope)
    &&& actual.value.no_wider(confirmed.value)
}

/// Some exposure of `confirmed` covers `actual`.
pub open spec fn is_covered(actual: Exposure, confirmed: Seq<Exposure>) -> bool {
    exists|j: int| 0 <= j < confirmed.len() && fits_within(actual, #[trigger] confirmed[j])
}

/// Every exposure of `actual` is covered by one of `confirmed`.
pub open spec fn set_no_wider(actual: Seq<Exposure>, confirmed: Seq<Exposure>) -> bool {
    forall|i: int| 0 <= i < actual.len() ==> is_covered(#[trigger] actual[i], confirmed)
}

/// The exposures of a mutation unit, one for each key, in the order of the
/// keys.
#[derive(Debug, PartialEq, Eq)]
pub struct WriterExposureSet {
    entries: Vec<(ExposureKey, ExposureValue)>,
}

/// The contents of a list of entries.
pub open spec fn entry_views(entries: Seq<(ExposureKey, ExposureValue)>) -> Seq<Exposure> {
    Seq::new(entries.len(), |i: int| Exposure { key: entries[i].0@, value: entries[i].1 })
}

impl View for WriterExposureSet {
    type V = Seq<Exposure>;

    /// The exposures in the order of their keys.
    closed spec fn view(&self) -> Seq<Exposure> {
        entry_views(self.entries@)
    }
}

impl Clone for WriterExposureSet {
    fn clone(&self) -> (copy: Self)
        ensures
            copy@ == self@,
    {
        proof {
            use_type_invariant(self);
        }
        let mut entries: Vec<(ExposureKey, ExposureValue)> = Vec::new();
        let mut i: usize = 0;
        while i < self.entries.len()
            invariant
                i <= self.entries@.len(),
                entry_views(entries@) == entry_views(self.entries@).take(i as int),
            decreases self.entries@.len() - i,
        {
            let ghost before = entry_views(entries@);
            let ghost next = Exposure {
                key: self.entries@[i as int].0@,
                value: self.entries@[i as int].1,
            };
            entries.push((self.entries[i].0.clone(), self.entries[i].1));
            assert(entry_views(entries@) =~= before.push(next));
            assert(entry_views(self.entries@).take(i + 1) =~= before.push(next));
            i += 1;
        }
        assert(entry_views(entries@) =~= entry_views(self.entries@));
        WriterExposureSet { entries }
    }
}

impl Default for WriterExposureSet {
    fn default() -> (set: Self)
        ensures
            set@.len() == 0,
    {
        WriterExposureSet { entries: Vec::new() }
    }
}

/// What a list of exposures says of a key that stands in it.
proof fn lemma_map_of_list(list: Seq<Exposure>)
    requires
        strictly_increasing(exposure_words(list)),
    ensures
        forall|i: int|
            0 <= i < list.len() ==> exposure_map(list).dom().contains((#[trigger] list[i]).key)
                && exposure_map(list)[list[i].key] == list[i].value,
        forall|k: ExposureKeyView| #[trigger]
            exposure_map(list).dom().contains(k) ==> exists|i: int|
                0 <= i < list.len() && (#[trigger] list[i]).key == k,
    decreases list.len(),
{
    if list.len() > 0 {
        let less = list.drop_last();
        let words = exposure_words(list);
        assert(exposure_words(less) =~= words.drop_last());
        assert forall|i: int, j: int|
            #![trigger exposure_words(less)[i], exposure_words(less)[j]]
            0 <= i < j < exposure_words(less).len() implies words_less(
            exposure_words(less)[i],
            exposure_words(less)[j],
        ) by {
            assert(words_less(words[i], words[j]));
        }
        lemma_map_of_list(less);
        let last = list.len() - 1;
        assert forall|i: int| 0 <= i < list.len() implies exposure_map(list).dom().contains(
            (#[trigger] list[i]).key,
        ) && exposure_map(list)[list[i].key] == list[i].value by {
            if i < last {
                assert(less[i] == list[i]);
                assert(words_less(words[i], words[last]));
                lemma_words_asymmetric(words[i], words[last]);
                assert(list[i].key != list[last].key);
            }
        }
        assert forall|k: ExposureKeyView| #[trigger]
            exposure_map(list).dom().contains(k) implies exists|i: int|
            0 <= i < list.len() && (#[trigger] list[i]).key == k by {
            if k == list[last].key {
            } else {
                assert(exposure_map(less).dom().contains(k));
                let i = choose|i: int| 0 <= i < less.len() && (#[trigger] less[i]).key == k;
                assert(list[i].key == k);
            }
        }
    }
}

/// Putting an exposure at its place, or in the place of the one with its key,
/// sets its key in the map.
#[verifier::spinoff_prover]
proof fn lemma_map_after(
    before: Seq<Exposure>,
    after: Seq<Exposure>,
    new: Exposure,
    at: int,
    inserted: bool,
)
    requires
        strictly_increasing(exposure_words(before)),
        strictly_increasing(exposure_words(after)),
        0 <= at <= before.len(),
        !inserted ==> at < before.len() && before[at].key == new.key && after == before.update(
            at,
            new,
        ),
        inserted ==> after == before.insert(at, new),
    ensures
        exposure_map(after) == exposure_map(before).insert(new.key, new.value),
{
    lemma_map_of_list(before);
    lemma_map_of_list(after);
    let old_map = exposure_map(before);
    let new_map = exposure_map(after);
    let want = old_map.insert(new.key, new.value);
    assert(after[at] == new);
    assert forall|i: int| 0 <= i < after.len() && i != at implies (#[trigger] after[i]).key
        != new.key && old_map.dom().contains(after[i].key) && old_map[after[i].key]
        == after[i].value by {
        let source = if inserted && i > at {
            i - 1
        } else {
            i
        };
        assert(before[source] == after[i]);
        let words = exposure_words(after);
        if i < at {
            assert(words_less(words[i], words[at]));
            lemma_words_asymmetric(words[i], words[at]);
        } else {
            assert(words_less(words[at], words[i]));
            lemma_words_asymmetric(words[at], words[i]);
        }
    }
    assert forall|k: ExposureKeyView| #[trigger] want.dom().contains(k) implies
        new_map.dom().contains(k) by {
        if k == new.key {
            assert(new_map.dom().contains(after[at].key));
        } else {
            assert(old_map.dom().contains(k));
            let i = choose|i: int| 0 <= i < before.len() && (#[trigger] before[i]).key == k;
            let target = if inserted && i >= at {
                i + 1
            } else {
                i
            };
            assert(after[target].key == k);
        }
    }
    assert forall|k: ExposureKeyView| #[trigger] new_map.dom().contains(k) implies
        want.dom().contains(k) && new_map[k] == want[k] by {
        let i = choose|i: int| 0 <= i < after.len() && (#[trigger] after[i]).key == k;
        assert(new_map[after[i].key] == after[i].value);
    }
    assert(new_map =~= want);
}

impl WriterExposureSet {
    /// The keys strictly increase, so none stands twice.
    #[verifier::type_invariant]
    spec fn is_ordered(self) -> bool {
        strictly_increasing(exposure_words(entry_views(self.entries@)))
    }

    /// Adds an exposure; one with the same key is widened by it.
    pub fn insert(&mut self, key: ExposureKey, value: ExposureValue)
        ensures
            strictly_increasing(exposure_words(final(self)@)),
            exposure_map(final(self)@) == with_exposure(exposure_map(old(self)@), key@, value),
    {
        proof {
            use_type_invariant(&*self);
        }
        let words = key.words();
        let ghost before = self@;
        let ghost keys = exposure_words(before);
        let mut i: usize = 0;
        while i < self.entries.len()
            invariant
                i <= self.entries@.len(),
                before == self@,
                before == entry_views(self.entries@),
                keys == exposure_words(before),
                strictly_increasing(keys),
                words@ == key_words(key@),
                forall|n: int| 0 <= n < i ==> words_less(#[trigger] keys[n], words@),
                *self == *old(self),
            decreases self.entries@.len() - i,
        {
            let here = self.entries[i].0.words();
            assert(keys[i as int] == here@);
            match compare_words(&here, &words) {
                PathOrder::Less => {},
                PathOrder::Equal => {
                    let wider = self.entries[i].1.union(value);
                    proof {
                        lemma_key_words_injective(before[i as int].key, key@);
                    }
                    let mut entries: Vec<(ExposureKey, ExposureValue)> = Vec::new();
                    std::mem::swap(&mut entries, &mut self.entries);
                    entries.set(i, (key, wider));
                    proof {
                        let after = entry_views(entries@);
                        assert(after =~= before.update(
                            i as int,
                            Exposure { key: key@, value: before[i as int].value.joined(value) },
                        ));
                        assert(exposure_words(after) =~= keys);
                    }
                    self.entries = entries;
                    proof {
                        let after = self@;
                        lemma_map_of_list(before);
                        lemma_map_after(before, after, after[i as int], i as int, false);
                    }
                    return ;
                },
                PathOrder::Greater => {
                    proof {
                        lemma_insert_keeps_order(keys, words@, i as int);
                        lemma_absent(before, key@, i as int);
                    }
                    let mut entries: Vec<(ExposureKey, ExposureValue)> = Vec::new();
                    std::mem::swap(&mut entries, &mut self.entries);
                    entries.insert(i, (key, value));
                    proof {
                        let after = entry_views(entries@);
                        assert(after =~= before.insert(i as int, Exposure { key: key@, value }));
                        assert(exposure_words(after) =~= keys.insert(i as int, words@));
                    }
                    self.entries = entries;
                    proof {
                        let after = self@;
                        lemma_map_of_list(before);
                        lemma_map_after(before, after, after[i as int], i as int, true);
                    }
                    return ;
                },
            }
            i += 1;
        }
        proof {
            lemma_insert_keeps_order(keys, words@, i as int);
            lemma_absent(before, key@, i as int);
        }
        let mut entries: Vec<(ExposureKey, ExposureValue)> = Vec::new();
        std::mem::swap(&mut entries, &mut self.entries);
        entries.insert(i, (key, value));
        proof {
            let after = entry_views(entries@);
            assert(after =~= before.insert(i as int, Exposure { key: key@, value }));
            assert(exposure_words(after) =~= keys.insert(i as int, words@));
        }
        self.entries = entries;
        proof {
            let after = self@;
            lemma_map_of_list(before);
            lemma_map_after(before, after, after[i as int], i as int, true);
        }
    }

    /// The exposures in the order of their keys.
    pub fn iter(&self) -> (entries: &Vec<(ExposureKey, ExposureValue)>)
        ensures
            entry_views(entries@) == self@,
            strictly_increasing(exposure_words(self@)),
    {
        proof {
            use_type_invariant(self);
        }
        &self.entries
    }

    /// Whether every exposure fits within a confirmed one with the same unit,
    /// principal and known backend. New rights, a new controller right, a wider
    /// scope, another backend, an unknown principal and weaker evidence do not.
    pub fn is_no_wider_than(&self, confirmed: &Self) -> (fits: bool)
        ensures
            fits == set_no_wider(self@, confirmed@),
    {
        let mut i: usize = 0;
        while i < self.entries.len()
            invariant
                i <= self.entries@.len(),
                forall|n: int| 0 <= n < i ==> is_covered(#[trigger] self@[n], confirmed@),
            decreases self.entries@.len() - i,
        {
            let covered = confirmed.covers(&self.entries[i].0, self.entries[i].1);
            assert(self@[i as int] == (Exposure {
                key: self.entries@[i as int].0@,
                value: self.entries@[i as int].1,
            }));
            if !covered {
                return false;
            }
            i += 1;
        }
        true
    }

    /// Whether one of the exposures covers `(key, value)`.
    fn covers(&self, key: &ExposureKey, value: ExposureValue) -> (covered: bool)
        ensures
            covered == is_covered(Exposure { key: key@, value }, self@),
    {
        let ghost actual = Exposure { key: key@, value };
        let mut j: usize = 0;
        while j < self.entries.len()
            invariant
                j <= self.entries@.len(),
                actual == (Exposure { key: key@, value }),
                forall|n: int| 0 <= n < j ==> !fits_within(actual, #[trigger] self@[n]),
            decreases self.entries@.len() - j,
        {
            let entry = &self.entries[j];
            assert(self@[j as int] == (Exposure { key: entry.0@, value: entry.1 }));
            if !entry.0.principal.is_unknown() && entry.0.backend.is_known()
                && key.mutation_unit_id == entry.0.mutation_unit_id && key.principal.same(
                &entry.0.principal,
            ) && key.backend == entry.0.backend && key.scope.is_within(&entry.0.scope)
                && value.is_no_wider_than(entry.1) {
                assert(fits_within(actual, self@[j as int]));
                return true;
            }
            j += 1;
        }
        false
    }
}

/// A key that comes after what stands before `at` and before what stands there
/// is not in the list.
proof fn lemma_absent(list: Seq<Exposure>, key: ExposureKeyView, at: int)
    requires
        strictly_increasing(exposure_words(list)),
        0 <= at <= list.len(),
        forall|n: int| 0 <= n < at ==> words_less(#[trigger] exposure_words(list)[n], key_words(key)),
        at < list.len() ==> words_less(key_words(key), exposure_words(list)[at]),
    ensures
        forall|i: int| 0 <= i < list.len() ==> (#[trigger] list[i]).key != key,
{
    let words = exposure_words(list);
    assert forall|i: int| 0 <= i < list.len() implies (#[trigger] list[i]).key != key by {
        if i < at {
            assert(words_less(words[i], key_words(key)));
            lemma_words_asymmetric(words[i], key_words(key));
        } else {
            lemma_words_asymmetric(key_words(key), words[at]);
            if i > at {
                assert(words_less(words[at], words[i]));
                lemma_words_transitive(key_words(key), words[at], words[i]);
                lemma_words_asymmetric(key_words(key), words[i]);
            }
        }
    }
}

/// Widening by a value never takes a right away or makes the evidence surer:
/// what did not fit before does not fit after.
pub proof fn law_union_only_widens(value: ExposureValue, other: ExposureValue)
    ensures
        value.rights.within(value.joined(other).rights),
        other.rights.within(value.joined(other).rights),
        value.control_rights.within(value.joined(other).control_rights),
        other.control_rights.within(value.joined(other).control_rights),
        forall|confirmed: ExposureValue|
            value.joined(other).no_wider(confirmed) ==> #[trigger] value.no_wider(confirmed)
                && other.no_wider(confirmed),
{
    reveal(ExposureValue::joined);
}

/// The order in which exposures are added does not matter.
pub proof fn law_insertion_order_is_irrelevant(
    map: Map<ExposureKeyView, ExposureValue>,
    first_key: ExposureKeyView,
    first: ExposureValue,
    second_key: ExposureKeyView,
    second: ExposureValue,
)
    ensures
        with_exposure(with_exposure(map, first_key, first), second_key, second) == with_exposure(
            with_exposure(map, second_key, second),
            first_key,
            first,
        ),
{
    if first_key == second_key {
        lemma_joined(first, second);
        if map.dom().contains(first_key) {
            lemma_joined_twice(map[first_key], first, second);
        }
    }
    assert(with_exposure(with_exposure(map, first_key, first), second_key, second)
        =~= with_exposure(with_exposure(map, second_key, second), first_key, first));
}

/// An exposure of the list is about the key.
pub open spec fn has_key(list: Seq<Exposure>, key: ExposureKeyView) -> bool {
    exists|i: int| 0 <= i < list.len() && (#[trigger] list[i]).key == key
}

/// The map with the first `count` exposures of a list added, one after another.
pub open spec fn with_exposures(list: Seq<Exposure>, count: int) -> Map<
    ExposureKeyView,
    ExposureValue,
>
    decreases count,
{
    if count <= 0 {
        Map::empty()
    } else {
        with_exposure(
            with_exposures(list, count - 1),
            list[count - 1].key,
            list[count - 1].value,
        )
    }
}

/// Two lists of exposures in the order of their keys that say the same of every
/// key are the same.
pub proof fn lemma_one_order(first: Seq<Exposure>, second: Seq<Exposure>)
    requires
        strictly_increasing(exposure_words(first)),
        strictly_increasing(exposure_words(second)),
        exposure_map(first) == exposure_map(second),
    ensures
        first == second,
    decreases first.len(),
{
    lemma_map_of_list(first);
    lemma_map_of_list(second);
    if first.len() == 0 {
        if second.len() > 0 {
            assert(exposure_map(second).dom().contains(second[0].key));
        }
        assert(first =~= second);
    } else if second.len() == 0 {
        assert(exposure_map(first).dom().contains(first[0].key));
    } else {
        let a = first.len() - 1;
        let b = second.len() - 1;
        let (left, right) = (exposure_words(first), exposure_words(second));
        assert(exposure_map(second).dom().contains(first[a].key));
        assert(exposure_map(first).dom().contains(second[b].key));
        let i = choose|i: int| 0 <= i < second.len() && (#[trigger] second[i]).key == first[a].key;
        let j = choose|j: int| 0 <= j < first.len() && (#[trigger] first[j]).key == second[b].key;
        assert(right[i] == left[a]);
        assert(left[j] == right[b]);
        if i < b {
            assert(words_less(right[i], right[b]));
            if j < a {
                assert(words_less(left[j], left[a]));
            }
            lemma_words_asymmetric(right[i], right[b]);
        }
        assert(i == b);
        assert(second[b].value == exposure_map(second)[second[b].key]);
        assert(first[a].value == exposure_map(first)[first[a].key]);
        assert(first[a] == second[b]);
        let (less, fewer) = (first.drop_last(), second.drop_last());
        lemma_drop_last(first);
        lemma_drop_last(second);
        assert(exposure_map(less) =~= exposure_map(first).remove(first[a].key));
        assert(exposure_map(fewer) =~= exposure_map(second).remove(second[b].key));
        lemma_one_order(less, fewer);
        assert(first =~= less.push(first[a]));
        assert(second =~= fewer.push(second[b]));
    }
}

/// A list in order stays in order without its last exposure, which is then gone
/// from its map.
proof fn lemma_drop_last(list: Seq<Exposure>)
    requires
        strictly_increasing(exposure_words(list)),
        list.len() > 0,
    ensures
        strictly_increasing(exposure_words(list.drop_last())),
        !exposure_map(list.drop_last()).dom().contains(list.last().key),
{
    let less = list.drop_last();
    let words = exposure_words(list);
    assert forall|i: int, j: int|
        #![trigger exposure_words(less)[i], exposure_words(less)[j]]
        0 <= i < j < exposure_words(less).len() implies words_less(
        exposure_words(less)[i],
        exposure_words(less)[j],
    ) by {
        assert(words_less(words[i], words[j]));
    }
    lemma_map_of_list(less);
    if exposure_map(less).dom().contains(list.last().key) {
        let i = choose|i: int| 0 <= i < less.len() && (#[trigger] less[i]).key == list.last().key;
        assert(words_less(words[i], words[list.len() - 1]));
        lemma_words_asymmetric(words[i], words[list.len() - 1]);
    }
}

/// Adding exposures commutes with adding one of them last.
proof fn lemma_add_last(list: Seq<Exposure>, at: int)
    requires
        0 <= at < list.len(),
    ensures
        with_exposures(list, list.len() as int) == with_exposure(
            with_exposures(list.remove(at), list.len() - 1),
            list[at].key,
            list[at].value,
        ),
    decreases list.len(),
{
    let last = list.len() - 1;
    let rest = list.remove(at);
    if at == last {
        lemma_with_exposures_local(list, rest, last);
    } else {
        let less = list.drop_last();
        lemma_add_last(less, at);
        lemma_with_exposures_local(list, less, last);
        assert(less.remove(at) =~= rest.drop_last());
        lemma_with_exposures_local(rest, less.remove(at), last - 1);
        assert(rest[last - 1] == list[last]);
        law_insertion_order_is_irrelevant(
            with_exposures(rest, last - 1),
            list[at].key,
            list[at].value,
            list[last].key,
            list[last].value,
        );
    }
}

/// The first exposures of a list are all that matters to adding them.
proof fn lemma_with_exposures_local(left: Seq<Exposure>, right: Seq<Exposure>, count: int)
    requires
        count <= left.len(),
        count <= right.len(),
        forall|i: int| 0 <= i < count ==> left[i] == right[i],
    ensures
        with_exposures(left, count) == with_exposures(right, count),
    decreases count,
{
    if count > 0 {
        lemma_with_exposures_local(left, right, count - 1);
    }
}

/// Whatever the order in which the same exposures are added, the same comes out.
proof fn lemma_any_order(first: Seq<Exposure>, second: Seq<Exposure>)
    requires
        first.to_multiset() == second.to_multiset(),
    ensures
        with_exposures(first, first.len() as int) == with_exposures(second, second.len() as int),
    decreases first.len(),
{
    broadcast use vstd::seq_lib::group_to_multiset_ensures;

    assert(first.len() == first.to_multiset().len());
    assert(second.len() == second.to_multiset().len());
    if first.len() > 0 {
        let last = first.len() - 1;
        assert(first.to_multiset().count(first[last]) > 0) by {
            assert(first.contains(first[last]));
        }
        assert(second.contains(first[last]));
        let at = second.index_of(first[last]);
        assert(0 <= at < second.len() && second[at] == first[last]);
        lemma_add_last(second, at);
        assert(first.drop_last() =~= first.remove(last));
        assert(first.drop_last().to_multiset() =~= second.remove(at).to_multiset());
        lemma_any_order(first.drop_last(), second.remove(at));
        lemma_with_exposures_local(first, first.drop_last(), last);
    }
}

/// What a set is walked as does not depend on the order of any number of
/// insertions: two sets whose exposures come from the same insertions, in
/// whatever order each was given them, are walked alike, with every key that was
/// inserted once, and no other.
pub proof fn law_walk_ignores_insertion_order(
    first: Seq<Exposure>,
    second: Seq<Exposure>,
    given: Seq<Exposure>,
    again: Seq<Exposure>,
)
    requires
        given.to_multiset() == again.to_multiset(),
        strictly_increasing(exposure_words(first)),
        strictly_increasing(exposure_words(second)),
        exposure_map(first) == with_exposures(given, given.len() as int),
        exposure_map(second) == with_exposures(again, again.len() as int),
    ensures
        first == second,
        forall|key: ExposureKeyView| #[trigger] has_key(first, key) <==> has_key(given, key),
{
    lemma_any_order(given, again);
    lemma_one_order(first, second);
    lemma_map_of_list(first);
    assert forall|key: ExposureKeyView| #[trigger] has_key(first, key) <==> has_key(
        given,
        key,
    ) by {
        lemma_keys_added(given, given.len() as int, key);
        if has_key(given, key) {
            assert(exposure_map(first).dom().contains(key));
        }
        if has_key(first, key) {
            let i = choose|i: int| 0 <= i < first.len() && (#[trigger] first[i]).key == key;
            assert(exposure_map(first).dom().contains(first[i].key));
        }
    }
}

/// The keys of the map are those that were added.
proof fn lemma_keys_added(list: Seq<Exposure>, count: int, key: ExposureKeyView)
    requires
        0 <= count <= list.len(),
    ensures
        with_exposures(list, count).dom().contains(key) <==> exists|n: int|
            0 <= n < count && (#[trigger] list[n]).key == key,
    decreases count,
{
    if count > 0 {
        lemma_keys_added(list, count - 1, key);
        if list[count - 1].key != key && with_exposures(list, count).dom().contains(key) {
            assert(with_exposures(list, count - 1).dom().contains(key));
        }
    }
}

/// Which of two values is joined to the other does not matter.
proof fn lemma_joined(first: ExposureValue, second: ExposureValue)
    ensures
        first.joined(second) == second.joined(first),
{
    reveal(ExposureValue::joined);
}

/// Nor does the order in which two values are joined to a third.
proof fn lemma_joined_twice(base: ExposureValue, first: ExposureValue, second: ExposureValue)
    ensures
        base.joined(first).joined(second) == base.joined(second).joined(first),
{
    reveal(ExposureValue::joined);
}

/// The exposure has no right, over entries or over the policy, that `confirmed`
/// does not have.
pub open spec fn gains_nothing(actual: ExposureValue, confirmed: ExposureValue) -> bool {
    &&& actual.rights.create_file ==> confirmed.rights.create_file
    &&& actual.rights.create_dir ==> confirmed.rights.create_dir
    &&& actual.rights.delete_child ==> confirmed.rights.delete_child
    &&& actual.rights.replace_child ==> confirmed.rights.replace_child
    &&& actual.rights.traverse ==> confirmed.rights.traverse
    &&& actual.control_rights.change_mode ==> confirmed.control_rights.change_mode
    &&& actual.control_rights.change_acl ==> confirmed.control_rights.change_acl
    &&& actual.control_rights.replace_binding ==> confirmed.control_rights.replace_binding
}

/// The evidence is known and as sure as what was confirmed.
pub open spec fn stays_sure(actual: ExposureValue, confirmed: ExposureValue) -> bool {
    &&& actual.certainty != EvidenceCertainty::Unknown
    &&& confirmed.certainty != EvidenceCertainty::Unknown
    &&& confirmed.certainty == EvidenceCertainty::Verified ==> actual.certainty
        == EvidenceCertainty::Verified
}

/// Both are about the same known writer of the same unit, and where `actual`
/// applies is confirmed: in the same place, or in a directory of a unit that was
/// confirmed as a whole.
pub open spec fn about_the_same(actual: ExposureKeyView, confirmed: ExposureKeyView) -> bool {
    &&& actual.mutation_unit_id == confirmed.mutation_unit_id
    &&& actual.principal == confirmed.principal
    &&& actual.principal != PrincipalView::Unknown
    &&& actual.backend == confirmed.backend
    &&& actual.backend != AuthorityBackend::Unknown
    &&& actual.scope == confirmed.scope || (actual.scope is Directory && confirmed.scope
        == AuthorityScope::WholeMutationUnit)
}

/// A set is no wider than the confirmed one exactly where each of its exposures
/// is about a writer that was confirmed, and has, right by right, none that was
/// not.
pub proof fn law_no_wider_means_no_gained_right(actual: Seq<Exposure>, confirmed: Seq<Exposure>)
    ensures
        set_no_wider(actual, confirmed) <==> forall|i: int|
            0 <= i < actual.len() ==> exists|j: int|
                0 <= j < confirmed.len() && about_the_same(
                    (#[trigger] actual[i]).key,
                    (#[trigger] confirmed[j]).key,
                ) && gains_nothing(actual[i].value, confirmed[j].value) && stays_sure(
                    actual[i].value,
                    confirmed[j].value,
                ),
{
    assert forall|a: Exposure, c: Exposure| #[trigger] fits_within(a, c) <==> about_the_same(
        a.key,
        c.key,
    ) && gains_nothing(a.value, c.value) && stays_sure(a.value, c.value) by {}
    if set_no_wider(actual, confirmed) {
        assert forall|i: int| 0 <= i < actual.len() implies exists|j: int|
            0 <= j < confirmed.len() && about_the_same(
                (#[trigger] actual[i]).key,
                (#[trigger] confirmed[j]).key,
            ) && gains_nothing(actual[i].value, confirmed[j].value) && stays_sure(
                actual[i].value,
                confirmed[j].value,
            ) by {
            assert(is_covered(actual[i], confirmed));
            let j = choose|j: int|
                0 <= j < confirmed.len() && fits_within(actual[i], #[trigger] confirmed[j]);
            assert(fits_within(actual[i], confirmed[j]));
        }
    }
    if forall|i: int|
        0 <= i < actual.len() ==> exists|j: int|
            0 <= j < confirmed.len() && about_the_same(
                (#[trigger] actual[i]).key,
                (#[trigger] confirmed[j]).key,
            ) && gains_nothing(actual[i].value, confirmed[j].value) && stays_sure(
                actual[i].value,
                confirmed[j].value,
            ) {
        assert forall|i: int| 0 <= i < actual.len() implies is_covered(
            #[trigger] actual[i],
            confirmed,
        ) by {
            let j = choose|j: int|
                0 <= j < confirmed.len() && about_the_same(
                    actual[i].key,
                    (#[trigger] confirmed[j]).key,
                ) && gains_nothing(actual[i].value, confirmed[j].value) && stays_sure(
                    actual[i].value,
                    confirmed[j].value,
                );
            assert(fits_within(actual[i], confirmed[j]));
        }
    }
}

/// A single right that a writer has gained over everything that was confirmed of
/// it makes the whole set wider.
pub proof fn law_a_gained_right_is_seen(
    actual: Seq<Exposure>,
    confirmed: Seq<Exposure>,
    i: int,
)
    requires
        0 <= i < actual.len(),
        forall|j: int|
            0 <= j < confirmed.len() && (#[trigger] confirmed[j]).key.mutation_unit_id
                == actual[i].key.mutation_unit_id && confirmed[j].key.principal
                == actual[i].key.principal ==> {
                let (now, then) = (actual[i].value, confirmed[j].value);
                ||| now.rights.create_file && !then.rights.create_file
                ||| now.rights.create_dir && !then.rights.create_dir
                ||| now.rights.delete_child && !then.rights.delete_child
                ||| now.rights.replace_child && !then.rights.replace_child
                ||| now.rights.traverse && !then.rights.traverse
                ||| now.control_rights.change_mode && !then.control_rights.change_mode
                ||| now.control_rights.change_acl && !then.control_rights.change_acl
                ||| now.control_rights.replace_binding && !then.control_rights.replace_binding
            },
    ensures
        !set_no_wider(actual, confirmed),
{
    law_no_wider_means_no_gained_right(actual, confirmed);
    if set_no_wider(actual, confirmed) {
        let j = choose|j: int|
            0 <= j < confirmed.len() && about_the_same(
                actual[i].key,
                (#[trigger] confirmed[j]).key,
            ) && gains_nothing(actual[i].value, confirmed[j].value) && stays_sure(
                actual[i].value,
                confirmed[j].value,
            );
        assert(gains_nothing(actual[i].value, confirmed[j].value));
    }
}

/// What was confirmed, of known writers on known evidence, still fits when
/// nothing has changed.
pub proof fn law_nothing_changed_is_no_wider(confirmed: Seq<Exposure>)
    requires
        forall|i: int|
            0 <= i < confirmed.len() ==> (#[trigger] confirmed[i]).key.principal
                != PrincipalView::Unknown && confirmed[i].key.backend != AuthorityBackend::Unknown
                && confirmed[i].value.certainty != EvidenceCertainty::Unknown,
    ensures
        set_no_wider(confirmed, confirmed),
{
    assert forall|i: int| 0 <= i < confirmed.len() implies is_covered(
        #[trigger] confirmed[i],
        confirmed,
    ) by {
        assert(fits_within(confirmed[i], confirmed[i]));
    }
}

/// The union has each right that one of the two has, and none that neither has,
/// and is no surer than either.
pub proof fn law_union_has_the_rights_of_both(value: ExposureValue, other: ExposureValue)
    ensures
        gains_nothing(value, value.joined(other)),
        gains_nothing(other, value.joined(other)),
        forall|wide: ExposureValue|
            #![trigger gains_nothing(value.joined(other), wide)]
            gains_nothing(value, wide) && gains_nothing(other, wide) ==> gains_nothing(
                value.joined(other),
                wide,
            ),
        value.joined(other).certainty == EvidenceCertainty::Verified <==> value.certainty
            == EvidenceCertainty::Verified && other.certainty == EvidenceCertainty::Verified,
        value.joined(other).certainty == EvidenceCertainty::Unknown <==> value.certainty
            == EvidenceCertainty::Unknown || other.certainty == EvidenceCertainty::Unknown,
{
    reveal(ExposureValue::joined);
}

/// Fitting within is transitive: what fits within something that fits within
/// the confirmed set fits within the confirmed set.
pub proof fn law_no_wider_is_transitive(
    first: Seq<Exposure>,
    second: Seq<Exposure>,
    third: Seq<Exposure>,
)
    requires
        set_no_wider(first, second),
        set_no_wider(second, third),
    ensures
        set_no_wider(first, third),
{
    assert forall|i: int| 0 <= i < first.len() implies is_covered(#[trigger] first[i], third) by {
        assert(is_covered(first[i], second));
        let j = choose|j: int|
            0 <= j < second.len() && fits_within(first[i], #[trigger] second[j]);
        assert(is_covered(second[j], third));
        let k = choose|k: int|
            0 <= k < third.len() && fits_within(second[j], #[trigger] third[k]);
        assert(fits_within(first[i], third[k]));
    }
}

/// An exposure that is not known, in its principal, its backend or its
/// evidence, fits within nothing.
pub proof fn law_unknown_exposure_fails_closed(actual: Seq<Exposure>, confirmed: Seq<Exposure>, i: int)
    requires
        0 <= i < actual.len(),
        actual[i].key.principal == PrincipalView::Unknown || actual[i].key.backend
            == AuthorityBackend::Unknown || actual[i].value.certainty == EvidenceCertainty::Unknown,
    ensures
        !set_no_wider(actual, confirmed),
{
    assert(!is_covered(actual[i], confirmed));
}

/// Adding an exposure takes no right from any that is there and leaves every other
/// as it was: the one that was added has at least the rights that were given, and no
/// evidence becomes surer.
pub proof fn law_adding_takes_nothing_away(
    map: Map<ExposureKeyView, ExposureValue>,
    key: ExposureKeyView,
    value: ExposureValue,
    other: ExposureKeyView,
)
    ensures
        ({
            let after = with_exposure(map, key, value);
            &&& after.dom().contains(key)
            &&& gains_nothing(value, after[key])
            &&& map.dom().contains(other) ==> after.dom().contains(other) && gains_nothing(
                map[other],
                after[other],
            )
            &&& other != key ==> (after.dom().contains(other) <==> map.dom().contains(other))
            &&& other != key && map.dom().contains(other) ==> after[other] == map[other]
            &&& !map.dom().contains(key) ==> after[key] == value
            &&& value.certainty == EvidenceCertainty::Unknown ==> after[key].certainty
                == EvidenceCertainty::Unknown
            &&& map.dom().contains(key) && map[key].certainty == EvidenceCertainty::Unknown
                ==> after[key].certainty == EvidenceCertainty::Unknown
        }),
{
    if map.dom().contains(key) {
        law_union_has_the_rights_of_both(map[key], value);
    }
}

} // verus!
