//! Which regular files of a tree share an inode, and whether every link of a
//! shared inode lies inside the tree.
//!
//! Entries of a walk are confined to one certified backend and mount, so a
//! strong identity names one file. A file whose link count exceeds the number
//! of its entries has a link somewhere else; a file with more entries than
//! links, or with entries that were observed differently, changed meanwhile.

use crate::backend::held::error::refused_for;
use crate::backend::held::error::HeldTreeError;
use crate::backend::held::error::TreeFault;
use crate::backend::held::model::NodeIdentity;
use crate::backend::held::model::RegularFileObservation;
use crate::backend::held::model::RegularHardLinkTopology;
use crate::bytes::to_vec;
use std::collections::HashMap;
use vstd::prelude::*;

verus! {

/// One regular file entry as it was last observed.
#[derive(Clone, Copy, Debug, PartialEq, Eq)]
pub struct RegularFileReobservation<'a> {
    pub path: &'a [u8],
    pub observation: RegularFileObservation,
}

/// The mathematical content of one observed entry.
#[verifier::ext_equal]
pub struct LinkView {
    pub path: Seq<u8>,
    pub observation: RegularFileObservation,
}

impl<'a> View for RegularFileReobservation<'a> {
    type V = LinkView;

    open spec fn view(&self) -> LinkView {
        LinkView { path: self.path@, observation: self.observation }
    }
}

/// The contents of a list of observed entries.
pub open spec fn links(list: Seq<RegularFileReobservation>) -> Seq<LinkView> {
    Seq::new(list.len(), |i: int| list[i]@)
}

/// The file that entry `i` names.
pub open spec fn file_of(list: Seq<LinkView>, i: int) -> NodeIdentity {
    list[i].observation.identity
}

/// The first entry at or after `from` that names `file`; past the end if none
/// does.
pub open spec fn first_from(list: Seq<LinkView>, file: NodeIdentity, from: int) -> int
    decreases list.len() - from,
{
    if from >= list.len() || file_of(list, from) == file {
        from
    } else {
        first_from(list, file, from + 1)
    }
}

/// The first entry that names the same file as entry `i`.
pub open spec fn first_alias(list: Seq<LinkView>, i: int) -> int {
    first_from(list, file_of(list, i), 0)
}

/// How many entries name `file`.
pub open spec fn alias_count(list: Seq<LinkView>, file: NodeIdentity) -> nat
    decreases list.len(),
{
    if list.len() == 0 {
        0
    } else {
        alias_count(list.drop_last(), file) + if file_of(list, list.len() - 1) == file {
            1nat
        } else {
            0
        }
    }
}

/// Entry `i` was observed differently from the first entry of its file.
pub open spec fn is_mismatched(list: Seq<LinkView>, i: int) -> bool {
    list[i].observation != list[first_alias(list, i)].observation
}

/// The file of entry `i` has more or fewer links than entries.
pub open spec fn is_miscounted(list: Seq<LinkView>, i: int) -> bool {
    alias_count(list, file_of(list, i)) != list[i].observation.nlink
}

/// The first of the first `count` entries that is mismatched.
pub open spec fn first_mismatch(list: Seq<LinkView>, count: int) -> Option<int>
    decreases count,
{
    if count <= 0 {
        None
    } else if first_mismatch(list, count - 1) is Some {
        first_mismatch(list, count - 1)
    } else if is_mismatched(list, count - 1) {
        Some(count - 1)
    } else {
        None
    }
}

/// The first of the first `count` entries that is miscounted.
pub open spec fn first_miscount(list: Seq<LinkView>, count: int) -> Option<int>
    decreases count,
{
    if count <= 0 {
        None
    } else if first_miscount(list, count - 1) is Some {
        first_miscount(list, count - 1)
    } else if is_miscounted(list, count - 1) {
        Some(count - 1)
    } else {
        None
    }
}

/// Why a set of entries is refused: the first entry observed differently from
/// the first entry of its file, or else the first whose file has another number
/// of links than of entries. The refusal names the first entry of that file.
pub open spec fn topology_fault(list: Seq<LinkView>) -> Option<TreeFault> {
    match first_mismatch(list, list.len() as int) {
        Some(i) => Some(TreeFault::ContentChangedDuringHash(list[first_alias(list, i)].path)),
        None => match first_miscount(list, list.len() as int) {
            Some(i) => Some(
                if alias_count(list, file_of(list, i)) < list[i].observation.nlink {
                    TreeFault::ExternalOrUnenumeratedHardLink(list[first_alias(list, i)].path)
                } else {
                    TreeFault::ContentChangedDuringHash(list[first_alias(list, i)].path)
                },
            ),
            None => None,
        },
    }
}

/// How many of the first `count` entries are the first of several entries of
/// one file.
pub open spec fn shared_files(list: Seq<LinkView>, count: int) -> nat
    decreases count,
{
    if count <= 0 {
        0
    } else {
        shared_files(list, count - 1) + if first_alias(list, count - 1) == count - 1
            && alias_count(list, file_of(list, count - 1)) > 1 {
            1nat
        } else {
            0
        }
    }
}

/// How many of the first `count` entries name a file with several entries.
pub open spec fn shared_entries(list: Seq<LinkView>, count: int) -> nat
    decreases count,
{
    if count <= 0 {
        0
    } else {
        shared_entries(list, count - 1) + if alias_count(list, file_of(list, count - 1)) > 1 {
            1nat
        } else {
            0
        }
    }
}

/// The aggregate facts of a set of entries.
pub open spec fn is_topology(topology: RegularHardLinkTopology, list: Seq<LinkView>) -> bool {
    &&& topology.multi_link_groups == shared_files(list, list.len() as int)
    &&& topology.linked_entries == shared_entries(list, list.len() as int)
}

/// The first entry of a file names it, and no earlier entry does.
pub proof fn lemma_first_from(list: Seq<LinkView>, file: NodeIdentity, from: int)
    requires
        0 <= from <= list.len(),
    ensures
        from <= first_from(list, file, from) <= list.len(),
        first_from(list, file, from) < list.len() ==> file_of(
            list,
            first_from(list, file, from),
        ) == file,
        forall|j: int|
            from <= j < first_from(list, file, from) ==> #[trigger] file_of(list, j) != file,
    decreases list.len() - from,
{
    if from < list.len() && file_of(list, from) != file {
        lemma_first_from(list, file, from + 1);
    }
}

/// The first alias of an entry is at or before it and names the same file.
pub proof fn lemma_first_alias(list: Seq<LinkView>, i: int)
    requires
        0 <= i < list.len(),
    ensures
        0 <= first_alias(list, i) <= i,
        file_of(list, first_alias(list, i)) == file_of(list, i),
        forall|j: int|
            0 <= j < first_alias(list, i) ==> #[trigger] file_of(list, j) != file_of(list, i),
        first_alias(list, first_alias(list, i)) == first_alias(list, i),
{
    lemma_first_from(list, file_of(list, i), 0);
}

/// Counting over a prefix adds one for each further entry of the file.
proof fn lemma_alias_count_step(list: Seq<LinkView>, file: NodeIdentity, i: int)
    requires
        0 <= i < list.len(),
    ensures
        alias_count(list.take(i + 1), file) == alias_count(list.take(i), file) + if file_of(list, i)
            == file {
            1nat
        } else {
            0
        },
        alias_count(list.take(i), file) <= i,
    decreases i,
{
    let longer = list.take(i + 1);
    assert(longer.drop_last() =~= list.take(i));
    assert(longer.last() == list[i]);
    if i > 0 {
        lemma_alias_count_step(list, file, i - 1);
    } else {
        assert(list.take(0).len() == 0);
    }
}

/// A mismatch among the first entries is the first of all.
proof fn lemma_first_mismatch_stays(list: Seq<LinkView>, count: int, total: int)
    requires
        count <= total,
        first_mismatch(list, count) is Some,
    ensures
        first_mismatch(list, total) == first_mismatch(list, count),
    decreases total - count,
{
    if count < total {
        lemma_first_mismatch_stays(list, count, total - 1);
    }
}

/// A miscount among the first entries is the first of all.
proof fn lemma_first_miscount_stays(list: Seq<LinkView>, count: int, total: int)
    requires
        count <= total,
        first_miscount(list, count) is Some,
    ensures
        first_miscount(list, total) == first_miscount(list, count),
    decreases total - count,
{
    if count < total {
        lemma_first_miscount_stays(list, count, total - 1);
    }
}

/// Neither aggregate exceeds the number of entries.
pub proof fn lemma_shared_bounds(list: Seq<LinkView>, count: int)
    requires
        0 <= count,
    ensures
        shared_files(list, count) <= count,
        shared_entries(list, count) <= count,
    decreases count,
{
    if count > 0 {
        lemma_shared_bounds(list, count - 1);
    }
}

/// The files found so far: where each is first named, how often it is named, and
/// which of them have a given inode number.
struct AliasIndex {
    firsts: Vec<usize>,
    counts: Vec<u64>,
    by_inode: HashMap<u64, Vec<usize>>,
}

impl AliasIndex {
    spec fn describes(&self, list: Seq<LinkView>, count: int) -> bool {
        &&& 0 <= count <= list.len()
        &&& self.firsts@.len() == self.counts@.len()
        &&& self.firsts@.len() <= count
        &&& forall|g: int| #![trigger self.firsts@[g]]
            0 <= g < self.firsts@.len() ==> {
                let first = self.firsts@[g] as int;
                &&& first < count
                &&& first_alias(list, first) == first
                &&& self.counts@[g] == alias_count(list.take(count), file_of(list, first))
                &&& self.by_inode@.contains_key(file_of(list, first).inode)
                &&& self.by_inode@[file_of(list, first).inode]@.contains(g as usize)
            }
        &&& forall|g: int, h: int|
            0 <= g < h < self.firsts@.len() ==> self.firsts@[g] < self.firsts@[h]
        &&& forall|inode: u64, k: int| #![trigger self.by_inode@[inode]@[k]]
            self.by_inode@.contains_key(inode) && 0 <= k < self.by_inode@[inode]@.len()
                ==> self.by_inode@[inode]@[k] < self.firsts@.len()
        &&& forall|j: int| #![trigger list[j]]
            0 <= j < count ==> exists|g: int|
                0 <= g < self.firsts@.len() && #[trigger] self.firsts@[g] == first_alias(list, j)
    }

    /// The group of `file`, if an entry named it.
    fn find(&self, list: &[RegularFileReobservation], file: NodeIdentity) -> (found: Option<usize>)
        requires
            exists|count: int| self.describes(links(list@), count),
        ensures
            match found {
                Some(g) => {
                    &&& g < self.firsts@.len()
                    &&& file_of(links(list@), self.firsts@[g as int] as int) == file
                },
                None => forall|g: int|
                    0 <= g < self.firsts@.len() ==> file_of(
                        links(list@),
                        #[trigger] self.firsts@[g] as int,
                    ) != file,
            },
    {
        let ghost all = links(list@);
        let ghost count = choose|count: int| self.describes(all, count);
        broadcast use vstd::std_specs::hash::group_hash_axioms;

        match self.by_inode.get(&file.inode) {
            None => None,
            Some(bucket) => {
                let mut k: usize = 0;
                while k < bucket.len()
                    invariant
                        k <= bucket@.len(),
                        all == links(list@),
                        self.describes(all, count),
                        self.by_inode@.contains_key(file.inode),
                        self.by_inode@[file.inode] == *bucket,
                        forall|j: int|
                            0 <= j < k ==> file_of(
                                all,
                                self.firsts@[#[trigger] bucket@[j] as int] as int,
                            ) != file,
                    decreases bucket@.len() - k,
                {
                    let g: usize = bucket[k];
                    assert(self.by_inode@[file.inode]@[k as int] == g);
                    let first: usize = self.firsts[g];
                    if list[first].observation.identity == file {
                        return Some(g);
                    }
                    k += 1;
                }
                let total: usize = self.firsts.len();
                assert forall|g: int| 0 <= g < total implies file_of(
                    all,
                    #[trigger] self.firsts@[g] as int,
                ) != file by {
                    if file_of(all, self.firsts@[g] as int) == file {
                        assert(bucket@.contains(g as usize));
                        let j = choose|j: int| 0 <= j < bucket@.len() && bucket@[j] == g as usize;
                        assert(bucket@[j] as int == g);
                    }
                }
                None
            },
        }
    }
}

impl AliasIndex {
    fn new(list: &[RegularFileReobservation]) -> (index: Self)
        ensures
            index.describes(links(list@), 0),
    {
        broadcast use vstd::std_specs::hash::group_hash_axioms;

        AliasIndex { firsts: Vec::new(), counts: Vec::new(), by_inode: HashMap::new() }
    }

    /// Counts entry `i`, the next one, in group `g`, where its file was found.
    fn count_again(&mut self, list: &[RegularFileReobservation], i: usize, g: usize)
        requires
            i < list@.len(),
            old(self).describes(links(list@), i as int),
            g < old(self).firsts@.len(),
            old(self).firsts@[g as int] == first_alias(links(list@), i as int),
        ensures
            final(self).describes(links(list@), i + 1),
            final(self).firsts@ == old(self).firsts@,
    {
        let ghost all = links(list@);
        let ghost before = *self;
        proof {
            lemma_first_alias(all, i as int);
            lemma_alias_count_step(all, file_of(all, i as int), i as int);
        }
        assert(i < list.len());
        let seen: u64 = self.counts[g];
        assert(before.firsts@[g as int] as int == first_alias(all, i as int));
        assert(seen == alias_count(all.take(i as int), file_of(all, i as int)));
        self.counts.set(g, seen + 1);
        proof {
            assert forall|h: int| #![trigger self.firsts@[h]] 0 <= h < self.firsts@.len() implies {
                let first = self.firsts@[h] as int;
                &&& first < i + 1
                &&& first_alias(all, first) == first
                &&& self.counts@[h] == alias_count(all.take(i + 1), file_of(all, first))
                &&& self.by_inode@.contains_key(file_of(all, first).inode)
                &&& self.by_inode@[file_of(all, first).inode]@.contains(h as usize)
            } by {
                assert(before.firsts@[h] == self.firsts@[h]);
                let first = self.firsts@[h] as int;
                lemma_alias_count_step(all, file_of(all, first), i as int);
                if h != g && file_of(all, first) == file_of(all, i as int) {
                    assert(first_alias(all, first) == first_alias(all, i as int));
                    if h < g {
                        assert(before.firsts@[h] < before.firsts@[g as int]);
                    } else {
                        assert(before.firsts@[g as int] < before.firsts@[h]);
                    }
                }
            }
            assert forall|j: int| #![trigger all[j]] 0 <= j < i + 1 implies exists|h: int|
                0 <= h < self.firsts@.len() && #[trigger] self.firsts@[h] == first_alias(all, j) by {
                if j == i {
                    assert(self.firsts@[g as int] == first_alias(all, j));
                }
            }
        }
    }

    /// Opens a group for entry `i`, the next one, the first that names its file.
    fn open_group(&mut self, list: &[RegularFileReobservation], i: usize) -> (group: usize)
        requires
            i < list@.len(),
            old(self).describes(links(list@), i as int),
            first_alias(links(list@), i as int) == i,
        ensures
            final(self).describes(links(list@), i + 1),
            group < final(self).firsts@.len(),
            final(self).firsts@ == old(self).firsts@.push(i),
            final(self).firsts@[group as int] == i,
    {
        broadcast use vstd::std_specs::hash::group_hash_axioms;

        let ghost all = links(list@);
        let ghost file = file_of(all, i as int);
        let ghost before = *self;
        proof {
            lemma_first_alias(all, i as int);
            lemma_no_alias(all, file, i as int);
        }
        let group: usize = self.firsts.len();
        let inode: u64 = list[i].observation.identity.inode;
        let mut bucket: Vec<usize> = match self.by_inode.remove(&inode) {
            Some(bucket) => bucket,
            None => Vec::new(),
        };
        let ghost old_bucket = bucket@;
        bucket.push(group);
        let ghost new_bucket = bucket@;
        self.by_inode.insert(inode, bucket);
        self.firsts.push(i);
        self.counts.push(1);
        proof {
            assert(new_bucket[old_bucket.len() as int] == group);
            assert forall|h: int| #![trigger self.firsts@[h]] 0 <= h < self.firsts@.len() implies {
                let first = self.firsts@[h] as int;
                &&& first < i + 1
                &&& first_alias(all, first) == first
                &&& self.counts@[h] == alias_count(all.take(i + 1), file_of(all, first))
                &&& self.by_inode@.contains_key(file_of(all, first).inode)
                &&& self.by_inode@[file_of(all, first).inode]@.contains(h as usize)
            } by {
                let first = self.firsts@[h] as int;
                lemma_alias_count_step(all, file_of(all, first), i as int);
                if h < group {
                    assert(before.firsts@[h] == self.firsts@[h]);
                    assert(file_of(all, first) != file);
                    if file_of(all, first).inode == inode {
                        assert(old_bucket.contains(h as usize));
                        let k = choose|k: int|
                            0 <= k < old_bucket.len() && old_bucket[k] == h as usize;
                        assert(new_bucket[k] == h as usize);
                    }
                }
            }
            assert forall|key: u64, k: int| #![trigger self.by_inode@[key]@[k]]
                self.by_inode@.contains_key(key) && 0 <= k < self.by_inode@[key]@.len()
                    implies self.by_inode@[key]@[k] < self.firsts@.len() by {
                if key == inode {
                    if k < old_bucket.len() {
                        assert(before.by_inode@[key]@[k] == old_bucket[k]);
                    }
                } else {
                    assert(before.by_inode@[key]@[k] < before.firsts@.len());
                }
            }
            assert forall|j: int| #![trigger all[j]] 0 <= j < i + 1 implies exists|h: int|
                0 <= h < self.firsts@.len() && #[trigger] self.firsts@[h] == first_alias(all, j) by {
                if j < i {
                    let h = choose|h: int|
                        0 <= h < before.firsts@.len() && #[trigger] before.firsts@[h]
                            == first_alias(all, j);
                    assert(self.firsts@[h] == first_alias(all, j));
                } else {
                    assert(self.firsts@[group as int] == first_alias(all, j));
                }
            }
        }
        group
    }
}

/// A file that no earlier entry names has not been counted.
proof fn lemma_no_alias(list: Seq<LinkView>, file: NodeIdentity, count: int)
    requires
        0 <= count <= list.len(),
        forall|j: int| 0 <= j < count ==> #[trigger] file_of(list, j) != file,
    ensures
        alias_count(list.take(count), file) == 0,
    decreases count,
{
    if count > 0 {
        lemma_no_alias(list, file, count - 1);
        lemma_alias_count_step(list, file, count - 1);
    }
}

/// Classifies the regular files of a completed walk, given their last
/// observations.
pub fn classify_regular_file_topology(regular_files: &[RegularFileReobservation]) -> (outcome:
    Result<RegularHardLinkTopology, HeldTreeError>)
    ensures
        refused_for(outcome, topology_fault(links(regular_files@))),
        outcome matches Ok(topology) ==> is_topology(topology, links(regular_files@)),
{
    let ghost all = links(regular_files@);
    let mut index = AliasIndex::new(regular_files);
    let mut group_of: Vec<usize> = Vec::new();
    let mut i: usize = 0;
    while i < regular_files.len()
        invariant
            i <= regular_files@.len(),
            all == links(regular_files@),
            index.describes(all, i as int),
            first_mismatch(all, i as int) is None,
            group_of@.len() == i,
            forall|j: int| #![trigger group_of@[j]]
                0 <= j < i ==> {
                    &&& group_of@[j] < index.firsts@.len()
                    &&& index.firsts@[group_of@[j] as int] == first_alias(all, j)
                },
        decreases regular_files@.len() - i,
    {
        let observation = regular_files[i].observation;
        proof {
            lemma_first_alias(all, i as int);
        }
        match index.find(regular_files, observation.identity) {
            Some(g) => {
                let first: usize = index.firsts[g];
                assert(first_alias(all, first as int) == first_alias(all, i as int));
                if !regular_files[first].observation.same(&observation) {
                    proof {
                        assert(is_mismatched(all, i as int));
                        lemma_first_mismatch_stays(all, i + 1, all.len() as int);
                    }
                    return Err(
                        HeldTreeError::ContentChangedDuringHash(to_vec(regular_files[first].path)),
                    );
                }
                index.count_again(regular_files, i, g);
                group_of.push(g);
            },
            None => {
                proof {
                    if first_alias(all, i as int) < i {
                        assert(all[first_alias(all, i as int)] == all[first_alias(all, i as int)]);
                        let f = first_alias(all, i as int);
                        let g = choose|g: int|
                            0 <= g < index.firsts@.len() && #[trigger] index.firsts@[g]
                                == first_alias(all, f);
                        assert(file_of(all, index.firsts@[g] as int) == file_of(all, i as int));
                    }
                }
                let g: usize = index.open_group(regular_files, i);
                group_of.push(g);
            },
        }
        i += 1;
    }
    assert(all.take(i as int) =~= all);
    let mut groups: u64 = 0;
    let mut linked: u64 = 0;
    let mut k: usize = 0;
    while k < regular_files.len()
        invariant
            k <= regular_files@.len(),
            all == links(regular_files@),
            all.take(all.len() as int) == all,
            index.describes(all, all.len() as int),
            first_mismatch(all, all.len() as int) is None,
            first_miscount(all, k as int) is None,
            group_of@.len() == all.len(),
            forall|j: int| #![trigger group_of@[j]]
                0 <= j < all.len() ==> {
                    &&& group_of@[j] < index.firsts@.len()
                    &&& index.firsts@[group_of@[j] as int] == first_alias(all, j)
                },
            groups == shared_files(all, k as int),
            linked == shared_entries(all, k as int),
            groups <= k,
            linked <= k,
        decreases regular_files@.len() - k,
    {
        let observation = regular_files[k].observation;
        let g: usize = group_of[k];
        let first: usize = index.firsts[g];
        let enumerated: u64 = index.counts[g];
        proof {
            lemma_first_alias(all, k as int);
            assert(enumerated == alias_count(all, file_of(all, k as int)));
        }
        if enumerated < observation.nlink {
            proof {
                assert(is_miscounted(all, k as int));
                lemma_first_miscount_stays(all, k + 1, all.len() as int);
            }
            return Err(
                HeldTreeError::ExternalOrUnenumeratedHardLink(to_vec(regular_files[first].path)),
            );
        }
        if enumerated > observation.nlink {
            proof {
                assert(is_miscounted(all, k as int));
                lemma_first_miscount_stays(all, k + 1, all.len() as int);
            }
            return Err(HeldTreeError::ContentChangedDuringHash(to_vec(regular_files[first].path)));
        }
        if enumerated > 1 {
            linked = linked + 1;
            if first == k {
                groups = groups + 1;
            }
        }
        k += 1;
    }
    Ok(RegularHardLinkTopology { multi_link_groups: groups, linked_entries: linked })
}

/// The files of a tree are accepted exactly where every entry of a file shows the
/// same and each file has as many entries in the tree as it has links: none of its
/// names lies outside.
pub proof fn law_no_link_leads_outside(list: Seq<LinkView>)
    ensures
        topology_fault(list) is None <==> {
            &&& forall|i: int, j: int|
                #![trigger list[i], list[j]]
                0 <= i < list.len() && 0 <= j < list.len() && list[i].observation.identity
                    == list[j].observation.identity ==> list[i].observation == list[j].observation
            &&& forall|i: int|
                0 <= i < list.len() ==> alias_count(
                    list,
                    (#[trigger] list[i]).observation.identity,
                ) == list[i].observation.nlink
        },
{
    let count = list.len() as int;
    lemma_no_first(list, count);
    assert forall|i: int| 0 <= i < list.len() implies 0 <= #[trigger] first_alias(list, i) <= i
        && file_of(list, first_alias(list, i)) == file_of(list, i) by {
        lemma_first_from(list, file_of(list, i), 0);
        if first_alias(list, i) > i {
            assert(file_of(list, i) != file_of(list, i));
        }
    }
    if topology_fault(list) is None {
        assert forall|i: int, j: int|
            #![trigger list[i], list[j]]
            0 <= i < list.len() && 0 <= j < list.len() && list[i].observation.identity
                == list[j].observation.identity implies list[i].observation
            == list[j].observation by {
            assert(!is_mismatched(list, i) && !is_mismatched(list, j));
            assert(first_alias(list, i) == first_alias(list, j));
        }
        assert forall|i: int| 0 <= i < list.len() implies alias_count(
            list,
            (#[trigger] list[i]).observation.identity,
        ) == list[i].observation.nlink by {
            assert(!is_miscounted(list, i));
        }
    }
    if (forall|i: int, j: int|
        #![trigger list[i], list[j]]
        0 <= i < list.len() && 0 <= j < list.len() && list[i].observation.identity
            == list[j].observation.identity ==> list[i].observation == list[j].observation) && (
    forall|i: int|
        0 <= i < list.len() ==> alias_count(list, (#[trigger] list[i]).observation.identity)
            == list[i].observation.nlink) {
        assert forall|i: int| 0 <= i < count implies !#[trigger] is_mismatched(list, i) by {
            let first = list[first_alias(list, i)];
            assert(first.observation.identity == list[i].observation.identity);
        }
        assert forall|i: int| 0 <= i < count implies !#[trigger] is_miscounted(list, i) by {
            assert(alias_count(list, list[i].observation.identity) == list[i].observation.nlink);
        }
    }
}

/// None is the first of its kind exactly where there is none.
proof fn lemma_no_first(list: Seq<LinkView>, count: int)
    requires
        0 <= count <= list.len(),
    ensures
        first_mismatch(list, count) is None <==> forall|i: int|
            0 <= i < count ==> !#[trigger] is_mismatched(list, i),
        first_miscount(list, count) is None <==> forall|i: int|
            0 <= i < count ==> !#[trigger] is_miscounted(list, i),
    decreases count,
{
    if count > 0 {
        lemma_no_first(list, count - 1);
        if first_mismatch(list, count) is Some && first_mismatch(list, count - 1) is None {
            assert(is_mismatched(list, count - 1));
        }
        if first_miscount(list, count) is Some && first_miscount(list, count - 1) is None {
            assert(is_miscounted(list, count - 1));
        }
        if first_mismatch(list, count) is None {
            assert forall|i: int| 0 <= i < count implies !#[trigger] is_mismatched(list, i) by {
                if i < count - 1 {
                }
            }
        }
    }
}

/// Files with one name are counted in neither number; a file with several is one
/// group, and each of its names one entry.
pub proof fn law_shared_files_are_counted(list: Seq<LinkView>, count: int)
    requires
        0 <= count <= list.len(),
    ensures
        (forall|i: int| 0 <= i < count ==> alias_count(list, #[trigger] file_of(list, i)) == 1)
            ==> shared_files(list, count) == 0 && shared_entries(list, count) == 0,
        (forall|i: int| 0 <= i < count ==> alias_count(list, #[trigger] file_of(list, i)) > 1)
            ==> shared_entries(list, count) == count,
        shared_files(list, count) <= shared_entries(list, count) <= count,
        count > 0 && alias_count(list, file_of(list, count - 1)) > 1 ==> shared_entries(list, count)
            == shared_entries(list, count - 1) + 1,
    decreases count,
{
    if count > 0 {
        law_shared_files_are_counted(list, count - 1);
        assert(file_of(list, count - 1) == file_of(list, count - 1));
        if forall|i: int| 0 <= i < count ==> alias_count(list, #[trigger] file_of(list, i)) == 1 {
            assert(alias_count(list, file_of(list, count - 1)) == 1);
        }
        if forall|i: int| 0 <= i < count ==> alias_count(list, #[trigger] file_of(list, i)) > 1 {
            assert(alias_count(list, file_of(list, count - 1)) > 1);
        }
    }
}

} // verus!
