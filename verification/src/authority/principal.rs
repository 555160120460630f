//! Principals: who may write.

use crate::order::compare_words;
use crate::order::lemma_insert_keeps_order;
use crate::order::strictly_increasing;
use crate::order::words_less;
use crate::paths::PathOrder;
use vstd::prelude::*;

verus! {

/// Someone who may hold rights.
#[derive(Debug, PartialEq, Eq, PartialOrd, Ord)]
pub enum Principal {
    PosixUid(u32),
    PosixGid(u32),
    Nfs4(String),
    Everyone,
    Unknown,
}

/// The content of a [`Principal`].
#[verifier::ext_equal]
pub enum PrincipalView {
    PosixUid(u32),
    PosixGid(u32),
    Nfs4(Seq<char>),
    Everyone,
    Unknown,
}

impl View for Principal {
    type V = PrincipalView;

    open spec fn view(&self) -> PrincipalView {
        match *self {
            Principal::PosixUid(uid) => PrincipalView::PosixUid(uid),
            Principal::PosixGid(gid) => PrincipalView::PosixGid(gid),
            Principal::Nfs4(name) => PrincipalView::Nfs4(name@),
            Principal::Everyone => PrincipalView::Everyone,
            Principal::Unknown => PrincipalView::Unknown,
        }
    }
}

impl Clone for Principal {
    fn clone(&self) -> (copy: Self)
        ensures
            copy@ == self@,
    {
        match self {
            Principal::PosixUid(uid) => Principal::PosixUid(*uid),
            Principal::PosixGid(gid) => Principal::PosixGid(*gid),
            Principal::Nfs4(name) => Principal::Nfs4(name.clone()),
            Principal::Everyone => Principal::Everyone,
            Principal::Unknown => Principal::Unknown,
        }
    }
}

/// The words of a text: one for each character, never zero.
pub open spec fn text_words(text: Seq<char>) -> Seq<u64> {
    Seq::new(text.len(), |i: int| (text[i] as u64 + 1) as u64)
}

/// The words that a principal is ordered by: the variants in the order of
/// their declaration, then numbers by size and names character by character.
/// The zero word ends a name, so that a name comes before those it begins.
pub open spec fn principal_words(principal: PrincipalView) -> Seq<u64> {
    match principal {
        PrincipalView::PosixUid(uid) => seq![0u64, uid as u64],
        PrincipalView::PosixGid(gid) => seq![1u64, gid as u64],
        PrincipalView::Nfs4(name) => seq![2u64] + text_words(name) + seq![0u64],
        PrincipalView::Everyone => seq![3u64],
        PrincipalView::Unknown => seq![4u64],
    }
}

/// The word of a character is one more than its code point.
proof fn lemma_letter_word(letter: char)
    ensures
        (letter as u64 + 1) as u64 == letter as int + 1,
        letter as int >= 0,
{
}

/// A text is known by where the zero word after its own words stands.
proof fn lemma_text_words_prefix(left: Seq<char>, right: Seq<char>)
    requires
        left.len() <= right.len(),
        forall|i: int|
            0 <= i <= left.len() ==> (text_words(left) + seq![0u64])[i] == (text_words(right)
                + seq![0u64])[i],
    ensures
        left == right,
{
    let at = left.len() as int;
    if left.len() < right.len() {
        assert((text_words(left) + seq![0u64])[at] == 0);
        assert((text_words(right) + seq![0u64])[at] == text_words(right)[at]);
        lemma_letter_word(right[at]);
    }
    assert forall|i: int| 0 <= i < left.len() implies left[i] == right[i] by {
        assert((text_words(left) + seq![0u64])[i] == (text_words(right) + seq![0u64])[i]);
        lemma_letter_word(left[i]);
        lemma_letter_word(right[i]);
    }
    assert(left =~= right);
}

/// The words of a principal, whatever follows them, tell which it is.
pub proof fn lemma_principal_words_prefix(
    left: PrincipalView,
    left_rest: Seq<u64>,
    right: PrincipalView,
    right_rest: Seq<u64>,
)
    requires
        principal_words(left) + left_rest == principal_words(right) + right_rest,
    ensures
        left == right,
        left_rest == right_rest,
{
    let a = principal_words(left) + left_rest;
    let b = principal_words(right) + right_rest;
    assert(a[0] == principal_words(left)[0]);
    assert(b[0] == principal_words(right)[0]);
    assert(a.len() == principal_words(left).len() + left_rest.len());
    assert(b.len() == principal_words(right).len() + right_rest.len());
    match (left, right) {
        (PrincipalView::PosixUid(_), PrincipalView::PosixUid(_)) => {
            assert(a[1] == principal_words(left)[1]);
            assert(b[1] == principal_words(right)[1]);
        },
        (PrincipalView::PosixGid(_), PrincipalView::PosixGid(_)) => {
            assert(a[1] == principal_words(left)[1]);
            assert(b[1] == principal_words(right)[1]);
        },
        (PrincipalView::Nfs4(one), PrincipalView::Nfs4(other)) => {
            assert forall|i: int| 0 <= i <= one.len() && i <= other.len() implies (text_words(one)
                + seq![0u64])[i] == (text_words(other) + seq![0u64])[i] by {
                assert(a[i + 1] == (text_words(one) + seq![0u64])[i]);
                assert(b[i + 1] == (text_words(other) + seq![0u64])[i]);
            }
            if one.len() <= other.len() {
                lemma_text_words_prefix(one, other);
            } else {
                assert forall|i: int| 0 <= i <= other.len() implies (text_words(other)
                    + seq![0u64])[i] == (text_words(one) + seq![0u64])[i] by {
                    assert((text_words(one) + seq![0u64])[i] == (text_words(other)
                        + seq![0u64])[i]);
                }
                lemma_text_words_prefix(other, one);
            }
        },
        _ => {},
    }
    let n = principal_words(left).len() as int;
    assert(left == right);
    assert(left_rest =~= a.skip(n));
    assert(right_rest =~= b.skip(n));
}

impl Principal {
    /// Whether the two are the same principal.
    pub fn same(&self, other: &Self) -> (same: bool)
        ensures
            same == (self@ == other@),
    {
        match (self, other) {
            (Principal::PosixUid(left), Principal::PosixUid(right)) => *left == *right,
            (Principal::PosixGid(left), Principal::PosixGid(right)) => *left == *right,
            (Principal::Nfs4(left), Principal::Nfs4(right)) => *left == *right,
            (Principal::Everyone, Principal::Everyone) => true,
            (Principal::Unknown, Principal::Unknown) => true,
            _ => false,
        }
    }

    /// Whether nothing is known of who it is.
    pub fn is_unknown(&self) -> (unknown: bool)
        ensures
            unknown == (self@ == PrincipalView::Unknown),
    {
        match self {
            Principal::Unknown => true,
            _ => false,
        }
    }

    /// Appends the words that the principal is ordered by.
    pub fn append_words(&self, words: &mut Vec<u64>)
        ensures
            final(words)@ == old(words)@ + principal_words(self@),
    {
        match self {
            Principal::PosixUid(uid) => {
                words.push(0);
                words.push(*uid as u64);
            },
            Principal::PosixGid(gid) => {
                words.push(1);
                words.push(*gid as u64);
            },
            Principal::Nfs4(name) => {
                words.push(2);
                let ghost start = words@;
                let text = name.as_str();
                let length = text.unicode_len();
                let mut i: usize = 0;
                assert(words@ =~= start + text_words(text@).take(0));
                while i < length
                    invariant
                        i <= length,
                        length == text@.len(),
                        words@ == start + text_words(text@).take(i as int),
                    decreases length - i,
                {
                    let letter = text.get_char(i);
                    words.push(letter as u64 + 1);
                    assert(words@ =~= start + text_words(text@).take(i + 1));
                    i += 1;
                }
                words.push(0);
                assert(words@ =~= start + text_words(text@) + seq![0u64]);
            },
            Principal::Everyone => {
                words.push(3);
            },
            Principal::Unknown => {
                words.push(4);
            },
        }
        assert(words@ =~= old(words)@ + principal_words(self@));
    }

    /// The words that the principal is ordered by.
    pub fn words(&self) -> (words: Vec<u64>)
        ensures
            words@ == principal_words(self@),
    {
        let mut words: Vec<u64> = Vec::new();
        self.append_words(&mut words);
        assert(words@ =~= principal_words(self@));
        words
    }
}

/// The contents of a list of principals.
pub open spec fn principal_views(items: Seq<Principal>) -> Seq<PrincipalView> {
    Seq::new(items.len(), |i: int| items[i]@)
}

/// The words of each principal of a list.
pub open spec fn words_of(items: Seq<PrincipalView>) -> Seq<Seq<u64>> {
    Seq::new(items.len(), |i: int| principal_words(items[i]))
}

/// A set of principals, walked in their order.
#[derive(Debug, PartialEq, Eq)]
pub struct PrincipalSet {
    items: Vec<Principal>,
}

impl View for PrincipalSet {
    type V = Seq<PrincipalView>;

    /// The members, each once, in their order.
    closed spec fn view(&self) -> Seq<PrincipalView> {
        principal_views(self.items@)
    }
}

impl Clone for PrincipalSet {
    fn clone(&self) -> (copy: Self)
        ensures
            copy@ == self@,
    {
        proof {
            use_type_invariant(self);
        }
        let mut items: Vec<Principal> = Vec::new();
        let mut i: usize = 0;
        while i < self.items.len()
            invariant
                i <= self.items@.len(),
                principal_views(items@) == principal_views(self.items@).take(i as int),
            decreases self.items@.len() - i,
        {
            let ghost before = principal_views(items@);
            items.push(self.items[i].clone());
            assert(principal_views(items@) =~= before.push(self.items@[i as int]@));
            assert(principal_views(self.items@).take(i + 1) =~= before.push(
                self.items@[i as int]@,
            ));
            i += 1;
        }
        assert(principal_views(items@) =~= principal_views(self.items@));
        PrincipalSet { items }
    }
}

impl Default for PrincipalSet {
    fn default() -> (set: Self)
        ensures
            set@.len() == 0,
    {
        PrincipalSet { items: Vec::new() }
    }
}

impl PrincipalSet {
    /// The members strictly increase, so none stands twice.
    #[verifier::type_invariant]
    spec fn is_ordered(self) -> bool {
        strictly_increasing(words_of(principal_views(self.items@)))
    }

    /// The set of the given principals.
    pub fn from_principals(principals: Vec<Principal>) -> (set: Self)
        ensures
            strictly_increasing(words_of(set@)),
            forall|p: PrincipalView|
                set@.contains(p) <==> #[trigger] principal_views(principals@).contains(p),
    {
        let ghost given = principal_views(principals@);
        let mut set = PrincipalSet::default();
        let mut rest = principals;
        let ghost mut left = given;
        proof {
            assert forall|p: PrincipalView| #[trigger] given.contains(p) implies left.contains(
                p,
            ) || set@.contains(p) by {}
        }
        while rest.len() > 0
            invariant
                left == principal_views(rest@),
                forall|p: PrincipalView|
                    #![trigger given.contains(p)]
                    given.contains(p) <==> left.contains(p) || set@.contains(p),
            decreases rest@.len(),
        {
            let ghost before = left;
            let next = rest.pop();
            match next {
                Some(principal) => {
                    set.insert(principal);
                    proof {
                        left = principal_views(rest@);
                        assert(before =~= left.push(principal@));
                        assert forall|p: PrincipalView|
                            #![trigger given.contains(p)]
                            given.contains(p) <==> left.contains(p) || set@.contains(p) by {
                            if before.contains(p) {
                                let i = choose|i: int| 0 <= i < before.len() && before[i] == p;
                                if i < left.len() {
                                    assert(left[i] == p);
                                }
                            }
                            if left.contains(p) {
                                let i = choose|i: int| 0 <= i < left.len() && left[i] == p;
                                assert(before[i] == p);
                            }
                            assert(before[left.len() as int] == principal@);
                        }
                    }
                },
                None => {},
            }
        }
        proof {
            assert forall|p: PrincipalView|
                set@.contains(p) <==> #[trigger] principal_views(principals@).contains(p) by {
                assert(given.contains(p) <==> left.contains(p) || set@.contains(p));
            }
            use_type_invariant(&set);
        }
        set
    }

    /// How many principals there are.
    pub fn len(&self) -> (count: usize)
        ensures
            count == self@.len(),
            strictly_increasing(words_of(self@)),
    {
        proof {
            use_type_invariant(self);
        }
        self.items.len()
    }

    /// Whether there are none.
    pub fn is_empty(&self) -> (empty: bool)
        ensures
            empty == (self@.len() == 0),
    {
        self.items.len() == 0
    }

    /// The principal at `index` in the order.
    pub fn get(&self, index: usize) -> (principal: &Principal)
        requires
            index < self@.len(),
        ensures
            principal@ == self@[index as int],
    {
        &self.items[index]
    }

    /// Whether `principal` is a member.
    pub fn contains(&self, principal: &Principal) -> (found: bool)
        ensures
            found == self@.contains(principal@),
    {
        let mut i: usize = 0;
        while i < self.items.len()
            invariant
                i <= self.items@.len(),
                forall|n: int| 0 <= n < i ==> self@[n] != principal@,
            decreases self.items@.len() - i,
        {
            if self.items[i].same(principal) {
                assert(self@[i as int] == principal@);
                return true;
            }
            i += 1;
        }
        false
    }

    /// Whether the unknown principal is a member.
    pub fn has_unknown(&self) -> (found: bool)
        ensures
            found == self@.contains(PrincipalView::Unknown),
    {
        self.contains(&Principal::Unknown)
    }

    /// Makes `principal` a member.
    pub fn insert(&mut self, principal: Principal)
        ensures
            strictly_increasing(words_of(final(self)@)),
            forall|p: PrincipalView| #[trigger]
                final(self)@.contains(p) <==> old(self)@.contains(p) || p == principal@,
    {
        proof {
            use_type_invariant(&*self);
        }
        let words = principal.words();
        let ghost before = self@;
        let ghost keys = words_of(before);
        let mut i: usize = 0;
        while i < self.items.len()
            invariant
                i <= self.items@.len(),
                before == self@,
                before == principal_views(self.items@),
                keys == words_of(before),
                strictly_increasing(keys),
                words@ == principal_words(principal@),
                i > 0 ==> words_less(keys[i - 1], words@),
                *self == *old(self),
            decreases self.items@.len() - i,
        {
            let here = self.items[i].words();
            assert(keys[i as int] == here@);
            match compare_words(&here, &words) {
                PathOrder::Less => {},
                PathOrder::Equal => {
                    proof {
                        let none = Seq::<u64>::empty();
                        assert(principal_words(before[i as int]) + none
                            =~= principal_words(principal@) + none);
                        lemma_principal_words_prefix(before[i as int], none, principal@, none);
                        assert(self@[i as int] == principal@);
                    }
                    return ;
                },
                PathOrder::Greater => {
                    proof {
                        lemma_insert_keeps_order(keys, words@, i as int);
                    }
                    let mut items: Vec<Principal> = Vec::new();
                    std::mem::swap(&mut items, &mut self.items);
                    items.insert(i, principal);
                    proof {
                        assert(principal_views(items@) =~= before.insert(i as int, principal@));
                        assert(words_of(principal_views(items@)) =~= keys.insert(i as int, words@));
                    }
                    self.items = items;
                    proof {
                        assert(self@ =~= before.insert(i as int, principal@));
                        lemma_insert_members(before, principal@, i as int);
                    }
                    return ;
                },
            }
            i += 1;
        }
        proof {
            lemma_insert_keeps_order(keys, words@, i as int);
        }
        let mut items: Vec<Principal> = Vec::new();
        std::mem::swap(&mut items, &mut self.items);
        items.insert(i, principal);
        proof {
            assert(principal_views(items@) =~= before.insert(i as int, principal@));
            assert(words_of(principal_views(items@)) =~= keys.insert(i as int, words@));
        }
        self.items = items;
        proof {
            assert(self@ =~= before.insert(i as int, principal@));
            lemma_insert_members(before, principal@, i as int);
        }
    }
}

/// Inserting adds one member and keeps the others.
proof fn lemma_insert_members(before: Seq<PrincipalView>, new: PrincipalView, at: int)
    requires
        0 <= at <= before.len(),
    ensures
        forall|p: PrincipalView| #[trigger]
            before.insert(at, new).contains(p) <==> before.contains(p) || p == new,
{
    let after = before.insert(at, new);
    assert forall|p: PrincipalView| #[trigger]
        after.contains(p) <==> before.contains(p) || p == new by {
        if before.contains(p) {
            let i = choose|i: int| 0 <= i < before.len() && before[i] == p;
            if i < at {
                assert(after[i] == p);
            } else {
                assert(after[i + 1] == p);
            }
        }
        assert(after[at] == new);
        if after.contains(p) {
            let i = choose|i: int| 0 <= i < after.len() && after[i] == p;
            if i < at {
                assert(before[i] == p);
            } else if i > at {
                assert(before[i - 1] == p);
            }
        }
    }
}

} // verus!
