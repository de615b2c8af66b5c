//! The static set of cluster members that a node knows, and the size of a majority of it.

use crate::messages::NodeId;
use vstd::prelude::*;

verus! {

/// The members of `ids` in the order in which each first occurs.
pub open spec fn distinct(ids: Seq<NodeId>) -> Seq<NodeId>
    decreases ids.len(),
{
    if ids.len() == 0 {
        Seq::empty()
    } else {
        let earlier = distinct(ids.drop_last());
        if earlier.contains(ids.last()) {
            earlier
        } else {
            earlier.push(ids.last())
        }
    }
}

/// The least number of votes that is more than half of `members`.
pub open spec fn quorum(members: nat) -> nat {
    members / 2 + 1
}

/// Tells the nodes other than `id` from it.
pub open spec fn is_other(id: NodeId) -> spec_fn(NodeId) -> bool {
    |member: NodeId| member != id
}

/// The values of `members` other than `id`, in their order.
pub open spec fn others(id: NodeId, members: Seq<NodeId>) -> Seq<NodeId> {
    members.filter(is_other(id))
}

/// Leaving one node out of a list without repetitions keeps the rest, each once.
pub proof fn lemma_others(id: NodeId, members: Seq<NodeId>)
    requires
        members.no_duplicates(),
    ensures
        others(id, members).no_duplicates(),
        forall|member: NodeId| #[trigger]
            others(id, members).contains(member) <==> members.contains(member) && member != id,
    decreases members.len(),
{
    reveal(Seq::filter);
    if members.len() > 0 {
        let front = members.drop_last();
        let last = members.last();
        lemma_others(id, front);
        let kept = others(id, front);
        assert forall|member: NodeId| #[trigger]
            others(id, members).contains(member) <==> members.contains(member) && member
                != id by {
            if members.contains(member) && member != id {
                let i = choose|i: int| 0 <= i < members.len() && members[i] == member;
                if i < front.len() {
                    assert(front[i] == member);
                    assert(front.contains(member));
                    assert(kept.contains(member));
                    let k = choose|k: int| 0 <= k < kept.len() && kept[k] == member;
                    assert(others(id, members)[k] == member);
                } else {
                    assert(others(id, members)[kept.len() as int] == member);
                }
            }
            if others(id, members).contains(member) {
                let k = choose|k: int|
                    0 <= k < others(id, members).len() && others(id, members)[k] == member;
                if k < kept.len() {
                    assert(kept[k] == member);
                    assert(kept.contains(member));
                    let i = choose|i: int| 0 <= i < front.len() && front[i] == member;
                    assert(members[i] == member);
                } else {
                    assert(members[members.len() - 1] == member);
                }
            }
        }
        if last != id {
            assert(!front.contains(last)) by {
                if front.contains(last) {
                    let i = choose|i: int| 0 <= i < front.len() && front[i] == last;
                    assert(members[i] == members[members.len() - 1]);
                }
            }
            assert(!kept.contains(last));
        }
    }
}

/// `distinct` keeps exactly the values of its argument, each once.
pub proof fn lemma_distinct(ids: Seq<NodeId>)
    ensures
        distinct(ids).no_duplicates(),
        distinct(ids).len() <= ids.len(),
        forall|id: NodeId| distinct(ids).contains(id) <==> ids.contains(id),
    decreases ids.len(),
{
    if ids.len() > 0 {
        let front = ids.drop_last();
        lemma_distinct(front);
        let earlier = distinct(front);
        assert forall|id: NodeId| distinct(ids).contains(id) <==> ids.contains(id) by {
            if ids.contains(id) {
                let i = choose|i: int| 0 <= i < ids.len() && ids[i] == id;
                if i < ids.len() - 1 {
                    assert(front[i] == id);
                    assert(front.contains(id));
                }
                if !earlier.contains(ids.last()) {
                    assert(earlier.push(ids.last())[earlier.len() as int] == ids.last());
                    if earlier.contains(id) {
                        let k = choose|k: int| 0 <= k < earlier.len() && earlier[k] == id;
                        assert(earlier.push(ids.last())[k] == id);
                    }
                }
            }
            if distinct(ids).contains(id) {
                let k = choose|k: int| 0 <= k < distinct(ids).len() && distinct(ids)[k] == id;
                if k < earlier.len() {
                    assert(earlier[k] == id);
                    assert(front.contains(id));
                    let i = choose|i: int| 0 <= i < front.len() && front[i] == id;
                    assert(ids[i] == id);
                } else {
                    assert(ids[ids.len() - 1] == id);
                }
            }
        }
    }
}

/// Twice a majority is more than all the members, and a majority of at least one member is
/// no more than all of them.
pub proof fn law_quorum_is_majority(members: nat)
    ensures
        2 * quorum(members) > members,
        2 * (quorum(members) - 1) <= members,
        members >= 1 ==> quorum(members) <= members,
{
}

/// Any two majorities of the same members share a member: two groups of members, each
/// without repetitions and as large as a quorum, have a node in common.
pub proof fn law_majorities_share_a_member(
    members: Seq<NodeId>,
    one: Seq<NodeId>,
    other: Seq<NodeId>,
)
    requires
        members.no_duplicates(),
        one.no_duplicates(),
        other.no_duplicates(),
        forall|i: int| 0 <= i < one.len() ==> members.contains(#[trigger] one[i]),
        forall|i: int| 0 <= i < other.len() ==> members.contains(#[trigger] other[i]),
        one.len() >= quorum(members.len()),
        other.len() >= quorum(members.len()),
    ensures
        exists|id: NodeId| one.contains(id) && other.contains(id),
{
    if forall|i: int, j: int| 0 <= i < one.len() && 0 <= j < other.len() ==> one[i] != other[j] {
        let both = one + other;
        vstd::seq_lib::lemma_no_dup_in_concat(one, other);
        both.unique_seq_to_set();
        members.unique_seq_to_set();
        vstd::seq_lib::seq_to_set_is_finite(members);
        assert(both.to_set().subset_of(members.to_set())) by {
            assert forall|id: NodeId| both.to_set().contains(id) implies members.to_set().contains(
                id,
            ) by {
                let k = choose|k: int| 0 <= k < both.len() && both[k] == id;
                if k < one.len() {
                    assert(both[k] == one[k]);
                } else {
                    assert(both[k] == other[k - one.len()]);
                }
            }
        }
        vstd::set_lib::lemma_len_subset(both.to_set(), members.to_set());
        assert(false);
    } else {
        let (i, j) = choose|i: int, j: int|
            0 <= i < one.len() && 0 <= j < other.len() && one[i] == other[j];
        assert(one.contains(one[i]) && other.contains(one[i]));
    }
}

/// A set of node identifiers, kept in the order in which they were given.
#[derive(Debug)]
pub struct Membership {
    ids: Vec<NodeId>,
}

impl View for Membership {
    type V = Seq<NodeId>;

    closed spec fn view(&self) -> Seq<NodeId> {
        self.ids@
    }
}

impl Clone for Membership {
    fn clone(&self) -> (copy: Membership)
        ensures
            copy@ == self@,
    {
        proof {
            use_type_invariant(self);
        }
        let ids = self.ids.clone();
        assert(ids@ =~= self.ids@);
        Membership { ids }
    }
}

impl Membership {
    /// What holds of every membership: no member is listed twice, and a vote count can
    /// hold the number of members.
    #[verifier::type_invariant]
    pub open spec fn wf(self) -> bool {
        self@.no_duplicates() && self@.len() <= u32::MAX
    }

    /// The set of the identifiers in `ids`; `None` if there are more of them than a vote
    /// count can hold.
    pub fn new(ids: Vec<NodeId>) -> (made: Option<Membership>)
        ensures
            made is Some <==> ids@.len() <= u32::MAX,
            made matches Some(m) ==> m@ == distinct(ids@),
    {
        if ids.len() > u32::MAX as usize {
            return None;
        }
        let mut kept: Vec<NodeId> = Vec::new();
        let mut i: usize = 0;
        while i < ids.len()
            invariant
                i <= ids.len(),
                kept@ == distinct(ids@.take(i as int)),
            decreases ids.len() - i,
        {
            let id = ids[i];
            let mut seen = false;
            let mut k: usize = 0;
            while k < kept.len()
                invariant
                    k <= kept.len(),
                    seen <==> kept@.take(k as int).contains(id),
                decreases kept.len() - k,
            {
                proof {
                    let upto = kept@.take(k as int);
                    let next = kept@.take(k as int + 1);
                    assert(next == upto.push(kept@[k as int]));
                    if upto.contains(id) {
                        let j = choose|j: int| 0 <= j < upto.len() && upto[j] == id;
                        assert(next[j] == id);
                    }
                    if kept@[k as int] == id {
                        assert(next[k as int] == id);
                    }
                }
                if kept[k] == id {
                    seen = true;
                }
                k = k + 1;
            }
            proof {
                assert(kept@.take(kept@.len() as int) == kept@);
                assert(ids@.take(i as int + 1).drop_last() == ids@.take(i as int));
            }
            if !seen {
                kept.push(id);
            }
            i = i + 1;
        }
        proof {
            assert(ids@.take(ids@.len() as int) == ids@);
            lemma_distinct(ids@);
        }
        Some(Membership { ids: kept })
    }

    /// Whether `id` is a member.
    pub fn contains(&self, id: NodeId) -> (found: bool)
        ensures
            found == self@.contains(id),
    {
        let mut i: usize = 0;
        while i < self.ids.len()
            invariant
                i <= self.ids.len(),
                forall|j: int| 0 <= j < i ==> self.ids@[j] != id,
            decreases self.ids.len() - i,
        {
            if self.ids[i] == id {
                return true;
            }
            i = i + 1;
        }
        false
    }

    /// The number of members.
    pub fn len(&self) -> (n: usize)
        ensures
            n == self@.len(),
    {
        self.ids.len()
    }

    /// The member at position `i`.
    pub fn get(&self, i: usize) -> (id: NodeId)
        requires
            i < self@.len(),
        ensures
            id == self@[i as int],
    {
        self.ids[i]
    }

    /// The members other than `id`, in their order.
    pub fn without(&self, id: NodeId) -> (rest: Membership)
        ensures
            rest@ == others(id, self@),
    {
        proof {
            use_type_invariant(self);
            reveal_with_fuel(Seq::filter, 1);
            assert(others(id, self@.take(0)) == Seq::<NodeId>::empty());
        }
        let mut kept: Vec<NodeId> = Vec::new();
        let mut i: usize = 0;
        while i < self.ids.len()
            invariant
                i <= self.ids.len(),
                kept@ == others(id, self@.take(i as int)),
            decreases self.ids.len() - i,
        {
            let member = self.ids[i];
            proof {
                assert(self@.take(i as int + 1) == self@.take(i as int).push(member));
                self@.take(i as int).lemma_filter_push(member, is_other(id));
            }
            if member != id {
                kept.push(member);
            }
            i = i + 1;
        }
        proof {
            assert(self@.take(self@.len() as int) == self@);
            lemma_others(id, self@);
            self@.lemma_filter_len(is_other(id));
        }
        Membership { ids: kept }
    }

    /// The number of votes that elects a leader: more than half of the members.
    pub fn quorum(&self) -> (votes: u32)
        ensures
            votes == quorum(self@.len()),
    {
        proof {
            use_type_invariant(self);
        }
        (self.ids.len() / 2 + 1) as u32
    }
}

} // verus!
