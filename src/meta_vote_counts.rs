use vstd::prelude::*;

use crate::meta_vote::{MetaVote, MetaVoteValues, Step};

verus! {

/// What the meta-votes of several peers at one round and step add up to.
#[derive(Clone, Copy, Debug, PartialEq, Eq, Structural)]
pub struct MetaVoteCounts {
    pub estimates_true: usize,
    pub estimates_false: usize,
    pub bin_values_true: usize,
    pub bin_values_false: usize,
    pub aux_values_true: usize,
    pub aux_values_false: usize,
    pub decision: Option<bool>,
    pub total_peers: usize,
}

/// Counts with every category at zero, no decision and the given number of peers.
pub open spec fn zero_counts(total_peers: usize) -> MetaVoteCounts {
    MetaVoteCounts {
        estimates_true: 0,
        estimates_false: 0,
        bin_values_true: 0,
        bin_values_false: 0,
        aux_values_true: 0,
        aux_values_false: 0,
        decision: None,
        total_peers,
    }
}

/// The decision of `a` if it has one, else that of `b`.
pub open spec fn first_decision(a: Option<bool>, b: Option<bool>) -> Option<bool> {
    match a {
        Some(_) => a,
        None => b,
    }
}

/// The last meta-vote of `list` at the given round and step, if any.
pub open spec fn last_at(list: Seq<MetaVote>, round: usize, step: Step) -> Option<MetaVote>
    decreases list.len(),
{
    if list.len() == 0 {
        None
    } else if list.last().round == round && list.last().step == step {
        Some(list.last())
    } else {
        last_at(list.drop_last(), round, step)
    }
}

/// The sum of the contributions of each list's last meta-vote at the given round and step,
/// in list order.
pub open spec fn tally(lists: Seq<Seq<MetaVote>>, round: usize, step: Step) -> MetaVoteCounts
    decreases lists.len(),
{
    if lists.len() == 0 {
        zero_counts(0)
    } else {
        let rest = tally(lists.drop_last(), round, step);
        match last_at(lists.last(), round, step) {
            Some(v) => rest.plus(v.values.contribution()),
            None => rest,
        }
    }
}

/// The views of the other peers' lists.
pub open spec fn lists_view(others: Seq<&[MetaVote]>) -> Seq<Seq<MetaVote>> {
    others.map_values(|l: &[MetaVote]| l@)
}

/// The counts at `parent`'s round and step over the other peers' latest meta-votes there and
/// `parent` itself.
pub open spec fn counts_at(parent: MetaVote, others: Seq<Seq<MetaVote>>, total_peers: usize) -> MetaVoteCounts {
    let sum = tally(others, parent.round, parent.step).plus(parent.values.contribution());
    MetaVoteCounts { total_peers, ..sum }
}

impl MetaVoteCounts {
    /// Adds the numeric fields; the earlier decision wins. Keeps `self`'s number of peers.
    pub open spec fn plus(self, o: MetaVoteCounts) -> MetaVoteCounts {
        MetaVoteCounts {
            estimates_true: (self.estimates_true + o.estimates_true) as usize,
            estimates_false: (self.estimates_false + o.estimates_false) as usize,
            bin_values_true: (self.bin_values_true + o.bin_values_true) as usize,
            bin_values_false: (self.bin_values_false + o.bin_values_false) as usize,
            aux_values_true: (self.aux_values_true + o.aux_values_true) as usize,
            aux_values_false: (self.aux_values_false + o.aux_values_false) as usize,
            decision: first_decision(self.decision, o.decision),
            total_peers: self.total_peers,
        }
    }

    /// Every numeric field is at most `n`.
    pub open spec fn bounded_by(self, n: int) -> bool {
        &&& self.estimates_true <= n
        &&& self.estimates_false <= n
        &&& self.bin_values_true <= n
        &&& self.bin_values_false <= n
        &&& self.aux_values_true <= n
        &&& self.aux_values_false <= n
    }

    /// Strictly more than two thirds of the peers.
    pub open spec fn supermajority(self, count: int) -> bool {
        3 * count > 2 * self.total_peers
    }

    /// At least one third of the peers.
    pub open spec fn one_third(self, count: int) -> bool {
        3 * count >= self.total_peers
    }

    pub open spec fn aux_sum(self) -> int {
        self.aux_values_true + self.aux_values_false
    }

    pub open spec fn exceeds(self) -> bool {
        ||| self.estimates_true > self.total_peers
        ||| self.estimates_false > self.total_peers
        ||| self.bin_values_true > self.total_peers
        ||| self.bin_values_false > self.total_peers
        ||| self.aux_values_true > self.total_peers
        ||| self.aux_values_false > self.total_peers
    }

    pub fn zero(total_peers: usize) -> (r: MetaVoteCounts)
        ensures
            r == zero_counts(total_peers),
    {
        MetaVoteCounts {
            estimates_true: 0,
            estimates_false: 0,
            bin_values_true: 0,
            bin_values_false: 0,
            aux_values_true: 0,
            aux_values_false: 0,
            decision: None,
            total_peers,
        }
    }

    /// Adds `other` into `self`: numeric fields are summed, and a decision already held is kept.
    pub fn add_assign(&mut self, other: MetaVoteCounts)
        requires
            old(self).bounded_by(usize::MAX - 1),
            other.bounded_by(1),
        ensures
            *final(self) == old(self).plus(other),
    {
        self.estimates_true = self.estimates_true + other.estimates_true;
        self.estimates_false = self.estimates_false + other.estimates_false;
        self.bin_values_true = self.bin_values_true + other.bin_values_true;
        self.bin_values_false = self.bin_values_false + other.bin_values_false;
        self.aux_values_true = self.aux_values_true + other.aux_values_true;
        self.aux_values_false = self.aux_values_false + other.aux_values_false;
        self.decision = match self.decision {
            Some(d) => Some(d),
            None => other.decision,
        };
    }

    /// Collects the contributions, at `parent`'s round and step, of the last matching meta-vote
    /// of each other peer's list and of `parent` itself.
    pub fn new(parent: &MetaVote, others: &[&[MetaVote]], total_peers: usize) -> (r: MetaVoteCounts)
        requires
            others@.len() + 3 <= usize::MAX,
        ensures
            r == counts_at(*parent, lists_view(others@), total_peers),
            r.bounded_by(others@.len() + 1 as int),
            r.aux_sum() <= others@.len() + 1,
    {
        let ghost lists = lists_view(others@);
        let mut counts = MetaVoteCounts::zero(0);
        let mut i: usize = 0;
        while i < others.len()
            invariant
                i <= others@.len(),
                others@.len() + 3 <= usize::MAX,
                lists == lists_view(others@),
                counts == tally(lists.take(i as int), parent.round, parent.step),
                counts.bounded_by(i as int),
                counts.aux_sum() <= i,
            decreases others@.len() - i,
        {
            let other: &[MetaVote] = others[i];
            proof {
                assert(lists.take(i + 1).drop_last() == lists.take(i as int));
                assert(lists.take(i + 1).last() == other@);
            }
            let found = Self::find_last(other, parent.round, parent.step);
            match found {
                Some(v) => {
                    proof { lemma_contribution_bounded(v.values); }
                    counts.add_assign(v.values.count());
                },
                None => {},
            }
            i = i + 1;
        }
        proof {
            assert(lists.take(others@.len() as int) == lists);
            lemma_contribution_bounded(parent.values);
        }
        counts.add_assign(parent.values.count());
        counts.total_peers = total_peers;
        counts
    }

    /// The last meta-vote of `list` at `round` and `step`.
    fn find_last(list: &[MetaVote], round: usize, step: Step) -> (r: Option<MetaVote>)
        ensures
            r == last_at(list@, round, step),
    {
        let mut j: usize = list.len();
        proof {
            assert(list@.take(j as int) == list@);
        }
        while j > 0
            invariant
                j <= list@.len(),
                last_at(list@, round, step) == last_at(list@.take(j as int), round, step),
            decreases j,
        {
            let v = list[j - 1];
            proof {
                assert(list@.take(j as int).drop_last() == list@.take(j - 1));
                assert(list@.take(j as int).last() == v);
            }
            if v.round == round && v.step == step {
                return Some(v);
            }
            j = j - 1;
        }
        None
    }

    pub fn aux_values_set(&self) -> (r: usize)
        requires
            self.aux_values_true + self.aux_values_false <= usize::MAX,
        ensures
            r == self.aux_sum(),
    {
        self.aux_values_true + self.aux_values_false
    }

    /// Whether `count` is strictly more than two thirds of the peers.
    pub fn is_supermajority(&self, count: usize) -> (r: bool)
        ensures
            r == self.supermajority(count as int),
    {
        3 * (count as u128) > 2 * (self.total_peers as u128)
    }

    /// Whether `count` is at least one third of the peers.
    pub fn at_least_one_third(&self, count: usize) -> (r: bool)
        ensures
            r == self.one_third(count as int),
    {
        3 * (count as u128) >= (self.total_peers as u128)
    }

    /// Whether any category counts more than the number of peers, which the protocol never
    /// allows.
    pub fn check_exceeding(&self) -> (r: bool)
        ensures
            r == self.exceeds(),
    {
        self.estimates_true > self.total_peers
            || self.estimates_false > self.total_peers
            || self.bin_values_true > self.total_peers
            || self.bin_values_false > self.total_peers
            || self.aux_values_true > self.total_peers
            || self.aux_values_false > self.total_peers
    }
}

pub proof fn lemma_contribution_bounded(v: MetaVoteValues)
    ensures
        v.contribution().bounded_by(1),
        v.contribution().aux_sum() <= 1,
{
}

/// The sum of the contributions of `values`, added in order.
pub open spec fn sum_counts(values: Seq<MetaVoteValues>) -> MetaVoteCounts
    decreases values.len(),
{
    if values.len() == 0 {
        zero_counts(0)
    } else {
        sum_counts(values.drop_last()).plus(values.last().contribution())
    }
}

/// `a` and `b` agree in every numeric field.
pub open spec fn same_numbers(a: MetaVoteCounts, b: MetaVoteCounts) -> bool {
    &&& a.estimates_true == b.estimates_true
    &&& a.estimates_false == b.estimates_false
    &&& a.bin_values_true == b.bin_values_true
    &&& a.bin_values_false == b.bin_values_false
    &&& a.aux_values_true == b.aux_values_true
    &&& a.aux_values_false == b.aux_values_false
}

/// `a` is `b` plus `c` in every numeric field.
pub open spec fn numbers_add(a: MetaVoteCounts, b: MetaVoteCounts, c: MetaVoteCounts) -> bool {
    &&& a.estimates_true == b.estimates_true + c.estimates_true
    &&& a.estimates_false == b.estimates_false + c.estimates_false
    &&& a.bin_values_true == b.bin_values_true + c.bin_values_true
    &&& a.bin_values_false == b.bin_values_false + c.bin_values_false
    &&& a.aux_values_true == b.aux_values_true + c.aux_values_true
    &&& a.aux_values_false == b.aux_values_false + c.aux_values_false
}

proof fn lemma_sum_bounded(values: Seq<MetaVoteValues>)
    requires
        values.len() <= usize::MAX,
    ensures
        sum_counts(values).bounded_by(values.len() as int),
    decreases values.len(),
{
    if values.len() > 0 {
        lemma_sum_bounded(values.drop_last());
    }
}

proof fn lemma_sum_remove(t: Seq<MetaVoteValues>, j: int)
    requires
        0 <= j < t.len(),
        t.len() <= usize::MAX,
    ensures
        numbers_add(sum_counts(t), sum_counts(t.remove(j)), t[j].contribution()),
    decreases t.len(),
{
    let front = t.drop_last();
    lemma_sum_bounded(front);
    lemma_contribution_bounded(t.last());
    assert(sum_counts(t) == sum_counts(front).plus(t.last().contribution()));
    if j == t.len() - 1 {
        assert(t.remove(j) =~= front);
    } else {
        let inner = front.remove(j);
        lemma_sum_remove(front, j);
        assert(t.remove(j).drop_last() =~= inner);
        assert(t.remove(j).last() == t.last());
        lemma_sum_bounded(inner);
        assert(sum_counts(t.remove(j)) == sum_counts(inner).plus(t.last().contribution()));
        lemma_plus_exact(sum_counts(front), t.last().contribution());
        lemma_plus_exact(sum_counts(inner), t.last().contribution());
    }
}

proof fn lemma_plus_exact(a: MetaVoteCounts, b: MetaVoteCounts)
    requires
        a.bounded_by(usize::MAX - 1),
        b.bounded_by(1),
    ensures
        numbers_add(a.plus(b), a, b),
{
}

/// Summing the contributions of the same values in any order gives the same numbers.
pub proof fn lemma_count_additivity(s: Seq<MetaVoteValues>, t: Seq<MetaVoteValues>)
    requires
        s.to_multiset() == t.to_multiset(),
        s.len() <= usize::MAX,
    ensures
        same_numbers(sum_counts(s), sum_counts(t)),
    decreases s.len(),
{
    broadcast use vstd::seq_lib::group_to_multiset_ensures;

    if s.len() == 0 {
        assert(t.to_multiset().len() == 0);
        assert(t =~= Seq::<MetaVoteValues>::empty());
    } else {
        let x = s.last();
        assert(s.drop_last().push(x) =~= s);
        assert(t.to_multiset().count(x) > 0);
        assert(t.contains(x));
        let j = choose|j: int| 0 <= j < t.len() && t[j] == x;
        let rest = t.remove(j);
        assert(t.len() == s.len()) by {
            assert(t.len() == t.to_multiset().len());
            assert(s.len() == s.to_multiset().len());
        }
        assert(rest.to_multiset() =~= s.drop_last().to_multiset());
        lemma_count_additivity(s.drop_last(), rest);
        lemma_sum_remove(t, j);
        lemma_sum_bounded(s.drop_last());
    }
}

} // verus!
