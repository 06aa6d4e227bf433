use vstd::prelude::*;

use crate::bool_set::BoolSet;
use crate::meta_vote_counts::{
    counts_at, last_at, lists_view, tally, zero_counts, MetaVoteCounts,
};
use std::collections::BTreeMap;

verus! {

/// The three steps of a round, in order.
#[derive(Clone, Copy, Debug, PartialEq, Eq, PartialOrd, Structural)]
pub enum Step {
    ForcedTrue,
    ForcedFalse,
    GenuineFlip,
}

impl Step {
    /// Position of the step within its round.
    pub open spec fn index(self) -> int {
        match self {
            Step::ForcedTrue => 0,
            Step::ForcedFalse => 1,
            Step::GenuineFlip => 2,
        }
    }

    /// The step that follows this one.
    pub open spec fn following(self) -> Step {
        match self {
            Step::ForcedTrue => Step::ForcedFalse,
            Step::ForcedFalse => Step::GenuineFlip,
            Step::GenuineFlip => Step::ForcedTrue,
        }
    }
}

impl Default for Step {
    fn default() -> (r: Step)
        ensures
            r == Step::ForcedTrue,
    {
        Step::ForcedTrue
    }
}

/// The estimates of one meta-vote.
#[derive(Clone, Copy, Debug, PartialEq, Eq, Structural)]
pub struct Estimates(pub BoolSet);

/// The binary values of one meta-vote.
#[derive(Clone, Copy, Debug, PartialEq, Eq, Structural)]
pub struct BinValues(pub BoolSet);

/// The auxiliary value of one meta-vote, written at most once per round and step.
#[derive(Clone, Copy, Debug, PartialEq, Eq, Structural)]
pub struct AuxValue(pub Option<bool>);

/// `c` with one more estimate for `b`.
pub open spec fn bump_estimates(c: MetaVoteCounts, b: bool) -> MetaVoteCounts {
    if b {
        MetaVoteCounts { estimates_true: (c.estimates_true + 1) as usize, ..c }
    } else {
        MetaVoteCounts { estimates_false: (c.estimates_false + 1) as usize, ..c }
    }
}

/// `c` with one more binary value for `b`.
pub open spec fn bump_bin_values(c: MetaVoteCounts, b: bool) -> MetaVoteCounts {
    if b {
        MetaVoteCounts { bin_values_true: (c.bin_values_true + 1) as usize, ..c }
    } else {
        MetaVoteCounts { bin_values_false: (c.bin_values_false + 1) as usize, ..c }
    }
}

/// `c` with one more auxiliary value for `b`.
pub open spec fn bump_aux_values(c: MetaVoteCounts, b: bool) -> MetaVoteCounts {
    if b {
        MetaVoteCounts { aux_values_true: (c.aux_values_true + 1) as usize, ..c }
    } else {
        MetaVoteCounts { aux_values_false: (c.aux_values_false + 1) as usize, ..c }
    }
}

impl Estimates {
    /// New estimates and counts. Empty estimates take the coin toss, if there is one; otherwise
    /// each value backed by at least a third of the peers is added, true first.
    pub open spec fn calculated(self, c: MetaVoteCounts, coin_toss: Option<bool>) -> (
        Estimates,
        MetaVoteCounts,
    ) {
        if self.0 == BoolSet::Empty {
            match coin_toss {
                Some(t) => (Estimates(BoolSet::Single(t)), bump_estimates(c, t)),
                None => (self, c),
            }
        } else {
            let add_true = c.one_third(c.estimates_true as int) && !self.0.has(true);
            let s1 = if add_true { self.0.with(true) } else { self.0 };
            let c1 = if add_true { bump_estimates(c, true) } else { c };
            let add_false = c1.one_third(c1.estimates_false as int) && !s1.has(false);
            let s2 = if add_false { s1.with(false) } else { s1 };
            let c2 = if add_false { bump_estimates(c1, false) } else { c1 };
            (Estimates(s2), c2)
        }
    }

    pub fn from_initial_value(value: bool) -> (r: Estimates)
        ensures
            r == Estimates(BoolSet::Single(value)),
    {
        Estimates(BoolSet::from_bool(value))
    }

    pub fn calculate(&mut self, counts: &mut MetaVoteCounts, coin_toss: Option<bool>)
        requires
            old(counts).estimates_true < usize::MAX,
            old(counts).estimates_false < usize::MAX,
        ensures
            (*final(self), *final(counts)) == old(self).calculated(*old(counts), coin_toss),
    {
        if self.0.is_empty() {
            match coin_toss {
                Some(toss) => {
                    if toss {
                        counts.estimates_true = counts.estimates_true + 1;
                    } else {
                        counts.estimates_false = counts.estimates_false + 1;
                    }
                    self.0 = BoolSet::from_bool(toss);
                },
                None => {},
            }
        } else {
            if counts.at_least_one_third(counts.estimates_true) && self.0.insert(true) {
                counts.estimates_true = counts.estimates_true + 1;
            }
            if counts.at_least_one_third(counts.estimates_false) && self.0.insert(false) {
                counts.estimates_false = counts.estimates_false + 1;
            }
        }
    }

    pub fn is_empty(self) -> (r: bool)
        ensures
            r == (self.0 == BoolSet::Empty),
    {
        self.0.is_empty()
    }
}

impl BinValues {
    /// New binary values and counts: each value whose estimates have a supermajority is added,
    /// true first.
    pub open spec fn calculated(self, c: MetaVoteCounts) -> (BinValues, MetaVoteCounts) {
        let add_true = c.supermajority(c.estimates_true as int) && !self.0.has(true);
        let s1 = if add_true { self.0.with(true) } else { self.0 };
        let c1 = if add_true { bump_bin_values(c, true) } else { c };
        let add_false = c1.supermajority(c1.estimates_false as int) && !s1.has(false);
        let s2 = if add_false { s1.with(false) } else { s1 };
        let c2 = if add_false { bump_bin_values(c1, false) } else { c1 };
        (BinValues(s2), c2)
    }

    pub fn calculate(&mut self, counts: &mut MetaVoteCounts)
        requires
            old(counts).bin_values_true < usize::MAX,
            old(counts).bin_values_false < usize::MAX,
        ensures
            (*final(self), *final(counts)) == old(self).calculated(*old(counts)),
    {
        if counts.is_supermajority(counts.estimates_true) && self.0.insert(true) {
            counts.bin_values_true = counts.bin_values_true + 1;
        }
        if counts.is_supermajority(counts.estimates_false) && self.0.insert(false) {
            counts.bin_values_false = counts.bin_values_false + 1;
        }
    }
}

impl AuxValue {
    /// New auxiliary value and counts. An unset value is set only when the binary values went
    /// from empty to non-empty: to their one value, or to true when they hold both.
    pub open spec fn calculated(self, c: MetaVoteCounts, before: BinValues, now: BinValues) -> (
        AuxValue,
        MetaVoteCounts,
    ) {
        if self.0.is_some() || before.0 != BoolSet::Empty {
            (self, c)
        } else {
            match now.0 {
                BoolSet::Empty => (self, c),
                BoolSet::Single(b) => (AuxValue(Some(b)), bump_aux_values(c, b)),
                BoolSet::Both => (AuxValue(Some(true)), bump_aux_values(c, true)),
            }
        }
    }

    pub fn calculate(&mut self, counts: &mut MetaVoteCounts, before: BinValues, now: BinValues)
        requires
            old(counts).aux_values_true < usize::MAX,
            old(counts).aux_values_false < usize::MAX,
        ensures
            (*final(self), *final(counts)) == old(self).calculated(*old(counts), before, now),
    {
        if self.0.is_some() {
            return ;
        }
        if before.0.is_empty() {
            if now.0.len() == 1 {
                if now.0.contains(true) {
                    self.0 = Some(true);
                    counts.aux_values_true = counts.aux_values_true + 1;
                } else {
                    self.0 = Some(false);
                    counts.aux_values_false = counts.aux_values_false + 1;
                }
            } else if now.0.len() == 2 {
                self.0 = Some(true);
                counts.aux_values_true = counts.aux_values_true + 1;
            }
        }
    }
}

/// The parts of a meta-vote that has not decided yet.
#[derive(Clone, Copy, Debug, PartialEq, Eq, Structural)]
pub struct UndecidedMetaVoteValues {
    pub estimates: Estimates,
    pub bin_values: BinValues,
    pub aux_value: AuxValue,
}

impl UndecidedMetaVoteValues {
    pub open spec fn empty() -> UndecidedMetaVoteValues {
        UndecidedMetaVoteValues {
            estimates: Estimates(BoolSet::Empty),
            bin_values: BinValues(BoolSet::Empty),
            aux_value: AuxValue(None),
        }
    }
}

impl Default for UndecidedMetaVoteValues {
    fn default() -> (r: UndecidedMetaVoteValues)
        ensures
            r == UndecidedMetaVoteValues::empty(),
    {
        UndecidedMetaVoteValues {
            estimates: Estimates(BoolSet::Empty),
            bin_values: BinValues(BoolSet::Empty),
            aux_value: AuxValue(None),
        }
    }
}

/// The state of a binary meta-vote: decided, or the values that lead to a decision.
#[derive(Clone, Copy, Debug, PartialEq, Eq, Structural)]
pub enum MetaVoteValues {
    Decided(bool),
    Undecided(UndecidedMetaVoteValues),
}

/// The decision that the binary values and the counts give at `step`, if any.
pub open spec fn decision_at(bin_values: BinValues, c: MetaVoteCounts, step: Step) -> Option<bool> {
    match step {
        Step::ForcedTrue => if bin_values.0.has(true) && c.supermajority(c.aux_values_true as int) {
            Some(true)
        } else {
            c.decision
        },
        Step::ForcedFalse => if bin_values.0.has(false) && c.supermajority(
            c.aux_values_false as int,
        ) {
            Some(false)
        } else {
            c.decision
        },
        Step::GenuineFlip => c.decision,
    }
}

/// The estimates with which the step after `step` starts.
pub open spec fn estimates_after(c: MetaVoteCounts, coin_toss: Option<bool>, step: Step) -> BoolSet {
    match step {
        Step::ForcedTrue => if c.supermajority(c.aux_values_false as int) {
            BoolSet::Single(false)
        } else {
            BoolSet::Single(true)
        },
        Step::ForcedFalse => if c.supermajority(c.aux_values_true as int) {
            BoolSet::Single(true)
        } else {
            BoolSet::Single(false)
        },
        Step::GenuineFlip => if c.supermajority(c.aux_values_true as int) {
            BoolSet::Single(true)
        } else if c.supermajority(c.aux_values_false as int) {
            BoolSet::Single(false)
        } else {
            match coin_toss {
                Some(t) => BoolSet::Single(t),
                None => BoolSet::Empty,
            }
        },
    }
}

impl MetaVoteValues {
    /// What these values add to the counts: one in each category that they hold, and their
    /// decision.
    pub open spec fn contribution(self) -> MetaVoteCounts {
        match self {
            MetaVoteValues::Decided(b) => MetaVoteCounts {
                estimates_true: if b { 1 } else { 0 },
                estimates_false: if b { 0 } else { 1 },
                bin_values_true: if b { 1 } else { 0 },
                bin_values_false: if b { 0 } else { 1 },
                aux_values_true: if b { 1 } else { 0 },
                aux_values_false: if b { 0 } else { 1 },
                decision: Some(b),
                total_peers: 0,
            },
            MetaVoteValues::Undecided(u) => MetaVoteCounts {
                estimates_true: if u.estimates.0.has(true) { 1 } else { 0 },
                estimates_false: if u.estimates.0.has(false) { 1 } else { 0 },
                bin_values_true: if u.bin_values.0.has(true) { 1 } else { 0 },
                bin_values_false: if u.bin_values.0.has(false) { 1 } else { 0 },
                aux_values_true: if u.aux_value.0 == Some(true) { 1 } else { 0 },
                aux_values_false: if u.aux_value.0 == Some(false) { 1 } else { 0 },
                decision: None,
                total_peers: 0,
            },
        }
    }

    /// The values after one update at `step` with the counts `c`: estimates, then binary values,
    /// then the auxiliary value, each also raising the counts; then the decision.
    pub open spec fn updated(self, c: MetaVoteCounts, coin_toss: Option<bool>, step: Step) -> MetaVoteValues {
        match self {
            MetaVoteValues::Decided(_) => self,
            MetaVoteValues::Undecided(u) => {
                let (est, c1) = u.estimates.calculated(c, coin_toss);
                let (bin, c2) = u.bin_values.calculated(c1);
                let (aux, c3) = u.aux_value.calculated(c2, u.bin_values, bin);
                match decision_at(bin, c3, step) {
                    Some(d) => MetaVoteValues::Decided(d),
                    None => MetaVoteValues::Undecided(
                        UndecidedMetaVoteValues { estimates: est, bin_values: bin, aux_value: aux },
                    ),
                }
            },
        }
    }

    /// The values with which the step after `step` starts.
    pub open spec fn stepped(self, c: MetaVoteCounts, coin_toss: Option<bool>, step: Step) -> MetaVoteValues {
        match self {
            MetaVoteValues::Decided(_) => self,
            MetaVoteValues::Undecided(_) => MetaVoteValues::Undecided(
                UndecidedMetaVoteValues {
                    estimates: Estimates(estimates_after(c, coin_toss, step)),
                    bin_values: BinValues(BoolSet::Empty),
                    aux_value: AuxValue(None),
                },
            ),
        }
    }
}

impl MetaVoteValues {
    pub fn from_initial_estimate(value: bool) -> (r: MetaVoteValues)
        ensures
            r == MetaVoteValues::Undecided(
                UndecidedMetaVoteValues {
                    estimates: Estimates(BoolSet::Single(value)),
                    ..UndecidedMetaVoteValues::empty()
                },
            ),
    {
        let mut values = UndecidedMetaVoteValues::default();
        values.estimates = Estimates::from_initial_value(value);
        MetaVoteValues::Undecided(values)
    }

    /// The contribution of these values to the counts.
    pub fn count(self) -> (r: MetaVoteCounts)
        ensures
            r == self.contribution(),
    {
        let mut counts = MetaVoteCounts::zero(0);
        match self {
            MetaVoteValues::Decided(value) => {
                counts.decision = Some(value);
                if value {
                    counts.estimates_true = 1;
                    counts.bin_values_true = 1;
                    counts.aux_values_true = 1;
                } else {
                    counts.estimates_false = 1;
                    counts.bin_values_false = 1;
                    counts.aux_values_false = 1;
                }
            },
            MetaVoteValues::Undecided(values) => {
                if values.estimates.0.contains(true) {
                    counts.estimates_true = 1;
                }
                if values.estimates.0.contains(false) {
                    counts.estimates_false = 1;
                }
                if values.bin_values.0.contains(true) {
                    counts.bin_values_true = 1;
                }
                if values.bin_values.0.contains(false) {
                    counts.bin_values_false = 1;
                }
                match values.aux_value.0 {
                    Some(true) => counts.aux_values_true = 1,
                    Some(false) => counts.aux_values_false = 1,
                    None => {},
                }
            },
        }
        counts
    }

    fn calculate_new_decision(&mut self, counts: &MetaVoteCounts, step: Step)
        ensures
            *final(self) == match *old(self) {
                MetaVoteValues::Decided(_) => *old(self),
                MetaVoteValues::Undecided(u) => match decision_at(u.bin_values, *counts, step) {
                    Some(d) => MetaVoteValues::Decided(d),
                    None => *old(self),
                },
            },
    {
        if let MetaVoteValues::Undecided(values) = *self {
            let bin_values = values.bin_values;
            let decision = match step {
                Step::ForcedTrue => {
                    if bin_values.0.contains(true) && counts.is_supermajority(
                        counts.aux_values_true,
                    ) {
                        Some(true)
                    } else {
                        counts.decision
                    }
                },
                Step::ForcedFalse => {
                    if bin_values.0.contains(false) && counts.is_supermajority(
                        counts.aux_values_false,
                    ) {
                        Some(false)
                    } else {
                        counts.decision
                    }
                },
                Step::GenuineFlip => counts.decision,
            };
            if let Some(value) = decision {
                *self = MetaVoteValues::Decided(value);
            }
        }
    }

    /// Starts the step after `step`: new estimates by the rules of `step`, the binary values and
    /// the auxiliary value cleared.
    pub fn increase_step(&mut self, counts: &MetaVoteCounts, coin_toss: Option<bool>, step: Step)
        ensures
            *final(self) == old(self).stepped(*counts, coin_toss, step),
    {
        if let MetaVoteValues::Undecided(mut values) = *self {
            values.estimates.0 = match step {
                Step::ForcedTrue => {
                    if counts.is_supermajority(counts.aux_values_false) {
                        BoolSet::from_bool(false)
                    } else {
                        BoolSet::from_bool(true)
                    }
                },
                Step::ForcedFalse => {
                    if counts.is_supermajority(counts.aux_values_true) {
                        BoolSet::from_bool(true)
                    } else {
                        BoolSet::from_bool(false)
                    }
                },
                Step::GenuineFlip => {
                    if counts.is_supermajority(counts.aux_values_true) {
                        BoolSet::from_bool(true)
                    } else if counts.is_supermajority(counts.aux_values_false) {
                        BoolSet::from_bool(false)
                    } else {
                        match coin_toss {
                            Some(toss) => BoolSet::from_bool(toss),
                            // No coin toss yet: wait for more gossip.
                            None => BoolSet::Empty,
                        }
                    }
                },
            };
            values.bin_values.0 = BoolSet::Empty;
            values.aux_value.0 = None;
            *self = MetaVoteValues::Undecided(values);
        }
    }

    /// Updates undecided values at `step` with the counts gathered for them.
    pub fn update(&mut self, counts: MetaVoteCounts, coin_toss: Option<bool>, step: Step)
        requires
            counts.bounded_by(usize::MAX - 1),
        ensures
            *final(self) == old(self).updated(counts, coin_toss, step),
    {
        let mut counts = counts;
        if let MetaVoteValues::Undecided(values) = *self {
            let mut estimates = values.estimates;
            estimates.calculate(&mut counts, coin_toss);
            let mut bin_values = values.bin_values;
            bin_values.calculate(&mut counts);
            let mut aux_value = values.aux_value;
            aux_value.calculate(&mut counts, values.bin_values, bin_values);
            // A count above the number of peers breaks the protocol's invariant; callers can
            // detect it with `check_exceeding`, and the update goes on regardless.
            let _ = counts.check_exceeding();
            let mut updated = MetaVoteValues::Undecided(
                UndecidedMetaVoteValues { estimates, bin_values, aux_value },
            );
            updated.calculate_new_decision(&counts, step);
            *self = updated;
        }
    }

    /// One character for each of estimates, binary values, auxiliary value and decision.
    pub fn as_chars(self) -> (r: (char, char, char, char))
        ensures
            r == self.chars(),
    {
        match self {
            MetaVoteValues::Decided(value) => {
                let dec = bool_char(value);
                (dec, dec, dec, dec)
            },
            MetaVoteValues::Undecided(values) => {
                let est = set_char(values.estimates.0);
                let bin = set_char(values.bin_values.0);
                let aux = option_char(values.aux_value.0);
                (est, bin, aux, '_')
            },
        }
    }

    pub open spec fn chars(self) -> (char, char, char, char) {
        match self {
            MetaVoteValues::Decided(b) => {
                let d = if b { 't' } else { 'f' };
                (d, d, d, d)
            },
            MetaVoteValues::Undecided(u) => (
                set_char_spec(u.estimates.0),
                set_char_spec(u.bin_values.0),
                match u.aux_value.0 {
                    Some(b) => if b { 't' } else { 'f' },
                    None => '_',
                },
                '_',
            ),
        }
    }
}

pub open spec fn set_char_spec(s: BoolSet) -> char {
    match s {
        BoolSet::Empty => '-',
        BoolSet::Single(b) => if b { 't' } else { 'f' },
        BoolSet::Both => 'b',
    }
}

fn bool_char(b: bool) -> (r: char)
    ensures
        r == (if b { 't' } else { 'f' }),
{
    if b { 't' } else { 'f' }
}

fn set_char(s: BoolSet) -> (r: char)
    ensures
        r == set_char_spec(s),
{
    match s {
        BoolSet::Empty => '-',
        BoolSet::Single(b) => bool_char(b),
        BoolSet::Both => 'b',
    }
}

fn option_char(o: Option<bool>) -> (r: char)
    ensures
        r == match o {
            Some(b) => if b { 't' } else { 'f' },
            None => '_',
        },
{
    match o {
        Some(b) => bool_char(b),
        None => '_',
    }
}

impl Default for MetaVoteValues {
    fn default() -> (r: MetaVoteValues)
        ensures
            r == MetaVoteValues::Undecided(UndecidedMetaVoteValues::empty()),
    {
        MetaVoteValues::Undecided(UndecidedMetaVoteValues::default())
    }
}

/// One binary meta-vote at a round and step.
#[derive(Clone, Copy, Debug, PartialEq, Eq, Structural)]
pub struct MetaVote {
    pub round: usize,
    pub step: Step,
    pub values: MetaVoteValues,
}

/// The coin toss for `round` in `coin_tosses`, if it is resolved.
pub open spec fn coin_for(coin_tosses: Map<usize, bool>, round: usize) -> Option<bool> {
    if coin_tosses.contains_key(round) {
        Some(coin_tosses[round])
    } else {
        None
    }
}

/// The largest round in `list`, zero if it is empty.
pub open spec fn max_round(list: Seq<MetaVote>) -> nat
    decreases list.len(),
{
    if list.len() == 0 {
        0
    } else {
        let rest = max_round(list.drop_last());
        if list.last().round > rest {
            list.last().round as nat
        } else {
            rest
        }
    }
}

/// The largest round in any of `lists`, zero if there is none.
pub open spec fn lists_max_round(lists: Seq<Seq<MetaVote>>) -> nat
    decreases lists.len(),
{
    if lists.len() == 0 {
        0
    } else {
        let rest = lists_max_round(lists.drop_last());
        let m = max_round(lists.last());
        if m > rest {
            m
        } else {
            rest
        }
    }
}

/// The meta-vote that follows `parent`, if the counts at `parent`'s round and step let it advance:
/// `parent` undecided and a supermajority of auxiliary values. It starts the next step and is
/// updated with the counts at its own round and step.
pub open spec fn next_vote_of(
    parent: MetaVote,
    others: Seq<Seq<MetaVote>>,
    coin_tosses: Map<usize, bool>,
    total_peers: usize,
) -> Option<MetaVote> {
    if parent.values is Decided {
        None
    } else {
        let c = counts_at(parent, others, total_peers);
        if !c.supermajority(c.aux_sum()) {
            None
        } else {
            let n = parent.advanced(c, coin_for(coin_tosses, parent.round));
            Some(n.updated_with(counts_at(n, others, total_peers), coin_tosses))
        }
    }
}

/// `prev` from index `k` on, each meta-vote updated with its counts, up to and including the
/// first one that was decided before its update.
pub open spec fn copy_from(
    prev: Seq<MetaVote>,
    k: int,
    others: Seq<Seq<MetaVote>>,
    coin_tosses: Map<usize, bool>,
    total_peers: usize,
) -> Seq<MetaVote>
    decreases prev.len() - k,
{
    if k < 0 || k >= prev.len() {
        Seq::empty()
    } else {
        let u = prev[k].updated_with(counts_at(prev[k], others, total_peers), coin_tosses);
        if prev[k].values is Decided {
            seq![u]
        } else {
            seq![u] + copy_from(prev, k + 1, others, coin_tosses, total_peers)
        }
    }
}

/// `next` followed by the successors of its last meta-vote, one after another, as long as there
/// is one and the last round is below `bound`.
pub open spec fn extend(
    next: Seq<MetaVote>,
    others: Seq<Seq<MetaVote>>,
    coin_tosses: Map<usize, bool>,
    total_peers: usize,
    bound: usize,
) -> Seq<MetaVote>
    decreases 3 * bound - next.last().position(),
{
    if next.len() == 0 || next.last().round >= bound {
        next
    } else {
        match next_vote_of(next.last(), others, coin_tosses, total_peers) {
            Some(v) => extend(next.push(v), others, coin_tosses, total_peers, bound),
            None => next,
        }
    }
}

/// The round below which a derivation from `prev` and `others` keeps extending: three past any
/// round they hold, or the largest round there is.
pub open spec fn round_bound(prev: Seq<MetaVote>, others: Seq<Seq<MetaVote>>) -> usize {
    let m = if max_round(prev) > lists_max_round(others) {
        max_round(prev)
    } else {
        lists_max_round(others)
    };
    if m + 3 > usize::MAX {
        usize::MAX
    } else {
        (m + 3) as usize
    }
}

/// The meta-vote list derived from `prev`: its meta-votes updated, up to the first decided one,
/// then extended with successors. The round bound never cuts this short while every round is at
/// least three below the largest round there is: the derivations then end on a meta-vote that
/// has no successor.
pub open spec fn votes_after(
    prev: Seq<MetaVote>,
    others: Seq<Seq<MetaVote>>,
    coin_tosses: Map<usize, bool>,
    total_peers: usize,
) -> Seq<MetaVote> {
    extend(
        copy_from(prev, 0, others, coin_tosses, total_peers),
        others,
        coin_tosses,
        total_peers,
        round_bound(prev, others),
    )
}

/// Every round in `prev` and `others` is at least three below the largest round there is.
pub open spec fn rounds_fit(prev: Seq<MetaVote>, others: Seq<Seq<MetaVote>>) -> bool {
    &&& max_round(prev) + 3 <= usize::MAX
    &&& lists_max_round(others) + 3 <= usize::MAX
}

impl MetaVote {
    pub open spec fn position(self) -> int {
        3 * self.round + self.step.index()
    }

    /// This meta-vote with its values updated with the counts `c`.
    pub open spec fn updated_with(self, c: MetaVoteCounts, coin_tosses: Map<usize, bool>) -> MetaVote {
        MetaVote {
            values: self.values.updated(c, coin_for(coin_tosses, self.round), self.step),
            ..self
        }
    }

    /// The meta-vote that starts the step after this one.
    pub open spec fn advanced(self, c: MetaVoteCounts, coin_toss: Option<bool>) -> MetaVote {
        MetaVote {
            round: if self.step is GenuineFlip {
                (self.round + 1) as usize
            } else {
                self.round
            },
            step: self.step.following(),
            values: self.values.stepped(c, coin_toss, self.step),
        }
    }

    /// A meta-vote with the given fields: decided if `decision` is set, else undecided with the
    /// given sets.
    pub fn new(
        round: usize,
        step: Step,
        estimates: BoolSet,
        bin_values: BoolSet,
        aux_value: Option<bool>,
        decision: Option<bool>,
    ) -> (r: MetaVote)
        ensures
            r.round == round,
            r.step == step,
            r.values == match decision {
                Some(d) => MetaVoteValues::Decided(d),
                None => MetaVoteValues::Undecided(
                    UndecidedMetaVoteValues {
                        estimates: Estimates(estimates),
                        bin_values: BinValues(bin_values),
                        aux_value: AuxValue(aux_value),
                    },
                ),
            },
    {
        let values = match decision {
            Some(value) => MetaVoteValues::Decided(value),
            None => MetaVoteValues::Undecided(
                UndecidedMetaVoteValues {
                    estimates: Estimates(estimates),
                    bin_values: BinValues(bin_values),
                    aux_value: AuxValue(aux_value),
                },
            ),
        };
        MetaVote { round, step, values }
    }

    pub fn contains_aux_value(&self) -> (r: bool)
        ensures
            r == match self.values {
                MetaVoteValues::Decided(_) => true,
                MetaVoteValues::Undecided(u) => u.aux_value.0.is_some(),
            },
    {
        match self.values {
            MetaVoteValues::Decided(_) => true,
            MetaVoteValues::Undecided(values) => values.aux_value.0.is_some(),
        }
    }

    pub fn decision(&self) -> (r: Option<bool>)
        ensures
            r == match self.values {
                MetaVoteValues::Decided(b) => Some(b),
                MetaVoteValues::Undecided(_) => None,
            },
    {
        match self.values {
            MetaVoteValues::Decided(value) => Some(value),
            MetaVoteValues::Undecided(_) => None,
        }
    }

    pub fn has_empty_estimates(&self) -> (r: bool)
        ensures
            r == match self.values {
                MetaVoteValues::Decided(_) => false,
                MetaVoteValues::Undecided(u) => u.estimates.0 == BoolSet::Empty,
            },
    {
        match self.values {
            MetaVoteValues::Decided(_) => false,
            MetaVoteValues::Undecided(values) => values.estimates.is_empty(),
        }
    }

    pub fn round_and_step(&self) -> (r: (usize, Step))
        ensures
            r == (self.round, self.step),
    {
        (self.round, self.step)
    }

    pub fn is_decided(&self) -> (r: bool)
        ensures
            r == self.values is Decided,
    {
        match self.values {
            MetaVoteValues::Decided(_) => true,
            MetaVoteValues::Undecided(_) => false,
        }
    }

    /// The meta-vote list of an event that first observes the question with
    /// `initial_estimate`: the seed at round zero and the first step, derived without coin tosses.
    pub fn new_for_observer(
        initial_estimate: bool,
        others: &[&[MetaVote]],
        total_peers: usize,
    ) -> (r: Vec<MetaVote>)
        requires
            others@.len() + 3 <= usize::MAX,
            total_peers >= 1,
        ensures
            r@ == votes_after(
                seq![MetaVote::seed(initial_estimate)],
                lists_view(others@),
                Map::empty(),
                total_peers,
            ),
            r@.len() >= 1,
            rounds_fit(seq![MetaVote::seed(initial_estimate)], lists_view(others@)) && r@.len() > 0
                ==> (next_vote_of(
                r@.last(),
                lists_view(others@),
                Map::empty(),
                total_peers,
            ) is None),
    {
        let initial = MetaVote {
            round: 0,
            step: Step::ForcedTrue,
            values: MetaVoteValues::from_initial_estimate(initial_estimate),
        };
        let seed = vec![initial];
        proof {
            assert(seed@ == seq![MetaVote::seed(initial_estimate)]);
        }
        let coin_tosses: BTreeMap<usize, bool> = BTreeMap::new();
        proof {
            let s = seq![MetaVote::seed(initial_estimate)];
            let lists = lists_view(others@);
            let copied = copy_from(s, 0, lists, Map::empty(), total_peers);
            assert(copied.len() >= 1);
            lemma_extend_keeps(copied, lists, Map::empty(), total_peers, round_bound(s, lists));
        }
        Self::next_votes(seed.as_slice(), others, &coin_tosses, total_peers)
    }

    /// The tentative meta-votes of an event whose parent holds `parent`, before any coin toss is
    /// known.
    pub fn next_temp(
        parent: &[MetaVote],
        others: &[&[MetaVote]],
        total_peers: usize,
    ) -> (r: Vec<MetaVote>)
        requires
            others@.len() + 3 <= usize::MAX,
            total_peers >= 1,
        ensures
            r@ == votes_after(parent@, lists_view(others@), Map::empty(), total_peers),
            rounds_fit(parent@, lists_view(others@)) && r@.len() > 0 ==> (next_vote_of(
                r@.last(),
                lists_view(others@),
                Map::empty(),
                total_peers,
            ) is None),
    {
        let coin_tosses: BTreeMap<usize, bool> = BTreeMap::new();
        Self::next_votes(parent, others, &coin_tosses, total_peers)
    }

    /// The final meta-votes, derived from the tentative ones with the resolved coin tosses.
    pub fn next_final(
        temp: &[MetaVote],
        others: &[&[MetaVote]],
        coin_tosses: &BTreeMap<usize, bool>,
        total_peers: usize,
    ) -> (r: Vec<MetaVote>)
        requires
            others@.len() + 3 <= usize::MAX,
            total_peers >= 1,
        ensures
            r@ == votes_after(temp@, lists_view(others@), coin_tosses@, total_peers),
            rounds_fit(temp@, lists_view(others@)) && r@.len() > 0 ==> (next_vote_of(
                r@.last(),
                lists_view(others@),
                coin_tosses@,
                total_peers,
            ) is None),
    {
        Self::next_votes(temp, others, coin_tosses, total_peers)
    }

    /// The seed of an observer's list.
    pub open spec fn seed(initial_estimate: bool) -> MetaVote {
        MetaVote {
            round: 0,
            step: Step::ForcedTrue,
            values: MetaVoteValues::Undecided(
                UndecidedMetaVoteValues {
                    estimates: Estimates(BoolSet::Single(initial_estimate)),
                    ..UndecidedMetaVoteValues::empty()
                },
            ),
        }
    }

    fn next_votes(
        prev: &[MetaVote],
        others: &[&[MetaVote]],
        coin_tosses: &BTreeMap<usize, bool>,
        total_peers: usize,
    ) -> (r: Vec<MetaVote>)
        requires
            others@.len() + 3 <= usize::MAX,
            total_peers >= 1,
        ensures
            r@ == votes_after(prev@, lists_view(others@), coin_tosses@, total_peers),
            rounds_fit(prev@, lists_view(others@)) && r@.len() > 0 ==> (next_vote_of(
                r@.last(),
                lists_view(others@),
                coin_tosses@,
                total_peers,
            ) is None),
    {
        let ghost lists = lists_view(others@);
        let ghost coins = coin_tosses@;
        let ghost copied = copy_from(prev@, 0, lists, coins, total_peers);
        let mut next: Vec<MetaVote> = Vec::new();
        let mut k: usize = 0;
        let mut stopped = false;
        proof {
            assert(copied == next@ + copy_from(prev@, 0, lists, coins, total_peers));
        }
        while k < prev.len() && !stopped
            invariant
                k <= prev@.len(),
                others@.len() + 3 <= usize::MAX,
                lists == lists_view(others@),
                coins == coin_tosses@,
                copied == copy_from(prev@, 0, lists, coins, total_peers),
                stopped ==> next@ == copied,
                forall|i: int| 0 <= i < next@.len() ==> next@[i].round <= max_round(prev@),
                !stopped ==> copied == next@ + copy_from(prev@, k as int, lists, coins, total_peers),
            decreases prev@.len() - k,
        {
            let vote = prev[k];
            let counts = MetaVoteCounts::new(&vote, others, total_peers);
            let mut updated = vote;
            updated.update(counts, coin_tosses);
            let decided = vote.is_decided();
            let ghost before = next@;
            next.push(updated);
            proof {
                lemma_max_round_bounds(prev@, k as int);
                let rest = copy_from(prev@, k + 1, lists, coins, total_peers);
                if decided {
                    assert(copy_from(prev@, k as int, lists, coins, total_peers) == seq![updated]);
                } else {
                    assert(copy_from(prev@, k as int, lists, coins, total_peers) == seq![updated] + rest);
                    assert(before + (seq![updated] + rest) == next@ + rest);
                }
            }
            if decided {
                stopped = true;
            }
            k = k + 1;
        }
        proof {
            if !stopped {
                assert(next@ + copy_from(prev@, k as int, lists, coins, total_peers) == next@);
            }
        }
        let bound = Self::round_limit(prev, others);
        if next.len() == 0 {
            return next;
        }
        proof {
            assert(next@.last() == next@[next@.len() - 1]);
            lemma_max_round_bounds(prev@, 0);
        }
        loop
            invariant
                next@.len() > 0,
                total_peers >= 1,
                rounds_fit(prev@, lists) ==> lists_max_round(lists) + 3 <= bound,
                rounds_fit(prev@, lists) && beyond(next@.last(), lists) && total_peers == 1
                    ==> next@.last().position() <= 3 * bound - 4 || (settled(next@.last())
                    && next@.last().position() + remaining(next@.last()) <= 3 * bound - 1),
                others@.len() + 3 <= usize::MAX,
                lists == lists_view(others@),
                coins == coin_tosses@,
                bound == round_bound(prev@, lists),
                next@.last().round <= bound,
                extend(copied, lists, coins, total_peers, bound) == extend(
                    next@,
                    lists,
                    coins,
                    total_peers,
                    bound,
                ),
            ensures
                extend(copied, lists, coins, total_peers, bound) == next@,
                rounds_fit(prev@, lists) ==> (next_vote_of(next@.last(), lists, coins, total_peers) is None),
            decreases 3 * bound - next@.last().position(),
        {
            let last = next[next.len() - 1];
            proof {
                assert(next@.last() == last);
            }
            if last.round >= bound {
                proof {
                    assert(extend(next@, lists, coins, total_peers, bound) == next@);
                    if rounds_fit(prev@, lists) && total_peers >= 2 {
                        lemma_alone_among_many(last, lists, coins, total_peers);
                    }
                }
                break;
            }
            match Self::next_vote(&last, others, coin_tosses, total_peers) {
                Some(v) => {
                    let ghost before = next@;
                    next.push(v);
                    proof {
                        if rounds_fit(prev@, lists) && beyond(last, lists) && total_peers == 1 {
                            lemma_alone_successor_settled(last, lists, coins);
                            if last.position() > 3 * bound - 4 {
                                lemma_settled_successor_shrinks(last, lists, coins);
                            }
                        }
                        assert(before.last() == last);
                        assert(extend(before, lists, coins, total_peers, bound) == extend(
                            next@,
                            lists,
                            coins,
                            total_peers,
                            bound,
                        ));
                    }
                },
                None => {
                    proof {
                        assert(extend(next@, lists, coins, total_peers, bound) == next@);
                    }
                    break;
                },
            }
        }
        next
    }

    /// Three past the largest round in `prev` and `others`, or the largest round there is.
    fn round_limit(prev: &[MetaVote], others: &[&[MetaVote]]) -> (r: usize)
        ensures
            r == round_bound(prev@, lists_view(others@)),
    {
        let a = max_round_in(prev);
        let mut b: usize = 0;
        let ghost lists = lists_view(others@);
        let mut i: usize = 0;
        while i < others.len()
            invariant
                i <= others@.len(),
                lists == lists_view(others@),
                b == lists_max_round(lists.take(i as int)),
            decreases others@.len() - i,
        {
            let m = max_round_in(others[i]);
            proof {
                assert(lists.take(i + 1).drop_last() == lists.take(i as int));
            }
            if m > b {
                b = m;
            }
            i = i + 1;
        }
        proof {
            assert(lists.take(others@.len() as int) == lists);
        }
        let m = if a > b {
            a
        } else {
            b
        };
        if m > usize::MAX - 3 {
            usize::MAX
        } else {
            m + 3
        }
    }

    fn update(&mut self, counts: MetaVoteCounts, coin_tosses: &BTreeMap<usize, bool>)
        requires
            counts.bounded_by(usize::MAX - 1),
        ensures
            *final(self) == old(self).updated_with(counts, coin_tosses@),
    {
        let coin_toss = coin_toss_for(coin_tosses, self.round);
        self.values.update(counts, coin_toss, self.step);
    }

    fn increase_step(&self, counts: &MetaVoteCounts, coin_toss: Option<bool>) -> (r: MetaVote)
        requires
            self.round < usize::MAX,
        ensures
            r == self.advanced(*counts, coin_toss),
    {
        let mut next = *self;
        next.values.increase_step(counts, coin_toss, self.step);
        match next.step {
            Step::ForcedTrue => {
                next.step = Step::ForcedFalse;
            },
            Step::ForcedFalse => {
                next.step = Step::GenuineFlip;
            },
            Step::GenuineFlip => {
                next.step = Step::ForcedTrue;
                next.round = next.round + 1;
            },
        }
        next
    }

    fn next_vote(
        parent: &MetaVote,
        others: &[&[MetaVote]],
        coin_tosses: &BTreeMap<usize, bool>,
        total_peers: usize,
    ) -> (r: Option<MetaVote>)
        requires
            others@.len() + 3 <= usize::MAX,
            parent.round < usize::MAX,
        ensures
            r == next_vote_of(*parent, lists_view(others@), coin_tosses@, total_peers),
    {
        if parent.is_decided() {
            return None;
        }
        let counts = MetaVoteCounts::new(parent, others, total_peers);
        if counts.is_supermajority(counts.aux_values_set()) {
            let coin_toss = coin_toss_for(coin_tosses, parent.round);
            let mut next = parent.increase_step(&counts, coin_toss);
            let new_counts = MetaVoteCounts::new(&next, others, total_peers);
            next.update(new_counts, coin_tosses);
            Some(next)
        } else {
            None
        }
    }
}

/// Extending a list keeps what it held.
pub proof fn lemma_extend_keeps(
    next: Seq<MetaVote>,
    others: Seq<Seq<MetaVote>>,
    coin_tosses: Map<usize, bool>,
    total_peers: usize,
    bound: usize,
)
    ensures
        extend(next, others, coin_tosses, total_peers, bound).len() >= next.len(),
        next.is_prefix_of(extend(next, others, coin_tosses, total_peers, bound)),
    decreases 3 * bound - next.last().position(),
{
    if next.len() > 0 && next.last().round < bound {
        match next_vote_of(next.last(), others, coin_tosses, total_peers) {
            Some(v) => {
                lemma_extend_keeps(next.push(v), others, coin_tosses, total_peers, bound);
                assert(next.is_prefix_of(next.push(v)));
            },
            None => {},
        }
    }
}

/// Every round in `list` is at most its largest round.
pub proof fn lemma_max_round_bounds(list: Seq<MetaVote>, i: int)
    requires
        0 <= i < list.len(),
    ensures
        list[i].round <= max_round(list),
    decreases list.len(),
{
    if i < list.len() - 1 {
        lemma_max_round_bounds(list.drop_last(), i);
    }
}

/// The largest round in `list`.
fn max_round_in(list: &[MetaVote]) -> (r: usize)
    ensures
        r == max_round(list@),
{
    let mut m: usize = 0;
    let mut j: usize = 0;
    while j < list.len()
        invariant
            j <= list@.len(),
            m == max_round(list@.take(j as int)),
        decreases list@.len() - j,
    {
        proof {
            assert(list@.take(j + 1).drop_last() == list@.take(j as int));
        }
        if list[j].round > m {
            m = list[j].round;
        }
        j = j + 1;
    }
    proof {
        assert(list@.take(list@.len() as int) == list@);
    }
    m
}

fn coin_toss_for(coin_tosses: &BTreeMap<usize, bool>, round: usize) -> (r: Option<bool>)
    ensures
        r == coin_for(coin_tosses@, round),
{
    broadcast use vstd::std_specs::btree::group_btree_axioms, vstd::laws_cmp::group_laws_cmp;

    match coin_tosses.get(&round) {
        Some(toss) => Some(*toss),
        None => None,
    }
}

/// An update within one round and step never shrinks anything: values that stay undecided keep
/// every estimate and binary value they held, and an auxiliary value once set stays as it was.
pub proof fn lemma_update_is_monotone(
    v: UndecidedMetaVoteValues,
    c: MetaVoteCounts,
    coin_toss: Option<bool>,
    step: Step,
)
    ensures
        match MetaVoteValues::Undecided(v).updated(c, coin_toss, step) {
            MetaVoteValues::Decided(_) => true,
            MetaVoteValues::Undecided(w) => {
                &&& forall|b: bool| v.estimates.0.has(b) ==> w.estimates.0.has(b)
                &&& forall|b: bool| v.bin_values.0.has(b) ==> w.bin_values.0.has(b)
                &&& v.aux_value.0.is_some() ==> w.aux_value == v.aux_value
            },
        },
{
}

/// A decided value is final: updating it or starting a new step leaves it as it is, and a
/// decided meta-vote has no successor.
pub proof fn lemma_decided_is_terminal(
    b: bool,
    c: MetaVoteCounts,
    coin_toss: Option<bool>,
    step: Step,
    round: usize,
    others: Seq<Seq<MetaVote>>,
    coin_tosses: Map<usize, bool>,
    total_peers: usize,
)
    ensures
        MetaVoteValues::Decided(b).updated(c, coin_toss, step) == MetaVoteValues::Decided(b),
        MetaVoteValues::Decided(b).stepped(c, coin_toss, step) == MetaVoteValues::Decided(b),
        (next_vote_of(
            MetaVote { round, step, values: MetaVoteValues::Decided(b) },
            others,
            coin_tosses,
            total_peers,
        ) is None),
{
}

/// At the genuine-flip step an undecided value decides only by taking over the decision that
/// the counts already carry.
pub proof fn lemma_genuine_flip_only_inherits(
    v: UndecidedMetaVoteValues,
    c: MetaVoteCounts,
    coin_toss: Option<bool>,
    b: bool,
)
    requires
        MetaVoteValues::Undecided(v).updated(c, coin_toss, Step::GenuineFlip)
            == MetaVoteValues::Decided(b),
    ensures
        c.decision == Some(b),
{
}

/// No other peer's list holds a meta-vote at `v`'s round or later.
pub open spec fn beyond(v: MetaVote, others: Seq<Seq<MetaVote>>) -> bool {
    v.round > lists_max_round(others)
}

/// The shape a successor takes when its peer is alone at its round and is the only peer:
/// decided, stalled, or holding one value as estimate, binary value and auxiliary value without
/// having decided on it.
pub open spec fn settled(v: MetaVote) -> bool {
    match v.values {
        MetaVoteValues::Decided(_) => true,
        MetaVoteValues::Undecided(u) => match u.estimates.0 {
            BoolSet::Empty => u.bin_values.0 == BoolSet::Empty && u.aux_value.0 is None,
            BoolSet::Single(b) => {
                &&& u.bin_values.0 == BoolSet::Single(b)
                &&& u.aux_value.0 == Some(b)
                &&& !(v.step is ForcedTrue && b)
                &&& !(v.step is ForcedFalse && !b)
            },
            BoolSet::Both => false,
        },
    }
}

/// How many successors a settled meta-vote can still have in that situation.
pub open spec fn remaining(v: MetaVote) -> int {
    match v.values {
        MetaVoteValues::Decided(_) => 0,
        MetaVoteValues::Undecided(u) => match u.aux_value.0 {
            None => 0,
            Some(b) => match v.step {
                Step::ForcedTrue => 1,
                Step::ForcedFalse => 2,
                Step::GenuineFlip => if b { 1 } else { 2 },
            },
        },
    }
}

proof fn lemma_last_at_none(list: Seq<MetaVote>, round: usize, step: Step)
    requires
        round > max_round(list),
    ensures
        (last_at(list, round, step) is None),
    decreases list.len(),
{
    if list.len() > 0 {
        lemma_last_at_none(list.drop_last(), round, step);
    }
}

proof fn lemma_tally_zero(lists: Seq<Seq<MetaVote>>, round: usize, step: Step)
    requires
        round > lists_max_round(lists),
    ensures
        tally(lists, round, step) == zero_counts(0),
    decreases lists.len(),
{
    if lists.len() > 0 {
        lemma_tally_zero(lists.drop_last(), round, step);
        lemma_last_at_none(lists.last(), round, step);
    }
}

proof fn lemma_alone_counts(v: MetaVote, others: Seq<Seq<MetaVote>>, total_peers: usize)
    requires
        beyond(v, others),
    ensures
        counts_at(v, others, total_peers) == (MetaVoteCounts {
            total_peers,
            ..zero_counts(0).plus(v.values.contribution())
        }),
{
    lemma_tally_zero(others, v.round, v.step);
}

/// Alone at its round among two or more peers, a meta-vote cannot advance.
proof fn lemma_alone_among_many(
    v: MetaVote,
    others: Seq<Seq<MetaVote>>,
    coin_tosses: Map<usize, bool>,
    total_peers: usize,
)
    requires
        beyond(v, others),
        total_peers >= 2,
    ensures
        (next_vote_of(v, others, coin_tosses, total_peers) is None),
{
    lemma_alone_counts(v, others, total_peers);
}

/// Alone at its round as the only peer, a meta-vote's successor is settled and alone too.
proof fn lemma_alone_successor_settled(
    v: MetaVote,
    others: Seq<Seq<MetaVote>>,
    coin_tosses: Map<usize, bool>,
)
    requires
        beyond(v, others),
        v.round < usize::MAX,
        (next_vote_of(v, others, coin_tosses, 1) is Some),
    ensures
        settled(next_vote_of(v, others, coin_tosses, 1)->0),
        beyond(next_vote_of(v, others, coin_tosses, 1)->0, others),
        next_vote_of(v, others, coin_tosses, 1)->0.position() == v.position() + 1,
        0 <= remaining(next_vote_of(v, others, coin_tosses, 1)->0) <= 2,
{
    lemma_alone_counts(v, others, 1);
    let c = counts_at(v, others, 1);
    let n = v.advanced(c, coin_for(coin_tosses, v.round));
    lemma_alone_counts(n, others, 1);
}

/// Alone as the only peer, each successor of a settled meta-vote has fewer successors left.
proof fn lemma_settled_successor_shrinks(
    v: MetaVote,
    others: Seq<Seq<MetaVote>>,
    coin_tosses: Map<usize, bool>,
)
    requires
        beyond(v, others),
        v.round < usize::MAX,
        settled(v),
        (next_vote_of(v, others, coin_tosses, 1) is Some),
    ensures
        remaining(next_vote_of(v, others, coin_tosses, 1)->0) < remaining(v),
{
    lemma_alone_successor_settled(v, others, coin_tosses);
    lemma_alone_counts(v, others, 1);
    let c = counts_at(v, others, 1);
    let n = v.advanced(c, coin_for(coin_tosses, v.round));
    lemma_alone_counts(n, others, 1);
}

} // verus!
