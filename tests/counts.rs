use parsec::bool_set::BoolSet;
use parsec::meta_vote::{MetaVote, MetaVoteValues, Step};
use parsec::meta_vote_counts::MetaVoteCounts;

fn vote(round: usize, step: Step, est: BoolSet, bin: BoolSet, aux: Option<bool>) -> MetaVote {
    MetaVote::new(round, step, est, bin, aux, None)
}

#[test]
fn thresholds() {
    let c = MetaVoteCounts::zero(4);
    assert!(c.is_supermajority(3));
    assert!(!c.is_supermajority(2));
    assert!(c.at_least_one_third(2));
    assert!(!c.at_least_one_third(1));
    let seven = MetaVoteCounts::zero(7);
    assert!(seven.is_supermajority(5));
    assert!(!seven.is_supermajority(4));
    assert!(seven.at_least_one_third(3));
    assert!(!seven.at_least_one_third(2));
    assert!(c.is_supermajority(usize::MAX));
}

#[test]
fn count_of_values() {
    let d = MetaVoteValues::Decided(false).count();
    assert_eq!(
        (d.estimates_true, d.estimates_false, d.bin_values_false, d.aux_values_false, d.decision),
        (0, 1, 1, 1, Some(false))
    );
    let u = vote(0, Step::ForcedTrue, BoolSet::Both, BoolSet::Single(true), Some(true)).values.count();
    assert_eq!(
        (u.estimates_true, u.estimates_false, u.bin_values_true, u.bin_values_false),
        (1, 1, 1, 0)
    );
    assert_eq!((u.aux_values_true, u.aux_values_false, u.decision), (1, 0, None));
}

#[test]
fn counts_take_last_matching_vote() {
    let parent = vote(0, Step::ForcedFalse, BoolSet::Single(true), BoolSet::Empty, None);
    let a = [
        vote(0, Step::ForcedTrue, BoolSet::Single(false), BoolSet::Empty, None),
        vote(0, Step::ForcedFalse, BoolSet::Single(false), BoolSet::Empty, None),
        vote(0, Step::ForcedFalse, BoolSet::Both, BoolSet::Single(true), Some(true)),
    ];
    let b = [vote(1, Step::ForcedFalse, BoolSet::Single(false), BoolSet::Empty, None)];
    let c = [MetaVote::new(0, Step::ForcedFalse, BoolSet::Empty, BoolSet::Empty, None, Some(true))];
    let others: Vec<&[MetaVote]> = vec![&a, &b, &c];
    let counts = MetaVoteCounts::new(&parent, &others, 4);
    assert_eq!(counts.total_peers, 4);
    assert_eq!((counts.estimates_true, counts.estimates_false), (3, 1));
    assert_eq!((counts.bin_values_true, counts.bin_values_false), (2, 0));
    assert_eq!((counts.aux_values_true, counts.aux_values_false), (2, 0));
    assert_eq!(counts.aux_values_set(), 2);
    assert_eq!(counts.decision, Some(true));
    assert!(!counts.check_exceeding());
}

#[test]
fn first_decision_wins() {
    let mut c = MetaVoteValues::Decided(false).count();
    c.add_assign(MetaVoteValues::Decided(true).count());
    assert_eq!(c.decision, Some(false));
    assert_eq!((c.estimates_true, c.estimates_false), (1, 1));
}

#[test]
fn count_additivity_in_any_order() {
    let values = [
        MetaVoteValues::Decided(true),
        vote(0, Step::ForcedTrue, BoolSet::Both, BoolSet::Single(false), Some(false)).values,
        vote(0, Step::ForcedTrue, BoolSet::Single(true), BoolSet::Empty, None).values,
    ];
    let orders = [[0, 1, 2], [2, 1, 0], [1, 0, 2], [2, 0, 1]];
    let mut sums = Vec::new();
    for order in orders.iter() {
        let mut c = MetaVoteCounts::zero(4);
        for &i in order.iter() {
            c.add_assign(values[i].count());
        }
        sums.push((
            c.estimates_true,
            c.estimates_false,
            c.bin_values_true,
            c.bin_values_false,
            c.aux_values_true,
            c.aux_values_false,
        ));
    }
    assert_eq!(sums[0], (3, 1, 1, 1, 1, 1));
    for s in sums.iter() {
        assert_eq!(*s, sums[0]);
    }
}

#[test]
fn exceeding_counts_are_flagged() {
    let mut c = MetaVoteCounts::zero(2);
    assert!(!c.check_exceeding());
    c.aux_values_false = 3;
    assert!(c.check_exceeding());
}
