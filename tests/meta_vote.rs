use parsec::bool_set::BoolSet;
use parsec::meta_vote::{
    AuxValue, BinValues, Estimates, MetaVote, MetaVoteValues, Step, UndecidedMetaVoteValues,
};
use parsec::meta_vote_counts::MetaVoteCounts;
use std::collections::BTreeMap;

fn counts(total_peers: usize) -> MetaVoteCounts {
    MetaVoteCounts::zero(total_peers)
}

fn undecided(estimates: BoolSet, bin_values: BoolSet, aux_value: Option<bool>) -> MetaVoteValues {
    MetaVoteValues::Undecided(UndecidedMetaVoteValues {
        estimates: Estimates(estimates),
        bin_values: BinValues(bin_values),
        aux_value: AuxValue(aux_value),
    })
}

#[test]
fn observer_seed() {
    let votes = MetaVote::new_for_observer(true, &[], 4);
    assert_eq!(votes.len(), 1);
    assert_eq!(votes[0].round, 0);
    assert_eq!(votes[0].step, Step::ForcedTrue);
    assert_eq!(
        votes[0].values,
        undecided(BoolSet::Single(true), BoolSet::Empty, None)
    );
}

#[test]
fn unanimous_true_decides_in_first_step() {
    let mut values = undecided(BoolSet::Single(true), BoolSet::Empty, None);
    let mut c = counts(4);
    c.estimates_true = 4;
    c.aux_values_true = 3;
    values.update(c, None, Step::ForcedTrue);
    assert_eq!(values, MetaVoteValues::Decided(true));
}

#[test]
fn unanimous_true_through_derivation() {
    let other = [MetaVote::new(
        0,
        Step::ForcedTrue,
        BoolSet::Single(true),
        BoolSet::Single(true),
        Some(true),
        None,
    )];
    let others: Vec<&[MetaVote]> = vec![&other, &other, &other];
    let votes = MetaVote::new_for_observer(true, &others, 4);
    assert_eq!(votes.len(), 1);
    assert_eq!(votes[0].decision(), Some(true));
    assert!(votes[0].contains_aux_value());
}

#[test]
fn unanimous_true_without_aux_support_stays_undecided() {
    let mut values = undecided(BoolSet::Single(true), BoolSet::Empty, None);
    let mut c = counts(4);
    c.estimates_true = 4;
    values.update(c, None, Step::ForcedTrue);
    assert_eq!(
        values,
        undecided(BoolSet::Single(true), BoolSet::Single(true), Some(true))
    );
}

#[test]
fn one_third_amplification() {
    let mut values = undecided(BoolSet::Single(false), BoolSet::Empty, None);
    let mut c = counts(4);
    c.estimates_true = 3;
    c.estimates_false = 1;
    values.update(c, None, Step::ForcedTrue);
    match values {
        MetaVoteValues::Undecided(u) => assert_eq!(u.estimates.0, BoolSet::Both),
        MetaVoteValues::Decided(_) => panic!("must stay undecided"),
    }
}

#[test]
fn estimates_below_one_third_are_not_echoed() {
    let mut est = Estimates(BoolSet::Single(false));
    let mut c = counts(4);
    c.estimates_true = 1;
    c.estimates_false = 3;
    est.calculate(&mut c, None);
    assert_eq!(est.0, BoolSet::Single(false));
    assert_eq!(c.estimates_true, 1);
    assert_eq!(c.estimates_false, 3);
}

#[test]
fn empty_estimates_take_the_coin() {
    let mut est = Estimates(BoolSet::Empty);
    let mut c = counts(4);
    est.calculate(&mut c, Some(false));
    assert_eq!(est.0, BoolSet::Single(false));
    assert_eq!(c.estimates_false, 1);
    let mut stalled = Estimates(BoolSet::Empty);
    let mut c2 = counts(4);
    stalled.calculate(&mut c2, None);
    assert!(stalled.is_empty());
    assert_eq!(c2.estimates_false, 0);
}

#[test]
fn bin_values_need_supermajority() {
    let mut bin = BinValues(BoolSet::Empty);
    let mut c = counts(4);
    c.estimates_true = 2;
    c.estimates_false = 3;
    bin.calculate(&mut c);
    assert_eq!(bin.0, BoolSet::Single(false));
    assert_eq!(c.bin_values_false, 1);
    assert_eq!(c.bin_values_true, 0);
}

#[test]
fn aux_tiebreak() {
    let mut aux = AuxValue(None);
    let mut c = counts(4);
    aux.calculate(&mut c, BinValues(BoolSet::Empty), BinValues(BoolSet::Both));
    assert_eq!(aux.0, Some(true));
    assert_eq!(c.aux_values_true, 1);
    assert_eq!(c.aux_values_false, 0);
}

#[test]
fn aux_is_written_once() {
    let mut aux = AuxValue(Some(false));
    let mut c = counts(4);
    aux.calculate(&mut c, BinValues(BoolSet::Empty), BinValues(BoolSet::Single(true)));
    assert_eq!(aux.0, Some(false));
    assert_eq!(c.aux_values_true, 0);
    let mut late = AuxValue(None);
    late.calculate(&mut c, BinValues(BoolSet::Single(true)), BinValues(BoolSet::Both));
    assert_eq!(late.0, None);
}

#[test]
fn coin_driven_restart() {
    let mut values = undecided(BoolSet::Both, BoolSet::Both, Some(true));
    let mut c = counts(4);
    c.aux_values_true = 2;
    c.aux_values_false = 2;
    values.increase_step(&c, Some(false), Step::GenuineFlip);
    assert_eq!(values, undecided(BoolSet::Single(false), BoolSet::Empty, None));
}

fn split_genuine_flip() -> (Vec<MetaVote>, Vec<MetaVote>, Vec<MetaVote>) {
    let parent = vec![MetaVote::new(
        0,
        Step::GenuineFlip,
        BoolSet::Both,
        BoolSet::Both,
        Some(true),
        None,
    )];
    let yes = vec![MetaVote::new(
        0,
        Step::GenuineFlip,
        BoolSet::Both,
        BoolSet::Both,
        Some(true),
        None,
    )];
    let no = vec![MetaVote::new(
        0,
        Step::GenuineFlip,
        BoolSet::Both,
        BoolSet::Both,
        Some(false),
        None,
    )];
    (parent, yes, no)
}

#[test]
fn coin_driven_restart_through_derivation() {
    let (parent, yes, no) = split_genuine_flip();
    let others: Vec<&[MetaVote]> = vec![&yes, &no, &no];
    let mut coins = BTreeMap::new();
    coins.insert(0usize, false);
    let votes = MetaVote::next_final(&parent, &others, &coins, 4);
    assert_eq!(votes.len(), 2);
    assert_eq!(votes[1].round_and_step(), (1, Step::ForcedTrue));
    assert_eq!(
        votes[1].values,
        undecided(BoolSet::Single(false), BoolSet::Empty, None)
    );
}

#[test]
fn stall() {
    let mut values = undecided(BoolSet::Both, BoolSet::Both, Some(true));
    let mut c = counts(4);
    c.aux_values_true = 2;
    c.aux_values_false = 2;
    values.increase_step(&c, None, Step::GenuineFlip);
    assert_eq!(values, undecided(BoolSet::Empty, BoolSet::Empty, None));

    let (parent, yes, no) = split_genuine_flip();
    let others: Vec<&[MetaVote]> = vec![&yes, &no, &no];
    let votes = MetaVote::next_temp(&parent, &others, 4);
    assert_eq!(votes.len(), 2);
    assert_eq!(votes[1].round_and_step(), (1, Step::ForcedTrue));
    assert!(votes[1].has_empty_estimates());
    assert_eq!(votes[1].decision(), None);
}

#[test]
fn forced_steps_pick_their_estimates() {
    let start = undecided(BoolSet::Both, BoolSet::Both, Some(true));
    let mut c = counts(4);
    c.aux_values_false = 3;
    let mut a = start;
    a.increase_step(&c, None, Step::ForcedTrue);
    assert_eq!(a, undecided(BoolSet::Single(false), BoolSet::Empty, None));
    let mut b = start;
    b.increase_step(&c, None, Step::ForcedFalse);
    assert_eq!(b, undecided(BoolSet::Single(false), BoolSet::Empty, None));
    let mut g = start;
    g.increase_step(&c, Some(true), Step::GenuineFlip);
    assert_eq!(g, undecided(BoolSet::Single(false), BoolSet::Empty, None));
    let mut d = counts(4);
    d.aux_values_true = 3;
    let mut t = start;
    t.increase_step(&d, None, Step::ForcedTrue);
    assert_eq!(t, undecided(BoolSet::Single(true), BoolSet::Empty, None));
}

#[test]
fn forced_false_step_decides_false() {
    let mut values = undecided(BoolSet::Single(false), BoolSet::Empty, None);
    let mut c = counts(4);
    c.estimates_false = 4;
    c.aux_values_false = 3;
    values.update(c, None, Step::ForcedFalse);
    assert_eq!(values, MetaVoteValues::Decided(false));
}

#[test]
fn genuine_flip_inherits_decision_only() {
    let mut values = undecided(BoolSet::Single(true), BoolSet::Empty, None);
    let mut c = counts(4);
    c.estimates_true = 4;
    c.aux_values_true = 3;
    values.update(c, None, Step::GenuineFlip);
    assert_eq!(
        values,
        undecided(BoolSet::Single(true), BoolSet::Single(true), Some(true))
    );
    let mut inherit = undecided(BoolSet::Single(true), BoolSet::Empty, None);
    let mut d = counts(4);
    d.decision = Some(false);
    inherit.update(d, None, Step::GenuineFlip);
    assert_eq!(inherit, MetaVoteValues::Decided(false));
}

#[test]
fn decided_is_terminal() {
    let mut values = MetaVoteValues::Decided(false);
    let mut c = counts(4);
    c.estimates_true = 4;
    c.aux_values_true = 4;
    values.update(c, Some(true), Step::ForcedTrue);
    assert_eq!(values, MetaVoteValues::Decided(false));
    values.increase_step(&c, Some(true), Step::GenuineFlip);
    assert_eq!(values, MetaVoteValues::Decided(false));

    let decided = MetaVote::new(2, Step::ForcedFalse, BoolSet::Empty, BoolSet::Empty, None, Some(true));
    let later = MetaVote::new(3, Step::ForcedTrue, BoolSet::Both, BoolSet::Empty, None, None);
    let list = vec![decided, later];
    let votes = MetaVote::next_temp(&list, &[], 4);
    assert_eq!(votes, vec![decided]);
}

#[test]
fn updates_are_monotone() {
    let mut values = undecided(BoolSet::Single(true), BoolSet::Empty, None);
    let mut c = counts(7);
    c.estimates_true = 5;
    values.update(c, None, Step::ForcedFalse);
    assert_eq!(
        values,
        undecided(BoolSet::Single(true), BoolSet::Single(true), Some(true))
    );
    let mut d = counts(7);
    d.estimates_false = 3;
    values.update(d, None, Step::ForcedFalse);
    assert_eq!(
        values,
        undecided(BoolSet::Both, BoolSet::Single(true), Some(true))
    );
    let mut e = counts(7);
    e.estimates_false = 5;
    values.update(e, None, Step::ForcedFalse);
    assert_eq!(values, undecided(BoolSet::Both, BoolSet::Both, Some(true)));
    values.update(counts(7), None, Step::ForcedFalse);
    assert_eq!(values, undecided(BoolSet::Both, BoolSet::Both, Some(true)));
}

#[test]
fn debug_characters() {
    assert_eq!(MetaVoteValues::Decided(true).as_chars(), ('t', 't', 't', 't'));
    assert_eq!(MetaVoteValues::Decided(false).as_chars(), ('f', 'f', 'f', 'f'));
    assert_eq!(MetaVoteValues::default().as_chars(), ('-', '-', '_', '_'));
    assert_eq!(
        undecided(BoolSet::Both, BoolSet::Single(false), Some(true)).as_chars(),
        ('b', 'f', 't', '_')
    );
}

#[test]
fn accessors() {
    let v = MetaVote::new(5, Step::GenuineFlip, BoolSet::Empty, BoolSet::Empty, None, None);
    assert_eq!(v.round_and_step(), (5, Step::GenuineFlip));
    assert!(v.has_empty_estimates());
    assert!(!v.contains_aux_value());
    assert!(!v.is_decided());
    assert_eq!(v.decision(), None);
    let d = MetaVote::new(1, Step::ForcedTrue, BoolSet::Empty, BoolSet::Empty, None, Some(false));
    assert!(!d.has_empty_estimates());
    assert!(d.contains_aux_value());
    assert!(d.is_decided());
    assert_eq!(d.decision(), Some(false));
    assert_eq!(Step::default(), Step::ForcedTrue);
}

fn decide_together(seeds: [bool; 4], coin: fn(usize) -> bool) -> Vec<Option<bool>> {
    let mut lists: Vec<Vec<MetaVote>> = Vec::new();
    for seed in seeds.iter() {
        let others: Vec<&[MetaVote]> = lists.iter().map(|l| l.as_slice()).collect();
        lists.push(MetaVote::new_for_observer(*seed, &others, 4));
    }
    let mut coins = BTreeMap::new();
    for round in 0..20usize {
        coins.insert(round, coin(round));
    }
    for _ in 0..30 {
        let mut next_lists = Vec::new();
        for i in 0..4 {
            let others: Vec<&[MetaVote]> = (0..4)
                .filter(|&j| j != i)
                .map(|j| lists[j].as_slice())
                .collect();
            let temp = MetaVote::next_temp(&lists[i], &others, 4);
            next_lists.push(MetaVote::next_final(&temp, &others, &coins, 4));
        }
        lists = next_lists;
        if lists.iter().all(|l| l.last().map_or(false, |v| v.is_decided())) {
            break;
        }
    }
    lists
        .iter()
        .map(|l| l.last().and_then(|v| v.decision()))
        .collect()
}

#[test]
fn honest_peers_agree() {
    let cases: [[bool; 4]; 4] = [
        [true, true, true, true],
        [false, false, false, false],
        [true, true, false, false],
        [false, true, true, true],
    ];
    for seeds in cases.iter() {
        for coin in [(|r: usize| r % 2 == 0) as fn(usize) -> bool, |_| false, |_| true].iter() {
            let decisions = decide_together(*seeds, *coin);
            assert!(decisions[0].is_some(), "{:?} {:?}", seeds, decisions);
            for d in decisions.iter() {
                assert_eq!(*d, decisions[0]);
            }
        }
    }
    assert_eq!(decide_together([true; 4], |_| false), vec![Some(true); 4]);
    assert_eq!(decide_together([false; 4], |_| true), vec![Some(false); 4]);
}
