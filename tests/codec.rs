use parsec::bool_set::BoolSet;
use parsec::meta_vote::{MetaVote, Step};

#[test]
fn round_trip() {
    let votes = [
        MetaVote::new(0, Step::ForcedTrue, BoolSet::Single(true), BoolSet::Empty, None, None),
        MetaVote::new(7, Step::GenuineFlip, BoolSet::Both, BoolSet::Single(false), Some(false), None),
        MetaVote::new(300, Step::ForcedFalse, BoolSet::Empty, BoolSet::Both, Some(true), None),
        MetaVote::new(usize::MAX, Step::ForcedFalse, BoolSet::Empty, BoolSet::Empty, None, Some(true)),
        MetaVote::new(1 << 40, Step::ForcedTrue, BoolSet::Empty, BoolSet::Empty, None, Some(false)),
    ];
    for v in votes.iter() {
        assert_eq!(MetaVote::decode(&v.encode()), Some(*v));
    }
}

#[test]
fn encoding_bytes() {
    let v = MetaVote::new(258, Step::GenuineFlip, BoolSet::Both, BoolSet::Single(false), Some(true), None);
    assert_eq!(v.encode(), vec![2, 1, 0, 0, 0, 0, 0, 0, 2, 1, 3, 1, 2]);
    let d = MetaVote::new(1, Step::ForcedTrue, BoolSet::Empty, BoolSet::Empty, None, Some(true));
    assert_eq!(d.encode(), vec![1, 0, 0, 0, 0, 0, 0, 0, 0, 0, 1]);
}

#[test]
fn malformed_bytes_are_rejected() {
    assert_eq!(MetaVote::decode(&[]), None);
    assert_eq!(MetaVote::decode(&[1, 0, 0, 0, 0, 0, 0, 0, 3, 0, 1]), None);
    assert_eq!(MetaVote::decode(&[1, 0, 0, 0, 0, 0, 0, 0, 0, 0, 2]), None);
    assert_eq!(MetaVote::decode(&[1, 0, 0, 0, 0, 0, 0, 0, 0, 1, 4, 0, 0]), None);
    assert_eq!(MetaVote::decode(&[1, 0, 0, 0, 0, 0, 0, 0, 0, 1, 0, 0]), None);
    assert_eq!(MetaVote::decode(&[1, 0, 0, 0, 0, 0, 0, 0, 0, 2, 0]), None);
}
