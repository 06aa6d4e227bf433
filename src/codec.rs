use vstd::prelude::*;

use crate::bool_set::BoolSet;
use crate::meta_vote::{
    AuxValue, BinValues, Estimates, MetaVote, MetaVoteValues, Step, UndecidedMetaVoteValues,
};

verus! {

// Layout: the round as eight little-endian bytes, the step, a tag (0 decided, 1 undecided),
// then the decision, or the estimates, the binary values and the auxiliary value.

pub open spec fn set_code(s: BoolSet) -> u8 {
    match s {
        BoolSet::Empty => 0,
        BoolSet::Single(b) => if b { 2 } else { 1 },
        BoolSet::Both => 3,
    }
}

pub open spec fn set_of_code(c: u8) -> Option<BoolSet> {
    if c == 0 {
        Some(BoolSet::Empty)
    } else if c == 1 {
        Some(BoolSet::Single(false))
    } else if c == 2 {
        Some(BoolSet::Single(true))
    } else if c == 3 {
        Some(BoolSet::Both)
    } else {
        None
    }
}

pub open spec fn step_code(s: Step) -> u8 {
    match s {
        Step::ForcedTrue => 0,
        Step::ForcedFalse => 1,
        Step::GenuineFlip => 2,
    }
}

pub open spec fn step_of_code(c: u8) -> Option<Step> {
    if c == 0 {
        Some(Step::ForcedTrue)
    } else if c == 1 {
        Some(Step::ForcedFalse)
    } else if c == 2 {
        Some(Step::GenuineFlip)
    } else {
        None
    }
}

pub open spec fn aux_code(a: Option<bool>) -> u8 {
    match a {
        None => 0,
        Some(b) => if b { 2 } else { 1 },
    }
}

pub open spec fn aux_of_code(c: u8) -> Option<Option<bool>> {
    if c == 0 {
        Some(None)
    } else if c == 1 {
        Some(Some(false))
    } else if c == 2 {
        Some(Some(true))
    } else {
        None
    }
}

pub open spec fn bool_of_code(c: u8) -> Option<bool> {
    if c == 0 {
        Some(false)
    } else if c == 1 {
        Some(true)
    } else {
        None
    }
}

/// The eight little-endian bytes of `x`.
pub open spec fn le_bytes(x: u64) -> Seq<u8> {
    seq![
        x as u8,
        (x >> 8u64) as u8,
        (x >> 16u64) as u8,
        (x >> 24u64) as u8,
        (x >> 32u64) as u8,
        (x >> 40u64) as u8,
        (x >> 48u64) as u8,
        (x >> 56u64) as u8,
    ]
}

/// The number whose little-endian bytes are the first eight of `b`.
pub open spec fn le_value(b: Seq<u8>) -> u64 {
    (b[0] as u64) | ((b[1] as u64) << 8u64) | ((b[2] as u64) << 16u64) | ((b[3] as u64) << 24u64)
        | ((b[4] as u64) << 32u64) | ((b[5] as u64) << 40u64) | ((b[6] as u64) << 48u64) | ((
    b[7] as u64) << 56u64)
}

/// The bytes of a meta-vote.
pub open spec fn encoding(v: MetaVote) -> Seq<u8> {
    let head = le_bytes(v.round as u64).push(step_code(v.step));
    match v.values {
        MetaVoteValues::Decided(b) => head.push(0).push(if b { 1 } else { 0 }),
        MetaVoteValues::Undecided(u) => head.push(1).push(set_code(u.estimates.0)).push(
            set_code(u.bin_values.0),
        ).push(aux_code(u.aux_value.0)),
    }
}

/// The meta-vote whose bytes are `b`, if they are the bytes of one.
pub open spec fn decoding(b: Seq<u8>) -> Option<MetaVote> {
    if b.len() < 10 || le_value(b) > usize::MAX || step_of_code(b[8]) is None {
        None
    } else {
        let round = le_value(b) as usize;
        let step = step_of_code(b[8])->0;
        if b[9] == 0 && b.len() == 11 {
            match bool_of_code(b[10]) {
                Some(d) => Some(MetaVote { round, step, values: MetaVoteValues::Decided(d) }),
                None => None,
            }
        } else if b[9] == 1 && b.len() == 13 {
            match (set_of_code(b[10]), set_of_code(b[11]), aux_of_code(b[12])) {
                (Some(e), Some(n), Some(a)) => Some(
                    MetaVote {
                        round,
                        step,
                        values: MetaVoteValues::Undecided(
                            UndecidedMetaVoteValues {
                                estimates: Estimates(e),
                                bin_values: BinValues(n),
                                aux_value: AuxValue(a),
                            },
                        ),
                    },
                ),
                _ => None,
            }
        } else {
            None
        }
    }
}

proof fn lemma_le_round_trip(x: u64)
    ensures
        le_value(le_bytes(x)) == x,
{
    let b = le_bytes(x);
    assert(b[0] == x as u8 && b[1] == (x >> 8u64) as u8 && b[2] == (x >> 16u64) as u8 && b[3] == (x
        >> 24u64) as u8 && b[4] == (x >> 32u64) as u8 && b[5] == (x >> 40u64) as u8 && b[6] == (x
        >> 48u64) as u8 && b[7] == (x >> 56u64) as u8);
    assert(((x as u8) as u64) | ((((x >> 8u64) as u8) as u64) << 8u64) | ((((x >> 16u64) as u8)
        as u64) << 16u64) | ((((x >> 24u64) as u8) as u64) << 24u64) | ((((x >> 32u64) as u8)
        as u64) << 32u64) | ((((x >> 40u64) as u8) as u64) << 40u64) | ((((x >> 48u64) as u8)
        as u64) << 48u64) | ((((x >> 56u64) as u8) as u64) << 56u64) == x) by (bit_vector);
}

/// Decoding the bytes of any meta-vote gives that meta-vote back.
pub proof fn lemma_round_trip(v: MetaVote)
    ensures
        decoding(encoding(v)) == Some(v),
{
    lemma_le_round_trip(v.round as u64);
    let e = encoding(v);
    assert(e.subrange(0, 8) == le_bytes(v.round as u64));
    assert(le_value(e) == le_value(le_bytes(v.round as u64)));
    match v.values {
        MetaVoteValues::Decided(b) => {},
        MetaVoteValues::Undecided(u) => {
            assert(set_of_code(set_code(u.estimates.0)) == Some(u.estimates.0));
            assert(set_of_code(set_code(u.bin_values.0)) == Some(u.bin_values.0));
        },
    }
}

fn set_byte(s: BoolSet) -> (r: u8)
    ensures
        r == set_code(s),
{
    match s {
        BoolSet::Empty => 0,
        BoolSet::Single(b) => if b { 2 } else { 1 },
        BoolSet::Both => 3,
    }
}

fn set_from_byte(c: u8) -> (r: Option<BoolSet>)
    ensures
        r == set_of_code(c),
{
    if c == 0 {
        Some(BoolSet::Empty)
    } else if c == 1 {
        Some(BoolSet::Single(false))
    } else if c == 2 {
        Some(BoolSet::Single(true))
    } else if c == 3 {
        Some(BoolSet::Both)
    } else {
        None
    }
}

impl MetaVote {
    /// The bytes of this meta-vote; every field is written, and the variant is tagged.
    pub fn encode(&self) -> (r: Vec<u8>)
        ensures
            r@ == encoding(*self),
    {
        let x = self.round as u64;
        let mut out: Vec<u8> = Vec::new();
        out.push(x as u8);
        out.push((x >> 8u64) as u8);
        out.push((x >> 16u64) as u8);
        out.push((x >> 24u64) as u8);
        out.push((x >> 32u64) as u8);
        out.push((x >> 40u64) as u8);
        out.push((x >> 48u64) as u8);
        out.push((x >> 56u64) as u8);
        out.push(
            match self.step {
                Step::ForcedTrue => 0,
                Step::ForcedFalse => 1,
                Step::GenuineFlip => 2,
            },
        );
        match self.values {
            MetaVoteValues::Decided(b) => {
                out.push(0);
                out.push(if b { 1 } else { 0 });
            },
            MetaVoteValues::Undecided(u) => {
                out.push(1);
                out.push(set_byte(u.estimates.0));
                out.push(set_byte(u.bin_values.0));
                out.push(
                    match u.aux_value.0 {
                        None => 0,
                        Some(b) => if b { 2 } else { 1 },
                    },
                );
            },
        }
        proof {
            assert(out@ =~= encoding(*self));
        }
        out
    }

    /// The meta-vote whose bytes are `bytes`, or `None` if they are not the bytes of one.
    pub fn decode(bytes: &[u8]) -> (r: Option<MetaVote>)
        ensures
            r == decoding(bytes@),
    {
        if bytes.len() < 10 {
            return None;
        }
        let x: u64 = (bytes[0] as u64) | ((bytes[1] as u64) << 8u64) | ((bytes[2] as u64) << 16u64)
            | ((bytes[3] as u64) << 24u64) | ((bytes[4] as u64) << 32u64) | ((bytes[5] as u64)
            << 40u64) | ((bytes[6] as u64) << 48u64) | ((bytes[7] as u64) << 56u64);
        if x > usize::MAX as u64 {
            return None;
        }
        let step = if bytes[8] == 0 {
            Step::ForcedTrue
        } else if bytes[8] == 1 {
            Step::ForcedFalse
        } else if bytes[8] == 2 {
            Step::GenuineFlip
        } else {
            return None;
        };
        let round = x as usize;
        if bytes[9] == 0 && bytes.len() == 11 {
            if bytes[10] == 0 {
                Some(MetaVote { round, step, values: MetaVoteValues::Decided(false) })
            } else if bytes[10] == 1 {
                Some(MetaVote { round, step, values: MetaVoteValues::Decided(true) })
            } else {
                None
            }
        } else if bytes[9] == 1 && bytes.len() == 13 {
            let estimates = set_from_byte(bytes[10]);
            let bin_values = set_from_byte(bytes[11]);
            let aux_value = if bytes[12] == 0 {
                Some(None)
            } else if bytes[12] == 1 {
                Some(Some(false))
            } else if bytes[12] == 2 {
                Some(Some(true))
            } else {
                None
            };
            match (estimates, bin_values, aux_value) {
                (Some(e), Some(n), Some(a)) => Some(
                    MetaVote {
                        round,
                        step,
                        values: MetaVoteValues::Undecided(
                            UndecidedMetaVoteValues {
                                estimates: Estimates(e),
                                bin_values: BinValues(n),
                                aux_value: AuxValue(a),
                            },
                        ),
                    },
                ),
                _ => None,
            }
        } else {
            None
        }
    }
}

} // verus!
