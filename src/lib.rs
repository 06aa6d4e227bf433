//! The binary meta-voting core of an asynchronous Byzantine-fault-tolerant consensus protocol
//! run over a gossip graph.

pub mod bool_set;
pub mod codec;
pub mod meta_vote;
pub mod meta_vote_counts;
pub mod mock;
