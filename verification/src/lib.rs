//! Round-robin interleaving of independently-advancing element sources.
//!
//! A [`merger::MultiIter`] owns an ordered collection of producers — values
//! that yield one element per pull until they are exhausted — and merges them
//! into a single sequence that visits each producer in turn, skips producers
//! that are exhausted, and ends once a full pass over the collection yields
//! nothing.  No producer is ever pulled more than once per pass, so no source
//! runs ahead of another by more than one pull.

pub mod laws;
pub mod merger;
pub mod producer;
pub mod stream;

pub use merger::MultiIter;
pub use producer::CountProducer;
pub use producer::Producer;
pub use producer::RangeProducer;
pub use producer::VecProducer;
