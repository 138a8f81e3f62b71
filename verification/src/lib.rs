//! Style resolution for a document tree: selector-match bookkeeping, the
//! top-down cascade of declared values, classification of style changes into
//! invalidation signals, and list-marker text generation.

pub mod cascade;
pub mod damage;
pub mod markers;
pub mod matching;
pub mod object_element;
pub mod properties;
pub mod store;
pub mod stylist;
pub mod tree;
