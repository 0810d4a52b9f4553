pub mod columngroup;
pub mod error;
pub mod partition;
pub mod partitioner;
pub mod range;
pub mod rowiterator;
pub mod rowview;
pub mod stream;
