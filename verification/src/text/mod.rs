//! Text processing: cleaning captured text, masking sensitive fragments,
//! splitting model output into candidates and counting words.
pub mod clean;
pub mod filter;
pub mod split;
pub mod tally;
pub mod wordcloud;
