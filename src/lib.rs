//! MPEG audio frame-header decoding, stream scanning and duration estimation,
//! together with a few small pieces of player state.
pub mod tables;
pub mod header;
pub mod scan;
pub mod estimate;
pub mod stream;
pub mod player;
pub mod lyric;
