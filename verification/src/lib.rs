//! Verified core of a desktop NetEase Cloud Music player: playback queue
//! decisions, the progress clock, lyric timestamp parsing, date and time
//! rendering, and the bookkeeping of play lists.
pub mod text;
pub mod date;
pub mod playback;
pub mod timing;
pub mod lyric;
pub mod library;
pub mod storage;
pub mod login;
