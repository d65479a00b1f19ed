//! Follows synced lyrics along the playback of a track: parses timestamped
//! lyrics into a table of lines, finds the line that covers an instant, and
//! decides, event by event, what the tracking loop does next.

pub mod interval;
pub mod lyrics;
pub mod session;
pub mod timecode;

pub use interval::{find_in_interval, LyricLine};
pub use lyrics::interval_lyrics;
pub use session::{MessageBuilder, PlayerError};
