//! Version control for music playlists held by remote providers: content
//! hashing of snapshots, a diff engine, a deterministic patch applier, the
//! journal state machine and the pure parts of the provider adapters.

pub mod config;
pub mod diff;
pub mod error;
pub mod hash;
pub mod history;
pub mod init;
pub mod journal;
pub mod playback;
pub mod round_trip;
pub mod spotify;
pub mod staging;
pub mod text;
pub mod types;
pub mod working_playlist;

pub use config::Config;
pub use diff::{apply_patch, diff};
pub use error::GritError;
pub use hash::compute_hash;
pub use history::PlaylistHistory;
pub use journal::{JournalEntry, Operation};
pub use spotify::SpotifyProvider;
pub use types::{DiffPatch, OAuthToken, PlaylistSnapshot, ProviderKind, Track, TrackChange};
