//! Errors of the library's operations.

use vstd::prelude::*;

verus! {

/// Why an operation of the library refused its input.
#[derive(Debug, Clone, Copy, PartialEq, Eq, Structural)]
pub enum GritError {
    /// No playlist was named and none is being worked on.
    PlaylistRequired,
    /// The named track is not in the playlist.
    TrackNotFound,
    /// A move to the position that the track already has.
    AlreadyAtPosition,
    /// A target position past the end of the playlist.
    InvalidIndex,
    /// A track of one provider offered to a playlist of another.
    ProviderMismatch,
    /// The token holds no refresh token.
    NoRefreshToken,
    /// The provider has no access token yet.
    NotAuthenticated,
    /// The playlist has no history yet.
    NotInitialized,
    /// No stored snapshot has the requested content hash.
    UnknownRevision,
    /// A stored snapshot does not hash to the name it is stored under.
    HashMismatch,
}

} // verus!
