//! Interpreting what the user names a playlist by: a provider URL or a bare
//! id, and the fallbacks when no playlist is named.

use vstd::prelude::*;
use crate::error::GritError;
use crate::text::{after_first, before_first, contains, has_substring, text_after, text_before};
use crate::types::ProviderKind;

verus! {

/// The id named by a segment URL: the text after the first `part`, up to the
/// next `part` and then up to the first `?`.
pub open spec fn url_segment(s: Seq<char>, part: Seq<char>) -> Seq<char> {
    before_first(before_first(after_first(s, part), part), "?"@)
}

/// The input names a YouTube resource.
pub open spec fn is_youtube_input(s: Seq<char>) -> bool {
    has_substring(s, "youtube.com"@) || has_substring(s, "youtu.be"@)
}

/// The playlist or album id that an input names: the path segment of a
/// Spotify playlist or album URL, the `list=` parameter of a YouTube URL, or
/// the input itself.
pub open spec fn extracted_id(s: Seq<char>) -> Seq<char> {
    if has_substring(s, "spotify.com/playlist/"@) {
        url_segment(s, "playlist/"@)
    } else if has_substring(s, "spotify.com/album/"@) {
        url_segment(s, "album/"@)
    } else if is_youtube_input(s) && has_substring(s, "list="@) {
        before_first(after_first(s, "list="@), "&"@)
    } else {
        s
    }
}

fn segment_after(input: &str, part: &str) -> (r: String)
    ensures
        r@ == url_segment(input@, part@),
{
    let rest = text_after(input, part);
    let seg = text_before(rest.as_str(), part);
    text_before(seg.as_str(), "?")
}

/// The id that `input` names (see `extracted_id`).
pub fn extract_id(input: &str) -> (r: String)
    ensures
        r@ == extracted_id(input@),
{
    if contains(input, "spotify.com/playlist/") {
        return segment_after(input, "playlist/");
    }
    if contains(input, "spotify.com/album/") {
        return segment_after(input, "album/");
    }
    if contains(input, "youtube.com") || contains(input, "youtu.be") {
        if contains(input, "list=") {
            let rest = text_after(input, "list=");
            return text_before(rest.as_str(), "&");
        }
    }
    input.to_owned()
}

/// The input is a Spotify album URL.
pub fn is_album_url(input: &str) -> (r: bool)
    ensures
        r == has_substring(input@, "spotify.com/album/"@),
{
    contains(input, "spotify.com/album/")
}

/// The provider that a URL belongs to.
pub open spec fn provider_of_input(s: Seq<char>) -> Option<ProviderKind> {
    if has_substring(s, "spotify.com"@) {
        Some(ProviderKind::Spotify)
    } else if is_youtube_input(s) {
        Some(ProviderKind::Youtube)
    } else {
        None
    }
}

/// The provider of a playlist URL, if it is one of a known host.
pub fn detect_provider(input: &str) -> (r: Option<ProviderKind>)
    ensures
        r == provider_of_input(input@),
{
    if contains(input, "spotify.com") {
        Some(ProviderKind::Spotify)
    } else if contains(input, "youtube.com") || contains(input, "youtu.be") {
        Some(ProviderKind::Youtube)
    } else {
        None
    }
}

/// The playlist to work on: the one the command names, else the one named
/// for all commands, else the working playlist.
pub fn resolve_playlist(
    command_playlist: Option<String>,
    global_playlist: Option<String>,
    working_playlist: Option<String>,
) -> (r: Result<String, GritError>)
    ensures
        match (command_playlist, global_playlist, working_playlist) {
            (Some(p), _, _) => r == Ok::<String, GritError>(p),
            (None, Some(p), _) => r == Ok::<String, GritError>(p),
            (None, None, Some(p)) => r == Ok::<String, GritError>(p),
            (None, None, None) => r == Err::<String, GritError>(GritError::PlaylistRequired),
        },
{
    match command_playlist {
        Some(p) => Ok(p),
        None => match global_playlist {
            Some(p) => Ok(p),
            None => match working_playlist {
                Some(p) => Ok(p),
                None => Err(GritError::PlaylistRequired),
            },
        },
    }
}

} // verus!
