//! Which album a track belongs to, and since when it is in the library.

use vstd::prelude::*;

use crate::text::{self, opt_str};

verus! {

/// The artist under which an album is filed: `Various Artists` for a compilation,
/// else the album artist, else the artist, else `Unknown Artist`. An empty tag
/// counts as absent.
pub open spec fn filed_under(
    compilation: bool,
    album_artist: Option<Seq<char>>,
    artist: Option<Seq<char>>,
) -> Seq<char> {
    if compilation {
        "Various Artists"@
    } else if album_artist matches Some(s) && s.len() > 0 {
        album_artist->0
    } else if artist matches Some(s) && s.len() > 0 {
        artist->0
    } else {
        "Unknown Artist"@
    }
}

pub fn effective_album_artist(
    compilation: bool,
    album_artist: Option<&str>,
    artist: Option<&str>,
) -> (r: String)
    ensures
        r@ == filed_under(compilation, opt_str(album_artist), opt_str(artist)),
{
    if compilation {
        return text::owned("Various Artists");
    }
    if let Some(s) = album_artist {
        if !s.is_empty() {
            return text::owned(s);
        }
    }
    if let Some(s) = artist {
        if !s.is_empty() {
            return text::owned(s);
        }
    }
    text::owned("Unknown Artist")
}

/// The earlier of a file's birth and its last change, as far as they are known,
/// but never later than `now`.
pub open spec fn first_known(btime: Option<i64>, mtime: Option<i64>, now: i64) -> i64 {
    let candidate = match (btime, mtime) {
        (Some(b), Some(m)) => if b <= m {
            b
        } else {
            m
        },
        (Some(b), None) => b,
        (None, Some(m)) => m,
        (None, None) => now,
    };
    if candidate <= now {
        candidate
    } else {
        now
    }
}

/// Since when a track is in the library, in seconds of Unix time. On the first
/// scan that is when its file came to be; a later one finds it only now.
pub fn determine_added_at(
    file_btime: Option<i64>,
    file_mtime: Option<i64>,
    is_initial_scan: bool,
    now: i64,
) -> (r: i64)
    ensures
        r == if is_initial_scan {
            first_known(file_btime, file_mtime, now)
        } else {
            now
        },
        r <= now,
{
    if !is_initial_scan {
        return now;
    }
    let candidate: i64 = match (file_btime, file_mtime) {
        (Some(b), Some(m)) => if b <= m { b } else { m },
        (Some(b), None) => b,
        (None, Some(m)) => m,
        (None, None) => now,
    };
    if candidate <= now {
        candidate
    } else {
        now
    }
}

/// Seconds of Unix time from the seconds since the epoch; a time before the epoch
/// counts as the epoch.
pub fn to_unix_secs(since_epoch: Option<u64>) -> (r: i64)
    ensures
        r == match since_epoch {
            Some(s) => s as i64,
            None => 0,
        },
{
    match since_epoch {
        Some(s) => s as i64,
        None => 0,
    }
}

} // verus!
