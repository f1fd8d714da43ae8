//! Decisions of the sound-pack downloader: whether a repository is up to
//! date, and whether a download has more bytes to fetch. The network and
//! file work stays with the caller, which hands the observed versions and
//! byte counts in.

use vstd::prelude::*;

verus! {

/// Whether a repository's downloaded copy matches its latest version.
#[derive(Debug)]
pub enum Status {
    /// The downloaded copy is the latest version (carried).
    Latest(String),
    /// The copy (first, if any was downloaded) differs from the latest
    /// version (second).
    Updatable(Option<String>, String),
}

/// A step of a download, as reported to a progress callback.
#[derive(Debug)]
pub enum Progress {
    /// Bytes fetched so far, and the total if the server announced one.
    Downloading(u64, Option<u64>),
    /// The archive is being unpacked.
    Installing(),
    /// The sound pack is in place.
    Done(),
}

/// Compares the downloaded version against the latest one the server
/// reports: up to date exactly when they are equal.
pub fn status(current: Option<String>, latest: String) -> (s: Status)
    ensures
        s == (match current {
            Option::Some(c) => if c@ == latest@ {
                Status::Latest(latest)
            } else {
                Status::Updatable(Some(c), latest)
            },
            Option::None => Status::Updatable(None, latest),
        }),
{
    match current {
        Some(c) => {
            if c == latest {
                Status::Latest(latest)
            } else {
                Status::Updatable(Some(c), latest)
            }
        },
        None => Status::Updatable(None, latest),
    }
}

/// Whether a download must keep fetching: yes while fewer bytes arrived
/// than announced, and always when no length was announced (until the
/// stream itself ends).
pub fn more_to_download(content_length: Option<u64>, downloaded: u64) -> (r: bool)
    ensures
        r == (match content_length {
            Option::Some(l) => l > downloaded,
            Option::None => true,
        }),
{
    match content_length {
        Some(l) => l > downloaded,
        None => true,
    }
}

} // verus!
