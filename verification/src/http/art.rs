//! `GET /art/{album_id}`: an album's picture.

use vstd::prelude::*;

use crate::art::cache::{after_put, ArtCache, CachedArt, CACHE_BYTES_BUDGET};
use crate::art::extract::{copy_bytes, ExtractedArt};
use crate::http::{header_of, headers_view, Header, HeaderView, HttpError};
use crate::text;

verus! {

/// The query of a request for a picture.
#[derive(Debug)]
pub struct ArtQuery {
    /// Makes for a different URL, and has no other effect.
    pub v: Option<String>,
}

/// What came of looking for an album's picture.
#[derive(Debug)]
pub enum ArtOutcome {
    Found(CachedArt),
    /// The album has tracks, and neither they nor their folder a picture.
    NoArt,
    /// No track belongs to such an album.
    NoSuchAlbum,
}

/// What a response to a request for a picture carries.
#[derive(Debug)]
pub enum ArtBody {
    Picture(Vec<u8>),
    /// The image that stands for a missing picture.
    Placeholder,
}

/// A response with a picture.
#[derive(Debug)]
pub struct ArtReply {
    pub headers: Vec<Header>,
    pub body: ArtBody,
}

/// A response with a picture, as text and bytes.
pub struct ArtReplyView {
    pub headers: Seq<HeaderView>,
    /// None for the placeholder.
    pub picture: Option<Seq<u8>>,
}

impl View for ArtReply {
    type V = ArtReplyView;

    open spec fn view(&self) -> ArtReplyView {
        ArtReplyView {
            headers: headers_view(self.headers@),
            picture: match self.body {
                ArtBody::Picture(b) => Some(b@),
                ArtBody::Placeholder => None,
            },
        }
    }
}

pub open spec fn picture_headers(mime: Seq<char>, caching: Seq<char>) -> Seq<HeaderView> {
    seq![
        HeaderView { name: "content-type"@, value: mime },
        HeaderView { name: "cache-control"@, value: caching },
    ]
}

/// A picture may be kept for a day.
pub open spec fn picture_reply(art: CachedArt) -> ArtReplyView {
    ArtReplyView {
        headers: picture_headers(art.mime@, "public, max-age=86400"@),
        picture: Some(art.bytes@),
    }
}

/// The placeholder may be kept for five minutes, so that a picture added later soon
/// shows.
pub open spec fn placeholder_reply() -> ArtReplyView {
    ArtReplyView {
        headers: picture_headers("image/png"@, "public, max-age=300"@),
        picture: None,
    }
}

fn headers_for(mime: &str, caching: &str) -> (r: Vec<Header>)
    ensures
        headers_view(r@) == picture_headers(mime@, caching@),
{
    let headers = vec![
        header_of("content-type", text::owned(mime)),
        header_of("cache-control", text::owned(caching)),
    ];
    assert(headers_view(headers@) =~= picture_headers(mime@, caching@));
    headers
}

fn response_for(art: &CachedArt) -> (r: ArtReply)
    ensures
        r@ == picture_reply(*art),
{
    ArtReply {
        headers: headers_for(art.mime, "public, max-age=86400"),
        body: ArtBody::Picture(copy_bytes(&art.bytes)),
    }
}

/// Answer from the pictures at hand, where the album's is among them.
pub fn cached_reply(cache: &ArtCache, album_id: i64) -> (r: Option<ArtReply>)
    ensures
        r is Some == cache@.contains_key(album_id),
        r matches Some(reply) ==> reply@ == picture_reply(cache@[album_id]),
{
    match cache.get(album_id) {
        Some(art) => Some(response_for(art)),
        None => None,
    }
}

/// A picture inside a track goes before one in its folder.
pub open spec fn found_art(
    has_track: bool,
    embedded: Option<ExtractedArt>,
    folder: Option<ExtractedArt>,
) -> ArtOutcome {
    if !has_track {
        ArtOutcome::NoSuchAlbum
    } else {
        match embedded {
            Some(a) => ArtOutcome::Found(CachedArt { bytes: a.0, mime: a.1 }),
            None => match folder {
                Some(a) => ArtOutcome::Found(CachedArt { bytes: a.0, mime: a.1 }),
                None => ArtOutcome::NoArt,
            },
        }
    }
}

/// What comes of looking for an album's picture: whether a track belongs to it, the
/// picture inside that track and the one in its folder.
pub fn art_outcome(
    has_track: bool,
    embedded: Option<ExtractedArt>,
    folder: Option<ExtractedArt>,
) -> (r: ArtOutcome)
    ensures
        r == found_art(has_track, embedded, folder),
{
    if !has_track {
        return ArtOutcome::NoSuchAlbum;
    }
    match embedded {
        Some((bytes, mime)) => ArtOutcome::Found(CachedArt { bytes, mime }),
        None => match folder {
            Some((bytes, mime)) => ArtOutcome::Found(CachedArt { bytes, mime }),
            None => ArtOutcome::NoArt,
        },
    }
}

/// Answer with what was found, and keep a picture at hand.
pub fn serve(cache: &mut ArtCache, album_id: i64, outcome: ArtOutcome) -> (r: Result<
    ArtReply,
    HttpError,
>)
    requires
        old(cache).wf(),
    ensures
        final(cache).wf(),
        match outcome {
            ArtOutcome::Found(art) => {
                &&& final(cache)@ == after_put(old(cache)@, album_id, art, CACHE_BYTES_BUDGET)
                &&& r matches Ok(reply) && reply@ == picture_reply(art)
            },
            ArtOutcome::NoArt => {
                &&& final(cache)@ == old(cache)@
                &&& r matches Ok(reply) && reply@ == placeholder_reply()
            },
            ArtOutcome::NoSuchAlbum => final(cache)@ == old(cache)@ && r == Err::<
                ArtReply,
                HttpError,
            >(HttpError::NotFound),
        },
{
    match outcome {
        ArtOutcome::Found(art) => {
            let reply = response_for(&art);
            cache.put(album_id, art);
            Ok(reply)
        },
        ArtOutcome::NoArt => Ok(
            ArtReply {
                headers: headers_for("image/png", "public, max-age=300"),
                body: ArtBody::Placeholder,
            },
        ),
        ArtOutcome::NoSuchAlbum => Err(HttpError::NotFound),
    }
}

/// Once a picture was found, the next request for it is answered alike without
/// looking again.
pub proof fn second_request_is_served_from_cache(
    m: Map<i64, CachedArt>,
    album_id: i64,
    art: CachedArt,
)
    ensures
        after_put(m, album_id, art, CACHE_BYTES_BUDGET).contains_key(album_id),
        picture_reply(after_put(m, album_id, art, CACHE_BYTES_BUDGET)[album_id]) == picture_reply(
            art,
        ),
{
}

/// A picture inside a track is served before one of its folder, with its own bytes and
/// type, for a day; without either the placeholder is, for five minutes. An album without
/// tracks is not found.
pub proof fn pictures_are_served_as_they_are(
    has_track: bool,
    embedded: Option<ExtractedArt>,
    folder: Option<ExtractedArt>,
    outcome: ArtOutcome,
)
    requires
        call_ensures(art_outcome, (has_track, embedded, folder), outcome),
    ensures
        !has_track <==> outcome is NoSuchAlbum,
        has_track && embedded is None && folder is None <==> outcome is NoArt,
        outcome matches ArtOutcome::Found(art) ==> {
            let served = if embedded is Some {
                embedded->0
            } else {
                folder->0
            };
            &&& art.bytes@ == served.0@
            &&& art.mime@ == served.1@
            &&& picture_reply(art).picture == Some(served.0@)
            &&& picture_reply(art).headers == seq![
                HeaderView { name: "content-type"@, value: served.1@ },
                HeaderView { name: "cache-control"@, value: "public, max-age=86400"@ },
            ]
        },
        placeholder_reply().picture is None,
        placeholder_reply().headers == seq![
            HeaderView { name: "content-type"@, value: "image/png"@ },
            HeaderView { name: "cache-control"@, value: "public, max-age=300"@ },
        ],
{
}

} // verus!
