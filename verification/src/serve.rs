//! What a request for a tile is answered with, once its bytes have been
//! fetched or could not be.

use crate::mask::{MaskSpec, RemapTarget};
use crate::recolor::{
    cap_body, capped, process_local, process_remote, recolored_png, RecolorError,
};
use crate::source::SourceConfig;
use vstd::prelude::*;

verus! {

/// The answer to a request for a tile.
#[derive(Debug)]
pub enum Reply {
    /// The tile, as PNG.
    Tile { body: Vec<u8> },
    /// There is no such tile, or it could not be fetched.
    NotFound,
    /// The tile was fetched and could not be recoloured.
    Failed { error: RecolorError },
}

/// An answer as a contract sees it.
pub enum ReplyView {
    Tile { body: Seq<u8> },
    NotFound,
    Failed { error: RecolorError },
}

impl View for Reply {
    type V = ReplyView;

    open spec fn view(&self) -> ReplyView {
        match self {
            Reply::Tile { body } => ReplyView::Tile { body: body@ },
            Reply::NotFound => ReplyView::NotFound,
            Reply::Failed { error } => ReplyView::Failed { error: *error },
        }
    }
}

/// The answer that is owed for a tile.
///
/// Bytes that could not be fetched, whatever the reason, mean that the
/// tile is not found. Of what a remote origin sent, only the part below
/// the cap counts. With an empty table the bytes are passed on as they
/// are, neither read nor written as an image; otherwise the answer is the
/// recoloured image, or the step that failed.
pub open spec fn reply_for(
    remote: bool,
    fetched: Option<Seq<u8>>,
    mask: Map<u32, RemapTarget>,
) -> ReplyView {
    match fetched {
        None => ReplyView::NotFound,
        Some(bytes) => {
            let raw = if remote {
                capped(bytes)
            } else {
                bytes
            };
            if mask.is_empty() {
                ReplyView::Tile { body: raw }
            } else {
                match recolored_png(raw, mask) {
                    Ok(body) => ReplyView::Tile { body },
                    Err(error) => ReplyView::Failed { error },
                }
            }
        },
    }
}

/// The HTTP status that goes with an answer.
pub open spec fn status_of(reply: ReplyView) -> u16 {
    match reply {
        ReplyView::Tile { .. } => 200,
        ReplyView::NotFound => 404,
        ReplyView::Failed { .. } => 500,
    }
}

/// What kind of body an answer has.
#[derive(Debug, Clone, Copy, PartialEq, Eq, Structural)]
pub enum Media {
    /// A PNG image.
    Png,
    /// Plain text.
    PlainText,
}

/// For how many seconds a tile may be kept by the caches on the way to the
/// client.
pub const TILE_MAX_AGE_SECS: u32 = 43200;

impl Reply {
    /// The HTTP status that goes with this answer: 200 with a tile, 404
    /// where there is none, 500 where recolouring failed.
    pub fn status(&self) -> (code: u16)
        ensures
            code == status_of(self@),
    {
        match self {
            Reply::Tile { .. } => 200,
            Reply::NotFound => 404,
            Reply::Failed { .. } => 500,
        }
    }

    /// The kind of body that goes with this answer: a tile is a PNG
    /// image, anything else is said in plain text.
    pub fn media(&self) -> (kind: Media)
        ensures
            kind == (if self@ is Tile {
                Media::Png
            } else {
                Media::PlainText
            }),
    {
        match self {
            Reply::Tile { .. } => Media::Png,
            _ => Media::PlainText,
        }
    }

    /// For how many seconds this answer may be kept by public caches: a
    /// tile for half a day, anything else not at all.
    pub fn max_age(&self) -> (seconds: Option<u32>)
        ensures
            seconds == (if self@ is Tile {
                Some(43200u32)
            } else {
                None
            }),
    {
        match self {
            Reply::Tile { .. } => Some(TILE_MAX_AGE_SECS),
            _ => None,
        }
    }
}

/// The answer to a request for a tile: `fetched` holds the bytes that the
/// source gave, or nothing where the fetch failed, and `mask` is the
/// table of the request.
pub fn respond(config: &SourceConfig, fetched: Option<Vec<u8>>, mask: MaskSpec) -> (r: Reply)
    ensures
        r@ == reply_for(
            *config is RemoteOrigin,
            match fetched {
                Some(bytes) => Some(bytes@),
                None => None,
            },
            mask@,
        ),
{
    match fetched {
        None => Reply::NotFound,
        Some(bytes) => {
            let remote = match config {
                SourceConfig::RemoteOrigin { .. } => true,
                SourceConfig::LocalVolume { .. } => false,
            };
            if mask.is_empty() {
                if remote {
                    Reply::Tile { body: cap_body(bytes) }
                } else {
                    Reply::Tile { body: bytes }
                }
            } else {
                let outcome = if remote {
                    process_remote(bytes, mask)
                } else {
                    process_local(bytes, mask)
                };
                match outcome {
                    Ok(body) => Reply::Tile { body },
                    Err(error) => Reply::Failed { error },
                }
            }
        },
    }
}

} // verus!
