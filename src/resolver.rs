use vstd::prelude::*;

use crate::info_hash::{hex_of_bytes, InfoHash};

verus! {

/// Why the BitTorrent client could not give the metadata of a torrent.
#[derive(Clone, Copy, Debug, PartialEq, Eq)]
pub enum ResolveMagnetError {
    /// The client session was never started.
    NoSession,
    /// The torrent was added for downloading instead of only listing.
    AddedForDownloading,
    /// The torrent could not be added to the client.
    NotAdded,
}

impl ResolveMagnetError {
    /// A sentence that describes the error, for logs.
    pub fn message(&self) -> (r: String)
        ensures
            r@ == match self {
                ResolveMagnetError::NoSession => "BitTorrent client session not started"@,
                ResolveMagnetError::AddedForDownloading =>
                    "Torrent was added to the BitTorrent client for downloading instead of only listing"@,
                ResolveMagnetError::NotAdded => "Torrent could not been added to the BitTorrent client"@,
            },
    {
        match self {
            ResolveMagnetError::NoSession => String::from_str("BitTorrent client session not started"),
            ResolveMagnetError::AddedForDownloading => String::from_str(
                "Torrent was added to the BitTorrent client for downloading instead of only listing",
            ),
            ResolveMagnetError::NotAdded => String::from_str(
                "Torrent could not been added to the BitTorrent client",
            ),
        }
    }
}

/// What the client answered to a list-only submission, with the torrent's
/// description `I` and its raw metadata bytes.
pub enum AddResponse<I> {
    /// The client already manages the torrent.
    AlreadyManaged(I, Vec<u8>),
    /// The client fetched the metadata and listed the torrent.
    ListOnly(I, Vec<u8>),
    /// The client added the torrent to download its content.
    Added,
}

/// The magnet reference of an info-hash.
pub open spec fn magnet_text(info_hash: Seq<u8>) -> Seq<char> {
    "magnet:?xt=urn:btih:"@ + hex_of_bytes(info_hash)
}

/// The magnet link that asks the client for `info_hash`.
pub fn magnet_link(info_hash: &InfoHash) -> (r: String)
    ensures
        r@ == magnet_text(info_hash@),
{
    let mut link = String::from_str("magnet:?xt=urn:btih:");
    let hex = info_hash.to_hex_string();
    link.append(hex.as_str());
    link
}

/// The session to submit to and the magnet link to submit, or `NoSession`
/// when the client has no session.
pub fn resolution_request<'a, S>(session: &'a Option<S>, info_hash: &InfoHash) -> (r: Result<
    (&'a S, String),
    ResolveMagnetError,
>)
    ensures
        r is Ok <==> session is Some,
        session is None ==> r == Err::<(&'a S, String), ResolveMagnetError>(
            ResolveMagnetError::NoSession,
        ),
        r is Ok ==> *r->Ok_0.0 == session->0 && r->Ok_0.1@ == magnet_text(info_hash@),
{
    match session {
        Some(s) => Ok((s, magnet_link(info_hash))),
        None => Err(ResolveMagnetError::NoSession),
    }
}

/// The outcome of a list-only submission, as the spec of `normalize_response` states it.
pub open spec fn normalized<I, E>(submitted: Result<AddResponse<I>, E>) -> Result<
    (I, Seq<u8>),
    ResolveMagnetError,
> {
    match submitted {
        Err(_) => Err(ResolveMagnetError::NotAdded),
        Ok(AddResponse::AlreadyManaged(info, bytes)) => Ok((info, bytes@)),
        Ok(AddResponse::ListOnly(info, bytes)) => Ok((info, bytes@)),
        Ok(AddResponse::Added) => Err(ResolveMagnetError::AddedForDownloading),
    }
}

/// Turns the client's answer to a list-only submission into the torrent's
/// description and metadata bytes: a torrent already managed or freshly
/// listed gives its metadata, one added for downloading is an error, and a
/// failed submission is `NotAdded`.
pub fn normalize_response<I, E>(submitted: Result<AddResponse<I>, E>) -> (r: Result<
    (I, Vec<u8>),
    ResolveMagnetError,
>)
    ensures
        match (r, normalized(submitted)) {
            (Ok((i, b)), Ok((j, c))) => i == j && b@ == c,
            (Err(e), Err(f)) => e == f,
            _ => false,
        },
{
    match submitted {
        Err(_) => Err(ResolveMagnetError::NotAdded),
        Ok(AddResponse::AlreadyManaged(info, bytes)) => Ok((info, bytes)),
        Ok(AddResponse::ListOnly(info, bytes)) => Ok((info, bytes)),
        Ok(AddResponse::Added) => Err(ResolveMagnetError::AddedForDownloading),
    }
}

} // verus!
