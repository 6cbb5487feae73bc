use vstd::prelude::*;

use crate::info_hash::{bytes_of_hex, hex_of_bytes, is_info_hash_text, InfoHash};
use crate::reply::{
    is_header_value_char, is_header_value_text, text_reply, text_response, torrent_file_response, torrent_reply, Reply, ReplyView,
    STATUS_BAD_REQUEST, STATUS_INTERNAL_SERVER_ERROR,
};
use crate::resolver::{normalized, AddResponse, ResolveMagnetError};

verus! {

/// What `str::to_lowercase` makes of a text.
pub uninterp spec fn lower_of(s: Seq<char>) -> Seq<char>;

/// Relies on `str::to_lowercase`: the lowercase form depends on the text alone.
#[verifier::external_body]
fn to_lowercase(s: &str) -> (r: String)
    ensures
        r@ == lower_of(s@),
{
    s.to_lowercase()
}

/// The info-hash as it stands in the request path, not yet validated.
pub struct InfoHashParam(pub String);

impl InfoHashParam {
    /// The parameter in lowercase.
    pub fn lowercase(&self) -> (r: String)
        ensures
            r@ == lower_of(self.0@),
    {
        to_lowercase(self.0.as_str())
    }
}

/// The whole reply (status, headers and body) to a malformed info-hash.
pub open spec fn invalid_info_hash_reply() -> ReplyView {
    text_reply(STATUS_BAD_REQUEST, "Invalid info hash")
}

/// The whole reply (status, headers and body) to a failed resolution.
pub open spec fn client_error_reply() -> ReplyView {
    text_reply(STATUS_INTERNAL_SERVER_ERROR, "BitTorrent client error")
}

/// The name of the torrent file of an info-hash.
pub open spec fn file_name_of(info_hash: Seq<u8>) -> Seq<char> {
    hex_of_bytes(info_hash) + ".torrent"@
}

/// The download of `body` as the torrent file of `info_hash`.
pub open spec fn download_reply(info_hash: Seq<u8>, body: Seq<u8>) -> ReplyView {
    torrent_reply(body, file_name_of(info_hash), hex_of_bytes(info_hash))
}

/// Lowercase hexadecimal text, and the torrent file name made of it, may
/// stand in a header value.
proof fn lemma_file_name_is_header_value(info_hash: Seq<u8>)
    ensures
        is_header_value_text(hex_of_bytes(info_hash)),
        is_header_value_text(file_name_of(info_hash)),
{
    let hex = hex_of_bytes(info_hash);
    assert forall|i: int| 0 <= i < hex.len() implies #[trigger] is_header_value_char(hex[i]) by {
        let b = info_hash[i / 2] as int;
        assert(0 <= b / 16 < 16 && 0 <= b % 16 < 16);
    }
    reveal_strlit(".torrent");
    let name = file_name_of(info_hash);
    assert forall|i: int| 0 <= i < name.len() implies #[trigger] is_header_value_char(name[i]) by {
        if i >= hex.len() {
            assert(name[i] == ".torrent"@[i - hex.len()]);
        } else {
            assert(name[i] == hex[i]);
        }
    }
}

/// The file name `<hex>.torrent` under which an info-hash is cached and served.
pub fn torrent_file_name(info_hash: &InfoHash) -> (r: String)
    ensures
        r@ == file_name_of(info_hash@),
{
    let mut name = info_hash.to_hex_string();
    name.append(".torrent");
    name
}

/// The download of `body` as the torrent file of `info_hash`.
pub fn download_response(info_hash: &InfoHash, body: Vec<u8>) -> (r: Reply)
    ensures
        r@ == download_reply(info_hash@, body@),
{
    let name = torrent_file_name(info_hash);
    let hex = info_hash.to_hex_string();
    proof {
        lemma_file_name_is_header_value(info_hash@);
    }
    torrent_file_response(body, name.as_str(), hex.as_str())
}

/// Validates the path parameter: its lowercase form must be forty
/// hexadecimal digits, else the request is answered with 400.
pub fn validate(param: &InfoHashParam) -> (r: Result<InfoHash, Reply>)
    ensures
        r is Ok <==> is_info_hash_text(lower_of(param.0@)),
        r is Ok ==> r->Ok_0@ == bytes_of_hex(lower_of(param.0@)),
        r is Err ==> r->Err_0@ == invalid_info_hash_reply(),
{
    let lower = param.lowercase();
    match InfoHash::from_str(lower.as_str()) {
        Ok(info_hash) => Ok(info_hash),
        Err(_) => Err(text_response(STATUS_BAD_REQUEST, "Invalid info hash")),
    }
}

/// What a look into the cache found for an info-hash.
pub enum CachedEntry {
    /// No file is cached for it.
    Absent,
    /// A file is cached but could not be read.
    Unreadable,
    /// The cached bytes.
    Present(Vec<u8>),
}

/// The cached bytes that can be served; a file that could not be read counts as a miss.
pub open spec fn usable_contents(entry: CachedEntry) -> Option<Seq<u8>> {
    match entry {
        CachedEntry::Present(bytes) => Some(bytes@),
        _ => None,
    }
}

/// The reply served from the cache, if the cache can serve one.
pub open spec fn cache_step(info_hash: Seq<u8>, contents: Option<Seq<u8>>) -> Option<ReplyView> {
    match contents {
        Some(body) => Some(download_reply(info_hash, body)),
        None => None,
    }
}

/// The plain value of an optional reply.
pub open spec fn reply_view_of(r: Option<Reply>) -> Option<ReplyView> {
    match r {
        Some(reply) => Some(reply@),
        None => None,
    }
}

/// Serves a request from the cache when the cached file could be read;
/// `None` means the torrent must be resolved through the client.
pub fn serve_from_cache(info_hash: &InfoHash, entry: CachedEntry) -> (r: Option<Reply>)
    ensures
        reply_view_of(r) == cache_step(info_hash@, usable_contents(entry)),
{
    match entry {
        CachedEntry::Present(bytes) => Some(download_response(info_hash, bytes)),
        _ => None,
    }
}

/// What follows a resolution: the reply, and whether its body is to be cached.
pub struct Decision {
    pub reply: Reply,
    pub store: bool,
}

/// The reply to a resolution outcome, and whether the body is to be cached.
pub open spec fn resolution_step<I>(
    info_hash: Seq<u8>,
    outcome: Result<(I, Seq<u8>), ResolveMagnetError>,
) -> (ReplyView, bool) {
    match outcome {
        Ok((_, body)) => (download_reply(info_hash, body), true),
        Err(_) => (client_error_reply(), false),
    }
}

/// The cache after the decision on a resolution outcome is carried out.
pub open spec fn cache_after<I>(
    cache: Map<Seq<u8>, Seq<u8>>,
    info_hash: Seq<u8>,
    outcome: Result<(I, Seq<u8>), ResolveMagnetError>,
) -> Map<Seq<u8>, Seq<u8>> {
    let (reply, store) = resolution_step(info_hash, outcome);
    if store {
        cache.insert(info_hash, reply.body)
    } else {
        cache
    }
}

/// What the cache holds for an info-hash.
pub open spec fn lookup(cache: Map<Seq<u8>, Seq<u8>>, info_hash: Seq<u8>) -> Option<Seq<u8>> {
    if cache.contains_key(info_hash) {
        Some(cache[info_hash])
    } else {
        None
    }
}

/// The plain value of a resolution outcome.
pub open spec fn outcome_view<I>(outcome: Result<(I, Vec<u8>), ResolveMagnetError>) -> Result<
    (I, Seq<u8>),
    ResolveMagnetError,
> {
    match outcome {
        Ok((info, body)) => Ok((info, body@)),
        Err(e) => Err(e),
    }
}

/// Decides the reply to a resolution: the metadata as a download, to be
/// cached too, or 500 for any client error, with nothing cached.
pub fn after_resolution<I>(
    info_hash: &InfoHash,
    outcome: Result<(I, Vec<u8>), ResolveMagnetError>,
) -> (r: Decision)
    ensures
        (r.reply@, r.store) == resolution_step(info_hash@, outcome_view(outcome)),
{
    match outcome {
        Ok((_, bytes)) => Decision { reply: download_response(info_hash, bytes), store: true },
        Err(_) => Decision {
            reply: text_response(STATUS_INTERNAL_SERVER_ERROR, "BitTorrent client error"),
            store: false,
        },
    }
}

/// Once a successful resolution has been stored, the next request for the
/// same info-hash is served from the cache, without the client, with the
/// very reply the resolution gave.
pub proof fn lemma_stored_resolution_served_from_cache<I>(
    cache: Map<Seq<u8>, Seq<u8>>,
    info_hash: Seq<u8>,
    info: I,
    body: Seq<u8>,
)
    ensures
        resolution_step(info_hash, Ok::<(I, Seq<u8>), ResolveMagnetError>((info, body))).1,
        cache_step(
            info_hash,
            lookup(
                cache_after(cache, info_hash, Ok::<(I, Seq<u8>), ResolveMagnetError>((info, body))),
                info_hash,
            ),
        ) == Some(
            resolution_step(info_hash, Ok::<(I, Seq<u8>), ResolveMagnetError>((info, body))).0,
        ),
{
}

/// A failed resolution is answered with 500 and leaves the cache as it was.
pub proof fn lemma_failed_resolution_is_server_error<I>(
    cache: Map<Seq<u8>, Seq<u8>>,
    info_hash: Seq<u8>,
    error: ResolveMagnetError,
)
    ensures
        resolution_step(info_hash, Err::<(I, Seq<u8>), ResolveMagnetError>(error)).0.status
            == STATUS_INTERNAL_SERVER_ERROR,
        !resolution_step(info_hash, Err::<(I, Seq<u8>), ResolveMagnetError>(error)).1,
        cache_after(cache, info_hash, Err::<(I, Seq<u8>), ResolveMagnetError>(error)) == cache,
{
}

/// A torrent that the client added for downloading never yields a
/// download: the request is answered with 500 and nothing is cached.
pub proof fn lemma_added_for_download_is_server_error<I, E>(
    cache: Map<Seq<u8>, Seq<u8>>,
    info_hash: Seq<u8>,
)
    ensures
        normalized(Ok::<AddResponse<I>, E>(AddResponse::Added)) == Err::<
            (I, Seq<u8>),
            ResolveMagnetError,
        >(ResolveMagnetError::AddedForDownloading),
        resolution_step(info_hash, normalized(Ok::<AddResponse<I>, E>(AddResponse::Added))).0.status
            == STATUS_INTERNAL_SERVER_ERROR,
        cache_after(cache, info_hash, normalized(Ok::<AddResponse<I>, E>(AddResponse::Added)))
            == cache,
{
}

} // verus!
