use torrust_hash2torrent::info_hash::InfoHash;
use torrust_hash2torrent::pipeline::{
    after_resolution, download_response, serve_from_cache, torrent_file_name, validate,
    CachedEntry, InfoHashParam,
};
use torrust_hash2torrent::reply::{text_response, torrent_file_response, Header, Reply};
use torrust_hash2torrent::resolver::{
    magnet_link, normalize_response, AddResponse, ResolveMagnetError,
};
use torrust_hash2torrent::single_flight::FlightRegistry;

const MIXED: &str = "443C7602B4FDE83D1154D6D9DA48808418B181B6";
const LOWER: &str = "443c7602b4fde83d1154d6d9da48808418b181b6";

fn header<'a>(reply: &'a Reply, name: &str) -> Option<&'a str> {
    reply
        .headers
        .iter()
        .find(|h| h.name == name)
        .map(|h| h.value.as_str())
}

#[test]
fn lowercase_param() {
    let p = InfoHashParam(MIXED.to_string());
    assert_eq!(p.lowercase(), LOWER);
    assert_eq!(InfoHashParam("AbC-ÉZ".to_string()).lowercase(), "abc-éz");
}

#[test]
fn file_name_is_hex_with_suffix() {
    let h = InfoHash::from_str(MIXED).unwrap();
    assert_eq!(torrent_file_name(&h), format!("{LOWER}.torrent"));
}

#[test]
fn torrent_file_response_headers() {
    let r = torrent_file_response(vec![1, 2], "x.torrent", "abc");
    assert_eq!(r.status, 200);
    assert_eq!(
        r.headers,
        vec![
            Header { name: "content-type".to_string(), value: "application/x-bittorrent".to_string() },
            Header {
                name: "content-disposition".to_string(),
                value: "attachment; filename=x.torrent".to_string()
            },
            Header { name: "x-torrust-torrent-infohash".to_string(), value: "abc".to_string() },
        ]
    );
    assert_eq!(r.body, vec![1, 2]);
}

#[test]
fn text_response_body() {
    let r = text_response(400, "Invalid info hash");
    assert_eq!(r.status, 400);
    assert!(r.headers.is_empty());
    assert_eq!(r.body, b"Invalid info hash".to_vec());
}

#[test]
fn scenario_mixed_case_uncached_request_resolves_once() {
    let h = validate(&InfoHashParam(MIXED.to_string())).unwrap();
    assert_eq!(
        serve_from_cache(&h, CachedEntry::Absent),
        None
    );
    let mut flights: FlightRegistry<u32> = FlightRegistry::new();
    assert!(flights.register(h.clone(), 1));
    assert_eq!(magnet_link(&h), format!("magnet:?xt=urn:btih:{LOWER}"));
    let submitted: Result<AddResponse<()>, ()> =
        Ok(AddResponse::ListOnly((), b"d4:infod4:name1:aee".to_vec()));
    let decision = after_resolution(&h, normalize_response(submitted));
    assert_eq!(flights.complete(&h), Some(1));
    assert!(decision.store);
    assert_eq!(decision.reply.status, 200);
    assert_eq!(header(&decision.reply, "x-torrust-torrent-infohash"), Some(LOWER));
    assert_eq!(header(&decision.reply, "content-type"), Some("application/x-bittorrent"));
    assert_eq!(
        header(&decision.reply, "content-disposition"),
        Some(format!("attachment; filename={LOWER}.torrent").as_str())
    );
    assert_eq!(decision.reply.body, b"d4:infod4:name1:aee".to_vec());
}

#[test]
fn scenario_second_request_served_from_cache() {
    let h = validate(&InfoHashParam(MIXED.to_string())).unwrap();
    let body = b"d4:infod4:name1:aee".to_vec();
    let first = after_resolution(&h, Ok(((), body.clone())));
    assert!(first.store);
    let again = validate(&InfoHashParam(MIXED.to_string())).unwrap();
    let cached = serve_from_cache(&again, CachedEntry::Present(first.reply.body.clone()));
    assert_eq!(cached, Some(first.reply));
    assert_eq!(cached.unwrap().body, body);
}

#[test]
fn unreadable_cache_entry_is_a_miss() {
    let h = InfoHash::from_str(LOWER).unwrap();
    assert_eq!(serve_from_cache(&h, CachedEntry::Unreadable), None);
    assert_eq!(
        serve_from_cache(&h, CachedEntry::Present(vec![5])),
        Some(download_response(&h, vec![5]))
    );
}

#[test]
fn scenario_invalid_hash_is_bad_request() {
    let r = validate(&InfoHashParam("not-a-hash".to_string())).unwrap_err();
    assert_eq!(r.status, 400);
    assert_eq!(r.body, b"Invalid info hash".to_vec());
    assert!(validate(&InfoHashParam(LOWER[..39].to_string())).is_err());
}

#[test]
fn scenario_not_added_is_server_error_and_not_cached() {
    let h = InfoHash::from_str(LOWER).unwrap();
    let failed: Result<AddResponse<()>, ()> = Err(());
    let outcome = normalize_response(failed);
    assert_eq!(outcome, Err(ResolveMagnetError::NotAdded));
    let decision = after_resolution(&h, outcome);
    assert!(!decision.store);
    assert_eq!(decision.reply.status, 500);
    assert_eq!(decision.reply.body, b"BitTorrent client error".to_vec());
}

#[test]
fn added_for_download_is_server_error() {
    let h = InfoHash::from_str(LOWER).unwrap();
    let added: Result<AddResponse<()>, ()> = Ok(AddResponse::Added);
    let decision = after_resolution(&h, normalize_response(added));
    assert!(!decision.store);
    assert_eq!(decision.reply.status, 500);
    let no_session: Result<((), Vec<u8>), ResolveMagnetError> = Err(ResolveMagnetError::NoSession);
    assert_eq!(after_resolution(&h, no_session).reply.status, 500);
}
