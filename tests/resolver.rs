use torrust_hash2torrent::info_hash::InfoHash;
use torrust_hash2torrent::resolver::{
    magnet_link, normalize_response, resolution_request, AddResponse, ResolveMagnetError,
};

const LOWER: &str = "443c7602b4fde83d1154d6d9da48808418b181b6";

#[test]
fn magnet_link_uses_lowercase_hex() {
    let h = InfoHash::from_str("443C7602B4FDE83D1154D6D9DA48808418B181B6").unwrap();
    assert_eq!(magnet_link(&h), format!("magnet:?xt=urn:btih:{LOWER}"));
}

#[test]
fn no_session_is_an_error() {
    let h = InfoHash::from_str(LOWER).unwrap();
    let none: Option<u32> = None;
    assert_eq!(resolution_request(&none, &h), Err(ResolveMagnetError::NoSession));
    let session: Option<u32> = Some(7);
    assert_eq!(
        resolution_request(&session, &h),
        Ok((&7, format!("magnet:?xt=urn:btih:{LOWER}")))
    );
}

#[test]
fn already_managed_and_list_only_give_metadata() {
    let managed: Result<AddResponse<&str>, ()> =
        Ok(AddResponse::AlreadyManaged("info", vec![1, 2, 3]));
    assert_eq!(normalize_response(managed), Ok(("info", vec![1, 2, 3])));
    let listed: Result<AddResponse<&str>, ()> = Ok(AddResponse::ListOnly("listed", vec![9]));
    assert_eq!(normalize_response(listed), Ok(("listed", vec![9])));
}

#[test]
fn added_for_download_is_an_error() {
    let added: Result<AddResponse<()>, ()> = Ok(AddResponse::Added);
    assert_eq!(
        normalize_response(added),
        Err(ResolveMagnetError::AddedForDownloading)
    );
}

#[test]
fn failed_submission_is_not_added() {
    let failed: Result<AddResponse<()>, String> = Err("boom".to_string());
    assert_eq!(normalize_response(failed), Err(ResolveMagnetError::NotAdded));
}

#[test]
fn error_messages() {
    assert_eq!(
        ResolveMagnetError::NoSession.message(),
        "BitTorrent client session not started"
    );
    assert_eq!(
        ResolveMagnetError::AddedForDownloading.message(),
        "Torrent was added to the BitTorrent client for downloading instead of only listing"
    );
    assert_eq!(
        ResolveMagnetError::NotAdded.message(),
        "Torrent could not been added to the BitTorrent client"
    );
}
