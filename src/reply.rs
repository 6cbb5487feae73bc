use vstd::prelude::*;
use vstd::string::StringSliceAdditionalSpecFns;

verus! {

/// Status of a successful reply.
pub const STATUS_OK: u16 = 200;

/// Status of a reply to a malformed request.
pub const STATUS_BAD_REQUEST: u16 = 400;

/// Status of a reply to a request the server could not complete.
pub const STATUS_INTERNAL_SERVER_ERROR: u16 = 500;

/// One response header.
#[derive(Debug, PartialEq, Eq)]
pub struct Header {
    pub name: String,
    pub value: String,
}

/// A response to hand to the transport: status, headers and body.
#[derive(Debug, PartialEq, Eq)]
pub struct Reply {
    pub status: u16,
    pub headers: Vec<Header>,
    pub body: Vec<u8>,
}

/// What a reply holds, as plain values.
pub struct ReplyView {
    pub status: u16,
    pub headers: Seq<(Seq<char>, Seq<char>)>,
    pub body: Seq<u8>,
}

impl View for Reply {
    type V = ReplyView;

    open spec fn view(&self) -> ReplyView {
        ReplyView {
            status: self.status,
            headers: self.headers@.map_values(|h: Header| (h.name@, h.value@)),
            body: self.body@,
        }
    }
}

/// A character that may stand in an HTTP header value: a tab, or any
/// character from the space on but DEL.
pub open spec fn is_header_value_char(c: char) -> bool {
    c == '\t' || (' ' <= c && c != '\x7f')
}

/// A text that may be an HTTP header value, as `http`'s `HeaderValue::from_str`
/// checks it: every byte is a tab, or at least 0x20 and not 0x7f. A character
/// beyond ASCII is encoded in bytes from 0x80 on, all of which pass, so the
/// check holds of the text exactly when it holds of each character.
pub open spec fn is_header_value_text(s: Seq<char>) -> bool {
    forall|i: int| 0 <= i < s.len() ==> #[trigger] is_header_value_char(s[i])
}

/// The headers of a torrent file download.
pub open spec fn torrent_headers(filename: Seq<char>, info_hash: Seq<char>) -> Seq<
    (Seq<char>, Seq<char>),
> {
    seq![
        ("content-type"@, "application/x-bittorrent"@),
        ("content-disposition"@, "attachment; filename="@ + filename),
        ("x-torrust-torrent-infohash"@, info_hash),
    ]
}

/// A successful download of `body` under `filename`, tagged with `info_hash`.
pub open spec fn torrent_reply(body: Seq<u8>, filename: Seq<char>, info_hash: Seq<char>) -> ReplyView {
    ReplyView { status: STATUS_OK, headers: torrent_headers(filename, info_hash), body }
}

/// A reply with a status and a plain-text body and no headers.
pub open spec fn text_reply(status: u16, text: &str) -> ReplyView {
    ReplyView { status, headers: Seq::empty(), body: text.spec_bytes() }
}

fn header(name: &str, value: String) -> (r: Header)
    ensures
        r.name@ == name@,
        r.value@ == value@,
{
    Header { name: String::from_str(name), value }
}

/// Builds the binary response for a torrent file.
pub fn torrent_file_response(bytes: Vec<u8>, filename: &str, info_hash: &str) -> (r: Reply)
    requires
        is_header_value_text(filename@),
        is_header_value_text(info_hash@),
    ensures
        r@ == torrent_reply(bytes@, filename@, info_hash@),
{
    let mut disposition = String::from_str("attachment; filename=");
    disposition.append(filename);
    let mut headers: Vec<Header> = Vec::new();
    headers.push(header("content-type", String::from_str("application/x-bittorrent")));
    headers.push(header("content-disposition", disposition));
    headers.push(header("x-torrust-torrent-infohash", String::from_str(info_hash)));
    let r = Reply { status: STATUS_OK, headers, body: bytes };
    assert(r@.headers =~= torrent_headers(filename@, info_hash@));
    r
}

/// A reply with `status` and the text as its body.
pub fn text_response(status: u16, text: &str) -> (r: Reply)
    ensures
        r@ == text_reply(status, text),
{
    let r = Reply { status, headers: Vec::new(), body: text.as_bytes_vec() };
    assert(r@.headers =~= Seq::<(Seq<char>, Seq<char>)>::empty());
    r
}

} // verus!
