//! The page fetcher: its HTTP client, and the decoding of page bytes into
//! text (UTF-8, or Windows-1252 for Latin-1 pages).
use vstd::prelude::*;

use crate::http::{build_client_with_agent, ClientError};
use crate::text::{chars_of, contains_spec, contains_str, lowercase, to_lowercase};

verus! {

/// The browser identity that page requests carry.
pub const BROWSER_USER_AGENT: &'static str = "Mozilla/5.0 (Windows NT 10.0; Win64; x64) AppleWebKit/537.36 (KHTML, like Gecko) Chrome/130.0.0.0 Safari/537.36";

/// The encoding label of the fallback decoding.
pub const FALLBACK_LABEL: &'static str = "windows-1252";

/// The longest input the decoders take: encoding_rs reserves an output
/// buffer of up to three bytes per input byte plus 15, and that reservation
/// panics when it exceeds `isize::MAX` bytes.
pub open spec fn max_decoded_input() -> int {
    (isize::MAX - 15) / 3
}

/// The text that `encoding_rs::UTF_8.decode` makes of `bytes` (with BOM
/// sniffing and malformed sequences replaced), and whether it met malformed
/// sequences.
pub uninterp spec fn utf8_decoding(bytes: Seq<u8>) -> (Seq<char>, bool);

/// The text that `encoding_rs::WINDOWS_1252.decode` makes of `bytes` (with
/// BOM sniffing).
pub uninterp spec fn windows_1252_decoding(bytes: Seq<u8>) -> Seq<char>;

/// The text that `encoding_rs` makes of `bytes` with the encoding that
/// `label` names, or with Windows-1252 when it names none.
pub uninterp spec fn labelled_decoding(label: Seq<char>, bytes: Seq<u8>) -> Seq<char>;

/// Trusted: `encoding_rs::UTF_8.decode(bytes)`: the text and the flag of
/// malformed input. It panics only when the output buffer it reserves
/// exceeds `isize::MAX` bytes, which the bound on `bytes` rules out.
#[verifier::external_body]
fn decode_utf8(bytes: &[u8]) -> (r: (String, bool))
    requires
        bytes@.len() <= max_decoded_input(),
    ensures
        (r.0@, r.1) == utf8_decoding(bytes@),
{
    let (text, _, had_errors) = encoding_rs::UTF_8.decode(bytes);
    (text.into_owned(), had_errors)
}

/// Trusted: `encoding_rs::WINDOWS_1252.decode(bytes)`, the text. Same bound
/// as `decode_utf8`.
#[verifier::external_body]
fn decode_windows_1252(bytes: &[u8]) -> (r: String)
    requires
        bytes@.len() <= max_decoded_input(),
    ensures
        r@ == windows_1252_decoding(bytes@),
{
    let (text, _, _) = encoding_rs::WINDOWS_1252.decode(bytes);
    text.into_owned()
}

/// Trusted: `encoding_rs::Encoding::for_label(label)`, falling back to
/// `WINDOWS_1252`, then `decode(bytes)`, the text. The Encoding Standard's
/// label table maps "windows-1252" to the Windows-1252 encoding, which the
/// second clause states. Same bound as `decode_utf8`.
#[verifier::external_body]
fn decode_labelled(label: &str, bytes: &[u8]) -> (r: String)
    requires
        bytes@.len() <= max_decoded_input(),
    ensures
        r@ == labelled_decoding(label@, bytes@),
        label@ == FALLBACK_LABEL@ ==> r@ == windows_1252_decoding(bytes@),
{
    let encoding = encoding_rs::Encoding::for_label(label.as_bytes()).unwrap_or(
        encoding_rs::WINDOWS_1252,
    );
    let (text, _, _) = encoding.decode(bytes);
    text.into_owned()
}

/// The content type announces a Latin-1 page.
pub open spec fn is_latin1_type(content_type: Seq<char>) -> bool {
    ||| contains_spec(content_type, "iso-8859-1"@)
    ||| contains_spec(content_type, "windows-1252"@)
    ||| contains_spec(content_type, "latin1"@)
}

/// The text of a page: Windows-1252 when the (lower-case) content type
/// announces Latin-1; else UTF-8 when the bytes hold no malformed sequence;
/// else Windows-1252.
pub open spec fn decode_spec(bytes: Seq<u8>, content_type: Seq<char>) -> Seq<char> {
    if is_latin1_type(content_type) {
        windows_1252_decoding(bytes)
    } else if !utf8_decoding(bytes).1 {
        utf8_decoding(bytes).0
    } else {
        windows_1252_decoding(bytes)
    }
}

/// A page whose content type names ISO-8859-1, Windows-1252 or Latin-1 is
/// read as Windows-1252; any other page is read as UTF-8 when its bytes
/// hold no malformed sequence, and as Windows-1252 otherwise.
pub proof fn law_decoding_follows_content_type(bytes: Seq<u8>, content_type: Seq<char>)
    ensures
        contains_spec(content_type, "iso-8859-1"@) || contains_spec(content_type, "windows-1252"@)
            || contains_spec(content_type, "latin1"@) ==> decode_spec(bytes, content_type)
            == windows_1252_decoding(bytes),
        !(contains_spec(content_type, "iso-8859-1"@) || contains_spec(content_type, "windows-1252"@)
            || contains_spec(content_type, "latin1"@)) ==> decode_spec(bytes, content_type) == if !utf8_decoding(
            bytes,
        ).1 {
            utf8_decoding(bytes).0
        } else {
            windows_1252_decoding(bytes)
        },
{
}

/// Fetches course pages.
#[derive(Clone)]
pub struct HttpFetcher {
    client: reqwest::Client,
    user_agent: String,
    timeout_secs: u64,
}

impl HttpFetcher {
    /// A fetcher whose requests carry a browser identity and time out after
    /// 20 seconds. It fails when the HTTP client cannot be set up.
    pub fn new() -> (r: Result<HttpFetcher, ClientError>)
        ensures
            r matches Ok(f) ==> f.user_agent() == BROWSER_USER_AGENT@ && f.timeout_secs() == 20,
    {
        match build_client_with_agent(BROWSER_USER_AGENT, 20) {
            Ok((client, user_agent, timeout_secs)) => Ok(
                HttpFetcher { client, user_agent, timeout_secs },
            ),
            Err(e) => Err(ClientError::Build(e)),
        }
    }

    /// The user agent that the client was built with.
    pub closed spec fn user_agent(&self) -> Seq<char> {
        self.user_agent@
    }

    /// The request timeout, in seconds, that the client was built with.
    pub closed spec fn timeout_secs(&self) -> u64 {
        self.timeout_secs
    }

    /// The HTTP client held.
    pub closed spec fn client(&self) -> reqwest::Client {
        self.client
    }

    /// The HTTP client that fetches the pages.
    pub fn http_client(&self) -> (r: &reqwest::Client)
        ensures
            *r == self.client(),
    {
        &self.client
    }

    /// The text of a page's bytes, given its lower-case content type.
    pub fn decode_bytes(bytes: &[u8], content_type: &str) -> (r: String)
        requires
            bytes@.len() <= max_decoded_input(),
        ensures
            r@ == decode_spec(bytes@, content_type@),
    {
        let ct = chars_of(content_type);
        if contains_str(&ct, "iso-8859-1") || contains_str(&ct, "windows-1252") || contains_str(
            &ct,
            "latin1",
        ) {
            return decode_windows_1252(bytes);
        }
        let (text, had_errors) = decode_utf8(bytes);
        if !had_errors {
            return text;
        }
        decode_labelled(FALLBACK_LABEL, bytes)
    }

    /// The text of a page's bytes, given the content type header as sent
    /// (it is lower-cased first).
    pub fn decode_body(bytes: &[u8], content_type_header: &str) -> (r: String)
        requires
            bytes@.len() <= max_decoded_input(),
        ensures
            r@ == decode_spec(bytes@, lowercase(content_type_header@)),
    {
        let lower = to_lowercase(content_type_header);
        Self::decode_bytes(bytes, lower.as_str())
    }
}

} // verus!
