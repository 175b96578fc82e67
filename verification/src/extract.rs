//! Turning an extraction request into text: passing given content through,
//! deciding where a source lives and how large it may be, choosing the
//! decoder by media type, and rewriting host paths for a containerised
//! gateway.

use vstd::prelude::*;
use vstd::utf8::{decode_utf8, valid_utf8};
use crate::domain::{CoreError, ExtractRequest, ExtractResponse, Fault, duplicate_text};
use crate::text::{
    before_char, before_first, concat, decimal, decimal_string, has_prefix, is_blank, is_blank_seq,
    owned, same_chars, starts_with, trim, trim_end_char, trim_end_seq, trim_space,
    trim_start_char, trim_start_seq,
};

verus! {

/// The largest source, in bytes, that is read and extracted (5 MiB).
pub const MAX_SOURCE_BYTES: u64 = 5 * 1024 * 1024;

/// The media type that `mime_guess` gives first for the extension of `path`.
pub uninterp spec fn guessed_mime(path: Seq<char>) -> Option<Seq<char>>;

/// The text of a byte sequence read as UTF-8, each invalid sequence replaced
/// by U+FFFD.
pub uninterp spec fn utf8_lossy_text(bytes: Seq<u8>) -> Seq<char>;

/// The text nodes of the first `body` element of a parsed HTML document, in
/// document order, if the document has such an element.
pub uninterp spec fn html_body_nodes(html: Seq<char>) -> Option<Seq<Seq<char>>>;

/// The text nodes of the root element of a parsed HTML document, in document order.
pub uninterp spec fn html_root_nodes(html: Seq<char>) -> Seq<Seq<char>>;

/// `mime_guess::from_path(path).first()`, written out with `to_string`.
#[verifier::external_body]
fn guess_mime(path: &str) -> (r: Option<String>)
    ensures
        r is Some <==> guessed_mime(path@) is Some,
        r matches Some(m) ==> m@ == guessed_mime(path@)->0,
{
    match mime_guess::from_path(path).first() {
        Some(m) => Some(m.to_string()),
        None => None,
    }
}

/// `String::from_utf8`: the decoded text when the bytes are valid UTF-8.
#[verifier::external_body]
pub(crate) fn utf8_decode(bytes: Vec<u8>) -> (r: Option<String>)
    ensures
        r is Some <==> valid_utf8(bytes@),
        r matches Some(s) ==> s@ == decode_utf8(bytes@),
{
    String::from_utf8(bytes).ok()
}

/// `String::from_utf8_lossy`: the bytes decoded as UTF-8, invalid sequences
/// replaced; valid input decodes exactly.
#[verifier::external_body]
fn utf8_lossy(bytes: &[u8]) -> (r: String)
    ensures
        r@ == utf8_lossy_text(bytes@),
        valid_utf8(bytes@) ==> r@ == decode_utf8(bytes@),
{
    String::from_utf8_lossy(bytes).into_owned()
}

/// `scraper::Html::parse_document`, then the text nodes (`ElementRef::text`)
/// of the first match of the selector `body`, each as a `String`.
#[verifier::external_body]
fn html_body(html: &str) -> (r: Option<Vec<String>>)
    ensures
        r.deep_view() == html_body_nodes(html@),
{
    let doc = scraper::Html::parse_document(html);
    let sel = scraper::Selector::parse("body").ok()?;
    match doc.select(&sel).next() {
        Some(body) => Some(body.text().map(str::to_owned).collect()),
        None => None,
    }
}

/// `scraper::Html::parse_document`, then the text nodes of its root element,
/// each as a `String`.
#[verifier::external_body]
fn html_root(html: &str) -> (r: Vec<String>)
    ensures
        r.deep_view() == html_root_nodes(html@),
{
    let doc = scraper::Html::parse_document(html);
    doc.root_element().text().map(str::to_owned).collect()
}

/// An extraction that needs no source: non-blank content is returned as the
/// text; anything else is refused.
pub open spec fn simple_extract_fault(request: ExtractRequest) -> Option<Fault> {
    match request.content {
        Some(c) => if is_blank_seq(c@) {
            Some(Fault::Validation("extract content cannot be empty"@))
        } else {
            None
        },
        None => Some(Fault::Validation("extract content cannot be empty"@)),
    }
}

/// Extraction from given content only: its non-blank content is the text.
pub fn simple_extract(request: ExtractRequest) -> (r: Result<ExtractResponse, CoreError>)
    ensures
        match r {
            Ok(resp) => simple_extract_fault(request) is None && resp.text == request.content->0,
            Err(e) => simple_extract_fault(request) == Some(e@),
        },
{
    match request.content {
        Some(text) => {
            if is_blank(text.as_str()) {
                Err(CoreError::Validation("extract content cannot be empty".to_owned()))
            } else {
                Ok(ExtractResponse { text })
            }
        },
        None => Err(CoreError::Validation("extract content cannot be empty".to_owned())),
    }
}

/// The first step of extracting a request: done already, or a source to fetch.
#[derive(Debug, PartialEq, Eq)]
pub enum SourceStep {
    Done(ExtractResponse),
    Fetch(String),
}

/// Given content is passed through when not blank; otherwise the source URI
/// is to be fetched; a request with neither is refused.
pub fn begin_source_extract(request: ExtractRequest) -> (r: Result<SourceStep, CoreError>)
    ensures
        match request.content {
            Some(c) => if is_blank_seq(c@) {
                r matches Err(e) && e@ == Fault::Validation("content cannot be empty"@)
            } else {
                r matches Ok(SourceStep::Done(resp)) && resp.text == c
            },
            None => match request.source_uri {
                Some(u) => r matches Ok(SourceStep::Fetch(v)) && v == u,
                None => r matches Err(e) && e@ == Fault::Validation(
                    "either content or source_uri must be provided"@,
                ),
            },
        },
{
    match request.content {
        Some(content) => {
            if is_blank(content.as_str()) {
                return Err(CoreError::Validation("content cannot be empty".to_owned()));
            }
            Ok(SourceStep::Done(ExtractResponse { text: content }))
        },
        None => match request.source_uri {
            Some(uri) => Ok(SourceStep::Fetch(uri)),
            None => Err(
                CoreError::Validation("either content or source_uri must be provided".to_owned()),
            ),
        },
    }
}

/// Whether a source URI names a web resource.
pub open spec fn is_web_uri(uri: Seq<char>) -> bool {
    has_prefix(uri, "http://"@) || has_prefix(uri, "https://"@)
}

/// Where a source is read from.
#[derive(Debug, PartialEq, Eq)]
pub enum SourceLocation {
    /// Fetched over HTTP from this URL.
    Remote(String),
    /// Read from this file path, with the media type its extension suggests.
    Local { path: String, mime: Option<String> },
}

/// The file path a local source URI names: the URI without a leading `file://`.
pub open spec fn local_path(uri: Seq<char>) -> Seq<char> {
    if has_prefix(uri, "file://"@) { uri.skip(7) } else { uri }
}

/// Web URIs are fetched; anything else is a local file, named with or without
/// a `file://` prefix, whose media type is guessed from its extension.
pub fn locate_source(uri: &str) -> (r: SourceLocation)
    ensures
        is_web_uri(uri@) ==> (r matches SourceLocation::Remote(u) && u@ == uri@),
        !is_web_uri(uri@) ==> (r matches SourceLocation::Local { path, mime } && path@ == local_path(
            uri@,
        ) && (mime is Some <==> guessed_mime(path@) is Some) && (mime matches Some(m) ==> m@
            == guessed_mime(path@)->0)),
{
    if starts_with(uri, "http://") || starts_with(uri, "https://") {
        return SourceLocation::Remote(owned(uri));
    }
    let path = if starts_with(uri, "file://") {
        proof {
            reveal_strlit("file://");
        }
        let v = crate::text::chars_of(uri);
        let p = crate::text::string_from_chars(&v.as_slice()[7..v.len()]);
        assert(p@ =~= uri@.skip(7));
        p
    } else {
        owned(uri)
    };
    let mime = guess_mime(path.as_str());
    SourceLocation::Local { path, mime }
}

/// Refuses a fetched source whose HTTP status is not a success (200 to 299),
/// naming the status as it is displayed (such as `404 Not Found`) and the URL.
pub fn check_fetch_status(code: u16, status_text: &str, url: &str) -> (r: Result<(), CoreError>)
    ensures
        r is Ok <==> 200 <= code <= 299,
        r matches Err(e) ==> e@ == Fault::Provider("HTTP "@ + status_text@ + " fetching "@ + url@),
{
    if 200 <= code && code <= 299 {
        return Ok(());
    }
    let a = concat("HTTP ", status_text);
    let b = concat(a.as_str(), " fetching ");
    Err(CoreError::Provider(concat(b.as_str(), url)))
}

pub open spec fn size_message(len: nat) -> Seq<char> {
    "source exceeds 5 MiB limit ("@ + decimal(len) + " bytes)"@
}

/// Refuses a source of more than 5 MiB.
pub fn check_source_size(len: u64) -> (r: Result<(), CoreError>)
    ensures
        r is Ok <==> len <= MAX_SOURCE_BYTES,
        r matches Err(e) ==> e@ == Fault::Validation(size_message(len as nat)),
{
    if len > MAX_SOURCE_BYTES {
        let d = decimal_string(len);
        let a = concat("source exceeds 5 MiB limit (", d.as_str());
        let m = concat(a.as_str(), " bytes)");
        return Err(CoreError::Validation(m));
    }
    Ok(())
}

/// The bare media type of a content type: what comes before any `;`, trimmed.
pub open spec fn media_essence(content_type: Seq<char>) -> Seq<char> {
    trim_space(before_first(content_type, ';'))
}

/// The bare media type of a content type such as `text/html; charset=utf-8`.
pub fn media_type(content_type: &str) -> (r: String)
    ensures
        r@ == media_essence(content_type@),
{
    let head = before_char(content_type, ';');
    trim(head.as_str())
}

/// How the bytes of a source become text.
#[derive(Debug, PartialEq, Eq)]
pub enum Decoded {
    /// A PDF document, whose text is extracted apart.
    Pdf(Vec<u8>),
    /// Text already decoded.
    Text(String),
}

/// The media type a source is decoded as: the one detected, else plain text.
pub open spec fn decode_kind(mime: Option<String>) -> Seq<char> {
    match mime {
        Some(m) => media_essence(m@),
        None => "text/plain"@,
    }
}

/// A source whose media type was not detected is plain text: it is neither
/// left for the PDF extractor nor read as HTML.
pub proof fn law_undetected_media_is_plain_text()
    ensures
        decode_kind(None) != "application/pdf"@,
        decode_kind(None) != "text/html"@,
{
    reveal_strlit("text/plain");
    reveal_strlit("application/pdf");
    reveal_strlit("text/html");
    assert("text/plain"@.len() == 10);
    assert("application/pdf"@.len() == 15);
    assert("text/html"@.len() == 9);
}

/// Decodes the bytes of a source by media type: PDF is left for the PDF
/// extractor; HTML becomes the text of its body with runs of whitespace
/// collapsed; anything else must be UTF-8 text.
pub fn decode_source(raw: Vec<u8>, mime: Option<String>) -> (r: Result<Decoded, CoreError>)
    ensures
        decode_kind(mime) == "application/pdf"@ ==> (r matches Ok(Decoded::Pdf(b)) && b@ == raw@),
        decode_kind(mime) != "application/pdf"@ && decode_kind(mime) == "text/html"@ ==> (r matches Ok(
            Decoded::Text(t),
        ) && t@ == crate::text::collapse_space(
            crate::text::join_words(
                match html_body_nodes(utf8_lossy_text(raw@)) {
                    Some(b) => b,
                    None => html_root_nodes(utf8_lossy_text(raw@)),
                },
            ),
        )),
        decode_kind(mime) != "application/pdf"@ && decode_kind(mime) != "text/html"@ ==> {
            &&& (r is Ok <==> valid_utf8(raw@))
            &&& r matches Ok(d) ==> d matches Decoded::Text(t) && t@ == decode_utf8(raw@)
            &&& r matches Err(e) ==> e@ == Fault::Provider("file content is not valid UTF-8"@)
        },
        mime is None ==> {
            &&& (r is Ok <==> valid_utf8(raw@))
            &&& r matches Ok(d) ==> d matches Decoded::Text(t) && t@ == decode_utf8(raw@)
            &&& r matches Err(e) ==> e@ == Fault::Provider("file content is not valid UTF-8"@)
        },
{
    proof {
        law_undetected_media_is_plain_text();
    }
    let base = match &mime {
        Some(m) => media_type(m.as_str()),
        None => owned("text/plain"),
    };
    if same_chars(base.as_str(), "application/pdf") {
        return Ok(Decoded::Pdf(raw));
    }
    if same_chars(base.as_str(), "text/html") {
        let html = utf8_lossy(raw.as_slice());
        let nodes = match html_body(html.as_str()) {
            Some(v) => v,
            None => html_root(html.as_str()),
        };
        let text = crate::text::join_with_spaces(&nodes);
        return Ok(Decoded::Text(crate::text::collapse_whitespace(text.as_str())));
    }
    match utf8_decode(raw) {
        Some(s) => Ok(Decoded::Text(s)),
        None => Err(CoreError::Provider("file content is not valid UTF-8".to_owned())),
    }
}

/// The outcome of the PDF extractor, its failure reported as a provider error.
pub fn pdf_outcome(outcome: Result<String, String>) -> (r: Result<String, CoreError>)
    ensures
        match outcome {
            Ok(t) => r == Ok::<String, CoreError>(t),
            Err(d) => r matches Err(e) && e@ == Fault::Provider("PDF extraction failed: "@ + d@),
        },
{
    match outcome {
        Ok(t) => Ok(t),
        Err(d) => Err(CoreError::Provider(concat("PDF extraction failed: ", d.as_str()))),
    }
}

/// The reply to an extraction from a source, refused when the text is blank.
pub fn finish_source_extract(text: String) -> (r: Result<ExtractResponse, CoreError>)
    ensures
        is_blank_seq(text@) ==> (r matches Err(e) && e@ == Fault::Validation("extracted text is empty"@)),
        !is_blank_seq(text@) ==> (r matches Ok(resp) && resp.text == text),
{
    if is_blank(text.as_str()) {
        return Err(CoreError::Validation("extracted text is empty".to_owned()));
    }
    Ok(ExtractResponse { text })
}

/// Rewrites local paths of a gateway running in a container whose host file
/// system is mounted at `host_root`.
#[derive(Debug, Clone)]
pub struct HostPathRemap {
    pub host_root: String,
}

/// A source URI as the container sees it: web and `file://` URIs, and every
/// URI when no host root is set, stay as they are; a path is put under the
/// host root, joined by exactly one `/`.
pub open spec fn remapped(host_root: Seq<char>, uri: Seq<char>) -> Seq<char> {
    if host_root.len() == 0 || has_prefix(uri, "http://"@) || has_prefix(uri, "https://"@)
        || has_prefix(uri, "file://"@) {
        uri
    } else {
        trim_end_seq(host_root, '/') + "/"@ + trim_start_seq(uri, '/')
    }
}

impl HostPathRemap {
    pub fn new(host_root: String) -> (r: Self)
        ensures
            r.host_root == host_root,
    {
        HostPathRemap { host_root }
    }

    pub fn remap(&self, uri: &str) -> (r: String)
        ensures
            r@ == remapped(self.host_root@, uri@),
    {
        if self.host_root.as_str().is_empty() || starts_with(uri, "http://") || starts_with(
            uri,
            "https://",
        ) || starts_with(uri, "file://") {
            return owned(uri);
        }
        let root = trim_end_char(self.host_root.as_str(), '/');
        let rest = trim_start_char(uri, '/');
        let a = concat(root.as_str(), "/");
        concat(a.as_str(), rest.as_str())
    }

    /// The request with its source URI remapped and everything else unchanged.
    pub fn remap_request(&self, request: ExtractRequest) -> (r: ExtractRequest)
        ensures
            r.scope == request.scope,
            r.source_type == request.source_type,
            r.content == request.content,
            match request.source_uri {
                Some(u) => r.source_uri matches Some(v) && v@ == remapped(self.host_root@, u@),
                None => r.source_uri is None,
            },
    {
        let source_uri = match &request.source_uri {
            Some(u) => Some(self.remap(u.as_str())),
            None => None,
        };
        ExtractRequest { source_uri, ..request }
    }
}

/// Remapping never touches a web address, whatever the host root.
pub proof fn law_remap_keeps_web_uris(host_root: Seq<char>, uri: Seq<char>)
    requires
        is_web_uri(uri),
    ensures
        remapped(host_root, uri) == uri,
{
}

/// With a host root set, a plain path is moved under it: the result starts
/// with the root, stripped of trailing slashes, and one `/`.
pub proof fn law_remap_puts_paths_under_root(host_root: Seq<char>, uri: Seq<char>)
    requires
        host_root.len() > 0,
        !is_web_uri(uri),
        !has_prefix(uri, "file://"@),
    ensures
        has_prefix(remapped(host_root, uri), trim_end_seq(host_root, '/') + "/"@),
{
    let head = trim_end_seq(host_root, '/') + "/"@;
    let whole = head + trim_start_seq(uri, '/');
    assert(whole.take(head.len() as int) =~= head);
}

/// With no host root, every URI passes through unchanged.
pub proof fn law_remap_without_root_is_identity(uri: Seq<char>)
    ensures
        remapped(Seq::empty(), uri) == uri,
{
}

} // verus!
