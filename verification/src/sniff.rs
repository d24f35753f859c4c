//! Application sniffer: recognises the head of an HTTP request or response in
//! the payload of a packet.
//!
//! The bytes are parsed by `httparse`. What is made of its two answers, one
//! for a request and one for a response, is decided here: a complete head is
//! reported with its readable headers, a payload that ends too early is
//! reported as incomplete, and only bytes that neither parser can follow are
//! reported as malformed.

use vstd::prelude::*;
use vstd::utf8::{decode_utf8, valid_utf8};

verus! {

/// Largest prefix of a payload that is handed to the parsers.
pub const INSPECT_LIMIT: usize = 4096;

/// Largest number of headers that the parsers accept in one head.
pub const MAX_HEADERS: usize = 64;

/// `httparse::Error`, the error of both parsers. It is an enum without
/// fields, so it is declared with its variants: the verifier reads them from
/// the crate itself, and nothing is assumed of them.
#[verifier::external_type_specification]
pub struct ExHttparseError(httparse::Error);

/// One header as the parser found it: its value is any run of bytes.
#[derive(Clone, Debug, PartialEq, Eq)]
pub struct HeaderField {
    pub name: String,
    pub value: Vec<u8>,
}

/// The head of a request, as the parser found it.
#[derive(Clone, Debug, PartialEq, Eq)]
pub struct RequestHead {
    pub method: Option<String>,
    pub path: Option<String>,
    /// The minor version: 1 for HTTP/1.1.
    pub version: Option<u8>,
    pub headers: Vec<HeaderField>,
}

/// The head of a response, as the parser found it.
#[derive(Clone, Debug, PartialEq, Eq)]
pub struct ResponseHead {
    /// The minor version: 1 for HTTP/1.1.
    pub version: Option<u8>,
    pub code: Option<u16>,
    pub reason: Option<String>,
    pub headers: Vec<HeaderField>,
}

/// Why a parser gave up on a payload.
#[derive(Clone, Copy, Debug, PartialEq, Eq)]
pub enum ParseErrorKind {
    HeaderName,
    HeaderValue,
    NewLine,
    Status,
    Token,
    TooManyHeaders,
    Version,
}

/// The error kind that stands for an error of the parser.
pub open spec fn kind_of(e: httparse::Error) -> ParseErrorKind {
    match e {
        httparse::Error::HeaderName => ParseErrorKind::HeaderName,
        httparse::Error::HeaderValue => ParseErrorKind::HeaderValue,
        httparse::Error::NewLine => ParseErrorKind::NewLine,
        httparse::Error::Status => ParseErrorKind::Status,
        httparse::Error::Token => ParseErrorKind::Token,
        httparse::Error::TooManyHeaders => ParseErrorKind::TooManyHeaders,
        httparse::Error::Version => ParseErrorKind::Version,
    }
}

/// Maps an error of the parser to the library's own error kind.
pub fn error_kind(e: httparse::Error) -> (kind: ParseErrorKind)
    ensures
        kind == kind_of(e),
{
    match e {
        httparse::Error::HeaderName => ParseErrorKind::HeaderName,
        httparse::Error::HeaderValue => ParseErrorKind::HeaderValue,
        httparse::Error::NewLine => ParseErrorKind::NewLine,
        httparse::Error::Status => ParseErrorKind::Status,
        httparse::Error::Token => ParseErrorKind::Token,
        httparse::Error::TooManyHeaders => ParseErrorKind::TooManyHeaders,
        httparse::Error::Version => ParseErrorKind::Version,
    }
}

/// What `httparse::Request::parse` makes of a payload, with room for
/// `MAX_HEADERS` headers: the head of a complete request, `None` where the
/// payload ends before the head does, or the parser's error.
pub uninterp spec fn request_head_of(payload: Seq<u8>) -> Result<Option<RequestHead>, httparse::Error>;

/// What `httparse::Response::parse` makes of a payload, with room for
/// `MAX_HEADERS` headers.
pub uninterp spec fn response_head_of(payload: Seq<u8>) -> Result<Option<ResponseHead>, httparse::Error>;

/// Calls `httparse::Request::parse` on a fresh request with room for
/// `MAX_HEADERS` headers and copies what it found. The contract only gives the
/// result its name: the parser reads nothing but the payload.
#[verifier::external_body]
fn parse_request(payload: &[u8]) -> (r: Result<Option<RequestHead>, httparse::Error>)
    ensures
        r == request_head_of(payload@),
{
    let mut fields = [httparse::EMPTY_HEADER; MAX_HEADERS];
    let mut request = httparse::Request::new(&mut fields);
    Ok(match request.parse(payload)? {
        httparse::Status::Partial => None,
        httparse::Status::Complete(_) => Some(RequestHead {
            method: request.method.map(String::from),
            path: request.path.map(String::from),
            version: request.version,
            headers: request.headers.iter().map(|h| HeaderField { name: h.name.to_string(), value: h.value.to_vec() }).collect(),
        }),
    })
}

/// Calls `httparse::Response::parse` on a fresh response with room for
/// `MAX_HEADERS` headers and copies what it found. The contract only gives the
/// result its name: the parser reads nothing but the payload.
#[verifier::external_body]
fn parse_response(payload: &[u8]) -> (r: Result<Option<ResponseHead>, httparse::Error>)
    ensures
        r == response_head_of(payload@),
{
    let mut fields = [httparse::EMPTY_HEADER; MAX_HEADERS];
    let mut response = httparse::Response::new(&mut fields);
    Ok(match response.parse(payload)? {
        httparse::Status::Partial => None,
        httparse::Status::Complete(_) => Some(ResponseHead {
            version: response.version,
            code: response.code,
            reason: response.reason.map(String::from),
            headers: response.headers.iter().map(|h| HeaderField { name: h.name.to_string(), value: h.value.to_vec() }).collect(),
        }),
    })
}

/// Calls `std::str::from_utf8`, which accepts a run of bytes exactly if it is
/// valid UTF-8 and then returns the text that the bytes encode.
#[verifier::external_body]
pub(crate) fn utf8_text(bytes: &[u8]) -> (r: Option<&str>)
    ensures
        r is Some <==> valid_utf8(bytes@),
        r matches Some(text) ==> text@ == decode_utf8(bytes@),
{
    std::str::from_utf8(bytes).ok()
}

/// A port on which HTTP is conventionally spoken.
pub open spec fn is_http_port(p: u16) -> bool {
    p == 80 || p == 8080 || p == 8000 || p == 8008 || p == 8888
}

/// Whether a port is one on which HTTP is conventionally spoken.
pub fn looks_like_http_port(p: u16) -> (r: bool)
    ensures
        r == is_http_port(p),
{
    p == 80 || p == 8080 || p == 8000 || p == 8008 || p == 8888
}

/// The answer of one parser, in the library's own terms.
#[derive(Clone, Debug, PartialEq, Eq)]
pub enum HeadParse<T> {
    /// The payload holds a whole head.
    Complete(T),
    /// The payload ends before the head does.
    Partial,
    /// The payload is no such head.
    Failed(ParseErrorKind),
}

/// The answer that stands for what a parser returned.
pub open spec fn outcome_of<T>(parsed: Result<Option<T>, httparse::Error>) -> HeadParse<T> {
    match parsed {
        Ok(Some(head)) => HeadParse::Complete(head),
        Ok(None) => HeadParse::Partial,
        Err(e) => HeadParse::Failed(kind_of(e)),
    }
}

/// The request parser's answer to a payload.
pub open spec fn request_outcome(payload: Seq<u8>) -> HeadParse<RequestHead> {
    outcome_of(request_head_of(payload))
}

/// The response parser's answer to a payload.
pub open spec fn response_outcome(payload: Seq<u8>) -> HeadParse<ResponseHead> {
    outcome_of(response_head_of(payload))
}

fn outcome<T>(parsed: Result<Option<T>, httparse::Error>) -> (answer: HeadParse<T>)
    ensures
        answer == outcome_of(parsed),
{
    match parsed {
        Ok(Some(head)) => HeadParse::Complete(head),
        Ok(None) => HeadParse::Partial,
        Err(e) => HeadParse::Failed(error_kind(e)),
    }
}

/// A header whose value is text.
#[derive(Clone, Debug, PartialEq, Eq)]
pub struct TextHeader {
    pub name: String,
    pub value: String,
}

/// What the sniffer makes of a payload.
#[derive(Clone, Debug, PartialEq, Eq)]
pub enum SniffReport {
    /// The payload starts with the complete head of a request.
    Request {
        method: Option<String>,
        path: Option<String>,
        version: Option<u8>,
        headers: Vec<TextHeader>,
    },
    /// The payload starts with the complete head of a response.
    Response {
        version: Option<u8>,
        code: Option<u16>,
        reason: Option<String>,
        headers: Vec<TextHeader>,
    },
    /// The payload may be the start of a head: more data is needed.
    Incomplete,
    /// The payload is neither a request nor a response.
    Malformed { request: ParseErrorKind, response: ParseErrorKind },
}

/// The mathematical content of a [`SniffReport`].
pub enum SniffReportView {
    Request {
        method: Option<Seq<char>>,
        path: Option<Seq<char>>,
        version: Option<u8>,
        headers: Seq<(Seq<char>, Seq<char>)>,
    },
    Response {
        version: Option<u8>,
        code: Option<u16>,
        reason: Option<Seq<char>>,
        headers: Seq<(Seq<char>, Seq<char>)>,
    },
    Incomplete,
    Malformed { request: ParseErrorKind, response: ParseErrorKind },
}

/// The characters of an optional string.
pub open spec fn text_of(text: Option<String>) -> Option<Seq<char>> {
    match text {
        Some(s) => Some(s@),
        None => None,
    }
}

/// Name and value of each header, as characters.
pub open spec fn headers_view(headers: Seq<TextHeader>) -> Seq<(Seq<char>, Seq<char>)> {
    headers.map_values(|h: TextHeader| (h.name@, h.value@))
}

impl View for SniffReport {
    type V = SniffReportView;

    open spec fn view(&self) -> SniffReportView {
        match *self {
            SniffReport::Request { method, path, version, headers } => SniffReportView::Request {
                method: text_of(method),
                path: text_of(path),
                version,
                headers: headers_view(headers@),
            },
            SniffReport::Response { version, code, reason, headers } => SniffReportView::Response {
                version,
                code,
                reason: text_of(reason),
                headers: headers_view(headers@),
            },
            SniffReport::Incomplete => SniffReportView::Incomplete,
            SniffReport::Malformed { request, response } => SniffReportView::Malformed {
                request,
                response,
            },
        }
    }
}

/// A header as text, where its value is valid UTF-8.
pub open spec fn as_text(field: HeaderField) -> Option<(Seq<char>, Seq<char>)> {
    if valid_utf8(field.value@) {
        Some((field.name@, decode_utf8(field.value@)))
    } else {
        None
    }
}

/// The headers whose value is valid UTF-8, in their order, with the value as text.
pub open spec fn readable_headers(fields: Seq<HeaderField>) -> Seq<(Seq<char>, Seq<char>)> {
    fields.filter_map(|field: HeaderField| as_text(field))
}

/// The report on a request head.
pub open spec fn request_report(head: RequestHead) -> SniffReportView {
    SniffReportView::Request {
        method: text_of(head.method),
        path: text_of(head.path),
        version: head.version,
        headers: readable_headers(head.headers@),
    }
}

/// The report on a response head.
pub open spec fn response_report(head: ResponseHead) -> SniffReportView {
    SniffReportView::Response {
        version: head.version,
        code: head.code,
        reason: text_of(head.reason),
        headers: readable_headers(head.headers@),
    }
}

/// The report on a payload that is no complete request, from the answers of
/// both parsers: a complete response is reported; where either parser could
/// go on with more data the payload is incomplete; else it is malformed.
pub open spec fn fallback_report(
    request: HeadParse<RequestHead>,
    response: HeadParse<ResponseHead>,
) -> SniffReportView {
    match response {
        HeadParse::Complete(head) => response_report(head),
        HeadParse::Partial => SniffReportView::Incomplete,
        HeadParse::Failed(second) => match request {
            HeadParse::Failed(first) => SniffReportView::Malformed {
                request: first,
                response: second,
            },
            _ => SniffReportView::Incomplete,
        },
    }
}

/// The report on a payload, from the answers of both parsers. A complete
/// request is reported whatever the response parser says.
pub open spec fn report_of(
    request: HeadParse<RequestHead>,
    response: HeadParse<ResponseHead>,
) -> SniffReportView {
    match request {
        HeadParse::Complete(head) => request_report(head),
        _ => fallback_report(request, response),
    }
}

/// The part of a payload that is inspected: its first `INSPECT_LIMIT` bytes.
pub open spec fn inspected(payload: Seq<u8>) -> Seq<u8> {
    if payload.len() <= INSPECT_LIMIT {
        payload
    } else {
        payload.take(INSPECT_LIMIT as int)
    }
}

/// What the sniffer reports on a payload between the two ports: nothing
/// unless one of the ports is an HTTP port, else the report on the inspected
/// part of the payload.
pub open spec fn sniff_of(payload: Seq<u8>, source_port: u16, destination_port: u16) -> Option<
    SniffReportView,
> {
    if is_http_port(source_port) || is_http_port(destination_port) {
        Some(
            report_of(request_outcome(inspected(payload)), response_outcome(inspected(payload))),
        )
    } else {
        None
    }
}

fn readable(fields: &Vec<HeaderField>) -> (headers: Vec<TextHeader>)
    ensures
        headers_view(headers@) == readable_headers(fields@),
{
    let mut headers: Vec<TextHeader> = Vec::new();
    let mut i: usize = 0;
    assert(fields@.take(0).len() == 0);
    assert(headers_view(headers@) =~= Seq::empty());
    while i < fields.len()
        invariant
            i <= fields.len(),
            headers_view(headers@) == readable_headers(fields@.take(i as int)),
        decreases fields.len() - i,
    {
        let field = &fields[i];
        let ghost before = headers_view(headers@);
        assert(fields@.take(i + 1).drop_last() =~= fields@.take(i as int));
        match utf8_text(field.value.as_slice()) {
            Some(text) => {
                headers.push(TextHeader { name: field.name.clone(), value: text.to_owned() });
                assert(headers_view(headers@) =~= before + seq![
                    (field.name@, decode_utf8(field.value@)),
                ]);
            },
            None => {},
        }
        i += 1;
    }
    assert(fields@.take(i as int) =~= fields@);
    headers
}

fn report_request(head: RequestHead) -> (report: SniffReport)
    ensures
        report@ == request_report(head),
{
    let headers = readable(&head.headers);
    SniffReport::Request { method: head.method, path: head.path, version: head.version, headers }
}

fn report_fallback(request: HeadParse<RequestHead>, response: HeadParse<ResponseHead>) -> (report:
    SniffReport)
    ensures
        report@ == fallback_report(request, response),
{
    match response {
        HeadParse::Complete(head) => {
            let headers = readable(&head.headers);
            SniffReport::Response {
                version: head.version,
                code: head.code,
                reason: head.reason,
                headers,
            }
        },
        HeadParse::Partial => SniffReport::Incomplete,
        HeadParse::Failed(second) => match request {
            HeadParse::Failed(first) => SniffReport::Malformed { request: first, response: second },
            _ => SniffReport::Incomplete,
        },
    }
}

/// Makes the report on a payload from the answers of both parsers.
pub fn report_for(request: HeadParse<RequestHead>, response: HeadParse<ResponseHead>) -> (report:
    SniffReport)
    ensures
        report@ == report_of(request, response),
{
    match request {
        HeadParse::Complete(head) => report_request(head),
        other => report_fallback(other, response),
    }
}

/// Looks for the head of an HTTP request or response in a payload that
/// travels between the two ports. Inspects at most `INSPECT_LIMIT` bytes, and
/// nothing at all unless one of the ports is an HTTP port.
pub fn sniff(payload: &[u8], source_port: u16, destination_port: u16) -> (report: Option<
    SniffReport,
>)
    ensures
        report is Some <==> is_http_port(source_port) || is_http_port(destination_port),
        match report {
            Some(r) => Some(r@) == sniff_of(payload@, source_port, destination_port),
            None => sniff_of(payload@, source_port, destination_port) is None,
        },
{
    if !(looks_like_http_port(source_port) || looks_like_http_port(destination_port)) {
        return None;
    }
    let prefix = if payload.len() <= INSPECT_LIMIT {
        payload
    } else {
        vstd::slice::slice_subrange(payload, 0, INSPECT_LIMIT)
    };
    assert(prefix@ =~= inspected(payload@));
    match outcome(parse_request(prefix)) {
        HeadParse::Complete(head) => Some(report_request(head)),
        other => {
            let response = outcome(parse_response(prefix));
            Some(report_fallback(other, response))
        },
    }
}

/// A complete request is reported as a request, whatever the response parser
/// makes of the payload.
pub proof fn lemma_complete_request_wins(head: RequestHead, response: HeadParse<ResponseHead>)
    ensures
        report_of(HeadParse::Complete(head), response) == request_report(head),
{
}

/// A payload that the request parser could go on with is never reported as
/// malformed.
pub proof fn lemma_partial_is_not_malformed(response: HeadParse<ResponseHead>)
    ensures
        !(report_of(HeadParse::Partial, response) is Malformed),
        response is Failed ==> report_of(HeadParse::Partial, response) is Incomplete,
{
}

/// Between ports of which none is an HTTP port nothing is inspected.
pub proof fn lemma_other_ports_are_skipped(payload: Seq<u8>, source_port: u16, destination_port: u16)
    requires
        !is_http_port(source_port),
        !is_http_port(destination_port),
    ensures
        sniff_of(payload, source_port, destination_port) is None,
{
}

/// The report depends on the first `INSPECT_LIMIT` bytes of the payload only.
pub proof fn lemma_sniff_reads_a_bounded_prefix(
    first: Seq<u8>,
    second: Seq<u8>,
    source_port: u16,
    destination_port: u16,
)
    requires
        first.len() >= INSPECT_LIMIT,
        second.len() >= INSPECT_LIMIT,
        first.take(INSPECT_LIMIT as int) == second.take(INSPECT_LIMIT as int),
    ensures
        inspected(first).len() <= INSPECT_LIMIT,
        sniff_of(first, source_port, destination_port) == sniff_of(
            second,
            source_port,
            destination_port,
        ),
{
    assert(first.take(INSPECT_LIMIT as int) =~= inspected(first));
    assert(second.take(INSPECT_LIMIT as int) =~= inspected(second));
}

} // verus!
