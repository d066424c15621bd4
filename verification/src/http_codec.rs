//! HTTP/1.1 requests and responses as the messages of a framer.
//!
//! A request goes out as its method, the path `/`, the protocol version and
//! a `Host` line. A response comes in as a status line, `HTTP/x.y` and a
//! status code, then header lines up to the first blank line.

use vstd::prelude::*;
use vstd::slice::slice_subrange;
use vstd::slice::slice_to_vec;
use vstd::string::StringSliceAdditionalSpecFns;
use vstd::utf8::encode_utf8;
use crate::framer::Decode;
use crate::framer::Encode;
use crate::text::same_bytes;

verus! {

/// An HTTP request without a body.
#[derive(Debug, Clone, PartialEq, Eq)]
pub struct HttpRequest {
    /// The method, such as `GET`.
    pub method: String,
    /// The host that the request is for.
    pub uri: String,
}

/// The bytes of a request: the method, ` / HTTP/1.1`, an empty line, and
/// the `Host` line followed by an empty line.
pub open spec fn request_bytes(method: Seq<char>, uri: Seq<char>) -> Seq<u8> {
    encode_utf8(method) + " / HTTP/1.1\r\n".spec_bytes() + "\r\nHost: ".spec_bytes()
        + encode_utf8(uri) + "\r\n\r\n".spec_bytes()
}

impl HttpRequest {
    pub fn new(method: &str, uri: &str) -> (request: HttpRequest)
        ensures
            request.method@ == method@,
            request.uri@ == uri@,
    {
        HttpRequest { method: String::from_str(method), uri: String::from_str(uri) }
    }
}

impl Encode for HttpRequest {
    open spec fn encoding(self) -> Seq<u8> {
        request_bytes(self.method@, self.uri@)
    }

    fn encode(self) -> (bytes: Vec<u8>) {
        let mut bytes: Vec<u8> = Vec::new();
        bytes.extend_from_slice(self.method.as_str().as_bytes());
        bytes.extend_from_slice(" / HTTP/1.1\r\n".as_bytes());
        bytes.extend_from_slice("\r\nHost: ".as_bytes());
        bytes.extend_from_slice(self.uri.as_str().as_bytes());
        bytes.extend_from_slice("\r\n\r\n".as_bytes());
        bytes
    }
}

/// The versions of HTTP.
#[derive(Debug, Clone, Copy, PartialEq, Eq, Structural)]
pub enum HttpVersion {
    Http09,
    Http10,
    Http11,
    Http2,
    Http3,
}

/// An HTTP response without a body. Header names and values are kept as the
/// bytes that came in.
#[derive(Debug, Clone, PartialEq, Eq)]
pub struct HttpResponse {
    pub version: HttpVersion,
    pub status: u16,
    pub headers: Vec<(Vec<u8>, Vec<u8>)>,
}

/// An HTTP response as a mathematical value.
pub struct ResponseModel {
    pub version: HttpVersion,
    pub status: u16,
    pub headers: Seq<(Seq<u8>, Seq<u8>)>,
}

/// Headers as a sequence of pairs of byte sequences.
pub open spec fn headers_view(headers: Seq<(Vec<u8>, Vec<u8>)>) -> Seq<(Seq<u8>, Seq<u8>)> {
    headers.map_values(|header: (Vec<u8>, Vec<u8>)| (header.0@, header.1@))
}

impl View for HttpResponse {
    type V = ResponseModel;

    open spec fn view(&self) -> ResponseModel {
        ResponseModel {
            version: self.version,
            status: self.status,
            headers: headers_view(self.headers@),
        }
    }
}

/// Whether a byte is white space: a space, or one of the controls from
/// horizontal tab to carriage return.
pub open spec fn is_space(byte: u8) -> bool {
    byte == 0x20 || (0x09 <= byte <= 0x0d)
}

/// Whether a byte is a decimal digit.
pub open spec fn is_digit(byte: u8) -> bool {
    0x30 <= byte <= 0x39
}

/// The index of the first line feed at or behind `from`, or the length of
/// the data where there is none.
pub open spec fn line_end(data: Seq<u8>, from: int) -> int
    decreases data.len() - from,
{
    if from >= data.len() {
        data.len() as int
    } else if data[from] == 0x0a {
        from
    } else {
        line_end(data, from + 1)
    }
}

/// The line that starts at `from`: the bytes up to the line's end, without
/// the carriage return of a line that ends in carriage return and line feed.
pub open spec fn line_at(data: Seq<u8>, from: int) -> Seq<u8> {
    let end = line_end(data, from);
    if end < data.len() && from < end && data[end - 1] == 0x0d {
        data.subrange(from, end - 1)
    } else {
        data.subrange(from, end)
    }
}

/// Where the line behind the line at `from` starts.
pub open spec fn after_line(data: Seq<u8>, from: int) -> int {
    let end = line_end(data, from);
    if end < data.len() {
        end + 1
    } else {
        end
    }
}

/// The index of the first byte at or behind `from` that is not white space,
/// or the length where there is none.
pub open spec fn skip_spaces(line: Seq<u8>, from: int) -> int
    decreases line.len() - from,
{
    if from >= line.len() {
        line.len() as int
    } else if !is_space(line[from]) {
        from
    } else {
        skip_spaces(line, from + 1)
    }
}

/// The index of the first white space at or behind `from`, or the length
/// where there is none.
pub open spec fn token_end(line: Seq<u8>, from: int) -> int
    decreases line.len() - from,
{
    if from >= line.len() {
        line.len() as int
    } else if is_space(line[from]) {
        from
    } else {
        token_end(line, from + 1)
    }
}

/// The index of the first colon followed by a space at or behind `from`, or
/// the length where there is none.
pub open spec fn separator(line: Seq<u8>, from: int) -> int
    decreases line.len() - from,
{
    if from + 1 >= line.len() {
        line.len() as int
    } else if line[from] == 0x3a && line[from + 1] == 0x20 {
        from
    } else {
        separator(line, from + 1)
    }
}

/// Whether a line holds nothing but white space.
pub open spec fn is_blank(line: Seq<u8>) -> bool {
    skip_spaces(line, 0) >= line.len()
}

/// The number that decimal digits spell.
pub open spec fn digits_value(digits: Seq<u8>) -> nat
    decreases digits.len(),
{
    if digits.len() == 0 {
        0
    } else {
        digits_value(digits.drop_last()) * 10 + (digits.last() - 0x30) as nat
    }
}

/// Whether a sequence holds nothing but decimal digits.
pub open spec fn all_digits(digits: Seq<u8>) -> bool {
    forall|i: int| 0 <= i < digits.len() ==> is_digit(#[trigger] digits[i])
}

/// The 16-bit number that digits spell, if there are digits, nothing but
/// digits, and the number fits.
pub open spec fn parsed_digits(digits: Seq<u8>) -> Option<u16> {
    if digits.len() > 0 && all_digits(digits) && digits_value(digits) <= u16::MAX {
        Some(digits_value(digits) as u16)
    } else {
        None
    }
}

/// The 16-bit number that a token spells in decimal, with or without a
/// plus sign before it.
pub open spec fn parsed_number(token: Seq<u8>) -> Option<u16> {
    if token.len() > 0 && token[0] == 0x2b {
        parsed_digits(token.subrange(1, token.len() as int))
    } else {
        parsed_digits(token)
    }
}

/// The version that a token names; a token that names none stands for
/// HTTP/1.1.
pub open spec fn parsed_version(token: Seq<u8>) -> HttpVersion {
    if token == "HTTP/0.9".spec_bytes() {
        HttpVersion::Http09
    } else if token == "HTTP/1.0".spec_bytes() {
        HttpVersion::Http10
    } else if token == "HTTP/1.1".spec_bytes() {
        HttpVersion::Http11
    } else if token == "HTTP/2.0".spec_bytes() {
        HttpVersion::Http2
    } else if token == "HTTP/3.0".spec_bytes() {
        HttpVersion::Http3
    } else {
        HttpVersion::Http11
    }
}

/// Whether `http::header::HeaderName::from_bytes` takes the bytes as a
/// header name.
pub uninterp spec fn http_header_name_accepted(name: Seq<u8>) -> bool;

/// Whether a byte may stand in a header value: it is visible, a space, a
/// tab, or beyond ASCII.
pub open spec fn is_value_byte(byte: u8) -> bool {
    (byte >= 32 && byte != 127) || byte == 0x09
}

/// Whether every byte may stand in a header value.
pub open spec fn header_value_accepted(value: Seq<u8>) -> bool {
    forall|i: int| 0 <= i < value.len() ==> is_value_byte(#[trigger] value[i])
}

/// Whether a number is a status code: it has three digits.
pub open spec fn status_code_accepted(code: u16) -> bool {
    100 <= code < 1000
}

/// Asks `http::header::HeaderName::from_bytes` whether the bytes are a
/// header name. The answer depends on the bytes alone.
#[verifier::external_body]
fn accepts_header_name(name: &[u8]) -> (ok: bool)
    ensures
        ok == http_header_name_accepted(name@),
{
    http::header::HeaderName::from_bytes(name).is_ok()
}

/// Asks `http::header::HeaderValue::from_bytes` whether the bytes are a
/// header value: it takes them unless one of them is a control other than
/// the tab, or the delete character.
#[verifier::external_body]
fn accepts_header_value(value: &[u8]) -> (ok: bool)
    ensures
        ok == header_value_accepted(value@),
{
    http::header::HeaderValue::from_bytes(value).is_ok()
}

/// Asks `http::StatusCode::from_u16` whether the number is a status code:
/// it takes the numbers from 100 to 999.
#[verifier::external_body]
fn accepts_status_code(code: u16) -> (ok: bool)
    ensures
        ok == status_code_accepted(code),
{
    http::StatusCode::from_u16(code).is_ok()
}

/// The name and the value of a header line: what stands before the first
/// colon and space, and what stands behind it up to the next colon and
/// space. A line without colon and space has neither.
pub open spec fn header_of(line: Seq<u8>) -> Option<(Seq<u8>, Seq<u8>)> {
    let first = separator(line, 0);
    if first >= line.len() {
        None
    } else {
        Some((line.subrange(0, first), line.subrange(first + 2, separator(line, first + 2))))
    }
}

/// A line's end lies between the line's start and the end of the data.
pub proof fn lemma_line_end(data: Seq<u8>, from: int)
    requires
        0 <= from <= data.len(),
    ensures
        from <= line_end(data, from) <= data.len(),
        from < data.len() ==> from < after_line(data, from) <= data.len(),
    decreases data.len() - from,
{
    if from < data.len() && data[from] != 0x0a {
        lemma_line_end(data, from + 1);
    }
}

/// The headers of the lines from `from` on, up to the first blank line or
/// the end of the data: each line gives a header that `http` takes. One
/// line that gives none, or one that `http` does not take, and there are no
/// headers at all.
pub open spec fn headers_from(data: Seq<u8>, from: int) -> Option<Seq<(Seq<u8>, Seq<u8>)>>
    decreases data.len() - from,
{
    if from < 0 || from >= data.len() || is_blank(line_at(data, from)) {
        Some(Seq::empty())
    } else {
        match header_of(line_at(data, from)) {
            None => None,
            Some(header) => if http_header_name_accepted(header.0) && header_value_accepted(
                header.1,
            ) {
                proof {
                    lemma_line_end(data, from);
                }
                match headers_from(data, after_line(data, from)) {
                    None => None,
                    Some(rest) => Some(seq![header] + rest),
                }
            } else {
                None
            },
        }
    }
}

/// The response that received bytes hold, if they hold one: a first line
/// with a version token and a status code between 100 and 999, then
/// headers.
pub open spec fn parsed(data: Seq<u8>) -> Option<ResponseModel> {
    let line = line_at(data, 0);
    let version_start = skip_spaces(line, 0);
    let version_end = token_end(line, version_start);
    let status_start = skip_spaces(line, version_end);
    let status_end = token_end(line, status_start);
    if data.len() == 0 || status_start >= line.len() {
        None
    } else {
        match parsed_number(line.subrange(status_start, status_end)) {
            None => None,
            Some(status) => if !status_code_accepted(status) {
                None
            } else {
                match headers_from(data, after_line(data, 0)) {
                    None => None,
                    Some(headers) => Some(
                        ResponseModel {
                            version: parsed_version(line.subrange(version_start, version_end)),
                            status,
                            headers,
                        },
                    ),
                }
            },
        }
    }
}

fn space(byte: u8) -> (b: bool)
    ensures
        b == is_space(byte),
{
    byte == 0x20 || (0x09 <= byte && byte <= 0x0d)
}

fn find_line_end(data: &[u8], from: usize) -> (end: usize)
    requires
        from <= data@.len(),
    ensures
        end == line_end(data@, from as int),
        from <= end <= data@.len(),
{
    let mut i = from;
    while i < data.len() && data[i] != 0x0a
        invariant
            from <= i <= data@.len(),
            line_end(data@, from as int) == line_end(data@, i as int),
        decreases data@.len() - i,
    {
        i += 1;
    }
    i
}

fn find_non_space(line: &[u8], from: usize) -> (at: usize)
    requires
        from <= line@.len(),
    ensures
        at == skip_spaces(line@, from as int),
        from <= at <= line@.len(),
{
    let mut i = from;
    while i < line.len() && space(line[i])
        invariant
            from <= i <= line@.len(),
            skip_spaces(line@, from as int) == skip_spaces(line@, i as int),
        decreases line@.len() - i,
    {
        i += 1;
    }
    i
}

fn find_token_end(line: &[u8], from: usize) -> (at: usize)
    requires
        from <= line@.len(),
    ensures
        at == token_end(line@, from as int),
        from <= at <= line@.len(),
{
    let mut i = from;
    while i < line.len() && !space(line[i])
        invariant
            from <= i <= line@.len(),
            token_end(line@, from as int) == token_end(line@, i as int),
        decreases line@.len() - i,
    {
        i += 1;
    }
    i
}

fn find_separator(line: &[u8], from: usize) -> (at: usize)
    requires
        from <= line@.len(),
    ensures
        at == separator(line@, from as int),
        from <= at <= line@.len(),
        at < line@.len() ==> at + 2 <= line@.len(),
{
    let mut i = from;
    while i < line.len() && line.len() - i >= 2 && !(line[i] == 0x3a && line[i + 1] == 0x20)
        invariant
            from <= i <= line@.len(),
            separator(line@, from as int) == separator(line@, i as int),
        decreases line@.len() - i,
    {
        i += 1;
    }
    if i < line.len() && line.len() - i >= 2 {
        i
    } else {
        line.len()
    }
}

/// The line that starts at `from`, and where the next line starts.
fn read_line(data: &[u8], from: usize) -> (out: (&[u8], usize))
    requires
        from <= data@.len(),
    ensures
        out.0@ == line_at(data@, from as int),
        out.1 == after_line(data@, from as int),
        out.1 <= data@.len(),
        from < data@.len() ==> from < out.1,
{
    let end = find_line_end(data, from);
    let next = if end < data.len() {
        end + 1
    } else {
        end
    };
    if end < data.len() && from < end && data[end - 1] == 0x0d {
        (slice_subrange(data, from, end - 1), next)
    } else {
        (slice_subrange(data, from, end), next)
    }
}

/// The value of a sequence of digits is at least the value of what stands
/// before its last digit.
proof fn lemma_digits_grow(digits: Seq<u8>, k: int)
    requires
        0 <= k <= digits.len(),
    ensures
        digits_value(digits.subrange(0, k)) <= digits_value(digits),
    decreases digits.len() - k,
{
    if k < digits.len() {
        lemma_digits_grow(digits, k + 1);
        assert(digits.subrange(0, k + 1).drop_last() =~= digits.subrange(0, k));
    } else {
        assert(digits.subrange(0, k) =~= digits);
    }
}

fn parse_number(token: &[u8]) -> (number: Option<u16>)
    ensures
        number == parsed_number(token@),
{
    let start: usize = if token.len() > 0 && token[0] == 0x2b {
        1
    } else {
        0
    };
    let ghost digits = token@.subrange(start as int, token@.len() as int);
    assert(start == 0 ==> digits =~= token@);
    if start >= token.len() {
        return None;
    }
    let mut value: u32 = 0;
    let mut i: usize = start;
    while i < token.len()
        invariant
            start <= i <= token@.len(),
            digits == token@.subrange(start as int, token@.len() as int),
            parsed_number(token@) == parsed_digits(digits),
            all_digits(digits.subrange(0, i - start)),
            value == digits_value(digits.subrange(0, i - start)),
            value <= u16::MAX,
        decreases token@.len() - i,
    {
        let byte = token[i];
        assert(digits[i - start] == byte);
        if !(0x30 <= byte && byte <= 0x39) {
            return None;
        }
        proof {
            assert(digits.subrange(0, i + 1 - start).drop_last() =~= digits.subrange(
                0,
                i - start,
            ));
        }
        value = value * 10 + (byte - 0x30) as u32;
        if value > 65535 {
            proof {
                lemma_digits_grow(digits, i + 1 - start);
            }
            return None;
        }
        i += 1;
    }
    assert(digits.subrange(0, i - start) =~= digits);
    Some(value as u16)
}

fn parse_version(token: &[u8]) -> (version: HttpVersion)
    ensures
        version == parsed_version(token@),
{
    if same_bytes(token, "HTTP/0.9".as_bytes()) {
        HttpVersion::Http09
    } else if same_bytes(token, "HTTP/1.0".as_bytes()) {
        HttpVersion::Http10
    } else if same_bytes(token, "HTTP/1.1".as_bytes()) {
        HttpVersion::Http11
    } else if same_bytes(token, "HTTP/2.0".as_bytes()) {
        HttpVersion::Http2
    } else if same_bytes(token, "HTTP/3.0".as_bytes()) {
        HttpVersion::Http3
    } else {
        HttpVersion::Http11
    }
}

/// Headers put before headers that may be missing.
pub open spec fn prepended(
    before: Seq<(Seq<u8>, Seq<u8>)>,
    after: Option<Seq<(Seq<u8>, Seq<u8>)>>,
) -> Option<Seq<(Seq<u8>, Seq<u8>)>> {
    match after {
        None => None,
        Some(rest) => Some(before + rest),
    }
}

fn parse_headers(data: &[u8], from: usize) -> (headers: Option<Vec<(Vec<u8>, Vec<u8>)>>)
    requires
        from <= data@.len(),
    ensures
        match headers {
            Some(found) => headers_from(data@, from as int) == Some(headers_view(found@)),
            None => headers_from(data@, from as int) is None,
        },
{
    let mut headers: Vec<(Vec<u8>, Vec<u8>)> = Vec::new();
    let mut at: usize = from;
    assert(headers_view(headers@) =~= Seq::empty());
    assert(prepended(Seq::empty(), headers_from(data@, at as int)) =~= headers_from(
        data@,
        at as int,
    ));
    while at < data.len()
        invariant
            from <= at <= data@.len(),
            headers_from(data@, from as int) == prepended(
                headers_view(headers@),
                headers_from(data@, at as int),
            ),
        decreases data@.len() - at,
    {
        let (line, next) = read_line(data, at);
        if find_non_space(line, 0) >= line.len() {
            assert(headers_view(headers@) + Seq::empty() =~= headers_view(headers@));
            return Some(headers);
        }
        let first = find_separator(line, 0);
        if first >= line.len() {
            return None;
        }
        let second = find_separator(line, first + 2);
        let name = slice_subrange(line, 0, first);
        let value = slice_subrange(line, first + 2, second);
        if !accepts_header_name(name) || !accepts_header_value(value) {
            return None;
        }
        let ghost before = headers_view(headers@);
        let ghost header = (name@, value@);
        headers.push((slice_to_vec(name), slice_to_vec(value)));
        proof {
            assert(headers_view(headers@) =~= before.push(header));
            let rest = headers_from(data@, next as int);
            assert(headers_from(data@, at as int) == prepended(seq![header], rest));
            if rest is Some {
                assert(before + (seq![header] + rest->0) =~= before.push(header) + rest->0);
            }
        }
        at = next;
    }
    assert(headers_view(headers@) + Seq::empty() =~= headers_view(headers@));
    Some(headers)
}

impl HttpResponse {
    /// Reads a response from received bytes, if they hold one.
    pub fn parse(data: &[u8]) -> (response: Option<HttpResponse>)
        ensures
            match response {
                Some(found) => parsed(data@) == Some(found@),
                None => parsed(data@) is None,
            },
    {
        if data.len() == 0 {
            return None;
        }
        let (line, next) = read_line(data, 0);
        let version_start = find_non_space(line, 0);
        let version_end = find_token_end(line, version_start);
        let status_start = find_non_space(line, version_end);
        let status_end = find_token_end(line, status_start);
        if status_start >= line.len() {
            return None;
        }
        let status = match parse_number(slice_subrange(line, status_start, status_end)) {
            Some(status) => status,
            None => {
                return None;
            },
        };
        if !accepts_status_code(status) {
            return None;
        }
        let version = parse_version(slice_subrange(line, version_start, version_end));
        match parse_headers(data, next) {
            Some(headers) => Some(HttpResponse { version, status, headers }),
            None => None,
        }
    }
}

impl Decode for HttpResponse {
    open spec fn decodable(bytes: Seq<u8>) -> bool {
        parsed(bytes) is Some
    }

    open spec fn decodes(bytes: Seq<u8>, value: Self) -> bool {
        parsed(bytes) == Some(value@)
    }

    fn can_decode(data: &Vec<u8>) -> (ok: bool) {
        HttpResponse::parse(data.as_slice()).is_some()
    }

    fn decode(data: Vec<u8>) -> (value: Self) {
        HttpResponse::parse(data.as_slice()).unwrap()
    }
}

} // verus!
