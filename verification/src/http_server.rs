//! The HTTP router: one request text in, one response text out, and at most
//! one angle command on the side.
//!
//! Only the request line is read. Its first two words are the method and
//! the path; headers and body are ignored.

use crate::command::{angle_of, AngleCommand};
use crate::text::{
    append_decimal, decimal, find_char, has_prefix, index_of, is_digit, is_space,
    lemma_decimal, lemma_index_of, lemma_index_of_is, lemma_parse_decimal,
    lemma_trim_start_is, lemma_word_len_is, parse_number, parse_number_range, parse_u8,
    parse_u8_range, skip_spaces, span,
    starts_with, to_chars, trim_start, word_end, word_len,
};
use vstd::prelude::*;
use vstd::string::*;
use vstd::utf8::encode_utf8;

verus! {

/// The request line: the text before the first line feed.
pub open spec fn first_line(request: Seq<char>) -> Seq<char> {
    request.take(index_of(request, '\n'))
}

/// The word at the front of `s`: everything before the first white space.
pub open spec fn leading_word(s: Seq<char>) -> Seq<char> {
    s.take(word_len(s))
}

/// Method and path of a request: the first two words of its request line.
/// A request line with fewer than two words has neither.
pub open spec fn request_parts(request: Seq<char>) -> Option<(Seq<char>, Seq<char>)> {
    let from_method = trim_start(first_line(request));
    let method = leading_word(from_method);
    let from_path = trim_start(from_method.skip(method.len() as int));
    let path = leading_word(from_path);
    if method.len() == 0 || path.len() == 0 {
        None
    } else {
        Some((method, path))
    }
}

/// The query string of a path: the text between its first question mark
/// and the next one, or the end.
pub open spec fn query_of(path: Seq<char>) -> Seq<char> {
    let after = path.skip(index_of(path, '?') + 1);
    after.take(index_of(after, '?'))
}

/// The text that a query string gives for the angle: the value of the
/// first of its `&`-separated pairs that begins with `angle=`, whatever
/// pairs follow.
pub open spec fn query_value(query: Seq<char>) -> Option<Seq<char>>
    decreases query.len(),
{
    let cut = index_of(query, '&');
    let pair = query.take(cut);
    if has_prefix(pair, "angle="@) {
        Some(pair.skip("angle="@.len() as int))
    } else if 0 <= cut < query.len() {
        query_value(query.skip(cut + 1))
    } else {
        None
    }
}

/// The text that a path gives for the angle: the segment after `/servo/`,
/// or the `angle` pair of the query string after `/servo?`.
pub open spec fn path_value(path: Seq<char>) -> Option<Seq<char>> {
    if has_prefix(path, "/servo/"@) {
        Some(path.skip("/servo/"@.len() as int))
    } else if has_prefix(path, "/servo?"@) {
        query_value(query_of(path))
    } else {
        None
    }
}

/// The number that a path gives for the angle, however large.
pub open spec fn path_number(path: Seq<char>) -> Option<nat> {
    match path_value(path) {
        Some(text) => parse_number(text),
        None => None,
    }
}

/// The angle that a path names, where it fits a byte.
pub open spec fn path_angle(path: Seq<char>) -> Option<u8> {
    match path_value(path) {
        Some(text) => parse_u8(text),
        None => None,
    }
}

/// A complete response: status line, content type, content length in
/// bytes, connection close, blank line, body.
pub open spec fn http_response(status: Seq<char>, content_type: Seq<char>, body: Seq<char>) -> Seq<
    char,
> {
    "HTTP/1.1 "@ + status + "\r\nContent-Type: "@ + content_type + "\r\nContent-Length: "@
        + decimal(encode_utf8(body).len()) + "\r\nConnection: close\r\n\r\n"@ + body
}

/// Builds a complete response from its status, content type and body.
pub fn build_response(status: &str, content_type: &str, body: &str) -> (response: String)
    ensures
        response@ == http_response(status@, content_type@, body@),
{
    let mut response = String::from_str("HTTP/1.1 ");
    response.append(status);
    response.append("\r\nContent-Type: ");
    response.append(content_type);
    response.append("\r\nContent-Length: ");
    append_decimal(&mut response, body.as_bytes().len());
    response.append("\r\nConnection: close\r\n\r\n");
    response.append(body);
    response
}

/// The places of method and path within `chars`.
pub struct RequestSpans {
    pub method_start: usize,
    pub method_end: usize,
    pub path_start: usize,
    pub path_end: usize,
}

impl RequestSpans {
    /// The spans lie within a text of `len` characters, method before path.
    pub open spec fn within(self, len: int) -> bool {
        self.method_start <= self.method_end <= self.path_start <= self.path_end <= len
    }

    /// The two texts that the spans cut out of `s`.
    pub open spec fn cut(self, s: Seq<char>) -> (Seq<char>, Seq<char>) {
        (
            span(s, self.method_start as int, self.method_end as int),
            span(s, self.path_start as int, self.path_end as int),
        )
    }
}

/// Finds method and path in the characters of a request.
pub fn locate_request_parts(chars: &[char]) -> (r: Option<RequestSpans>)
    ensures
        match r {
            Some(spans) => spans.within(chars@.len() as int) && request_parts(chars@) == Some(
                spans.cut(chars@),
            ),
            None => request_parts(chars@) is None,
        },
{
    let len = chars.len();
    let line_end = find_char(chars, 0, len, '\n');
    let ghost line = first_line(chars@);
    assert(span(chars@, 0, len as int) =~= chars@);
    assert(line =~= span(chars@, 0, line_end as int));
    let method_start = skip_spaces(chars, 0, line_end);
    let method_end = word_end(chars, method_start, line_end);
    let ghost from_method = span(chars@, method_start as int, line_end as int);
    assert(leading_word(from_method) =~= span(chars@, method_start as int, method_end as int));
    assert(from_method.skip(method_end - method_start) =~= span(
        chars@,
        method_end as int,
        line_end as int,
    ));
    let path_start = skip_spaces(chars, method_end, line_end);
    let path_end = word_end(chars, path_start, line_end);
    let ghost from_path = span(chars@, path_start as int, line_end as int);
    assert(leading_word(from_path) =~= span(chars@, path_start as int, path_end as int));
    if method_end == method_start || path_end == path_start {
        None
    } else {
        Some(RequestSpans { method_start, method_end, path_start, path_end })
    }
}

/// Parses the request line into method and path.
pub fn parse_request(request: &str) -> (r: Option<(&str, &str)>)
    ensures
        match r {
            Some((method, path)) => request_parts(request@) == Some((method@, path@)),
            None => request_parts(request@) is None,
        },
{
    let chars = to_chars(request);
    match locate_request_parts(chars.as_slice()) {
        Some(spans) => {
            let method = request.substring_char(spans.method_start, spans.method_end);
            let path = request.substring_char(spans.path_start, spans.path_end);
            Some((method, path))
        },
        None => None,
    }
}

/// A range of characters within a text.
pub struct TextRange {
    pub start: usize,
    pub end: usize,
}

/// What a search for a range within `start..end` of `s` found: the range
/// lies within the bounds and cuts `wanted` out of `s`, or there is
/// neither.
pub open spec fn found_range(
    found: Option<TextRange>,
    s: Seq<char>,
    start: int,
    end: int,
    wanted: Option<Seq<char>>,
) -> bool {
    match found {
        Some(range) => start <= range.start <= range.end <= end && wanted == Some(
            span(s, range.start as int, range.end as int),
        ),
        None => wanted is None,
    }
}

/// The place of the angle's text among the `&`-separated pairs in
/// `start..end` of `chars`.
pub fn query_value_in(chars: &[char], start: usize, end: usize) -> (r: Option<TextRange>)
    requires
        start <= end <= chars@.len(),
    ensures
        found_range(
            r,
            chars@,
            start as int,
            end as int,
            query_value(span(chars@, start as int, end as int)),
        ),
{
    let key_len = "angle=".unicode_len();
    let mut pos: usize = start;
    loop
        invariant
            start <= pos <= end <= chars@.len(),
            key_len == "angle="@.len(),
            query_value(span(chars@, start as int, end as int)) == query_value(
                span(chars@, pos as int, end as int),
            ),
        decreases end - pos,
    {
        let ghost query = span(chars@, pos as int, end as int);
        let cut = find_char(chars, pos, end, '&');
        assert(query.take(cut - pos) =~= span(chars@, pos as int, cut as int));
        if starts_with(chars, pos, cut, "angle=") {
            assert(span(chars@, pos as int, cut as int).skip(key_len as int) =~= span(
                chars@,
                pos + key_len,
                cut as int,
            ));
            return Some(TextRange { start: pos + key_len, end: cut });
        }
        if cut >= end {
            return None;
        }
        assert(query.skip(cut - pos + 1) =~= span(chars@, cut + 1, end as int));
        pos = cut + 1;
    }
}

/// The place of the angle's text in the path in `start..end` of `chars`.
pub fn path_value_in(chars: &[char], start: usize, end: usize) -> (r: Option<TextRange>)
    requires
        start <= end <= chars@.len(),
    ensures
        found_range(
            r,
            chars@,
            start as int,
            end as int,
            path_value(span(chars@, start as int, end as int)),
        ),
{
    let ghost path = span(chars@, start as int, end as int);
    if starts_with(chars, start, end, "/servo/") {
        let skip = "/servo/".unicode_len();
        assert(path.skip(skip as int) =~= span(chars@, start + skip, end as int));
        return Some(TextRange { start: start + skip, end });
    }
    if starts_with(chars, start, end, "/servo?") {
        let mark = find_char(chars, start, end, '?');
        proof {
            reveal_strlit("/servo?");
            lemma_index_of(path, '?');
            assert(path.subrange(0, 7)[6] == '?');
        }
        let query_start = mark + 1;
        let ghost after = path.skip(index_of(path, '?') + 1);
        assert(after =~= span(chars@, query_start as int, end as int));
        let query_end = find_char(chars, query_start, end, '?');
        assert(after.take(index_of(after, '?')) =~= span(
            chars@,
            query_start as int,
            query_end as int,
        ));
        return query_value_in(chars, query_start, query_end);
    }
    None
}

/// Parses the angle out of a path such as `/servo/90` or `/servo?angle=90`,
/// as a byte.
pub fn parse_servo_angle(path: &str) -> (r: Option<u8>)
    ensures
        r == path_angle(path@),
{
    let chars = to_chars(path);
    let all = chars.as_slice();
    assert(span(all@, 0, all@.len() as int) =~= path@);
    match path_value_in(all, 0, all.len()) {
        Some(range) => parse_u8_range(all, range.start, range.end),
        None => None,
    }
}

/// Body of the descriptor that `GET /` returns.
pub const DESCRIPTOR_BODY: &'static str =
    "{\"status\": \"ok\", \"message\": \"ESP32 Servo Controller\", \"endpoints\": [\"/servo/<angle>\", \"/servo?angle=<0-180>\"]}";

/// Body that `GET /health` returns.
pub const HEALTH_BODY: &'static str = "{\"healthy\": true}";

/// Body of the answer to an angle above 180.
pub const OUT_OF_RANGE_BODY: &'static str = "{\"error\": \"Angle must be between 0 and 180\"}";

/// Body of the answer to a servo path without a readable angle.
pub const MISSING_ANGLE_BODY: &'static str =
    "{\"error\": \"Missing or invalid angle parameter. Use /servo/90 or /servo?angle=90\"}";

/// Body of the answer to an unknown path.
pub const NOT_FOUND_BODY: &'static str = "{\"error\": \"Not Found\"}";

/// Body of the answer to a method other than `GET`.
pub const METHOD_NOT_ALLOWED_BODY: &'static str = "{\"error\": \"Method Not Allowed\"}";

/// Body of the answer to a request line without method or path.
pub const BAD_REQUEST_BODY: &'static str = "Bad Request";

/// Where a request is routed to.
#[derive(Clone, Copy, Debug, PartialEq, Eq, Structural)]
pub enum Route {
    /// `GET /`: the descriptor.
    Descriptor,
    /// `GET /health`.
    Health,
    /// `GET /servo...` with an angle of at most 180: the angle is published.
    Angle(u8),
    /// `GET /servo...` with an angle above 180.
    AngleOutOfRange,
    /// `GET /servo...` without a readable angle.
    AngleMissing,
    /// `GET` of any other path.
    NotFound,
    /// Any method but `GET`.
    MethodNotAllowed,
    /// A request line without method or path.
    BadRequest,
}

/// Body of the answer to an accepted angle.
pub open spec fn angle_body(angle: nat) -> Seq<char> {
    "{\"angle\": "@ + decimal(angle) + "}"@
}

impl Route {
    /// Status code and reason of the response.
    pub open spec fn status(self) -> Seq<char> {
        match self {
            Route::Descriptor | Route::Health | Route::Angle(_) => "200 OK"@,
            Route::AngleOutOfRange | Route::AngleMissing | Route::BadRequest => "400 Bad Request"@,
            Route::NotFound => "404 Not Found"@,
            Route::MethodNotAllowed => "405 Method Not Allowed"@,
        }
    }

    /// Content type of the response.
    pub open spec fn content_type(self) -> Seq<char> {
        match self {
            Route::BadRequest => "text/plain"@,
            _ => "application/json"@,
        }
    }

    /// Body of the response.
    pub open spec fn body(self) -> Seq<char> {
        match self {
            Route::Descriptor => DESCRIPTOR_BODY@,
            Route::Health => HEALTH_BODY@,
            Route::Angle(angle) => angle_body(angle as nat),
            Route::AngleOutOfRange => OUT_OF_RANGE_BODY@,
            Route::AngleMissing => MISSING_ANGLE_BODY@,
            Route::NotFound => NOT_FOUND_BODY@,
            Route::MethodNotAllowed => METHOD_NOT_ALLOWED_BODY@,
            Route::BadRequest => BAD_REQUEST_BODY@,
        }
    }

    /// The complete response.
    pub open spec fn response(self) -> Seq<char> {
        http_response(self.status(), self.content_type(), self.body())
    }

    /// The angle that the route publishes, if any.
    pub open spec fn published(self) -> Option<int> {
        match self {
            Route::Angle(angle) => Some(angle as int),
            _ => None,
        }
    }
}

/// The routing table, read from top to bottom.
pub open spec fn route_of(request: Seq<char>) -> Route {
    match request_parts(request) {
        None => Route::BadRequest,
        Some((method, path)) => if method != "GET"@ {
            Route::MethodNotAllowed
        } else if path == "/"@ {
            Route::Descriptor
        } else if path == "/health"@ {
            Route::Health
        } else if has_prefix(path, "/servo"@) {
            match path_number(path) {
                Some(angle) => if angle <= 180 {
                    Route::Angle(angle as u8)
                } else {
                    Route::AngleOutOfRange
                },
                None => Route::AngleMissing,
            }
        } else {
            Route::NotFound
        },
    }
}

/// Whether `start..end` of `chars` is exactly `text`.
pub fn span_equals(chars: &[char], start: usize, end: usize, text: &str) -> (b: bool)
    requires
        start <= end <= chars@.len(),
    ensures
        b == (span(chars@, start as int, end as int) == text@),
{
    let n = text.unicode_len();
    if n != end - start {
        return false;
    }
    let b = starts_with(chars, start, end, text);
    assert(span(chars@, start as int, end as int).subrange(0, n as int) =~= span(
        chars@,
        start as int,
        end as int,
    ));
    b
}

/// Routes the request whose characters are `chars`.
pub fn route_chars(chars: &[char]) -> (route: Route)
    ensures
        route == route_of(chars@),
{
    let spans = match locate_request_parts(chars) {
        Some(spans) => spans,
        None => {
            return Route::BadRequest;
        },
    };
    if !span_equals(chars, spans.method_start, spans.method_end, "GET") {
        return Route::MethodNotAllowed;
    }
    let start = spans.path_start;
    let end = spans.path_end;
    if span_equals(chars, start, end, "/") {
        Route::Descriptor
    } else if span_equals(chars, start, end, "/health") {
        Route::Health
    } else if starts_with(chars, start, end, "/servo") {
        let range = match path_value_in(chars, start, end) {
            Some(range) => range,
            None => {
                return Route::AngleMissing;
            },
        };
        match parse_number_range(chars, range.start, range.end, 180) {
            Some(angle) => if angle <= 180 {
                Route::Angle(angle as u8)
            } else {
                Route::AngleOutOfRange
            },
            None => Route::AngleMissing,
        }
    } else {
        Route::NotFound
    }
}

/// Routes a request.
pub fn route_request(request: &str) -> (route: Route)
    ensures
        route == route_of(request@),
{
    let chars = to_chars(request);
    route_chars(chars.as_slice())
}

/// Builds the response of a route.
pub fn respond(route: Route) -> (response: String)
    ensures
        response@ == route.response(),
{
    match route {
        Route::Descriptor => build_response("200 OK", "application/json", DESCRIPTOR_BODY),
        Route::Health => build_response("200 OK", "application/json", HEALTH_BODY),
        Route::Angle(angle) => {
            let mut body = String::from_str("{\"angle\": ");
            append_decimal(&mut body, angle as usize);
            body.append("}");
            build_response("200 OK", "application/json", body.as_str())
        },
        Route::AngleOutOfRange => build_response(
            "400 Bad Request",
            "application/json",
            OUT_OF_RANGE_BODY,
        ),
        Route::AngleMissing => build_response(
            "400 Bad Request",
            "application/json",
            MISSING_ANGLE_BODY,
        ),
        Route::NotFound => build_response("404 Not Found", "application/json", NOT_FOUND_BODY),
        Route::MethodNotAllowed => build_response(
            "405 Method Not Allowed",
            "application/json",
            METHOD_NOT_ALLOWED_BODY,
        ),
        Route::BadRequest => build_response("400 Bad Request", "text/plain", BAD_REQUEST_BODY),
    }
}

/// What the router makes of one request.
#[derive(Debug, PartialEq, Eq)]
pub struct RouteOutcome {
    /// The response to send, complete with headers.
    pub response: String,
    /// The command to publish, if the request carried an accepted angle.
    pub command: Option<AngleCommand>,
}

/// Handles one request: the response to send and the command to publish.
/// Every request gets exactly one response; a command is published only
/// by a `GET` of a servo path with an angle of at most 180.
pub fn handle_request(request: &str) -> (outcome: RouteOutcome)
    ensures
        outcome.response@ == route_of(request@).response(),
        angle_of(outcome.command) == route_of(request@).published(),
{
    let route = route_request(request);
    let command = match route {
        Route::Angle(angle) => AngleCommand::new(angle),
        _ => None,
    };
    RouteOutcome { response: respond(route), command }
}

/// The request line `GET <path>`, alone or followed by white space and
/// anything else, has the method `GET` and the path `<path>`, for every
/// path that is not empty and holds neither white space nor a line feed.
pub proof fn lemma_get_request_parts(path: Seq<char>, tail: Seq<char>)
    requires
        path.len() > 0,
        forall|i: int| 0 <= i < path.len() ==> !is_space(#[trigger] path[i]),
        tail.len() == 0 || is_space(tail[0]),
    ensures
        request_parts("GET "@ + path + tail) == Some(("GET"@, path)),
{
    reveal_strlit("GET ");
    reveal_strlit("GET");
    let head = "GET "@;
    let request = head + path + tail;
    let fixed = head.len() + path.len();
    lemma_index_of(request, '\n');
    let cut = index_of(request, '\n');
    assert(cut >= fixed) by {
        if cut < fixed {
            if cut >= 4 {
                assert(request[cut] == path[cut - 4]);
            }
        }
    }
    let line = first_line(request);
    let rest = tail.take(cut - fixed);
    assert(line =~= head + path + rest);
    assert(rest.len() == 0 || rest[0] == tail[0]);
    lemma_trim_start_is(line, 0);
    assert(line.skip(0) =~= line);
    assert forall|i: int| 0 <= i < 3 implies !is_space(#[trigger] line[i]) by {}
    lemma_word_len_is(line, 3);
    let method = leading_word(line);
    assert(method =~= "GET"@);
    let after_method = line.skip(3);
    lemma_trim_start_is(after_method, 1);
    let from_path = after_method.skip(1);
    assert(from_path =~= path + rest);
    assert forall|i: int| 0 <= i < path.len() implies !is_space(#[trigger] from_path[i]) by {
        assert(from_path[i] == path[i]);
    }
    lemma_word_len_is(from_path, path.len() as int);
    assert(leading_word(from_path) =~= path);
}

/// Where a number given for the angle is routed to: the angle itself up
/// to 180, the range error above.
pub open spec fn route_for_number(n: nat) -> Route {
    if n <= 180 {
        Route::Angle(n as u8)
    } else {
        Route::AngleOutOfRange
    }
}

/// `GET /servo/<n>` is routed by the value of `<n>`, for every number
/// written in base ten, however many digits it has, whether the request
/// line ends after the path or goes on after white space.
pub proof fn lemma_servo_path_routes_number(n: nat, tail: Seq<char>)
    requires
        tail.len() == 0 || is_space(tail[0]),
    ensures
        route_of("GET /servo/"@ + decimal(n) + tail) == route_for_number(n),
{
    reveal_strlit("GET /servo/");
    reveal_strlit("GET ");
    reveal_strlit("GET");
    reveal_strlit("/servo/");
    reveal_strlit("/servo");
    reveal_strlit("/health");
    reveal_strlit("/");
    let digits = decimal(n);
    lemma_decimal(n);
    lemma_parse_decimal(n);
    let path = "/servo/"@ + digits;
    assert forall|i: int| 0 <= i < path.len() implies !is_space(#[trigger] path[i]) by {
        if i >= 7 {
            assert(path[i] == digits[i - 7]);
            assert(is_digit(digits[i - 7]));
        }
    }
    assert("GET /servo/"@ + digits + tail =~= "GET "@ + path + tail);
    lemma_get_request_parts(path, tail);
    assert(path.subrange(0, 6) =~= "/servo"@);
    assert(path.subrange(0, 7) =~= "/servo/"@);
    assert(path.skip(7) =~= digits);
    assert(path[1] == 's');
    assert("/health"@[1] == 'h');
}

/// `GET /servo/<a>` is answered with `200 OK` and the body
/// `{"angle": <a>}`, and publishes `<a>`, for every angle from 0 to 180
/// written in base ten, whether the request line ends after the path or
/// goes on after white space.
pub proof fn lemma_servo_path_sets_angle(angle: nat, tail: Seq<char>)
    requires
        angle <= 180,
        tail.len() == 0 || is_space(tail[0]),
    ensures
        route_of("GET /servo/"@ + decimal(angle) + tail) == Route::Angle(angle as u8),
        Route::Angle(angle as u8).response() == http_response(
            "200 OK"@,
            "application/json"@,
            angle_body(angle),
        ),
        Route::Angle(angle as u8).published() == Some(angle as int),
{
    lemma_servo_path_routes_number(angle, tail);
}

/// `GET /servo/<n>` is answered with `400 Bad Request` and the range
/// error, and publishes nothing, for every number above 180 written in
/// base ten, however large.
pub proof fn lemma_servo_path_refuses_above_180(n: nat, tail: Seq<char>)
    requires
        n > 180,
        tail.len() == 0 || is_space(tail[0]),
    ensures
        route_of("GET /servo/"@ + decimal(n) + tail) == Route::AngleOutOfRange,
        Route::AngleOutOfRange.response() == http_response(
            "400 Bad Request"@,
            "application/json"@,
            OUT_OF_RANGE_BODY@,
        ),
        Route::AngleOutOfRange.published() is None,
{
    lemma_servo_path_routes_number(n, tail);
}

/// The path `/servo?angle=<n>`, alone or followed by further `&`-joined
/// pairs, gives the number `<n>` for the angle, for every number written
/// in base ten.
pub proof fn lemma_query_names_number(n: nat, more: Seq<char>)
    requires
        more.len() == 0 || more[0] == '&',
    ensures
        path_value("/servo?angle="@ + decimal(n) + more) == Some(decimal(n)),
        path_number("/servo?angle="@ + decimal(n) + more) == Some(n),
        n <= 255 ==> path_angle("/servo?angle="@ + decimal(n) + more) == Some(n as u8),
{
    reveal_strlit("/servo?angle=");
    reveal_strlit("/servo?");
    reveal_strlit("/servo/");
    reveal_strlit("angle=");
    let digits = decimal(n);
    lemma_decimal(n);
    lemma_parse_decimal(n);
    let path = "/servo?angle="@ + digits + more;
    assert(path.subrange(0, 7) =~= "/servo?"@);
    assert(path.subrange(0, 7)[6] == '?');
    assert(!has_prefix(path, "/servo/"@)) by {
        if has_prefix(path, "/servo/"@) {
            assert(path.subrange(0, 7)[6] == '/');
        }
    }
    lemma_index_of_is(path, '?', 6);
    let after = path.skip(7);
    let pair = "angle="@ + digits;
    assert(after =~= pair + more);
    assert forall|i: int| 0 <= i < pair.len() implies #[trigger] after[i] != '?' && after[i]
        != '&' by {
        if i >= 6 {
            assert(after[i] == digits[i - 6]);
            assert(is_digit(digits[i - 6]));
        }
    }
    lemma_index_of(after, '?');
    let end = index_of(after, '?');
    assert(end >= pair.len()) by {
        if end < pair.len() {
            assert(after[end] != '?');
        }
    }
    let query = query_of(path);
    assert(query =~= pair + more.take(end - pair.len()));
    assert forall|i: int| 0 <= i < pair.len() implies #[trigger] query[i] != '&' by {
        assert(query[i] == after[i]);
    }
    lemma_index_of_is(query, '&', pair.len() as int);
    assert(query.take(pair.len() as int) =~= pair);
    assert(pair.subrange(0, 6) =~= "angle="@);
    assert(pair.skip(6) =~= digits);
}

/// `GET /servo?angle=<n>` is routed by the value of `<n>`, for every
/// number written in base ten, with or without further `&`-joined pairs
/// behind it: up to 180 it is answered with `200 OK` and publishes `<n>`,
/// above 180 it is answered with the range error.
pub proof fn lemma_servo_query_routes_number(n: nat, more: Seq<char>, tail: Seq<char>)
    requires
        more.len() == 0 || more[0] == '&',
        forall|i: int| 0 <= i < more.len() ==> !is_space(#[trigger] more[i]),
        tail.len() == 0 || is_space(tail[0]),
    ensures
        route_of("GET /servo?angle="@ + decimal(n) + more + tail) == route_for_number(n),
{
    reveal_strlit("GET /servo?angle=");
    reveal_strlit("/servo?angle=");
    reveal_strlit("GET ");
    reveal_strlit("GET");
    reveal_strlit("/servo");
    reveal_strlit("/health");
    reveal_strlit("/");
    let digits = decimal(n);
    lemma_decimal(n);
    let path = "/servo?angle="@ + digits + more;
    assert forall|i: int| 0 <= i < path.len() implies !is_space(#[trigger] path[i]) by {
        if i >= 13 + digits.len() {
            assert(path[i] == more[i - 13 - digits.len()]);
        } else if i >= 13 {
            assert(path[i] == digits[i - 13]);
            assert(is_digit(digits[i - 13]));
        }
    }
    assert("GET /servo?angle="@ + digits + more + tail =~= "GET "@ + path + tail);
    lemma_get_request_parts(path, tail);
    lemma_query_names_number(n, more);
    assert(path.subrange(0, 6) =~= "/servo"@);
    assert(path[1] == 's');
    assert("/health"@[1] == 'h');
}

} // verus!
