//! What came of a request, and how it is shown.

use vstd::prelude::*;
use crate::text::push_char;

verus! {

/// The HTTP version that a response was received in.
#[derive(Clone, Copy, Debug, PartialEq, Eq, Structural)]
pub enum Version {
    Http09,
    Http10,
    Http11,
    Http2,
    Http3,
}

impl Version {
    /// The version as it is written in a status line.
    pub open spec fn text(self) -> Seq<char> {
        match self {
            Version::Http09 => "HTTP/0.9"@,
            Version::Http10 => "HTTP/1.0"@,
            Version::Http11 => "HTTP/1.1"@,
            Version::Http2 => "HTTP/2.0"@,
            Version::Http3 => "HTTP/3.0"@,
        }
    }

    /// The version as it is written in a status line.
    pub fn as_str(self) -> (res: &'static str)
        ensures
            res@ == self.text(),
    {
        match self {
            Version::Http09 => "HTTP/0.9",
            Version::Http10 => "HTTP/1.0",
            Version::Http11 => "HTTP/1.1",
            Version::Http2 => "HTTP/2.0",
            Version::Http3 => "HTTP/3.0",
        }
    }
}

/// A response, once it has been received in full.
#[derive(Debug)]
pub struct Response {
    /// The address that answered.
    pub url: String,
    /// The status code.
    pub status: u16,
    /// The protocol version of the answer.
    pub version: Version,
    /// The header fields of the answer: names in lower case, values as the
    /// bytes that came.
    pub headers: Vec<(String, Vec<u8>)>,
    /// The body of the answer, as text.
    pub body: String,
}

/// A header field as it came: its name, then the bytes of its value.
pub type RawField = (Seq<char>, Seq<u8>);

/// A response as plain text and numbers.
pub struct ResponseView {
    pub url: Seq<char>,
    pub status: u16,
    pub version: Version,
    pub headers: Seq<RawField>,
    pub body: Seq<char>,
}

impl View for Response {
    type V = ResponseView;

    open spec fn view(&self) -> ResponseView {
        ResponseView {
            url: self.url@,
            status: self.status,
            version: self.version,
            headers: self.headers.deep_view(),
            body: self.body@,
        }
    }
}

/// How one request ended. An outcome is final: nothing is tried again.
#[derive(Debug)]
pub enum RequestOutcome {
    /// An answer came back.
    Success(Response),
    /// The request could not be carried out; the text says why.
    Failure(String),
}

/// An outcome as plain text and numbers.
pub enum OutcomeView {
    Success(ResponseView),
    Failure(Seq<char>),
}

impl View for RequestOutcome {
    type V = OutcomeView;

    open spec fn view(&self) -> OutcomeView {
        match self {
            RequestOutcome::Success(response) => OutcomeView::Success(response@),
            RequestOutcome::Failure(error) => OutcomeView::Failure(error@),
        }
    }
}

impl RequestOutcome {
    /// Whether an answer came back.
    pub fn is_success(&self) -> (res: bool)
        ensures
            res == (self@ is Success),
    {
        match self {
            RequestOutcome::Success(_) => true,
            RequestOutcome::Failure(_) => false,
        }
    }
}

/// The longest body, in characters, that is shown in full.
pub const PREVIEW_LIMIT: usize = 80;

/// How many characters of a longer body are shown.
pub const PREVIEW_KEPT: usize = 79;

/// What stands in place of the part of a body that is not shown.
pub const TRUNCATION_MARKER: &'static str = "\n...[truncated]";

/// The part of a body that is shown: all of it up to eighty characters, else
/// its first seventy-nine characters and the truncation marker.
pub open spec fn preview(body: Seq<char>) -> Seq<char> {
    if body.len() <= PREVIEW_LIMIT {
        body
    } else {
        body.take(PREVIEW_KEPT as int) + TRUNCATION_MARKER@
    }
}

/// The part of a body that is shown.
pub fn body_preview(body: &str) -> (res: String)
    ensures
        res@ == preview(body@),
{
    if body.unicode_len() <= PREVIEW_LIMIT {
        String::from_str(body)
    } else {
        let mut out = String::from_str(body.substring_char(0, PREVIEW_KEPT));
        out.append(TRUNCATION_MARKER);
        out
    }
}

/// The character for a digit.
pub open spec fn digit_char(d: nat) -> char {
    (0x30 + d % 10) as u8 as char
}

/// A number in decimal, without leading zeros.
pub open spec fn decimal(n: nat) -> Seq<char>
    decreases n,
{
    if n < 10 {
        seq![digit_char(n)]
    } else {
        decimal(n / 10).push(digit_char(n % 10))
    }
}

fn digit_str(d: u16) -> (res: &'static str)
    requires
        d < 10,
    ensures
        res@ == seq![digit_char(d as nat)],
{
    proof {
        reveal_strlit("0");
        reveal_strlit("1");
        reveal_strlit("2");
        reveal_strlit("3");
        reveal_strlit("4");
        reveal_strlit("5");
        reveal_strlit("6");
        reveal_strlit("7");
        reveal_strlit("8");
        reveal_strlit("9");
    }
    let res = if d == 0 {
        "0"
    } else if d == 1 {
        "1"
    } else if d == 2 {
        "2"
    } else if d == 3 {
        "3"
    } else if d == 4 {
        "4"
    } else if d == 5 {
        "5"
    } else if d == 6 {
        "6"
    } else if d == 7 {
        "7"
    } else if d == 8 {
        "8"
    } else {
        "9"
    };
    assert(res@ =~= seq![digit_char(d as nat)]);
    res
}

/// Writes a status code in decimal.
pub fn status_text(status: u16) -> (res: String)
    ensures
        res@ == decimal(status as nat),
    decreases status,
{
    if status < 10 {
        String::from_str(digit_str(status))
    } else {
        let mut out = status_text(status / 10);
        out.append(digit_str(status % 10));
        assert(out@ =~= decimal(status as nat));
        out
    }
}

/// The reason phrase that `http::StatusCode::canonical_reason` gives for a
/// status code, where `http::StatusCode::from_u16` takes the code and there
/// is a phrase for it.
pub uninterp spec fn reason_phrase(status: u16) -> Option<Seq<char>>;

/// Looks up the reason phrase of a status code with
/// `http::StatusCode::from_u16` and `StatusCode::canonical_reason`.
///
/// Trusted: the phrase depends on the code alone.
#[verifier::external_body]
fn canonical_reason(status: u16) -> (res: Option<String>)
    ensures
        res.deep_view() == reason_phrase(status),
{
    match http::StatusCode::from_u16(status) {
        Ok(code) => code.canonical_reason().map(str::to_owned),
        Err(_) => None,
    }
}

/// What stands for the reason phrase of a status code that has none.
pub const UNKNOWN_STATUS: &'static str = "<unknown status code>";

/// A status as shown: the code in decimal, a space, and its reason phrase.
pub open spec fn status_shown(status: u16) -> Seq<char> {
    decimal(status as nat) + " "@ + match reason_phrase(status) {
        Some(reason) => reason,
        None => UNKNOWN_STATUS@,
    }
}

/// Writes a status as it is shown.
pub fn status_line(status: u16) -> (res: String)
    ensures
        res@ == status_shown(status),
{
    let mut out = status_text(status);
    out.append(" ");
    match canonical_reason(status) {
        Some(reason) => out.append(reason.as_str()),
        None => out.append(UNKNOWN_STATUS),
    }
    out
}

/// A byte that is shown as the character it stands for: printable ASCII, the
/// space and the tab.
pub open spec fn is_visible_ascii(b: u8) -> bool {
    (32 <= b && b < 127) || b == 9
}

/// The lower-case hexadecimal digit for a number below sixteen.
pub open spec fn hex_lower_digit(n: u8) -> char {
    if n < 10 {
        (0x30 + n) as char
    } else {
        (0x57 + n) as char
    }
}

/// A byte in lower-case hexadecimal, without a leading zero.
pub open spec fn hex_lower(b: u8) -> Seq<char> {
    if b < 16 {
        seq![hex_lower_digit(b)]
    } else {
        seq![hex_lower_digit(b / 16), hex_lower_digit(b % 16)]
    }
}

/// How one byte of a header value is shown: a double quote with a backslash
/// before it, any other visible byte as its character, and every other byte
/// as `\x` and its hexadecimal number.
pub open spec fn escaped_byte(b: u8) -> Seq<char> {
    if b == 0x22 {
        seq!['\\', '"']
    } else if is_visible_ascii(b) {
        seq![b as char]
    } else {
        seq!['\\', 'x'] + hex_lower(b)
    }
}

/// How the bytes of a header value are shown, byte by byte.
pub open spec fn escaped(bytes: Seq<u8>) -> Seq<char>
    decreases bytes.len(),
{
    if bytes.len() == 0 {
        Seq::<char>::empty()
    } else {
        escaped(bytes.drop_last()) + escaped_byte(bytes.last())
    }
}

fn hex_lower_char(n: u8) -> (res: char)
    requires
        n < 16,
    ensures
        res == hex_lower_digit(n),
{
    if n < 10 {
        (0x30 + n) as char
    } else {
        (0x57 + n) as char
    }
}

/// Writes the bytes of a header value as they are shown.
pub fn escape_value(bytes: &Vec<u8>) -> (res: String)
    ensures
        res@ == escaped(bytes@),
{
    let mut out = String::new();
    let mut i: usize = 0;
    assert(bytes@.take(0) =~= Seq::<u8>::empty());
    while i < bytes.len()
        invariant
            i <= bytes.len(),
            out@ == escaped(bytes@.take(i as int)),
        decreases bytes.len() - i,
    {
        let b = bytes[i];
        let ghost before = out@;
        proof {
            assert(bytes@.take(i + 1).drop_last() =~= bytes@.take(i as int));
            assert(bytes@.take(i + 1).last() == b);
        }
        if b == 0x22 {
            push_char(&mut out, '\\');
            push_char(&mut out, '"');
        } else if (32 <= b && b < 127) || b == 9 {
            push_char(&mut out, b as char);
        } else {
            push_char(&mut out, '\\');
            push_char(&mut out, 'x');
            if b >= 16 {
                push_char(&mut out, hex_lower_char(b / 16));
            }
            push_char(&mut out, hex_lower_char(b % 16));
        }
        assert(out@ =~= before + escaped_byte(b));
        i += 1;
    }
    assert(bytes@.take(bytes.len() as int) =~= bytes@);
    out
}

/// One header field as a line of a report: a tab, the name in double
/// quotes, a colon and a space, and the value, escaped, in double quotes.
pub open spec fn header_line(field: RawField) -> Seq<char> {
    "\t\""@ + field.0 + "\": \""@ + escaped(field.1) + "\"\n"@
}

/// The header fields of a report, one line each, in order.
pub open spec fn header_lines(fields: Seq<RawField>) -> Seq<char>
    decreases fields.len(),
{
    if fields.len() == 0 {
        Seq::<char>::empty()
    } else {
        header_lines(fields.drop_last()) + header_line(fields.last())
    }
}

/// The report of a response: the line of the address, the status and the
/// version, the header fields, an empty line, and the body as far as it is
/// shown.
pub open spec fn response_text(response: ResponseView) -> Seq<char> {
    response.url + " - "@ + status_shown(response.status) + " - "@ + response.version.text()
        + " - \n"@ + header_lines(response.headers) + "\nBody:\n"@ + preview(response.body)
        + "\n"@
}

/// The report of an outcome.
pub open spec fn report_text(outcome: OutcomeView) -> Seq<char> {
    match outcome {
        OutcomeView::Success(response) => response_text(response),
        OutcomeView::Failure(error) => "Request failed: "@ + error + "\n"@,
    }
}

fn render_headers(fields: &Vec<(String, Vec<u8>)>) -> (res: String)
    ensures
        res@ == header_lines(fields.deep_view()),
{
    let ghost view = fields.deep_view();
    let mut out = String::new();
    let mut i: usize = 0;
    while i < fields.len()
        invariant
            i <= fields.len(),
            view == fields.deep_view(),
            out@ == header_lines(view.take(i as int)),
        decreases fields.len() - i,
    {
        let field = &fields[i];
        let ghost before = out@;
        proof {
            assert(field.1.deep_view() =~= field.1@);
            assert(view[i as int] == (field.0@, field.1@));
            assert(view.take(i + 1).drop_last() =~= view.take(i as int));
            assert(view.take(i + 1).last() == view[i as int]);
        }
        out.append("\t\"");
        out.append(field.0.as_str());
        out.append("\": \"");
        out.append(escape_value(&field.1).as_str());
        out.append("\"\n");
        assert(out@ =~= before + header_line(view[i as int]));
        i += 1;
    }
    assert(view.take(fields.len() as int) =~= view);
    out
}

/// Renders the report of a response.
pub fn render_response(response: &Response) -> (res: String)
    ensures
        res@ == response_text(response@),
{
    let mut out = response.url.clone();
    out.append(" - ");
    out.append(status_line(response.status).as_str());
    out.append(" - ");
    out.append(response.version.as_str());
    out.append(" - \n");
    out.append(render_headers(&response.headers).as_str());
    out.append("\nBody:\n");
    out.append(body_preview(response.body.as_str()).as_str());
    out.append("\n");
    assert(out@ =~= response_text(response@));
    out
}

/// Renders the report of an outcome: what a reporter prints for it.
pub fn print_response(outcome: &RequestOutcome) -> (res: String)
    ensures
        res@ == report_text(outcome@),
{
    match outcome {
        RequestOutcome::Success(response) => render_response(response),
        RequestOutcome::Failure(error) => {
            let mut out = String::from_str("Request failed: ");
            out.append(error.as_str());
            out.append("\n");
            out
        },
    }
}

/// A body of at most eighty characters is shown in full.
pub proof fn lemma_preview_short(body: Seq<char>)
    requires
        body.len() <= 80,
    ensures
        preview(body) == body,
{
}

/// A longer body is shown as its first seventy-nine characters followed by
/// the marker, and by nothing else.
pub proof fn lemma_preview_long(body: Seq<char>)
    requires
        body.len() > 80,
    ensures
        preview(body).len() == 79 + TRUNCATION_MARKER@.len(),
        preview(body).take(79) == body.take(79),
        preview(body).skip(79) == TRUNCATION_MARKER@,
{
    assert(preview(body).take(79) =~= body.take(79));
    assert(preview(body).skip(79) =~= TRUNCATION_MARKER@);
}

} // verus!
