//! Rendering: the colour class of a status, the text of a duration, and the
//! full report of one exchange.

use vstd::prelude::*;
use crate::json::{reindent, reindented};
use crate::parse::{header_views, opt_string_view, Request, RequestBlock};
use crate::text::{byte_length, byte_length_of, decimal, digit_char, digit_of, push_decimal};
use std::time::Duration;
use vstd::string::StringExecFns;

verus! {

/// Ends every coloured or dimmed stretch.
pub const RESET: &'static str = "\x1b[0m";

/// Dims response headers.
pub const DIM: &'static str = "\x1b[2m";

/// Colours a successful status.
pub const GREEN: &'static str = "\x1b[32m";

/// Colours a redirecting status.
pub const YELLOW: &'static str = "\x1b[33m";

/// Colours every other status.
pub const RED: &'static str = "\x1b[31m";

/// The three display classes a response status can fall into.
#[derive(Clone, Copy, Debug, PartialEq, Eq, Structural)]
pub enum StatusClass {
    Success,
    Redirect,
    Failure,
}

/// The colour codes that a report is written with.
#[derive(Clone, Copy, Debug)]
pub struct Palette {
    /// Ends a coloured or dimmed stretch.
    pub reset: &'static str,
    /// Begins a dimmed stretch.
    pub dim: &'static str,
    /// Begins the stretch of a successful status.
    pub success: &'static str,
    /// Begins the stretch of a redirecting status.
    pub redirect: &'static str,
    /// Begins the stretch of any other status.
    pub failure: &'static str,
}

/// The class of a status code: 200 to 299 succeed, 300 to 399 redirect,
/// and every other code, informational ones included, counts as a failure.
pub open spec fn status_class(status: u16) -> StatusClass {
    if 200 <= status <= 299 {
        StatusClass::Success
    } else if 300 <= status <= 399 {
        StatusClass::Redirect
    } else {
        StatusClass::Failure
    }
}

impl Palette {
    /// The palette of ANSI escape codes.
    pub open spec fn ansi_codes() -> Palette {
        Palette { reset: RESET, dim: DIM, success: GREEN, redirect: YELLOW, failure: RED }
    }

    /// The code that this palette has for a class.
    pub open spec fn class_code(self, class: StatusClass) -> &'static str {
        match class {
            StatusClass::Success => self.success,
            StatusClass::Redirect => self.redirect,
            StatusClass::Failure => self.failure,
        }
    }

    /// The palette of ANSI escape codes.
    pub fn ansi() -> (p: Palette)
        ensures
            p == Palette::ansi_codes(),
    {
        Palette { reset: RESET, dim: DIM, success: GREEN, redirect: YELLOW, failure: RED }
    }

    /// The code that this palette has for the class of `status`.
    pub fn color_of(&self, status: u16) -> (color: &'static str)
        ensures
            color == self.class_code(status_class(status)),
    {
        match classify_status(status) {
            StatusClass::Success => self.success,
            StatusClass::Redirect => self.redirect,
            StatusClass::Failure => self.failure,
        }
    }
}

/// The class of `status`.
pub fn classify_status(status: u16) -> (class: StatusClass)
    ensures
        class == status_class(status),
{
    if 200 <= status && status <= 299 {
        StatusClass::Success
    } else if 300 <= status && status <= 399 {
        StatusClass::Redirect
    } else {
        StatusClass::Failure
    }
}

/// The ANSI colour code for `status`: green for success, yellow for a
/// redirect, red for everything else.
pub fn status_color(status: u16) -> (color: &'static str)
    ensures
        color == Palette::ansi_codes().class_code(status_class(status)),
{
    Palette::ansi().color_of(status)
}

/// `nanos` in hundredths of a second, rounded to the nearest; a value exactly
/// halfway between two goes to the even one.
pub open spec fn rounded_centis(nanos: nat) -> nat {
    let q = nanos / 10_000_000;
    let r = nanos % 10_000_000;
    if r > 5_000_000 || (r == 5_000_000 && q % 2 == 1) {
        q + 1
    } else {
        q
    }
}

/// The text of a duration of `nanos` nanoseconds. Under one second it is the
/// count of whole milliseconds and `ms`; from one second on it is the seconds
/// with exactly two decimals and `s`.
pub open spec fn duration_text(nanos: nat) -> Seq<char> {
    if nanos / 1_000_000 < 1000 {
        decimal(nanos / 1_000_000) + seq!['m', 's']
    } else {
        let c = rounded_centis(nanos);
        decimal(c / 100) + seq![
            '.',
            digit_char((c / 10 % 10) as int),
            digit_char((c % 10) as int),
            's',
        ]
    }
}

/// The text of a duration given in nanoseconds.
pub fn format_nanos(nanos: u128) -> (s: String)
    ensures
        s@ == duration_text(nanos as nat),
{
    let mut s = String::new();
    let ms: u128 = nanos / 1_000_000;
    if ms < 1000 {
        push_decimal(&mut s, ms);
        s.push('m');
        s.push('s');
        assert(s@ =~= duration_text(nanos as nat));
    } else {
        let q: u128 = nanos / 10_000_000;
        let r: u128 = nanos % 10_000_000;
        let c: u128 = if r > 5_000_000 || (r == 5_000_000 && q % 2 == 1) {
            q + 1
        } else {
            q
        };
        push_decimal(&mut s, c / 100);
        s.push('.');
        s.push(digit_of((c / 10 % 10) as u8));
        s.push(digit_of((c % 10) as u8));
        s.push('s');
        assert(s@ =~= duration_text(nanos as nat));
    }
    s
}

/// The nanoseconds that a `Duration` spans.
pub uninterp spec fn duration_nanos(d: Duration) -> nat;

/// `Duration::as_nanos` of the standard library: the whole span in
/// nanoseconds. The contract claims only that the number is a function of
/// the duration.
pub assume_specification[ Duration::as_nanos ](d: &Duration) -> (n: u128)
    ensures
        n == duration_nanos(*d),
;

/// The text of a duration.
pub fn format_duration(d: Duration) -> (s: String)
    ensures
        s@ == duration_text(duration_nanos(d)),
{
    format_nanos(d.as_nanos())
}

/// What came back from the server.
#[derive(Debug)]
pub struct Response {
    /// The status code.
    pub status: u16,
    /// The reason phrase that came with the status.
    pub status_text: String,
    /// The protocol version of the answer.
    pub version: String,
    /// The response headers, in the order in which they are shown.
    pub headers: Vec<(String, String)>,
    /// The body, as text.
    pub body: String,
}

/// The mathematical value of a response.
pub struct ResponseView {
    pub status: u16,
    pub status_text: Seq<char>,
    pub version: Seq<char>,
    pub headers: Seq<(Seq<char>, Seq<char>)>,
    pub body: Seq<char>,
}

impl View for Response {
    type V = ResponseView;

    open spec fn view(&self) -> ResponseView {
        ResponseView {
            status: self.status,
            status_text: self.status_text@,
            version: self.version@,
            headers: header_views(self.headers@),
            body: self.body@,
        }
    }
}

/// What names the request: its name, or its method and URL.
pub open spec fn title(req: Request) -> Seq<char> {
    match req.name {
        Some(name) => name,
        None => req.method + " "@ + req.url,
    }
}

/// The escape sequence that sets the terminal's title to the request's.
pub open spec fn title_mark(req: Request) -> Seq<char> {
    "\x1b]2;"@ + title(req) + "\x07"@
}

/// The request line as it was written, and an empty line.
pub open spec fn request_echo(req: Request) -> Seq<char> {
    match req.http_version {
        Some(version) => req.method + " "@ + req.url + " "@ + version + "\n\n"@,
        None => req.method + " "@ + req.url + "\n\n"@,
    }
}

/// The status line in the colour of the status, and an empty line.
pub open spec fn status_line(p: Palette, resp: ResponseView) -> Seq<char> {
    p.class_code(status_class(resp.status))@ + resp.version + " "@ + decimal(resp.status as nat)
        + " "@ + resp.status_text + p.reset@ + "\n\n"@
}

/// One dimmed header line.
pub open spec fn header_line(p: Palette, header: (Seq<char>, Seq<char>)) -> Seq<char> {
    p.dim@ + header.0 + ": "@ + header.1 + p.reset@ + "\n"@
}

/// The header lines, in order.
pub open spec fn header_block(p: Palette, headers: Seq<(Seq<char>, Seq<char>)>) -> Seq<char>
    decreases headers.len(),
{
    if headers.len() == 0 {
        Seq::empty()
    } else {
        header_block(p, headers.drop_last()) + header_line(p, headers.last())
    }
}

/// The body as shown: its indented layout, where there is one, and a line
/// end; otherwise the body as it came, with a line end added unless it ends
/// in one.
pub open spec fn body_block(body: Seq<char>, layout: Option<Seq<char>>) -> Seq<char> {
    match layout {
        Some(text) => text + "\n"@,
        None => if body.len() > 0 && body.last() == '\n' {
            body
        } else {
            body + "\n"@
        },
    }
}

/// The report up to the duration: everything above the summary, and the
/// summary's status, reason phrase and body size.
pub open spec fn report_head(
    p: Palette,
    req: Request,
    resp: ResponseView,
    layout: Option<Seq<char>>,
) -> Seq<char> {
    title_mark(req) + request_echo(req) + status_line(p, resp) + header_block(p, resp.headers)
        + "\n"@ + body_block(resp.body, layout) + "\n"@ + p.class_code(
        status_class(resp.status),
    )@ + decimal(resp.status as nat) + " "@ + resp.status_text + " \u{b7} "@ + decimal(
        byte_length(resp.body),
    ) + " bytes \u{b7} "@
}

/// What ends the report behind the duration.
pub open spec fn report_tail(p: Palette) -> Seq<char> {
    p.reset@ + "\n"@
}

/// The whole report of one exchange, given the layout of the body and the
/// text of the duration.
pub open spec fn report(
    p: Palette,
    req: Request,
    resp: ResponseView,
    layout: Option<Seq<char>>,
    elapsed: Seq<char>,
) -> Seq<char> {
    report_head(p, req, resp, layout) + elapsed + report_tail(p)
}

/// Appends the header lines to `out`.
fn push_headers(out: &mut String, p: &Palette, headers: &Vec<(String, String)>)
    ensures
        final(out)@ == old(out)@ + header_block(*p, header_views(headers@)),
{
    let ghost all = header_views(headers@);
    let mut i: usize = 0;
    assert(all.take(0) =~= Seq::<(Seq<char>, Seq<char>)>::empty());
    assert(out@ =~= old(out)@ + header_block(*p, all.take(0)));
    while i < headers.len()
        invariant
            i <= headers.len(),
            all == header_views(headers@),
            out@ == old(out)@ + header_block(*p, all.take(i as int)),
        decreases headers.len() - i,
    {
        let ghost before = out@;
        out.append(p.dim);
        out.append(headers[i].0.as_str());
        out.append(": ");
        out.append(headers[i].1.as_str());
        out.append(p.reset);
        out.append("\n");
        proof {
            assert(all.take(i + 1).drop_last() =~= all.take(i as int));
            assert(all.take(i + 1).last() == all[i as int]);
            assert(out@ =~= before + header_line(*p, all[i as int]));
            assert(out@ =~= old(out)@ + header_block(*p, all.take(i + 1)));
        }
        i += 1;
    }
    assert(all.take(i as int) =~= all);
}

/// Whether `s` ends in a line feed.
fn ends_with_newline(s: &str) -> (b: bool)
    ensures
        b == (s@.len() > 0 && s@.last() == '\n'),
{
    let n = s.unicode_len();
    n > 0 && s.get_char(n - 1) == '\n'
}

/// The report of one exchange in the colours of `palette`, given the
/// indented layout of the body, where it has one, and the time that the
/// exchange took.
pub fn render_report(
    palette: &Palette,
    req: &RequestBlock,
    resp: &Response,
    layout: Option<String>,
    elapsed_nanos: u128,
) -> (out: String)
    ensures
        out@ == report(
            *palette,
            req@,
            resp@,
            opt_string_view(layout),
            duration_text(elapsed_nanos as nat),
        ),
{
    let color = palette.color_of(resp.status);
    let mut out = String::from_str("\x1b]2;");
    match &req.name {
        Some(name) => {
            out.append(name.as_str());
        },
        None => {
            out.append(req.method.as_str());
            out.append(" ");
            out.append(req.url.as_str());
        },
    }
    out.append("\x07");
    assert(out@ =~= title_mark(req@));
    out.append(req.method.as_str());
    out.append(" ");
    out.append(req.url.as_str());
    match &req.http_version {
        Some(version) => {
            out.append(" ");
            out.append(version.as_str());
        },
        None => {},
    }
    out.append("\n\n");
    assert(out@ =~= title_mark(req@) + request_echo(req@));
    out.append(color);
    out.append(resp.version.as_str());
    out.append(" ");
    push_decimal(&mut out, resp.status as u128);
    out.append(" ");
    out.append(resp.status_text.as_str());
    out.append(palette.reset);
    out.append("\n\n");
    assert(out@ =~= title_mark(req@) + request_echo(req@) + status_line(*palette, resp@));
    push_headers(&mut out, palette, &resp.headers);
    out.append("\n");
    let ghost above = out@;
    match &layout {
        Some(text) => {
            out.append(text.as_str());
            out.append("\n");
        },
        None => {
            out.append(resp.body.as_str());
            if !ends_with_newline(resp.body.as_str()) {
                out.append("\n");
            }
        },
    }
    assert(out@ =~= above + body_block(resp@.body, opt_string_view(layout)));
    out.append("\n");
    out.append(color);
    push_decimal(&mut out, resp.status as u128);
    out.append(" ");
    out.append(resp.status_text.as_str());
    out.append(" \u{b7} ");
    push_decimal(&mut out, byte_length_of(resp.body.as_str()));
    out.append(" bytes \u{b7} ");
    assert(out@ =~= report_head(*palette, req@, resp@, opt_string_view(layout)));
    let elapsed = format_nanos(elapsed_nanos);
    out.append(elapsed.as_str());
    out.append(palette.reset);
    out.append("\n");
    assert(out@ =~= report(
        *palette,
        req@,
        resp@,
        opt_string_view(layout),
        duration_text(elapsed_nanos as nat),
    ));
    out
}

/// The report of one exchange in ANSI colours: the request line, the status
/// line, the response headers, the body, laid out again where it is JSON, and
/// a summary with the time that the exchange took.
pub fn render_response(resp: &Response, req: &RequestBlock, elapsed: Duration) -> (out: String)
    ensures
        out@ == report(
            Palette::ansi_codes(),
            req@,
            resp@,
            reindented(resp@.body),
            duration_text(duration_nanos(elapsed)),
        ),
{
    let layout = reindent(resp.body.as_str());
    render_report(&Palette::ansi(), req, resp, layout, elapsed.as_nanos())
}

/// A body that is shown as it came ends in a line feed, and is shown
/// unchanged where it already ended in one.
pub proof fn lemma_raw_body_ends_in_line_feed(body: Seq<char>)
    ensures
        body_block(body, None).len() > 0,
        body_block(body, None).last() == '\n',
        body.len() > 0 && body.last() == '\n' ==> body_block(body, None) == body,
        !(body.len() > 0 && body.last() == '\n') ==> body_block(body, None) == body.push('\n'),
{
    reveal_strlit("\n");
    assert("\n"@ =~= seq!['\n']);
    assert(body + seq!['\n'] =~= body.push('\n'));
}

/// Two reports of the same exchange differ in nothing but the text of the
/// duration: what stands before it and what stands behind it depend on the
/// palette, the request and the response alone.
pub proof fn lemma_report_differs_in_duration_only(
    p: Palette,
    req: Request,
    resp: ResponseView,
    layout: Option<Seq<char>>,
    first: Seq<char>,
    second: Seq<char>,
)
    ensures
        report(p, req, resp, layout, first) == report_head(p, req, resp, layout) + first
            + report_tail(p),
        report(p, req, resp, layout, second) == report_head(p, req, resp, layout) + second
            + report_tail(p),
        first == second ==> report(p, req, resp, layout, first) == report(
            p,
            req,
            resp,
            layout,
            second,
        ),
{
}

/// Rendering is a function of the values of its inputs: requests of equal
/// value, responses of equal value and equal durations give the same report,
/// character for character.
pub proof fn lemma_render_is_a_function(
    req_a: RequestBlock,
    req_b: RequestBlock,
    resp_a: Response,
    resp_b: Response,
    elapsed: Duration,
    out_a: Seq<char>,
    out_b: Seq<char>,
)
    requires
        req_a@ == req_b@,
        resp_a@ == resp_b@,
        out_a == report(
            Palette::ansi_codes(),
            req_a@,
            resp_a@,
            reindented(resp_a@.body),
            duration_text(duration_nanos(elapsed)),
        ),
        out_b == report(
            Palette::ansi_codes(),
            req_b@,
            resp_b@,
            reindented(resp_b@.body),
            duration_text(duration_nanos(elapsed)),
        ),
    ensures
        out_a == out_b,
{
}

} // verus!
