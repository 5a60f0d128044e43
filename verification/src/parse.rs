//! The request parser: a three-phase scan over the lines of one block that
//! yields the request it describes.

use vstd::prelude::*;
use crate::error::RunError;
use crate::text::{
    chars_of, join_lines, join_range, lemma_position_found, lemma_trim_edges, lines, lines_of,
    position, position_of, slice_of, text_of, trim, trim_chars, views,
};
use vstd::string::StringExecFns;

verus! {

/// One request, as parsed from a block.
#[derive(Debug)]
pub struct RequestBlock {
    /// The label from a leading `### <text>` comment, if there is one.
    pub name: Option<String>,
    /// The HTTP method.
    pub method: String,
    /// The target URL.
    pub url: String,
    /// The third token of the request line, if there is one.
    pub http_version: Option<String>,
    /// The headers in the order in which they were written; a name may recur.
    pub headers: Vec<(String, String)>,
    /// The text that follows the blank line after the headers, if any.
    pub body: Option<String>,
}

/// The mathematical value of a request.
pub struct Request {
    pub name: Option<Seq<char>>,
    pub method: Seq<char>,
    pub url: Seq<char>,
    pub http_version: Option<Seq<char>>,
    pub headers: Seq<(Seq<char>, Seq<char>)>,
    pub body: Option<Seq<char>>,
}

/// The characters of an optional text.
pub open spec fn opt_string_view(o: Option<String>) -> Option<Seq<char>> {
    match o {
        Some(s) => Some(s@),
        None => None,
    }
}

/// The pairs of `hs`, each text by its characters.
pub open spec fn header_views(hs: Seq<(String, String)>) -> Seq<(Seq<char>, Seq<char>)> {
    hs.map_values(|h: (String, String)| (h.0@, h.1@))
}

impl View for RequestBlock {
    type V = Request;

    open spec fn view(&self) -> Request {
        Request {
            name: opt_string_view(self.name),
            method: self.method@,
            url: self.url@,
            http_version: opt_string_view(self.http_version),
            headers: header_views(self.headers@),
            body: opt_string_view(self.body),
        }
    }
}

impl RequestBlock {
    /// What holds of every parsed request: it has a method and a URL.
    pub open spec fn wf(&self) -> bool {
        self.method@.len() > 0 && self.url@.len() > 0
    }
}

/// Where the scan stands.
#[derive(Clone, Copy, Debug, PartialEq, Eq, Structural)]
pub enum Phase {
    /// Before the request line.
    Preamble,
    /// Behind the request line, reading headers.
    Headers,
    /// Behind the blank line that ends the headers, reading the body.
    Body,
}

/// What the scan has gathered so far.
pub struct Scan {
    pub phase: Phase,
    pub name: Option<Seq<char>>,
    pub method: Seq<char>,
    pub url: Seq<char>,
    pub http_version: Option<Seq<char>>,
    pub headers: Seq<(Seq<char>, Seq<char>)>,
    pub body: Seq<Seq<char>>,
}

/// The scan before the first line.
pub open spec fn initial() -> Scan {
    Scan {
        phase: Phase::Preamble,
        name: None,
        method: Seq::empty(),
        url: Seq::empty(),
        http_version: None,
        headers: Seq::empty(),
        body: Seq::empty(),
    }
}

/// Whether the trimmed line `t` is a comment: it begins with `#` or `//`.
pub open spec fn is_comment(t: Seq<char>) -> bool {
    (t.len() >= 1 && t[0] == '#') || (t.len() >= 2 && t[0] == '/' && t[1] == '/')
}

/// Whether the trimmed line `t` begins with exactly three `#`.
pub open spec fn has_name_mark(t: Seq<char>) -> bool {
    t.len() >= 3 && t[0] == '#' && t[1] == '#' && t[2] == '#' && (t.len() == 3 || t[3] != '#')
}

/// The name that the comment `t` gives: what follows its three `#`, trimmed,
/// unless that is empty.
pub open spec fn comment_name(t: Seq<char>) -> Option<Seq<char>> {
    if has_name_mark(t) && trim(t.skip(3)).len() > 0 {
        Some(trim(t.skip(3)))
    } else {
        None
    }
}

/// The scan after the trimmed line `t` was read as a request line. The line
/// is cut at its first space and what follows at its first space again; a
/// line without a space is passed over.
pub open spec fn read_request_line(st: Scan, t: Seq<char>) -> Scan {
    let i = position(t, ' ') as int;
    if i >= t.len() {
        st
    } else {
        let rest = t.skip(i + 1);
        let j = position(rest, ' ') as int;
        if j >= rest.len() {
            Scan { phase: Phase::Headers, method: t.take(i), url: rest, http_version: None, ..st }
        } else {
            Scan {
                phase: Phase::Headers,
                method: t.take(i),
                url: rest.take(j),
                http_version: Some(rest.skip(j + 1)),
                ..st
            }
        }
    }
}

/// The scan after the trimmed line `t` was read as a header. The line is cut
/// at its first colon and both sides are trimmed; a line without a colon is
/// passed over.
pub open spec fn read_header_line(st: Scan, t: Seq<char>) -> Scan {
    let i = position(t, ':') as int;
    if i >= t.len() {
        st
    } else {
        Scan { headers: st.headers.push((trim(t.take(i)), trim(t.skip(i + 1)))), ..st }
    }
}

/// The scan after one more line. A blank line ends the headers, is kept
/// inside the body, and is passed over before the request line. A comment is
/// never content; the first one that gives a name sets it. Any other line is
/// read according to the phase.
pub open spec fn step(st: Scan, line: Seq<char>) -> Scan {
    let t = trim(line);
    if t.len() == 0 {
        match st.phase {
            Phase::Preamble => st,
            Phase::Headers => Scan { phase: Phase::Body, ..st },
            Phase::Body => Scan { body: st.body.push(line), ..st },
        }
    } else if is_comment(t) {
        if st.name is None {
            Scan { name: comment_name(t), ..st }
        } else {
            st
        }
    } else {
        match st.phase {
            Phase::Preamble => read_request_line(st, t),
            Phase::Headers => read_header_line(st, t),
            Phase::Body => Scan { body: st.body.push(line), ..st },
        }
    }
}

/// The scan after all of `ls`, read in order.
pub open spec fn scan(ls: Seq<Seq<char>>) -> Scan
    decreases ls.len(),
{
    if ls.len() == 0 {
        initial()
    } else {
        step(scan(ls.drop_last()), ls.last())
    }
}

/// The request that a finished scan describes, or `None` where it lacks a
/// method or a URL.
pub open spec fn finish(st: Scan) -> Option<Request> {
    if st.method.len() == 0 || st.url.len() == 0 {
        None
    } else {
        Some(
            Request {
                name: st.name,
                method: st.method,
                url: st.url,
                http_version: st.http_version,
                headers: st.headers,
                body: if st.body.len() == 0 {
                    None
                } else {
                    Some(join_lines(st.body))
                },
            },
        )
    }
}

/// The request that `text` describes, or `None` where it describes none.
pub open spec fn parsed(text: Seq<char>) -> Option<Request> {
    finish(scan(lines(text)))
}

/// The reason given when a block holds no request line.
pub open spec fn no_request_reason() -> Seq<char> {
    "no METHOD URL found"@
}

/// Whether `line` can serve as a request line: it is neither blank nor a
/// comment and holds a space between two of its characters.
pub open spec fn is_request_line(line: Seq<char>) -> bool {
    let t = trim(line);
    t.len() > 0 && !is_comment(t) && position(t, ' ') < t.len()
}

/// Over lines none of which can serve as a request line the scan never
/// leaves the preamble, and finds no request.
pub proof fn lemma_no_request_line(ls: Seq<Seq<char>>)
    requires
        forall|i: int| 0 <= i < ls.len() ==> !is_request_line(#[trigger] ls[i]),
    ensures
        scan(ls).phase == Phase::Preamble,
        scan(ls).method.len() == 0,
        finish(scan(ls)) is None,
    decreases ls.len(),
{
    if ls.len() > 0 {
        let front = ls.drop_last();
        assert forall|i: int| 0 <= i < front.len() implies !is_request_line(
            #[trigger] front[i],
        ) by {
            assert(front[i] == ls[i]);
        }
        lemma_no_request_line(front);
        assert(!is_request_line(ls[ls.len() - 1]));
    }
}

/// A text none of whose lines can serve as a request line describes no
/// request.
pub proof fn lemma_text_without_request_line_fails(text: Seq<char>)
    requires
        forall|i: int| 0 <= i < lines(text).len() ==> !is_request_line(#[trigger] lines(text)[i]),
    ensures
        parsed(text) is None,
{
    lemma_no_request_line(lines(text));
}

/// The empty text describes no request.
pub proof fn lemma_empty_text_fails()
    ensures
        parsed(Seq::empty()) is None,
{
    assert(lines(Seq::<char>::empty()) =~= Seq::<Seq<char>>::empty());
}

/// Once the request line is read, the method is never empty: a trimmed line
/// does not begin with a space.
pub proof fn lemma_method_present(ls: Seq<Seq<char>>)
    ensures
        scan(ls).phase != Phase::Preamble ==> scan(ls).method.len() > 0,
        scan(ls).phase == Phase::Preamble ==> scan(ls).method.len() == 0 && scan(ls).url.len() == 0
            && scan(ls).headers.len() == 0 && scan(ls).body.len() == 0,
    decreases ls.len(),
{
    if ls.len() > 0 {
        let before = scan(ls.drop_last());
        lemma_method_present(ls.drop_last());
        let t = trim(ls.last());
        lemma_trim_edges(ls.last());
        if t.len() > 0 && !is_comment(t) && before.phase == Phase::Preamble {
            lemma_position_found(t, ' ');
            if position(t, ' ') < t.len() {
                assert(t[0] != ' ');
                assert(position(t, ' ') > 0);
            }
        }
    }
}

/// The texts gathered while scanning, in executable form.
struct Progress {
    phase: Phase,
    name: Option<Vec<char>>,
    method: Vec<char>,
    url: Vec<char>,
    http_version: Option<Vec<char>>,
    headers: Vec<(Vec<char>, Vec<char>)>,
    body: Vec<Vec<char>>,
}

/// The characters of an optional row.
pub open spec fn opt_row_view(o: Option<Vec<char>>) -> Option<Seq<char>> {
    match o {
        Some(v) => Some(v@),
        None => None,
    }
}

/// The pairs of `hs`, each row by its characters.
pub open spec fn pair_views(hs: Seq<(Vec<char>, Vec<char>)>) -> Seq<(Seq<char>, Seq<char>)> {
    hs.map_values(|h: (Vec<char>, Vec<char>)| (h.0@, h.1@))
}

impl View for Progress {
    type V = Scan;

    closed spec fn view(&self) -> Scan {
        Scan {
            phase: self.phase,
            name: opt_row_view(self.name),
            method: self.method@,
            url: self.url@,
            http_version: opt_row_view(self.http_version),
            headers: pair_views(self.headers@),
            body: views(self.body@),
        }
    }
}

/// Whether the trimmed line `t` is a comment.
fn is_comment_line(t: &Vec<char>) -> (b: bool)
    ensures
        b == is_comment(t@),
{
    (t.len() >= 1 && t[0] == '#') || (t.len() >= 2 && t[0] == '/' && t[1] == '/')
}

/// The name that the comment `t` gives, if it gives one.
fn name_of_comment(t: &Vec<char>) -> (r: Option<Vec<char>>)
    ensures
        opt_row_view(r) == comment_name(t@),
{
    if t.len() >= 3 && t[0] == '#' && t[1] == '#' && t[2] == '#' && (t.len() == 3 || t[3] != '#') {
        let rest = slice_of(t, 3, t.len());
        assert(rest@ =~= t@.skip(3));
        let text = trim_chars(&rest);
        if text.len() > 0 {
            Some(text)
        } else {
            None
        }
    } else {
        None
    }
}

/// Reads the trimmed line `t` as a request line.
fn request_line(st: Progress, t: &Vec<char>) -> (r: Progress)
    ensures
        r@ == read_request_line(st@, t@),
{
    let i = position_of(t, ' ');
    if i >= t.len() {
        st
    } else {
        let method = slice_of(t, 0, i);
        let rest = slice_of(t, i + 1, t.len());
        assert(method@ =~= t@.take(i as int));
        assert(rest@ =~= t@.skip(i + 1));
        let j = position_of(&rest, ' ');
        if j >= rest.len() {
            Progress { phase: Phase::Headers, method, url: rest, http_version: None, ..st }
        } else {
            let url = slice_of(&rest, 0, j);
            let version = slice_of(&rest, j + 1, rest.len());
            assert(url@ =~= rest@.take(j as int));
            assert(version@ =~= rest@.skip(j + 1));
            Progress { phase: Phase::Headers, method, url, http_version: Some(version), ..st }
        }
    }
}

/// Reads the trimmed line `t` as a header.
fn header_line(st: Progress, t: &Vec<char>) -> (r: Progress)
    ensures
        r@ == read_header_line(st@, t@),
{
    let i = position_of(t, ':');
    if i >= t.len() {
        st
    } else {
        let left = slice_of(t, 0, i);
        let right = slice_of(t, i + 1, t.len());
        assert(left@ =~= t@.take(i as int));
        assert(right@ =~= t@.skip(i + 1));
        let key = trim_chars(&left);
        let value = trim_chars(&right);
        let mut st = st;
        let ghost before = pair_views(st.headers@);
        st.headers.push((key, value));
        assert(pair_views(st.headers@) =~= before.push((key@, value@)));
        st
    }
}

/// Adds `line` to the body as it stands.
fn body_line(st: Progress, line: &Vec<char>) -> (r: Progress)
    ensures
        r@ == (Scan { body: st@.body.push(line@), ..st@ }),
{
    let mut st = st;
    let ghost before = views(st.body@);
    let copy = slice_of(line, 0, line.len());
    assert(copy@ =~= line@);
    st.body.push(copy);
    assert(views(st.body@) =~= before.push(line@));
    st
}

/// Reads one more line.
fn advance(st: Progress, line: &Vec<char>) -> (r: Progress)
    ensures
        r@ == step(st@, line@),
{
    let t = trim_chars(line);
    if t.len() == 0 {
        match st.phase {
            Phase::Preamble => st,
            Phase::Headers => Progress { phase: Phase::Body, ..st },
            Phase::Body => body_line(st, line),
        }
    } else if is_comment_line(&t) {
        if st.name.is_none() {
            Progress { name: name_of_comment(&t), ..st }
        } else {
            st
        }
    } else {
        match st.phase {
            Phase::Preamble => request_line(st, &t),
            Phase::Headers => header_line(st, &t),
            Phase::Body => body_line(st, line),
        }
    }
}

/// An optional row as an optional text.
fn opt_text_of(o: &Option<Vec<char>>) -> (r: Option<String>)
    ensures
        opt_string_view(r) == opt_row_view(*o),
{
    match o {
        Some(v) => Some(text_of(v)),
        None => None,
    }
}

/// Pairs of rows as pairs of texts.
fn headers_of(hs: &Vec<(Vec<char>, Vec<char>)>) -> (r: Vec<(String, String)>)
    ensures
        header_views(r@) == pair_views(hs@),
{
    let mut r: Vec<(String, String)> = Vec::new();
    let mut i: usize = 0;
    while i < hs.len()
        invariant
            i <= hs.len(),
            header_views(r@) == pair_views(hs@.take(i as int)),
        decreases hs.len() - i,
    {
        let ghost before = header_views(r@);
        let key = text_of(&hs[i].0);
        let value = text_of(&hs[i].1);
        r.push((key, value));
        proof {
            assert(header_views(r@) =~= before.push((key@, value@)));
            assert(pair_views(hs@.take(i + 1)) =~= pair_views(hs@.take(i as int)).push(
                (hs@[i as int].0@, hs@[i as int].1@),
            ));
        }
        i += 1;
    }
    assert(hs@.take(i as int) =~= hs@);
    r
}

/// The request that the block `block` describes. A block without a request
/// line, or with an empty URL on it, is no request.
pub fn parse_request(block: &str) -> (r: Result<RequestBlock, RunError>)
    ensures
        match r {
            Ok(req) => parsed(block@) == Some(req@) && req.wf(),
            Err(e) => parsed(block@) is None && (e matches RunError::ParseFailed(reason)
                && reason@ == no_request_reason()),
        },
{
    let chars = chars_of(block);
    let ls = lines_of(&chars);
    let ghost all = views(ls@);
    let mut st = Progress {
        phase: Phase::Preamble,
        name: None,
        method: Vec::new(),
        url: Vec::new(),
        http_version: None,
        headers: Vec::new(),
        body: Vec::new(),
    };
    assert(st@ =~= initial()) by {
        assert(pair_views(st.headers@) =~= Seq::<(Seq<char>, Seq<char>)>::empty());
        assert(views(st.body@) =~= Seq::<Seq<char>>::empty());
    }
    let mut i: usize = 0;
    assert(all.take(0) =~= Seq::<Seq<char>>::empty());
    while i < ls.len()
        invariant
            i <= ls.len(),
            all == views(ls@),
            st@ == scan(all.take(i as int)),
        decreases ls.len() - i,
    {
        st = advance(st, &ls[i]);
        proof {
            assert(all.take(i + 1).drop_last() =~= all.take(i as int));
            assert(all.take(i + 1).last() == ls@[i as int]@);
        }
        i += 1;
    }
    assert(all.take(i as int) =~= all);
    if st.method.len() == 0 || st.url.len() == 0 {
        return Err(RunError::ParseFailed(String::from_str("no METHOD URL found")));
    }
    let body = if st.body.len() == 0 {
        None
    } else {
        let joined = join_range(&st.body, 0, st.body.len());
        assert(views(st.body@).subrange(0, st.body.len() as int) =~= views(st.body@));
        Some(text_of(&joined))
    };
    let req = RequestBlock {
        name: opt_text_of(&st.name),
        method: text_of(&st.method),
        url: text_of(&st.url),
        http_version: opt_text_of(&st.http_version),
        headers: headers_of(&st.headers),
        body,
    };
    Ok(req)
}

} // verus!
